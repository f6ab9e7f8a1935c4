use chip8::instruction::arthimetic::{ArthimeticInstruction, ArthimeticOp, ArthimeticValue};
use chip8::instruction::branch::{BranchInstruction, BranchTarget, BranchType};
use chip8::instruction::load::{LoadInstruction, LoadTarget};
use chip8::instruction::logical::{LogicalInstruction, LogicalOp};
use chip8::instruction::Instruction;
use chip8::vm::VmMode;

#[test]
fn decode_clear() {
    assert_eq!(
        Instruction::parse(0x00E0, VmMode::Chip8),
        Some(Instruction::Clear)
    );
}

#[test]
fn decode_return() {
    assert_eq!(
        Instruction::parse(0x00EE, VmMode::Chip8),
        Some(Instruction::Return)
    );
}

#[test]
fn decode_sys() {
    assert_eq!(
        Instruction::parse(0x0123, VmMode::Chip8),
        Some(Instruction::Sys)
    );
    assert_eq!(
        Instruction::parse(0x0000, VmMode::Chip8),
        Some(Instruction::Sys)
    );
}

#[test]
fn decode_high_resolution_gated_by_dialect() {
    assert_eq!(Instruction::parse(0x00FE, VmMode::Chip8), None);
    assert_eq!(Instruction::parse(0x00FF, VmMode::Chip8), None);
    assert_eq!(Instruction::parse(0x00FE, VmMode::Chip48), None);
    assert_eq!(Instruction::parse(0x00FF, VmMode::Chip48), None);
    assert_eq!(
        Instruction::parse(0x00FE, VmMode::SuperChip),
        Some(Instruction::SetHighResolution(false))
    );
    assert_eq!(
        Instruction::parse(0x00FF, VmMode::SuperChip),
        Some(Instruction::SetHighResolution(true))
    );
}

#[test]
fn decode_jump() {
    assert_eq!(
        Instruction::parse(0x1ABC, VmMode::Chip8),
        Some(Instruction::Branch(BranchInstruction {
            branch_type: BranchType::Unconditional,
            branch_target: BranchTarget::Address(0xABC),
            inverted: false,
        }))
    );
}

#[test]
fn decode_call() {
    assert_eq!(
        Instruction::parse(0x2ABC, VmMode::Chip8),
        Some(Instruction::Branch(BranchInstruction {
            branch_type: BranchType::Call,
            branch_target: BranchTarget::Address(0xABC),
            inverted: false,
        }))
    );
}

#[test]
fn decode_skip_equal_immediate() {
    assert_eq!(
        Instruction::parse(0x3A42, VmMode::Chip8),
        Some(Instruction::Branch(BranchInstruction {
            branch_type: BranchType::Equal {
                register: 0xA,
                value: 0x42,
            },
            branch_target: BranchTarget::Skip,
            inverted: false,
        }))
    );
    assert_eq!(
        Instruction::parse(0x4A42, VmMode::Chip8),
        Some(Instruction::Branch(BranchInstruction {
            branch_type: BranchType::Equal {
                register: 0xA,
                value: 0x42,
            },
            branch_target: BranchTarget::Skip,
            inverted: true,
        }))
    );
}

#[test]
fn decode_skip_equal_register() {
    assert_eq!(
        Instruction::parse(0x5AB0, VmMode::Chip8),
        Some(Instruction::Branch(BranchInstruction {
            branch_type: BranchType::EqualRegister {
                register_a: 0xA,
                register_b: 0xB,
            },
            branch_target: BranchTarget::Skip,
            inverted: false,
        }))
    );
    assert_eq!(
        Instruction::parse(0x9AB0, VmMode::Chip8),
        Some(Instruction::Branch(BranchInstruction {
            branch_type: BranchType::EqualRegister {
                register_a: 0xA,
                register_b: 0xB,
            },
            branch_target: BranchTarget::Skip,
            inverted: true,
        }))
    );
}

#[test]
fn decode_load_immediate() {
    assert_eq!(
        Instruction::parse(0x6A05, VmMode::Chip8),
        Some(Instruction::Load(LoadInstruction {
            from: LoadTarget::Value(0x05),
            into: LoadTarget::Register(0xA),
        }))
    );
}

#[test]
fn decode_add_immediate_without_carry_flag() {
    assert_eq!(
        Instruction::parse(0x7A02, VmMode::Chip8),
        Some(Instruction::Arthimetic(ArthimeticInstruction {
            op: ArthimeticOp::Add,
            values: ArthimeticValue::RegisterValue(0xA, 0x02),
            carry_flag: false,
            inverted: false,
        }))
    );
}

#[test]
fn decode_register_copy() {
    // 8XY0 copies VY into VX.
    assert_eq!(
        Instruction::parse(0x8AB0, VmMode::Chip8),
        Some(Instruction::Load(LoadInstruction {
            from: LoadTarget::Register(0xB),
            into: LoadTarget::Register(0xA),
        }))
    );
}

#[test]
fn decode_logical() {
    assert_eq!(
        Instruction::parse(0x8AB1, VmMode::Chip8),
        Some(Instruction::Logical(LogicalInstruction {
            op: LogicalOp::Or,
            register_a: 0xA,
            register_b: 0xB,
        }))
    );
    assert_eq!(
        Instruction::parse(0x8AB2, VmMode::Chip8),
        Some(Instruction::Logical(LogicalInstruction {
            op: LogicalOp::And,
            register_a: 0xA,
            register_b: 0xB,
        }))
    );
    assert_eq!(
        Instruction::parse(0x8AB3, VmMode::Chip8),
        Some(Instruction::Logical(LogicalInstruction {
            op: LogicalOp::Xor,
            register_a: 0xA,
            register_b: 0xB,
        }))
    );
}

#[test]
fn decode_arithmetic_register_register() {
    assert_eq!(
        Instruction::parse(0x8AB4, VmMode::Chip8),
        Some(Instruction::Arthimetic(ArthimeticInstruction {
            op: ArthimeticOp::Add,
            values: ArthimeticValue::RegisterRegister(0xA, 0xB),
            carry_flag: true,
            inverted: false,
        }))
    );
    assert_eq!(
        Instruction::parse(0x8AB5, VmMode::Chip8),
        Some(Instruction::Arthimetic(ArthimeticInstruction {
            op: ArthimeticOp::Sub,
            values: ArthimeticValue::RegisterRegister(0xA, 0xB),
            carry_flag: true,
            inverted: false,
        }))
    );
    assert_eq!(
        Instruction::parse(0x8AB7, VmMode::Chip8),
        Some(Instruction::Arthimetic(ArthimeticInstruction {
            op: ArthimeticOp::Sub,
            values: ArthimeticValue::RegisterRegister(0xA, 0xB),
            carry_flag: true,
            inverted: true,
        }))
    );
}

#[test]
fn decode_shift_quirks() {
    assert_eq!(
        Instruction::parse(0x8AB6, VmMode::Chip8),
        Some(Instruction::Arthimetic(ArthimeticInstruction {
            op: ArthimeticOp::ShrOld,
            values: ArthimeticValue::RegisterRegister(0xA, 0xB),
            carry_flag: false,
            inverted: false,
        }))
    );
    assert_eq!(
        Instruction::parse(0x8AB6, VmMode::Chip48),
        Some(Instruction::Arthimetic(ArthimeticInstruction {
            op: ArthimeticOp::Shr,
            values: ArthimeticValue::Register(0xA),
            carry_flag: false,
            inverted: false,
        }))
    );
    assert_eq!(
        Instruction::parse(0x8ABE, VmMode::Chip8),
        Some(Instruction::Arthimetic(ArthimeticInstruction {
            op: ArthimeticOp::ShlOld,
            values: ArthimeticValue::RegisterRegister(0xA, 0xB),
            carry_flag: false,
            inverted: false,
        }))
    );
    assert_eq!(
        Instruction::parse(0x8ABE, VmMode::SuperChip),
        Some(Instruction::Arthimetic(ArthimeticInstruction {
            op: ArthimeticOp::Shl,
            values: ArthimeticValue::Register(0xA),
            carry_flag: false,
            inverted: false,
        }))
    );
}

#[test]
fn decode_load_index() {
    assert_eq!(
        Instruction::parse(0xAABC, VmMode::Chip8),
        Some(Instruction::Load(LoadInstruction {
            from: LoadTarget::Address(0xABC),
            into: LoadTarget::I,
        }))
    );
}

#[test]
fn decode_jump_offset_quirk() {
    assert_eq!(
        Instruction::parse(0xBABC, VmMode::Chip8),
        Some(Instruction::Branch(BranchInstruction {
            branch_type: BranchType::Unconditional,
            branch_target: BranchTarget::Address(0xABC),
            inverted: false,
        }))
    );
    assert_eq!(
        Instruction::parse(0xBABC, VmMode::Chip48),
        Some(Instruction::Branch(BranchInstruction {
            branch_type: BranchType::Unconditional,
            branch_target: BranchTarget::AddressOffset(0xABC, 0xA),
            inverted: false,
        }))
    );
}

#[test]
fn decode_random() {
    assert_eq!(
        Instruction::parse(0xCA0F, VmMode::Chip8),
        Some(Instruction::Random(0xA, 0x0F))
    );
}

#[test]
fn decode_draw() {
    assert_eq!(
        Instruction::parse(0xDAB5, VmMode::Chip8),
        Some(Instruction::Draw(0xA, 0xB, 5))
    );
}

#[test]
fn decode_key_branches() {
    assert_eq!(
        Instruction::parse(0xEA9E, VmMode::Chip8),
        Some(Instruction::Branch(BranchInstruction {
            branch_type: BranchType::KeyPressed { register: 0xA },
            branch_target: BranchTarget::Skip,
            inverted: false,
        }))
    );
    assert_eq!(
        Instruction::parse(0xEAA1, VmMode::Chip8),
        Some(Instruction::Branch(BranchInstruction {
            branch_type: BranchType::KeyPressed { register: 0xA },
            branch_target: BranchTarget::Skip,
            inverted: true,
        }))
    );
}

#[test]
fn decode_timer_and_key_loads() {
    assert_eq!(
        Instruction::parse(0xFA07, VmMode::Chip8),
        Some(Instruction::Load(LoadInstruction {
            from: LoadTarget::DelayTimer,
            into: LoadTarget::Register(0xA),
        }))
    );
    assert_eq!(
        Instruction::parse(0xFA0A, VmMode::Chip8),
        Some(Instruction::LoadKey(0xA))
    );
    assert_eq!(
        Instruction::parse(0xFA15, VmMode::Chip8),
        Some(Instruction::Load(LoadInstruction {
            from: LoadTarget::Register(0xA),
            into: LoadTarget::DelayTimer,
        }))
    );
    assert_eq!(
        Instruction::parse(0xFA18, VmMode::Chip8),
        Some(Instruction::Load(LoadInstruction {
            from: LoadTarget::Register(0xA),
            into: LoadTarget::SoundTimer,
        }))
    );
    assert_eq!(
        Instruction::parse(0xFA1E, VmMode::Chip8),
        Some(Instruction::AddI(0xA))
    );
    assert_eq!(
        Instruction::parse(0xF529, VmMode::Chip8),
        Some(Instruction::Load(LoadInstruction {
            from: LoadTarget::Font(0x5),
            into: LoadTarget::I,
        }))
    );
    assert_eq!(
        Instruction::parse(0xFA33, VmMode::Chip8),
        Some(Instruction::Load(LoadInstruction {
            from: LoadTarget::Register(0xA),
            into: LoadTarget::Bcd,
        }))
    );
}

#[test]
fn decode_block_transfer_quirks() {
    assert_eq!(
        Instruction::parse(0xFA55, VmMode::Chip8),
        Some(Instruction::Load(LoadInstruction {
            from: LoadTarget::Register(0xA),
            into: LoadTarget::I,
        }))
    );
    assert_eq!(
        Instruction::parse(0xFA55, VmMode::Chip48),
        Some(Instruction::Load(LoadInstruction {
            from: LoadTarget::Register(0xA),
            into: LoadTarget::IChip48,
        }))
    );
    assert_eq!(
        Instruction::parse(0xFA65, VmMode::Chip8),
        Some(Instruction::Load(LoadInstruction {
            from: LoadTarget::I,
            into: LoadTarget::Register(0xA),
        }))
    );
    assert_eq!(
        Instruction::parse(0xFA65, VmMode::SuperChip),
        Some(Instruction::Load(LoadInstruction {
            from: LoadTarget::IChip48,
            into: LoadTarget::Register(0xA),
        }))
    );
}

#[test]
fn decode_rpl_gated_by_dialect() {
    assert_eq!(Instruction::parse(0xF475, VmMode::Chip8), None);
    assert_eq!(Instruction::parse(0xF475, VmMode::Chip48), None);
    assert_eq!(
        Instruction::parse(0xF475, VmMode::SuperChip),
        Some(Instruction::Load(LoadInstruction {
            from: LoadTarget::Register(0x4),
            into: LoadTarget::Rpl,
        }))
    );
    assert_eq!(
        Instruction::parse(0xF485, VmMode::SuperChip),
        Some(Instruction::Load(LoadInstruction {
            from: LoadTarget::Rpl,
            into: LoadTarget::Register(0x4),
        }))
    );
}

#[test]
fn decode_unrecognized_patterns() {
    assert_eq!(Instruction::parse(0x8AB8, VmMode::Chip8), None);
    assert_eq!(Instruction::parse(0xEAFF, VmMode::Chip8), None);
    assert_eq!(Instruction::parse(0xFAFF, VmMode::Chip8), None);
    assert_eq!(Instruction::parse(0xE000, VmMode::Chip8), None);
}

#[test]
fn decode_is_deterministic() {
    let opcodes: [u16; 8] = [0x00E0, 0x1ABC, 0x6A05, 0x8AB6, 0xBABC, 0xDAB5, 0xFA55, 0xFFFF];
    let modes: [VmMode; 3] = [VmMode::Chip8, VmMode::Chip48, VmMode::SuperChip];
    for opcode in opcodes {
        for mode in modes {
            assert_eq!(
                Instruction::parse(opcode, mode),
                Instruction::parse(opcode, mode)
            );
        }
    }
}

#[test]
fn branch_instruction_new() {
    let b = BranchInstruction::new(
        BranchType::Unconditional,
        BranchTarget::Address(0x300),
        false,
    );
    assert_eq!(b.branch_type, BranchType::Unconditional);
    assert_eq!(b.branch_target, BranchTarget::Address(0x300));
    assert!(!b.inverted);
}

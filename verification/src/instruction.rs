use vstd::prelude::*;

use crate::vm::VmMode;

pub mod arthimetic;
pub mod branch;
pub mod draw;
pub mod load;
pub mod logical;

verus! {

/// A CHIP-8 memory address.
pub type Address = u16;

/// A CHIP-8 register index.
pub type Register = u8;

/// A CHIP-8 value.
pub type Value = u8;

/// A single CHIP-8 instruction.
#[derive(Debug, Clone, Copy, PartialEq, Eq, Structural)]
pub enum Instruction {
    /// 0nnn - a call into native hardware; executing it is a fatal error.
    Sys,
    /// 00E0 - clear the display.
    Clear,
    /// 00EE - return from a call.
    Return,
    /// Cxkk - a random byte masked with kk, into register x.
    Random(Register, Value),
    /// Dxyn - draw an n-row sprite at the coordinates in registers x and y.
    Draw(Register, Register, Value),
    /// Fx0A - block until a key press and load its index into register x.
    LoadKey(Register),
    /// Fx1E - add register x into the index register.
    AddI(Register),
    /// 00FE/00FF - leave or enter high-resolution mode.
    SetHighResolution(bool),
    /// A loading instruction.
    Load(load::LoadInstruction),
    /// A branching instruction.
    Branch(branch::BranchInstruction),
    /// A logical operation.
    Logical(logical::LogicalInstruction),
    /// An arithmetic operation.
    Arthimetic(arthimetic::ArthimeticInstruction),
}

/// The second nibble of an opcode: the x register field.
pub open spec fn spec_op_x(op: u16) -> u8 {
    ((op >> 8) & 0xF) as u8
}

/// The third nibble of an opcode: the y register field.
pub open spec fn spec_op_y(op: u16) -> u8 {
    ((op >> 4) & 0xF) as u8
}

/// The low nibble of an opcode.
pub open spec fn spec_op_n(op: u16) -> u8 {
    (op & 0xF) as u8
}

/// The low byte of an opcode.
pub open spec fn spec_op_kk(op: u16) -> u8 {
    (op & 0xFF) as u8
}

/// The low twelve bits of an opcode: the address field.
pub open spec fn spec_op_nnn(op: u16) -> u16 {
    op & 0xFFF
}

/// Every operand field extracted from an opcode fits its role: register
/// fields and nibbles are below 16, and the address field is below 0x1000.
pub proof fn lemma_opcode_field_bounds(op: u16)
    ensures
        spec_op_x(op) < 16,
        spec_op_y(op) < 16,
        spec_op_n(op) < 16,
        spec_op_nnn(op) < 0x1000,
{
    assert((((op >> 8) & 0xF) as u8) < 16) by (bit_vector);
    assert((((op >> 4) & 0xF) as u8) < 16) by (bit_vector);
    assert(((op & 0xF) as u8) < 16) by (bit_vector);
    assert((op & 0xFFF) < 0x1000) by (bit_vector);
}

fn op_x(op: u16) -> (r: u8)
    ensures
        r == spec_op_x(op),
        r < 16,
{
    proof {
        lemma_opcode_field_bounds(op);
    }
    ((op >> 8) & 0xF) as u8
}

fn op_y(op: u16) -> (r: u8)
    ensures
        r == spec_op_y(op),
        r < 16,
{
    proof {
        lemma_opcode_field_bounds(op);
    }
    ((op >> 4) & 0xF) as u8
}

fn op_n(op: u16) -> (r: u8)
    ensures
        r == spec_op_n(op),
        r < 16,
{
    proof {
        lemma_opcode_field_bounds(op);
    }
    (op & 0xF) as u8
}

fn op_kk(op: u16) -> (r: u8)
    ensures
        r == spec_op_kk(op),
{
    (op & 0xFF) as u8
}

fn op_nnn(op: u16) -> (r: u16)
    ensures
        r == spec_op_nnn(op),
        r < 0x1000,
{
    proof {
        lemma_opcode_field_bounds(op);
    }
    op & 0xFFF
}

/// Operand bounds that hold of every instruction the decoder produces;
/// the execution engine relies on them.
pub open spec fn wf_instruction(i: Instruction) -> bool {
    match i {
        Instruction::Sys => true,
        Instruction::Clear => true,
        Instruction::Return => true,
        Instruction::Random(x, _) => x < 16,
        Instruction::Draw(x, y, n) => x < 16 && y < 16 && n < 16,
        Instruction::LoadKey(x) => x < 16,
        Instruction::AddI(x) => x < 16,
        Instruction::SetHighResolution(_) => true,
        Instruction::Load(l) => l.wf(),
        Instruction::Branch(b) => b.wf(),
        Instruction::Logical(l) => l.wf(),
        Instruction::Arthimetic(a) => a.wf(),
    }
}

/// What `Instruction::parse` returns: the decode table of the machine,
/// a pure function of the opcode and the dialect alone.
pub open spec fn spec_parse(op: u16, mode: VmMode) -> Option<Instruction> {
    let x = spec_op_x(op);
    let y = spec_op_y(op);
    let n = spec_op_n(op);
    let kk = spec_op_kk(op);
    let nnn = spec_op_nnn(op);
    let family = op & 0xF000;
    if family == 0x0000 {
        if kk == 0xE0 {
            Some(Instruction::Clear)
        } else if kk == 0xEE {
            Some(Instruction::Return)
        } else if kk == 0xFE {
            if mode == VmMode::SuperChip {
                Some(Instruction::SetHighResolution(false))
            } else {
                None
            }
        } else if kk == 0xFF {
            if mode == VmMode::SuperChip {
                Some(Instruction::SetHighResolution(true))
            } else {
                None
            }
        } else {
            Some(Instruction::Sys)
        }
    } else if family == 0x1000 {
        Some(Instruction::Branch(branch::BranchInstruction {
            branch_type: branch::BranchType::Unconditional,
            branch_target: branch::BranchTarget::Address(nnn),
            inverted: false,
        }))
    } else if family == 0x2000 {
        Some(Instruction::Branch(branch::BranchInstruction {
            branch_type: branch::BranchType::Call,
            branch_target: branch::BranchTarget::Address(nnn),
            inverted: false,
        }))
    } else if family == 0x3000 {
        Some(Instruction::Branch(branch::BranchInstruction {
            branch_type: branch::BranchType::Equal { register: x, value: kk },
            branch_target: branch::BranchTarget::Skip,
            inverted: false,
        }))
    } else if family == 0x4000 {
        Some(Instruction::Branch(branch::BranchInstruction {
            branch_type: branch::BranchType::Equal { register: x, value: kk },
            branch_target: branch::BranchTarget::Skip,
            inverted: true,
        }))
    } else if family == 0x5000 {
        Some(Instruction::Branch(branch::BranchInstruction {
            branch_type: branch::BranchType::EqualRegister {
                register_a: x,
                register_b: y,
            },
            branch_target: branch::BranchTarget::Skip,
            inverted: false,
        }))
    } else if family == 0x6000 {
        Some(Instruction::Load(load::LoadInstruction {
            from: load::LoadTarget::Value(kk),
            into: load::LoadTarget::Register(x),
        }))
    } else if family == 0x7000 {
        Some(Instruction::Arthimetic(arthimetic::ArthimeticInstruction {
            op: arthimetic::ArthimeticOp::Add,
            values: arthimetic::ArthimeticValue::RegisterValue(x, kk),
            carry_flag: false,
            inverted: false,
        }))
    } else if family == 0x8000 {
        if n == 0x0 {
            Some(Instruction::Load(load::LoadInstruction {
                from: load::LoadTarget::Register(y),
                into: load::LoadTarget::Register(x),
            }))
        } else if n == 0x1 {
            Some(Instruction::Logical(logical::LogicalInstruction {
                op: logical::LogicalOp::Or,
                register_a: x,
                register_b: y,
            }))
        } else if n == 0x2 {
            Some(Instruction::Logical(logical::LogicalInstruction {
                op: logical::LogicalOp::And,
                register_a: x,
                register_b: y,
            }))
        } else if n == 0x3 {
            Some(Instruction::Logical(logical::LogicalInstruction {
                op: logical::LogicalOp::Xor,
                register_a: x,
                register_b: y,
            }))
        } else if n == 0x4 {
            Some(Instruction::Arthimetic(arthimetic::ArthimeticInstruction {
                op: arthimetic::ArthimeticOp::Add,
                values: arthimetic::ArthimeticValue::RegisterRegister(x, y),
                carry_flag: true,
                inverted: false,
            }))
        } else if n == 0x5 {
            Some(Instruction::Arthimetic(arthimetic::ArthimeticInstruction {
                op: arthimetic::ArthimeticOp::Sub,
                values: arthimetic::ArthimeticValue::RegisterRegister(x, y),
                carry_flag: true,
                inverted: false,
            }))
        } else if n == 0x6 {
            if mode == VmMode::Chip8 {
                Some(Instruction::Arthimetic(arthimetic::ArthimeticInstruction {
                    op: arthimetic::ArthimeticOp::ShrOld,
                    values: arthimetic::ArthimeticValue::RegisterRegister(x, y),
                    carry_flag: false,
                    inverted: false,
                }))
            } else {
                Some(Instruction::Arthimetic(arthimetic::ArthimeticInstruction {
                    op: arthimetic::ArthimeticOp::Shr,
                    values: arthimetic::ArthimeticValue::Register(x),
                    carry_flag: false,
                    inverted: false,
                }))
            }
        } else if n == 0x7 {
            Some(Instruction::Arthimetic(arthimetic::ArthimeticInstruction {
                op: arthimetic::ArthimeticOp::Sub,
                values: arthimetic::ArthimeticValue::RegisterRegister(x, y),
                carry_flag: true,
                inverted: true,
            }))
        } else if n == 0xE {
            if mode == VmMode::Chip8 {
                Some(Instruction::Arthimetic(arthimetic::ArthimeticInstruction {
                    op: arthimetic::ArthimeticOp::ShlOld,
                    values: arthimetic::ArthimeticValue::RegisterRegister(x, y),
                    carry_flag: false,
                    inverted: false,
                }))
            } else {
                Some(Instruction::Arthimetic(arthimetic::ArthimeticInstruction {
                    op: arthimetic::ArthimeticOp::Shl,
                    values: arthimetic::ArthimeticValue::Register(x),
                    carry_flag: false,
                    inverted: false,
                }))
            }
        } else {
            None
        }
    } else if family == 0x9000 {
        Some(Instruction::Branch(branch::BranchInstruction {
            branch_type: branch::BranchType::EqualRegister {
                register_a: x,
                register_b: y,
            },
            branch_target: branch::BranchTarget::Skip,
            inverted: true,
        }))
    } else if family == 0xA000 {
        Some(Instruction::Load(load::LoadInstruction {
            from: load::LoadTarget::Address(nnn),
            into: load::LoadTarget::I,
        }))
    } else if family == 0xB000 {
        if mode == VmMode::Chip8 {
            Some(Instruction::Branch(branch::BranchInstruction {
                branch_type: branch::BranchType::Unconditional,
                branch_target: branch::BranchTarget::Address(nnn),
                inverted: false,
            }))
        } else {
            Some(Instruction::Branch(branch::BranchInstruction {
                branch_type: branch::BranchType::Unconditional,
                branch_target: branch::BranchTarget::AddressOffset(nnn, x),
                inverted: false,
            }))
        }
    } else if family == 0xC000 {
        Some(Instruction::Random(x, kk))
    } else if family == 0xD000 {
        Some(Instruction::Draw(x, y, n))
    } else if family == 0xE000 {
        if kk == 0x9E {
            Some(Instruction::Branch(branch::BranchInstruction {
                branch_type: branch::BranchType::KeyPressed { register: x },
                branch_target: branch::BranchTarget::Skip,
                inverted: false,
            }))
        } else if kk == 0xA1 {
            Some(Instruction::Branch(branch::BranchInstruction {
                branch_type: branch::BranchType::KeyPressed { register: x },
                branch_target: branch::BranchTarget::Skip,
                inverted: true,
            }))
        } else {
            None
        }
    } else if family == 0xF000 {
        if kk == 0x07 {
            Some(Instruction::Load(load::LoadInstruction {
                from: load::LoadTarget::DelayTimer,
                into: load::LoadTarget::Register(x),
            }))
        } else if kk == 0x0A {
            Some(Instruction::LoadKey(x))
        } else if kk == 0x15 {
            Some(Instruction::Load(load::LoadInstruction {
                from: load::LoadTarget::Register(x),
                into: load::LoadTarget::DelayTimer,
            }))
        } else if kk == 0x18 {
            Some(Instruction::Load(load::LoadInstruction {
                from: load::LoadTarget::Register(x),
                into: load::LoadTarget::SoundTimer,
            }))
        } else if kk == 0x1E {
            Some(Instruction::AddI(x))
        } else if kk == 0x29 {
            Some(Instruction::Load(load::LoadInstruction {
                from: load::LoadTarget::Font(x),
                into: load::LoadTarget::I,
            }))
        } else if kk == 0x33 {
            Some(Instruction::Load(load::LoadInstruction {
                from: load::LoadTarget::Register(x),
                into: load::LoadTarget::Bcd,
            }))
        } else if kk == 0x55 {
            Some(Instruction::Load(load::LoadInstruction {
                from: load::LoadTarget::Register(x),
                into: if mode != VmMode::Chip8 {
                    load::LoadTarget::IChip48
                } else {
                    load::LoadTarget::I
                },
            }))
        } else if kk == 0x65 {
            Some(Instruction::Load(load::LoadInstruction {
                from: if mode != VmMode::Chip8 {
                    load::LoadTarget::IChip48
                } else {
                    load::LoadTarget::I
                },
                into: load::LoadTarget::Register(x),
            }))
        } else if kk == 0x75 && mode == VmMode::SuperChip {
            Some(Instruction::Load(load::LoadInstruction {
                from: load::LoadTarget::Register(x),
                into: load::LoadTarget::Rpl,
            }))
        } else if kk == 0x85 && mode == VmMode::SuperChip {
            Some(Instruction::Load(load::LoadInstruction {
                from: load::LoadTarget::Rpl,
                into: load::LoadTarget::Register(x),
            }))
        } else {
            None
        }
    } else {
        None
    }
}

/// Everything the decoder produces satisfies `wf_instruction`.
pub proof fn lemma_parse_wf(op: u16, mode: VmMode)
    ensures
        spec_parse(op, mode) matches Some(i) ==> wf_instruction(i),
{
    lemma_opcode_field_bounds(op);
}

impl Instruction {
    /// Parses a CHIP-8 opcode. Decoding is a pure function of the opcode
    /// and the dialect: it reads no machine state, so equal inputs always
    /// yield the same instruction.
    pub fn parse(opcode: u16, mode: VmMode) -> (r: Option<Self>)
        ensures
            r == spec_parse(opcode, mode),
    {
        let x = op_x(opcode);
        let y = op_y(opcode);
        let n = op_n(opcode);
        let kk = op_kk(opcode);
        let nnn = op_nnn(opcode);
        let family = opcode & 0xF000;
        if family == 0x0000 {
            if kk == 0xE0 {
                Some(Instruction::Clear)
            } else if kk == 0xEE {
                Some(Instruction::Return)
            } else if kk == 0xFE {
                if mode == VmMode::SuperChip {
                    Some(Instruction::SetHighResolution(false))
                } else {
                    None
                }
            } else if kk == 0xFF {
                if mode == VmMode::SuperChip {
                    Some(Instruction::SetHighResolution(true))
                } else {
                    None
                }
            } else {
                Some(Instruction::Sys)
            }
        } else if family == 0x1000 {
            Some(Instruction::Branch(branch::BranchInstruction {
                branch_type: branch::BranchType::Unconditional,
                branch_target: branch::BranchTarget::Address(nnn),
                inverted: false,
            }))
        } else if family == 0x2000 {
            Some(Instruction::Branch(branch::BranchInstruction {
                branch_type: branch::BranchType::Call,
                branch_target: branch::BranchTarget::Address(nnn),
                inverted: false,
            }))
        } else if family == 0x3000 {
            Some(Instruction::Branch(branch::BranchInstruction {
                branch_type: branch::BranchType::Equal { register: x, value: kk },
                branch_target: branch::BranchTarget::Skip,
                inverted: false,
            }))
        } else if family == 0x4000 {
            Some(Instruction::Branch(branch::BranchInstruction {
                branch_type: branch::BranchType::Equal { register: x, value: kk },
                branch_target: branch::BranchTarget::Skip,
                inverted: true,
            }))
        } else if family == 0x5000 {
            Some(Instruction::Branch(branch::BranchInstruction {
                branch_type: branch::BranchType::EqualRegister {
                    register_a: x,
                    register_b: y,
                },
                branch_target: branch::BranchTarget::Skip,
                inverted: false,
            }))
        } else if family == 0x6000 {
            Some(Instruction::Load(load::LoadInstruction {
                from: load::LoadTarget::Value(kk),
                into: load::LoadTarget::Register(x),
            }))
        } else if family == 0x7000 {
            Some(Instruction::Arthimetic(arthimetic::ArthimeticInstruction {
                op: arthimetic::ArthimeticOp::Add,
                values: arthimetic::ArthimeticValue::RegisterValue(x, kk),
                carry_flag: false,
                inverted: false,
            }))
        } else if family == 0x8000 {
            if n == 0x0 {
                Some(Instruction::Load(load::LoadInstruction {
                    from: load::LoadTarget::Register(y),
                    into: load::LoadTarget::Register(x),
                }))
            } else if n == 0x1 {
                Some(Instruction::Logical(logical::LogicalInstruction {
                    op: logical::LogicalOp::Or,
                    register_a: x,
                    register_b: y,
                }))
            } else if n == 0x2 {
                Some(Instruction::Logical(logical::LogicalInstruction {
                    op: logical::LogicalOp::And,
                    register_a: x,
                    register_b: y,
                }))
            } else if n == 0x3 {
                Some(Instruction::Logical(logical::LogicalInstruction {
                    op: logical::LogicalOp::Xor,
                    register_a: x,
                    register_b: y,
                }))
            } else if n == 0x4 {
                Some(Instruction::Arthimetic(arthimetic::ArthimeticInstruction {
                    op: arthimetic::ArthimeticOp::Add,
                    values: arthimetic::ArthimeticValue::RegisterRegister(x, y),
                    carry_flag: true,
                    inverted: false,
                }))
            } else if n == 0x5 {
                Some(Instruction::Arthimetic(arthimetic::ArthimeticInstruction {
                    op: arthimetic::ArthimeticOp::Sub,
                    values: arthimetic::ArthimeticValue::RegisterRegister(x, y),
                    carry_flag: true,
                    inverted: false,
                }))
            } else if n == 0x6 {
                if mode == VmMode::Chip8 {
                    Some(Instruction::Arthimetic(arthimetic::ArthimeticInstruction {
                        op: arthimetic::ArthimeticOp::ShrOld,
                        values: arthimetic::ArthimeticValue::RegisterRegister(x, y),
                        carry_flag: false,
                        inverted: false,
                    }))
                } else {
                    Some(Instruction::Arthimetic(arthimetic::ArthimeticInstruction {
                        op: arthimetic::ArthimeticOp::Shr,
                        values: arthimetic::ArthimeticValue::Register(x),
                        carry_flag: false,
                        inverted: false,
                    }))
                }
            } else if n == 0x7 {
                Some(Instruction::Arthimetic(arthimetic::ArthimeticInstruction {
                    op: arthimetic::ArthimeticOp::Sub,
                    values: arthimetic::ArthimeticValue::RegisterRegister(x, y),
                    carry_flag: true,
                    inverted: true,
                }))
            } else if n == 0xE {
                if mode == VmMode::Chip8 {
                    Some(Instruction::Arthimetic(arthimetic::ArthimeticInstruction {
                        op: arthimetic::ArthimeticOp::ShlOld,
                        values: arthimetic::ArthimeticValue::RegisterRegister(x, y),
                        carry_flag: false,
                        inverted: false,
                    }))
                } else {
                    Some(Instruction::Arthimetic(arthimetic::ArthimeticInstruction {
                        op: arthimetic::ArthimeticOp::Shl,
                        values: arthimetic::ArthimeticValue::Register(x),
                        carry_flag: false,
                        inverted: false,
                    }))
                }
            } else {
                None
            }
        } else if family == 0x9000 {
            Some(Instruction::Branch(branch::BranchInstruction {
                branch_type: branch::BranchType::EqualRegister {
                    register_a: x,
                    register_b: y,
                },
                branch_target: branch::BranchTarget::Skip,
                inverted: true,
            }))
        } else if family == 0xA000 {
            Some(Instruction::Load(load::LoadInstruction {
                from: load::LoadTarget::Address(nnn),
                into: load::LoadTarget::I,
            }))
        } else if family == 0xB000 {
            if mode == VmMode::Chip8 {
                Some(Instruction::Branch(branch::BranchInstruction {
                    branch_type: branch::BranchType::Unconditional,
                    branch_target: branch::BranchTarget::Address(nnn),
                    inverted: false,
                }))
            } else {
                Some(Instruction::Branch(branch::BranchInstruction {
                    branch_type: branch::BranchType::Unconditional,
                    branch_target: branch::BranchTarget::AddressOffset(nnn, x),
                    inverted: false,
                }))
            }
        } else if family == 0xC000 {
            Some(Instruction::Random(x, kk))
        } else if family == 0xD000 {
            Some(Instruction::Draw(x, y, n))
        } else if family == 0xE000 {
            if kk == 0x9E {
                Some(Instruction::Branch(branch::BranchInstruction {
                    branch_type: branch::BranchType::KeyPressed { register: x },
                    branch_target: branch::BranchTarget::Skip,
                    inverted: false,
                }))
            } else if kk == 0xA1 {
                Some(Instruction::Branch(branch::BranchInstruction {
                    branch_type: branch::BranchType::KeyPressed { register: x },
                    branch_target: branch::BranchTarget::Skip,
                    inverted: true,
                }))
            } else {
                None
            }
        } else if family == 0xF000 {
            if kk == 0x07 {
                Some(Instruction::Load(load::LoadInstruction {
                    from: load::LoadTarget::DelayTimer,
                    into: load::LoadTarget::Register(x),
                }))
            } else if kk == 0x0A {
                Some(Instruction::LoadKey(x))
            } else if kk == 0x15 {
                Some(Instruction::Load(load::LoadInstruction {
                    from: load::LoadTarget::Register(x),
                    into: load::LoadTarget::DelayTimer,
                }))
            } else if kk == 0x18 {
                Some(Instruction::Load(load::LoadInstruction {
                    from: load::LoadTarget::Register(x),
                    into: load::LoadTarget::SoundTimer,
                }))
            } else if kk == 0x1E {
                Some(Instruction::AddI(x))
            } else if kk == 0x29 {
                Some(Instruction::Load(load::LoadInstruction {
                    from: load::LoadTarget::Font(x),
                    into: load::LoadTarget::I,
                }))
            } else if kk == 0x33 {
                Some(Instruction::Load(load::LoadInstruction {
                    from: load::LoadTarget::Register(x),
                    into: load::LoadTarget::Bcd,
                }))
            } else if kk == 0x55 {
                Some(Instruction::Load(load::LoadInstruction {
                    from: load::LoadTarget::Register(x),
                    into: if mode != VmMode::Chip8 {
                        load::LoadTarget::IChip48
                    } else {
                        load::LoadTarget::I
                    },
                }))
            } else if kk == 0x65 {
                Some(Instruction::Load(load::LoadInstruction {
                    from: if mode != VmMode::Chip8 {
                        load::LoadTarget::IChip48
                    } else {
                        load::LoadTarget::I
                    },
                    into: load::LoadTarget::Register(x),
                }))
            } else if kk == 0x75 && mode == VmMode::SuperChip {
                Some(Instruction::Load(load::LoadInstruction {
                    from: load::LoadTarget::Register(x),
                    into: load::LoadTarget::Rpl,
                }))
            } else if kk == 0x85 && mode == VmMode::SuperChip {
                Some(Instruction::Load(load::LoadInstruction {
                    from: load::LoadTarget::Rpl,
                    into: load::LoadTarget::Register(x),
                }))
            } else {
                None
            }
        } else {
            None
        }
    }
}

} // verus!

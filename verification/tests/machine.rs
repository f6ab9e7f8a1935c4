use chip8::instruction::load::{LoadInstruction, LoadTarget};
use chip8::instruction::Instruction;
use chip8::vm::{ProgramCounter, Vm, VmError, VmMode};

fn boot(mode: VmMode, program: &[u8]) -> Vm {
    let mut vm = Vm::new();
    vm.set_mode(mode);
    vm.load_program(program);
    vm
}

fn run(vm: &mut Vm, steps: usize) {
    for _ in 0..steps {
        vm.execute(None).expect("step failed");
    }
}

#[test]
fn clear_scenario() {
    // Draw the zero glyph, then clear: every cell reads false again and
    // the clear instruction advances the program counter by 2.
    let mut vm = boot(VmMode::Chip8, &[0xA0, 0x50, 0xD0, 0x01, 0x00, 0xE0]);
    run(&mut vm, 2);
    // The glyph's top row is 0xF0: four lit pixels at the origin.
    assert!(vm.pixel(0) && vm.pixel(1) && vm.pixel(2) && vm.pixel(3));
    assert!(!vm.pixel(4));
    run(&mut vm, 1);
    assert!(vm.display_snapshot().iter().all(|p| !p));
    assert_eq!(vm.program_counter, 0x206);
}

#[test]
fn load_then_add_immediate() {
    // Load 5 into register A, then add 2: no carry flag change.
    let mut vm = boot(VmMode::Chip8, &[0x6A, 0x05, 0x7A, 0x02]);
    run(&mut vm, 2);
    assert_eq!(vm.registers[0xA], 0x07);
    assert_eq!(vm.registers[0xF], 0x00);
    assert_eq!(vm.program_counter, 0x204);
    assert_eq!(vm.cycles, 2);
}

#[test]
fn add_register_carry() {
    // 0xFF + 0x01 wraps to 0x00 and sets the carry flag.
    let mut vm = boot(VmMode::Chip8, &[0x80, 0x14]);
    vm.registers[0x0] = 0xFF;
    vm.registers[0x1] = 0x01;
    run(&mut vm, 1);
    assert_eq!(vm.registers[0x0], 0x00);
    assert_eq!(vm.registers[0xF], 0x01);
}

#[test]
fn add_register_no_carry() {
    let mut vm = boot(VmMode::Chip8, &[0x80, 0x14]);
    vm.registers[0x0] = 0x10;
    vm.registers[0x1] = 0x20;
    run(&mut vm, 1);
    assert_eq!(vm.registers[0x0], 0x30);
    assert_eq!(vm.registers[0xF], 0x00);
}

#[test]
fn sub_register_borrow() {
    // 0x01 - 0x02 wraps to 0xFF; a borrow occurred, so the not-borrow
    // flag is 0.
    let mut vm = boot(VmMode::Chip8, &[0x80, 0x15]);
    vm.registers[0x0] = 0x01;
    vm.registers[0x1] = 0x02;
    run(&mut vm, 1);
    assert_eq!(vm.registers[0x0], 0xFF);
    assert_eq!(vm.registers[0xF], 0x00);
}

#[test]
fn sub_register_no_borrow() {
    let mut vm = boot(VmMode::Chip8, &[0x80, 0x15]);
    vm.registers[0x0] = 0x05;
    vm.registers[0x1] = 0x02;
    run(&mut vm, 1);
    assert_eq!(vm.registers[0x0], 0x03);
    assert_eq!(vm.registers[0xF], 0x01);
}

#[test]
fn sub_inverted() {
    // 8XY7 computes VY - VX into VX.
    let mut vm = boot(VmMode::Chip8, &[0x80, 0x17]);
    vm.registers[0x0] = 0x02;
    vm.registers[0x1] = 0x07;
    run(&mut vm, 1);
    assert_eq!(vm.registers[0x0], 0x05);
    assert_eq!(vm.registers[0xF], 0x01);
}

#[test]
fn shift_left_in_place() {
    // In the extended dialects 8XYE shifts VX in place: 0b1000_0001
    // becomes 0b0000_0010 and the shifted-out bit lands in the flag.
    let mut vm = boot(VmMode::SuperChip, &[0x80, 0x1E]);
    vm.registers[0x0] = 0b1000_0001;
    run(&mut vm, 1);
    assert_eq!(vm.registers[0x0], 0b0000_0010);
    assert_eq!(vm.registers[0xF], 0x01);
}

#[test]
fn shift_right_in_place() {
    let mut vm = boot(VmMode::Chip48, &[0x80, 0x16]);
    vm.registers[0x0] = 0b0000_0011;
    run(&mut vm, 1);
    assert_eq!(vm.registers[0x0], 0b0000_0001);
    assert_eq!(vm.registers[0xF], 0x01);
}

#[test]
fn shift_left_two_operand() {
    // In the base dialect 8XYE shifts VY into VX.
    let mut vm = boot(VmMode::Chip8, &[0x80, 0x1E]);
    vm.registers[0x0] = 0x00;
    vm.registers[0x1] = 0b1000_0001;
    run(&mut vm, 1);
    assert_eq!(vm.registers[0x0], 0b0000_0010);
    assert_eq!(vm.registers[0x1], 0b1000_0001);
    assert_eq!(vm.registers[0xF], 0x01);
}

#[test]
fn logical_operations() {
    let mut vm = boot(VmMode::Chip8, &[0x80, 0x11, 0x82, 0x32, 0x84, 0x53]);
    vm.registers[0x0] = 0b1010;
    vm.registers[0x1] = 0b0110;
    vm.registers[0x2] = 0b1100;
    vm.registers[0x3] = 0b1010;
    vm.registers[0x4] = 0b1001;
    vm.registers[0x5] = 0b0011;
    run(&mut vm, 3);
    assert_eq!(vm.registers[0x0], 0b1110);
    assert_eq!(vm.registers[0x2], 0b1000);
    assert_eq!(vm.registers[0x4], 0b1010);
}

#[test]
fn draw_twice_collides_and_cancels() {
    // Drawing the same non-empty sprite twice at the same position
    // restores the display and reports the collision on the second draw.
    let mut vm = boot(VmMode::Chip8, &[0xA0, 0x50, 0xD0, 0x05, 0xD0, 0x05]);
    run(&mut vm, 2);
    assert_eq!(vm.registers[0xF], 0x00);
    assert!(vm.display_snapshot().iter().any(|p| *p));
    run(&mut vm, 1);
    assert_eq!(vm.registers[0xF], 0x01);
    assert!(vm.display_snapshot().iter().all(|p| !p));
}

#[test]
fn draw_wraps_base_coordinates_and_clips() {
    // Base coordinates wrap before drawing; rows past the bottom edge
    // are clipped, not wrapped.
    let mut vm = boot(VmMode::Chip8, &[0xA0, 0x50, 0xD0, 0x15]);
    vm.registers[0x0] = 64; // wraps to column 0
    vm.registers[0x1] = 31; // bottom row: only one of five rows fits
    run(&mut vm, 2);
    let snapshot = vm.display_snapshot();
    // Row 31 holds the glyph's top row (0xF0); nothing wrapped to row 0.
    assert!(snapshot[31 * 64] && snapshot[31 * 64 + 3]);
    assert!(!snapshot[0]);
    assert_eq!(vm.registers[0xF], 0x00);
}

#[test]
fn high_resolution_toggle() {
    let mut vm = boot(VmMode::SuperChip, &[0x00, 0xFF, 0x00, 0xFE]);
    assert_eq!(vm.display_width(), 64);
    assert_eq!(vm.display_height(), 32);
    run(&mut vm, 1);
    assert!(vm.high_resolution);
    assert_eq!(vm.display_width(), 128);
    assert_eq!(vm.display_height(), 64);
    assert_eq!(vm.display_snapshot().len(), 128 * 64);
    assert!(vm.display_snapshot().iter().all(|p| !p));
    run(&mut vm, 1);
    assert!(!vm.high_resolution);
    assert_eq!(vm.display_snapshot().len(), 64 * 32);
}

#[test]
fn set_high_resolution_directly() {
    let mut vm = Vm::new();
    vm.set_high_resolution(true);
    assert_eq!(vm.display_snapshot().len(), 128 * 64);
    assert!(vm.display_snapshot().iter().all(|p| !p));
    vm.set_high_resolution(false);
    assert_eq!(vm.display_snapshot().len(), 64 * 32);
}

#[test]
fn pc_transitions() {
    let mut vm = Vm::new();
    vm.program_counter = 0x200;
    ProgramCounter::Next.next(&mut vm);
    assert_eq!(vm.program_counter, 0x202);
    ProgramCounter::Skip.next(&mut vm);
    assert_eq!(vm.program_counter, 0x206);
    ProgramCounter::Jump(0x400).next(&mut vm);
    assert_eq!(vm.program_counter, 0x400);
    ProgramCounter::Pause.next(&mut vm);
    assert_eq!(vm.program_counter, 0x400);
}

#[test]
fn skip_branches() {
    // 3XNN skips when the register equals the value.
    let mut vm = boot(VmMode::Chip8, &[0x30, 0x42]);
    vm.registers[0x0] = 0x42;
    run(&mut vm, 1);
    assert_eq!(vm.program_counter, 0x204);
    let mut vm = boot(VmMode::Chip8, &[0x30, 0x42]);
    vm.registers[0x0] = 0x41;
    run(&mut vm, 1);
    assert_eq!(vm.program_counter, 0x202);
    // 4XNN is the inverted form.
    let mut vm = boot(VmMode::Chip8, &[0x40, 0x42]);
    vm.registers[0x0] = 0x41;
    run(&mut vm, 1);
    assert_eq!(vm.program_counter, 0x204);
}

#[test]
fn call_and_return() {
    let mut vm = boot(VmMode::Chip8, &[0x22, 0x08]);
    run(&mut vm, 1);
    assert_eq!(vm.program_counter, 0x208);
    assert_eq!(vm.stack, vec![0x200]);
    vm.memory[0x208] = 0x00;
    vm.memory[0x209] = 0xEE;
    run(&mut vm, 1);
    assert_eq!(vm.program_counter, 0x202);
    assert!(vm.stack.is_empty());
}

#[test]
fn jump_offset_quirk() {
    // The extended dialects add the register named by the address's high
    // nibble to the jump target.
    let mut vm = boot(VmMode::Chip48, &[0xB2, 0x08]);
    vm.registers[0x2] = 0x04;
    run(&mut vm, 1);
    assert_eq!(vm.program_counter, 0x20C);
    let mut vm = boot(VmMode::Chip8, &[0xB2, 0x08]);
    vm.registers[0x2] = 0x04;
    run(&mut vm, 1);
    assert_eq!(vm.program_counter, 0x208);
}

#[test]
fn key_branches() {
    let mut vm = boot(VmMode::Chip8, &[0xE0, 0x9E]);
    vm.registers[0x0] = 0x5;
    vm.set_key(0x5, true);
    run(&mut vm, 1);
    assert_eq!(vm.program_counter, 0x204);
    let mut vm = boot(VmMode::Chip8, &[0xE0, 0xA1]);
    vm.registers[0x0] = 0x5;
    run(&mut vm, 1);
    assert_eq!(vm.program_counter, 0x204);
}

#[test]
fn load_key_pauses_until_a_key_arrives() {
    let mut vm = boot(VmMode::Chip8, &[0xF0, 0x0A]);
    vm.execute(None).expect("step failed");
    assert_eq!(vm.program_counter, 0x200);
    assert_eq!(vm.cycles, 1);
    vm.execute(Some(0x7)).expect("step failed");
    assert_eq!(vm.registers[0x0], 0x7);
    assert_eq!(vm.program_counter, 0x202);
}

#[test]
fn random_masked_to_zero() {
    // A zero mask forces the stored byte to zero whatever the entropy
    // source returned.
    let mut vm = boot(VmMode::Chip8, &[0xC0, 0x00, 0xC1, 0x0F]);
    vm.registers[0x0] = 0xAA;
    run(&mut vm, 2);
    assert_eq!(vm.registers[0x0], 0x00);
    assert!(vm.registers[0x1] <= 0x0F);
}

#[test]
fn index_register_operations() {
    let mut vm = boot(VmMode::Chip8, &[0xA3, 0x00, 0xF0, 0x1E]);
    vm.registers[0x0] = 0x10;
    run(&mut vm, 2);
    assert_eq!(vm.index_register, 0x310);
}

#[test]
fn add_i_wraps() {
    let mut vm = boot(VmMode::Chip8, &[0xF0, 0x1E]);
    vm.index_register = 0xFFFF;
    vm.registers[0x0] = 0x02;
    run(&mut vm, 1);
    assert_eq!(vm.index_register, 0x0001);
}

#[test]
fn font_address() {
    let mut vm = boot(VmMode::Chip8, &[0xF5, 0x29]);
    run(&mut vm, 1);
    assert_eq!(vm.index_register, 0x50 + 5 * 5);
    assert_eq!(vm.memory[0x50], 0xF0);
}

#[test]
fn bcd_decomposition() {
    let mut vm = boot(VmMode::Chip8, &[0xA3, 0x00, 0xF0, 0x33]);
    vm.registers[0x0] = 123;
    run(&mut vm, 2);
    assert_eq!(&vm.memory[0x300..0x303], &[1, 2, 3]);
}

#[test]
fn timers() {
    let mut vm = boot(VmMode::Chip8, &[0x60, 0x1E, 0xF0, 0x15, 0xF1, 0x07]);
    run(&mut vm, 3);
    assert_eq!(vm.delay_timer, 0x1E);
    assert_eq!(vm.registers[0x1], 0x1E);
    vm.tick_timers();
    assert_eq!(vm.delay_timer, 0x1D);
    vm.delay_timer = 0;
    vm.sound_timer = 1;
    vm.tick_timers();
    assert_eq!(vm.delay_timer, 0);
    assert_eq!(vm.sound_timer, 0);
}

#[test]
fn block_store_base_dialect_leaves_index() {
    let mut vm = boot(VmMode::Chip8, &[0xA3, 0x00, 0xF2, 0x55]);
    vm.registers[0x0] = 0xAA;
    vm.registers[0x1] = 0xBB;
    vm.registers[0x2] = 0xCC;
    run(&mut vm, 2);
    assert_eq!(&vm.memory[0x300..0x303], &[0xAA, 0xBB, 0xCC]);
    assert_eq!(vm.index_register, 0x300);
}

#[test]
fn block_store_extended_dialect_increments_index() {
    let mut vm = boot(VmMode::Chip48, &[0xA3, 0x00, 0xF2, 0x55]);
    vm.registers[0x0] = 0xAA;
    vm.registers[0x1] = 0xBB;
    vm.registers[0x2] = 0xCC;
    run(&mut vm, 2);
    assert_eq!(&vm.memory[0x300..0x303], &[0xAA, 0xBB, 0xCC]);
    assert_eq!(vm.index_register, 0x303);
}

#[test]
fn block_load() {
    let mut vm = boot(VmMode::Chip8, &[0xA3, 0x00, 0xF2, 0x65]);
    vm.memory[0x300] = 0x11;
    vm.memory[0x301] = 0x22;
    vm.memory[0x302] = 0x33;
    run(&mut vm, 2);
    assert_eq!(vm.registers[0x0], 0x11);
    assert_eq!(vm.registers[0x1], 0x22);
    assert_eq!(vm.registers[0x2], 0x33);
    assert_eq!(vm.index_register, 0x300);
}

#[test]
fn rpl_flags_roundtrip() {
    // FX75 saves registers 0..=X; FX85 restores them.
    let mut vm = boot(VmMode::SuperChip, &[0xF4, 0x75, 0x60, 0x00, 0xF4, 0x85]);
    vm.registers[0x0] = 0x10;
    vm.registers[0x1] = 0x11;
    vm.registers[0x2] = 0x12;
    vm.registers[0x3] = 0x13;
    vm.registers[0x4] = 0x14;
    run(&mut vm, 1);
    assert_eq!(&vm.rpl[0..5], &[0x10, 0x11, 0x12, 0x13, 0x14]);
    assert_eq!(&vm.rpl[5..8], &[0, 0, 0]);
    run(&mut vm, 2);
    assert_eq!(vm.registers[0x0], 0x10);
    assert_eq!(vm.registers[0x1], 0x11);
    assert_eq!(vm.registers[0x4], 0x14);
}

#[test]
fn self_modifying_code_redecodes() {
    // The program executes the instruction at 0x208 (caching it), then
    // overwrites that address's bytes with a block store and jumps back:
    // the freshly written bytes must be decoded, not the stale cache
    // entry.
    let program: [u8; 20] = [
        0x12, 0x08, // 0x200: jump 0x208
        0x00, 0x00, // 0x202: (never executed)
        0x00, 0x00, // 0x204
        0x00, 0x00, // 0x206
        0x6A, 0x11, // 0x208: VA = 0x11
        0xA2, 0x08, // 0x20A: I = 0x208
        0x60, 0x6A, // 0x20C: V0 = 0x6A
        0x61, 0x42, // 0x20E: V1 = 0x42
        0xF1, 0x55, // 0x210: store V0..V1 at 0x208
        0x12, 0x08, // 0x212: jump 0x208
    ];
    let mut vm = boot(VmMode::Chip8, &program);
    run(&mut vm, 2);
    assert_eq!(vm.registers[0xA], 0x11);
    assert!(vm.cached_instruction(0x208).is_some());
    run(&mut vm, 4);
    // The block store evicted the stale entry.
    assert!(vm.cached_instruction(0x208).is_none());
    assert_eq!(&vm.memory[0x208..0x20A], &[0x6A, 0x42]);
    run(&mut vm, 2);
    assert_eq!(vm.registers[0xA], 0x42);
}

#[test]
fn invalidate_cache_evicts_range() {
    let mut vm = boot(VmMode::Chip8, &[0x6A, 0x05]);
    run(&mut vm, 1);
    assert_eq!(
        vm.cached_instruction(0x200),
        Some(Instruction::Load(LoadInstruction {
            from: LoadTarget::Value(0x05),
            into: LoadTarget::Register(0xA),
        }))
    );
    vm.invalidate_cache(0x200, 0x202);
    assert_eq!(vm.cached_instruction(0x200), None);
}

#[test]
fn load_program_resets_state() {
    let mut vm = boot(VmMode::Chip8, &[0x6A, 0x05]);
    run(&mut vm, 1);
    vm.load_program(&[0x00, 0xE0]);
    assert_eq!(vm.program_counter, 0x200);
    assert_eq!(vm.registers, vec![0; 16]);
    assert_eq!(vm.cycles, 0);
    assert!(!vm.paused);
    assert_eq!(vm.cached_instruction(0x200), None);
    assert_eq!(vm.memory[0x200], 0x00);
    assert_eq!(vm.memory[0x201], 0xE0);
    assert_eq!(vm.memory[0x50], 0xF0);
}

#[test]
fn paused_machine_does_nothing() {
    let mut vm = boot(VmMode::Chip8, &[0x6A, 0x05]);
    vm.paused = true;
    vm.execute(None).expect("paused step must succeed");
    assert_eq!(vm.program_counter, 0x200);
    assert_eq!(vm.registers[0xA], 0x00);
    assert_eq!(vm.cycles, 0);
}

#[test]
fn error_invalid_opcode() {
    let mut vm = boot(VmMode::Chip8, &[0xE0, 0x00]);
    assert_eq!(
        vm.execute(None),
        Err(VmError::InvalidOpcode {
            opcode: 0xE000,
            address: 0x200,
        })
    );
}

#[test]
fn error_stack_underflow() {
    let mut vm = boot(VmMode::Chip8, &[0x00, 0xEE]);
    assert_eq!(
        vm.execute(None),
        Err(VmError::StackUnderflow { address: 0x200 })
    );
}

#[test]
fn error_system_call() {
    let mut vm = boot(VmMode::Chip8, &[0x01, 0x23]);
    assert_eq!(vm.execute(None), Err(VmError::SystemCall { address: 0x200 }));
}

#[test]
fn error_pc_out_of_range() {
    let mut vm = boot(VmMode::Chip8, &[0x6A, 0x05]);
    vm.program_counter = 0x100;
    assert_eq!(vm.execute(None), Err(VmError::PcOutOfRange { pc: 0x100 }));
}

#[test]
fn error_memory_out_of_bounds() {
    // A draw whose sprite bytes would be read past the end of memory.
    let mut vm = boot(VmMode::Chip8, &[0xAF, 0xFF, 0xD0, 0x02]);
    run(&mut vm, 1);
    assert_eq!(
        vm.execute(None),
        Err(VmError::MemoryOutOfBounds { address: 0xFFF })
    );
    // A decimal decomposition that would spill past the end of memory.
    let mut vm = boot(VmMode::Chip8, &[0xAF, 0xFE, 0xF0, 0x33]);
    run(&mut vm, 1);
    assert_eq!(
        vm.execute(None),
        Err(VmError::MemoryOutOfBounds { address: 0xFFE })
    );
    // A block store that would run past the end of memory.
    let mut vm = boot(VmMode::Chip8, &[0xAF, 0xFF, 0xF1, 0x55]);
    run(&mut vm, 1);
    assert_eq!(
        vm.execute(None),
        Err(VmError::MemoryOutOfBounds { address: 0xFFF })
    );
}

#[test]
fn errors_leave_registers_untouched() {
    let mut vm = boot(VmMode::Chip8, &[0x01, 0x23]);
    vm.registers[0x3] = 0x77;
    let _ = vm.execute(None);
    assert_eq!(vm.registers[0x3], 0x77);
    assert_eq!(vm.program_counter, 0x200);
    assert_eq!(vm.cycles, 0);
}

#[test]
fn load_program_at_maximum_size() {
    let rom = vec![0u8; 0xE00];
    let mut vm = Vm::new();
    vm.load_program(&rom);
    assert_eq!(vm.memory.len(), 4096);
    assert_eq!(vm.memory[0xFFF], 0);
    assert_eq!(vm.program_counter, 0x200);
}

#[test]
fn draw_zero_rows_only_resets_flag() {
    let mut vm = boot(VmMode::Chip8, &[0xD0, 0x00]);
    vm.registers[0xF] = 1;
    run(&mut vm, 1);
    assert_eq!(vm.registers[0xF], 0);
    assert!(vm.display_snapshot().iter().all(|p| !p));
    assert_eq!(vm.program_counter, 0x202);
}

#[test]
fn rpl_store_clamps_to_eight() {
    // A transfer naming more than eight registers is bounds-checked to
    // the eight flag bytes.
    let mut vm = boot(VmMode::SuperChip, &[0xFF, 0x75]);
    for i in 0..16 {
        vm.registers[i] = 0x20 + i as u8;
    }
    run(&mut vm, 1);
    assert_eq!(
        vm.rpl,
        vec![0x20, 0x21, 0x22, 0x23, 0x24, 0x25, 0x26, 0x27]
    );
}

#[test]
fn set_pixel_writes_one_cell() {
    let mut vm = Vm::new();
    vm.set_pixel(65, true);
    assert!(vm.pixel(65));
    assert!(!vm.pixel(64) && !vm.pixel(66));
    vm.set_pixel(65, false);
    assert!(!vm.pixel(65));
}

#[test]
fn high_resolution_opcode_fails_to_decode_outside_superchip() {
    // Outside the most extended dialect these opcodes do not decode, so
    // execution reports a decode failure naming opcode and address.
    let mut vm = boot(VmMode::Chip8, &[0x00, 0xFF]);
    assert_eq!(
        vm.execute(None),
        Err(VmError::InvalidOpcode {
            opcode: 0x00FF,
            address: 0x200,
        })
    );
}

#[test]
fn register_copy_direction() {
    // 8XY0 copies VY into VX.
    let mut vm = boot(VmMode::Chip8, &[0x8A, 0xB0]);
    vm.registers[0xA] = 0x01;
    vm.registers[0xB] = 0x99;
    run(&mut vm, 1);
    assert_eq!(vm.registers[0xA], 0x99);
    assert_eq!(vm.registers[0xB], 0x99);
}

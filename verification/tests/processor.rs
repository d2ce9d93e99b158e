//! Opcode-level tests of the processor, driven through `cycle` and
//! `process_opcode` against a fresh bus.
use chip8::processor::{Processor, STARTING_PC};
use chip8::Bus;

/// Helper that executes a single opcode on the given `Processor` and a
/// new `Bus`.
fn test_op_with(opcode: u16, processor: &mut Processor) {
    let mut bus = Bus::default();
    bus.memory.write(processor.pc, (opcode >> 8) as u8);
    bus.memory.write(processor.pc + 1, (opcode & 0xFF) as u8);
    processor.cycle(&mut bus);
}

/// Helper that executes a single opcode on a new `Processor` and returns
/// it for inspection.
fn test_op(opcode: u16) -> Processor {
    let mut processor = Processor::new();
    test_op_with(opcode, &mut processor);
    processor
}

#[test]
fn test_jump() {
    let p = test_op(0x1300);
    assert_eq!(p.pc, 0x300);
}

#[test]
fn test_call() {
    let p = test_op(0x2300);
    assert_eq!(p.sp, 1);
    assert_eq!(p.pc, 0x300);
    // The return address should be the original address + 2, so the
    // call instruction isn't executed again.
    assert_eq!(p.stack[p.sp - 1], STARTING_PC + 2);
}

#[test]
fn test_return() {
    let mut p = test_op(0x2300);
    test_op_with(0x00EE, &mut p);
    assert_eq!(p.sp, 0);
    assert_eq!(p.pc, STARTING_PC + 2);
}

/// The 0x3___ instruction when register and compared value are equal.
#[test]
fn test_compare_skip_equal() {
    let mut p = test_op(0x6412);
    test_op_with(0x3412, &mut p);
    assert_eq!(p.pc, STARTING_PC + 6);
}

/// The 0x3___ instruction when register and compared value are not equal.
#[test]
fn test_compare_skip_not_equal() {
    let mut p = test_op(0x6416);
    test_op_with(0x3412, &mut p);
    assert_eq!(p.pc, STARTING_PC + 4);
}

/// The 0x4___ instruction when register and compared value are equal.
#[test]
fn test_compare_dont_skip_equal() {
    let mut p = test_op(0x6412);
    test_op_with(0x4412, &mut p);
    assert_eq!(p.pc, STARTING_PC + 4);
}

/// The 0x4___ instruction when register and compared value are not equal.
#[test]
fn test_compare_dont_skip_not_equal() {
    let mut p = test_op(0x6416);
    test_op_with(0x4412, &mut p);
    assert_eq!(p.pc, STARTING_PC + 6);
}

/// The 0x5___ instruction when both compared registers are equal.
#[test]
fn test_compare_registers_skip_equal() {
    let mut p = test_op(0x6A16);
    test_op_with(0x6B16, &mut p);
    test_op_with(0x5AB0, &mut p);
    assert_eq!(p.pc, STARTING_PC + 8);
}

/// The 0x5___ instruction when both compared registers are not equal.
#[test]
fn test_compare_registers_skip_not_equal() {
    let mut p = test_op(0x6A16);
    test_op_with(0x6B12, &mut p);
    test_op_with(0x5AB0, &mut p);
    assert_eq!(p.pc, STARTING_PC + 6);
}

#[test]
fn test_load_immediate() {
    let p = test_op(0x6112);
    assert_eq!(p.v[1], 0x12);
}

#[test]
fn test_add() {
    let mut p = test_op(0x6112);
    test_op_with(0x7103, &mut p);
    assert_eq!(p.v[1], 0x15);
}

#[test]
fn test_load_register() {
    let mut p = test_op(0x6B12);
    test_op_with(0x8AB0, &mut p);
    assert_eq!(p.v[0xB], 0x12);
}

#[test]
fn test_or() {
    let mut p = test_op(0x6AFF);
    test_op_with(0x6B00, &mut p);
    test_op_with(0x8AB1, &mut p);
    assert_eq!(p.v[0xA], 0xFF);
}

#[test]
fn test_and() {
    let mut p = test_op(0x6AFF);
    test_op_with(0x6B00, &mut p);
    test_op_with(0x8AB2, &mut p);
    assert_eq!(p.v[0xA], 0x00);
}

#[test]
fn test_xor() {
    let mut p = test_op(0x6A10);
    test_op_with(0x6B11, &mut p);
    test_op_with(0x8AB3, &mut p);
    assert_eq!(p.v[0xA], 0x1);
}

#[test]
fn test_carry_add() {
    let mut p = test_op(0x6AFF);
    test_op_with(0x6B04, &mut p);
    test_op_with(0x8AB4, &mut p);
    assert_eq!(p.v[0xA], 0x03);
    assert_eq!(p.v[0xF], 1);
}

#[test]
fn test_carry_add_no_carry() {
    let mut p = test_op(0x6AF1);
    test_op_with(0x6B04, &mut p);
    test_op_with(0x8AB4, &mut p);
    assert_eq!(p.v[0xA], 0xF5);
    assert_eq!(p.v[0xF], 0);
}

/// The 8xy5 instruction with carry.
#[test]
fn test_carry_sub() {
    let mut p = test_op(0x6A00);
    test_op_with(0x6B03, &mut p);
    test_op_with(0x8AB5, &mut p);
    assert_eq!(p.v[0xA], 0xFD);
    assert_eq!(p.v[0xF], 0);
}

/// The 8xy5 instruction without carry.
#[test]
fn test_carry_sub_no_carry() {
    let mut p = test_op(0x6AFF);
    test_op_with(0x6B03, &mut p);
    test_op_with(0x8AB5, &mut p);
    assert_eq!(p.v[0xA], 0xFC);
    assert_eq!(p.v[0xF], 1);
}

/// The 8xy6 instruction with carry.
#[test]
fn test_shift_right_carry() {
    let mut p = test_op(0x6A01);
    test_op_with(0x8AB6, &mut p);
    assert_eq!(p.v[0xA], 0x00);
    assert_eq!(p.v[0xF], 1);
}

/// The 8xy6 instruction without carry.
#[test]
fn test_shift_right_no_carry() {
    let mut p = test_op(0x6A02);
    test_op_with(0x8AB6, &mut p);
    assert_eq!(p.v[0xA], 0x01);
    assert_eq!(p.v[0xF], 0);
}

/// The 8xy7 instruction with carry.
#[test]
fn test_carry_sub_opposite() {
    let mut p = test_op(0x6A03);
    test_op_with(0x6B00, &mut p);
    test_op_with(0x8AB7, &mut p);
    assert_eq!(p.v[0xA], 0xFD);
    assert_eq!(p.v[0xF], 0);
}

/// The 8xy7 instruction without carry.
#[test]
fn test_carry_sub_opposite_no_carry() {
    let mut p = test_op(0x6A03);
    test_op_with(0x6B05, &mut p);
    test_op_with(0x8AB7, &mut p);
    assert_eq!(p.v[0xA], 0x02);
    assert_eq!(p.v[0xF], 1);
}

#[test]
fn test_shift_left_carry() {
    let mut p = test_op(0x6AFF);
    test_op_with(0x8AEE, &mut p);
    assert_eq!(p.v[0xA], 0xFE);
    assert_eq!(p.v[0xF], 1);
}

#[test]
fn test_shift_left_no_carry() {
    let mut p = test_op(0x6A01);
    test_op_with(0x8AEE, &mut p);
    assert_eq!(p.v[0xA], 0x02);
    assert_eq!(p.v[0xF], 0);
}

/// The 9xy0 instruction when the registers are not equal.
#[test]
fn test_skip_instr_opposite_not_equal() {
    let mut p = test_op(0x6A12);
    test_op_with(0x6B16, &mut p);
    test_op_with(0x9AB0, &mut p);
    assert_eq!(p.pc, STARTING_PC + 8);
}

/// The 9xy0 instruction when the registers are equal.
#[test]
fn test_skip_instr_opposite_equal() {
    let mut p = test_op(0x6A12);
    test_op_with(0x6B12, &mut p);
    test_op_with(0x9AB0, &mut p);
    assert_eq!(p.pc, STARTING_PC + 6);
}

#[test]
fn test_load_index_register() {
    let p = test_op(0xA300);
    assert_eq!(p.i, 0x300);
}

#[test]
fn test_jump_to_index_register_plus_offset() {
    let mut p = test_op(0x6012);
    test_op_with(0xB300, &mut p);
    assert_eq!(p.pc, 0x312);
}

#[test]
fn test_get_random() {
    // With a zero mask the random byte must come out as zero,
    // whatever the random source produced.
    let p = test_op(0xC000);
    assert_eq!(p.v[0], 0);
}

#[test]
fn test_load_delay_timer() {
    let mut p = Processor::new();
    let mut bus = Bus::default();
    bus.clock.delay_timer = 30;
    p.process_opcode(0xFA07, &mut bus);
    assert_eq!(p.v[0xA], 30);
}

#[test]
fn test_set_delay_timer() {
    let mut p = Processor::new();
    let mut bus = Bus::default();
    p.process_opcode(0x6A12, &mut bus);
    p.process_opcode(0xFA15, &mut bus);
    assert_eq!(bus.clock.delay_timer, 0x12);
}

#[test]
fn test_set_sound_timer() {
    let mut p = Processor::new();
    let mut bus = Bus::default();
    p.process_opcode(0x6A12, &mut bus);
    p.process_opcode(0xFA18, &mut bus);
    assert_eq!(
        bus.clock
            .sound_timer
            .load(std::sync::atomic::Ordering::SeqCst),
        0x12
    );
}

#[test]
fn test_add_to_index_register() {
    let mut p = test_op(0x6A12);
    test_op_with(0xA300, &mut p);
    test_op_with(0xFA1E, &mut p);
    assert_eq!(p.i, 0x312);
}

#[test]
fn test_load_font_address() {
    let mut p = test_op(0x6004);
    test_op_with(0xF029, &mut p);
    // The font data starts at the very beginning of memory.
    assert_eq!(p.i, 4 * 5);
}

#[test]
fn test_store_bcd() {
    let mut p = Processor::new();
    let mut bus = Bus::default();
    p.process_opcode(0xA300, &mut bus);
    p.process_opcode(0x6AFD, &mut bus);
    p.process_opcode(0xFA33, &mut bus);
    assert_eq!(bus.memory.read(p.i), 2);
    assert_eq!(bus.memory.read(p.i + 1), 5);
    assert_eq!(bus.memory.read(p.i + 2), 3);
}

#[test]
fn test_store_registers() {
    let mut processor = Processor::new();
    let mut bus = Bus::default();

    for i in 0x0..=0x6 {
        processor.v[usize::from(i)] = i;
    }

    processor.process_opcode(0x6A06, &mut bus);
    processor.process_opcode(0xA300, &mut bus);
    processor.process_opcode(0xFA55, &mut bus);

    for i in 0x0..0x7 {
        assert_eq!(bus.memory.read(0x300 + usize::from(i)), i);
    }
}

#[test]
fn test_load_registers() {
    let mut processor = Processor::new();
    let mut bus = Bus::default();

    for i in 0x0..=0x6 {
        bus.memory.write(0x300 + usize::from(i), i);
    }

    processor.process_opcode(0x6A06, &mut bus);
    processor.process_opcode(0xA300, &mut bus);
    processor.process_opcode(0xFA65, &mut bus);

    for i in 0x0..0x7 {
        assert_eq!(processor.v[usize::from(i)], i);
    }
}

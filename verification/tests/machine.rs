//! Whole-machine scenarios and edge cases: the facade, the graphics
//! buffer, memory loading, the key-wait protocol and the timers.
use chip8::graphics::{GraphicsBuffer, RGB8};
use chip8::memory::Memory;
use chip8::processor::Processor;
use chip8::{Bus, Chip8};

/// `V0 = 10; V1 = 5; V0 += V1` leaves `V0 == 15`, no carry, and the
/// program counter six bytes past the start.
#[test]
fn scenario_add_program() {
    let mut machine = Chip8::new();
    machine.load_rom_data(vec![0x60, 0x0A, 0x61, 0x05, 0x80, 0x14]);
    machine.step();
    machine.step();
    machine.step();
    assert_eq!(machine.processor.v[0], 15);
    assert_eq!(machine.processor.v[0xF], 0);
    assert_eq!(machine.processor.pc, 0x200 + 6);
}

/// Drawing something and then running the clear-screen instruction
/// leaves the RGB snapshot entirely background-colored.
#[test]
fn scenario_draw_then_clear() {
    let mut machine = Chip8::new();
    machine.load_rom_data(vec![0x00, 0xE0]);
    machine.bus.graphics.draw_byte(3, 5, 0xFF);
    machine.step();
    let snapshot = machine.bus.graphics.as_rgb8();
    assert_eq!(snapshot.len(), 64 * 32 * 3);
    assert!(snapshot.iter().all(|&b| b == 0));
}

/// Drawing the same byte twice at the same coordinates restores the
/// screen, and the second draw reports a collision.
#[test]
fn double_draw_restores_screen() {
    let mut g = GraphicsBuffer::new();
    let blank = g.as_rgb8();
    let first = g.draw_byte(10, 4, 0xA5);
    assert!(!first);
    assert_ne!(g.as_rgb8(), blank);
    let second = g.draw_byte(10, 4, 0xA5);
    assert!(second);
    assert_eq!(g.as_rgb8(), blank);
}

/// Storing registers, clearing them, and loading them back from the
/// same address restores the original values bit for bit.
#[test]
fn store_clear_load_round_trip() {
    let mut p = Processor::new();
    let mut bus = Bus::default();
    let values = [0x11u8, 0x22, 0x33, 0x44, 0x55];
    for (k, val) in values.iter().enumerate() {
        p.v[k] = *val;
    }
    p.i = 0x300;
    p.process_opcode(0xF455, &mut bus);
    assert_eq!(p.i, 0x305);
    for k in 0..5 {
        p.v[k] = 0;
    }
    p.i = 0x300;
    p.process_opcode(0xF465, &mut bus);
    for (k, val) in values.iter().enumerate() {
        assert_eq!(p.v[k], *val);
    }
}

/// The binary-coded decimal of 255 is the digit sequence 2, 5, 5.
#[test]
fn bcd_of_255() {
    let mut p = Processor::new();
    let mut bus = Bus::default();
    p.v[7] = 255;
    p.i = 0x300;
    p.process_opcode(0xF733, &mut bus);
    assert_eq!(bus.memory.read(0x300), 2);
    assert_eq!(bus.memory.read(0x301), 5);
    assert_eq!(bus.memory.read(0x302), 5);
}

/// Font glyph `0xA` lives at address 50, and holds the expected rows.
#[test]
fn font_glyph_a_address() {
    let mut p = Processor::new();
    let mut bus = Bus::default();
    p.v[0] = 0xA;
    p.process_opcode(0xF029, &mut bus);
    assert_eq!(p.i, 50);
    let glyph: Vec<u8> = (50..55).map(|a| bus.memory.read(a)).collect();
    assert_eq!(glyph, vec![0xF0, 0x90, 0xF0, 0x90, 0x90]);
}

/// `Fx0A` freezes the program counter across steps until a key goes
/// down; the next cycle then writes the key code into the target
/// register and execution resumes.
#[test]
fn key_wait_freezes_until_key_press() {
    let mut machine = Chip8::new();
    machine.load_rom_data(vec![0xF1, 0x0A, 0x63, 0x07]);
    machine.step();
    assert_eq!(machine.processor.pc, 0x202);
    machine.step();
    machine.step();
    assert_eq!(machine.processor.pc, 0x202);
    machine.update_key_state(0xB, true);
    machine.step();
    assert_eq!(machine.processor.v[1], 0xB);
    assert_eq!(machine.processor.v[3], 7);
    assert_eq!(machine.processor.pc, 0x204);
}

/// With the vertical-blank quirk enabled, a sprite draw waits out the
/// next 60Hz boundary, whose tick decrements the delay timer exactly
/// once and raises the flag.
#[test]
fn vblank_wait_ticks_timer_once() {
    let mut p = Processor::new();
    p.vblank_wait = true;
    let mut bus = Bus::default();
    bus.clock.delay_timer = 5;
    p.process_opcode(0xD001, &mut bus);
    assert_eq!(bus.clock.delay_timer, 4);
    assert!(bus.clock.vblank_interrupt);
}

/// Sprite columns past the right edge are clipped, not wrapped into the
/// next row.
#[test]
fn draw_clips_at_right_edge() {
    let mut g = GraphicsBuffer::new();
    g.draw_byte(60, 0, 0xFF);
    let snapshot = g.as_rgb8();
    for col in 60..64 {
        assert_eq!(snapshot[3 * col], 255, "column {col} should be lit");
    }
    // The first pixel of the next row stays dark.
    assert_eq!(snapshot[3 * 64], 0);
}

/// A row drawn at the row just past the bottom edge wraps around to the
/// top of the pixel grid; rows further out are ignored.
#[test]
fn draw_wraps_vertically_by_pixel_count() {
    let mut g = GraphicsBuffer::new();
    g.draw_byte(0, 32, 0x80);
    let snapshot = g.as_rgb8();
    assert_eq!(snapshot[0], 255);
    let mut g2 = GraphicsBuffer::new();
    let hit = g2.draw_byte(0, 33, 0xFF);
    assert!(!hit);
    assert!(g2.as_rgb8().iter().all(|&b| b == 0));
}

/// Changing the foreground color repaints lit pixels and preserves the
/// on/off pattern; same for the background and dark pixels.
#[test]
fn color_changes_preserve_pattern() {
    let mut g = GraphicsBuffer::new();
    g.draw_byte(0, 0, 0x80);
    g.set_foreground_color(RGB8 { r: 1, g: 2, b: 3 });
    let snapshot = g.as_rgb8();
    assert_eq!(&snapshot[0..3], &[1, 2, 3]);
    assert_eq!(&snapshot[3..6], &[0, 0, 0]);
    g.set_background_color(RGB8 { r: 10, g: 20, b: 30 });
    let snapshot = g.as_rgb8();
    assert_eq!(&snapshot[0..3], &[1, 2, 3]);
    assert_eq!(&snapshot[3..6], &[10, 20, 30]);
}

/// A ROM larger than the program space is truncated; a smaller one
/// leaves the rest of the program space zero-filled.
#[test]
fn rom_loading_truncates_and_pads() {
    let mut m = Memory::new();
    m.load_rom(vec![7; 4000]);
    assert_eq!(m.read(0x200), 7);
    assert_eq!(m.read(4095), 7);
    m.load_rom(vec![1, 2]);
    assert_eq!(m.read(0x200), 1);
    assert_eq!(m.read(0x201), 2);
    assert_eq!(m.read(0x202), 0);
    assert_eq!(m.read(4095), 0);
    // The interpreter area, font included, is untouched.
    assert_eq!(m.read(0), 0xF0);
}

/// Reset starts the machine over but carries the two configuration
/// quirks and the screen colors across.
#[test]
fn reset_preserves_quirks_and_colors() {
    let mut machine = Chip8::new();
    machine.processor.shift_quirk_enabled = true;
    machine.processor.vblank_wait = true;
    machine
        .bus
        .graphics
        .set_background_color(RGB8 { r: 9, g: 9, b: 9 });
    machine.load_rom_data(vec![0x60, 0x55]);
    machine.step();
    machine.reset();
    assert_eq!(machine.processor.pc, 0x200);
    assert_eq!(machine.processor.v[0], 0);
    assert!(machine.processor.shift_quirk_enabled);
    assert!(machine.processor.vblank_wait);
    assert_eq!(machine.bus.memory.read(0x200), 0);
    assert_eq!(machine.bus.clock.delay_timer, 0);
    let snapshot = machine.bus.graphics.as_rgb8();
    assert!(snapshot.chunks(3).all(|c| c == [9, 9, 9]));
}

/// `Ex9E` skips when the key named by `Vx` is down; `ExA1` skips when
/// it is up.
#[test]
fn key_skips_follow_pressed_state() {
    let mut p = Processor::new();
    let mut bus = Bus::default();
    bus.input.update(0, true);
    bus.memory.write(p.pc, 0xE0);
    bus.memory.write(p.pc + 1, 0x9E);
    p.cycle(&mut bus);
    assert_eq!(p.pc, 0x204);

    let mut p2 = Processor::new();
    let mut bus2 = Bus::default();
    bus2.memory.write(p2.pc, 0xE0);
    bus2.memory.write(p2.pc + 1, 0xA1);
    p2.cycle(&mut bus2);
    assert_eq!(p2.pc, 0x204);
}

/// An invalid opcode is a no-op that still advances the program
/// counter; a program counter past the end of memory halts the machine.
#[test]
fn invalid_opcode_and_overrun() {
    let mut p = Processor::new();
    let mut bus = Bus::default();
    bus.memory.write(p.pc, 0x01);
    bus.memory.write(p.pc + 1, 0x23);
    p.cycle(&mut bus);
    assert_eq!(p.pc, 0x202);
    assert!(p.v.iter().all(|&v| v == 0));

    p.pc = 4096;
    p.cycle(&mut bus);
    assert_eq!(p.pc, 4096);
}

/// Each executed instruction lands at the front of the bounded history.
#[test]
fn instruction_history_records_cycles() {
    let mut machine = Chip8::new();
    machine.load_rom_data(vec![0x60, 0x2A, 0x61, 0x0C]);
    machine.step();
    machine.step();
    assert_eq!(machine.processor.instructions.len(), 2);
    assert_eq!(machine.processor.instructions[0].address, 0x202);
    assert_eq!(machine.processor.instructions[0].opcode, 0x610C);
    assert_eq!(machine.processor.instructions[1].address, 0x200);
    assert_eq!(machine.processor.instructions[1].opcode, 0x602A);
}

/// A clone of the shared sound timer handle aliases the clock's own
/// sound timer, so the host's audio thread sees the values the program
/// stores.
#[test]
fn sound_timer_handle_aliases_clock() {
    let machine = Chip8::new();
    machine.bus.clock.set_sound_timer(9);
    let handle = machine.bus.clock.sound_timer.clone();
    assert_eq!(handle.load(std::sync::atomic::Ordering::SeqCst), 9);
    handle.store(3, std::sync::atomic::Ordering::SeqCst);
    assert_eq!(machine.bus.clock.sound_timer_value(), 3);
}

/// The bitwise instructions clear `VF` even when it was set before.
#[test]
fn logic_ops_clear_flag() {
    for op in [0x8AB1u16, 0x8AB2, 0x8AB3] {
        let mut p = Processor::new();
        let mut bus = Bus::default();
        p.v[0xA] = 0x0F;
        p.v[0xB] = 0xF0;
        p.v[0xF] = 1;
        p.process_opcode(op as usize, &mut bus);
        assert_eq!(p.v[0xF], 0, "opcode {op:#06X} must clear VF");
    }
}

/// The shift quirk makes `8xy6` and `8xyE` shift a copy of `Vy` instead
/// of `Vx` itself.
#[test]
fn shift_quirk_uses_source_register() {
    let mut p = Processor::new();
    p.shift_quirk_enabled = true;
    let mut bus = Bus::default();
    p.v[0xA] = 0xFF;
    p.v[0xB] = 0x04;
    p.process_opcode(0x8AB6, &mut bus);
    assert_eq!(p.v[0xA], 0x02);
    assert_eq!(p.v[0xF], 0);
}

/// Subroutine calls push the return address; returning restores it and
/// pops the stack, leaving the machine two bytes past the call site.
#[test]
fn call_return_round_trip_via_memory() {
    let mut machine = Chip8::new();
    // 0x200: call 0x204; 0x202: V1 = 0x42; 0x204: return.
    machine.load_rom_data(vec![0x22, 0x04, 0x61, 0x42, 0x00, 0xEE]);
    machine.step();
    assert_eq!(machine.processor.pc, 0x204);
    assert_eq!(machine.processor.sp, 1);
    machine.step();
    assert_eq!(machine.processor.pc, 0x202);
    assert_eq!(machine.processor.sp, 0);
    machine.step();
    assert_eq!(machine.processor.v[1], 0x42);
}

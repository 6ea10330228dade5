//! End-to-end tests driving whole programs through the emulator facade.

use chip8::cpu::Cpu;
use chip8::emulator::Emulator;
use chip8::keyboard::Keyboard;
use chip8::ram::Ram;
use chip8::screen::Screen;
use chip8::timer::Timer;

/// Steps the emulator once, 10 ms after the previous step.
fn step(emulator: &mut Emulator, now_ms: &mut u64) {
    *now_ms += 10;
    assert!(emulator.can_run_instruction(*now_ms));
    assert!(emulator.instruction_is_valid());
    emulator.run_instruction(*now_ms);
}

#[test]
fn load_then_add_immediate() {
    // 6005: v0 = 5; 7005: v0 += 5.
    let mut emulator = Emulator::new(0);
    emulator.load_rom(&[0x60, 0x05, 0x70, 0x05]);
    let mut now: u64 = 0;
    step(&mut emulator, &mut now);
    assert_eq!(emulator.register(0), 5);
    step(&mut emulator, &mut now);
    assert_eq!(emulator.register(0), 10);
    assert_eq!(emulator.program_counter(), 0x204);
}

#[test]
fn add_immediate_wraps_without_flag() {
    // 60FF: v0 = 255; 6F07: vF = 7; 7002: v0 += 2 wraps, flag untouched.
    let mut emulator = Emulator::new(0);
    emulator.load_rom(&[0x60, 0xFF, 0x6F, 0x07, 0x70, 0x02]);
    let mut now: u64 = 0;
    step(&mut emulator, &mut now);
    step(&mut emulator, &mut now);
    step(&mut emulator, &mut now);
    assert_eq!(emulator.register(0), 1);
    assert_eq!(emulator.register(0xF), 7);
}

#[test]
fn add_register_sets_carry() {
    // v0 = 200, v1 = 100, 8014: v0 = (300) mod 256 = 44, vF = 1.
    let mut emulator = Emulator::new(0);
    emulator.load_rom(&[0x60, 0xC8, 0x61, 0x64, 0x80, 0x14]);
    let mut now: u64 = 0;
    step(&mut emulator, &mut now);
    step(&mut emulator, &mut now);
    step(&mut emulator, &mut now);
    assert_eq!(emulator.register(0), 44);
    assert_eq!(emulator.register(0xF), 1);
}

#[test]
fn add_register_clears_carry() {
    // v0 = 20, v1 = 30, 8014: v0 = 50, vF = 0.
    let mut emulator = Emulator::new(0);
    emulator.load_rom(&[0x60, 0x14, 0x61, 0x1E, 0x6F, 0x01, 0x80, 0x14]);
    let mut now: u64 = 0;
    for _ in 0..4 {
        step(&mut emulator, &mut now);
    }
    assert_eq!(emulator.register(0), 50);
    assert_eq!(emulator.register(0xF), 0);
}

#[test]
fn subtract_without_borrow_sets_flag() {
    // v0 = 10, v1 = 5, 8015: v0 = 5, vF = 1 (no borrow).
    let mut emulator = Emulator::new(0);
    emulator.load_rom(&[0x60, 0x0A, 0x61, 0x05, 0x80, 0x15]);
    let mut now: u64 = 0;
    step(&mut emulator, &mut now);
    step(&mut emulator, &mut now);
    step(&mut emulator, &mut now);
    assert_eq!(emulator.register(0), 5);
    assert_eq!(emulator.register(0xF), 1);
}

#[test]
fn subtract_with_borrow_clears_flag() {
    // v0 = 5, v1 = 10, 8015: v0 = 251 (wraps), vF = 0 (borrow).
    let mut emulator = Emulator::new(0);
    emulator.load_rom(&[0x60, 0x05, 0x61, 0x0A, 0x80, 0x15]);
    let mut now: u64 = 0;
    step(&mut emulator, &mut now);
    step(&mut emulator, &mut now);
    step(&mut emulator, &mut now);
    assert_eq!(emulator.register(0), 251);
    assert_eq!(emulator.register(0xF), 0);
}

#[test]
fn subtract_reversed_operands() {
    // v0 = 5, v1 = 10, 8017: v0 = v1 - v0 = 5, vF = 1.
    let mut emulator = Emulator::new(0);
    emulator.load_rom(&[0x60, 0x05, 0x61, 0x0A, 0x80, 0x17]);
    let mut now: u64 = 0;
    step(&mut emulator, &mut now);
    step(&mut emulator, &mut now);
    step(&mut emulator, &mut now);
    assert_eq!(emulator.register(0), 5);
    assert_eq!(emulator.register(0xF), 1);
}

#[test]
fn shift_right_carries_low_bit() {
    // v0 = 5, 8006: v0 = 2, vF = 1 (old least significant bit).
    let mut emulator = Emulator::new(0);
    emulator.load_rom(&[0x60, 0x05, 0x80, 0x06]);
    let mut now: u64 = 0;
    step(&mut emulator, &mut now);
    step(&mut emulator, &mut now);
    assert_eq!(emulator.register(0), 2);
    assert_eq!(emulator.register(0xF), 1);
}

#[test]
fn shift_left_carries_high_bit() {
    // v0 = 0x81, 800E: v0 = 0x02, vF = 1 (old most significant bit).
    let mut emulator = Emulator::new(0);
    emulator.load_rom(&[0x60, 0x81, 0x80, 0x0E]);
    let mut now: u64 = 0;
    step(&mut emulator, &mut now);
    step(&mut emulator, &mut now);
    assert_eq!(emulator.register(0), 2);
    assert_eq!(emulator.register(0xF), 1);
}

#[test]
fn call_then_return_restores_pc() {
    // 2204 at 0x200 calls 0x204; 00EE there returns to 0x202.
    let mut emulator = Emulator::new(0);
    emulator.load_rom(&[0x22, 0x04, 0x00, 0x00, 0x00, 0xEE]);
    let mut now: u64 = 0;
    step(&mut emulator, &mut now);
    assert_eq!(emulator.program_counter(), 0x204);
    step(&mut emulator, &mut now);
    assert_eq!(emulator.program_counter(), 0x202);
}

#[test]
fn jumps_and_skips() {
    // 1206 jumps over two unused words to 0x206; 3000 there skips the
    // next instruction, since v0 == 0 holds.
    let mut emulator = Emulator::new(0);
    emulator.load_rom(&[0x12, 0x06, 0xFF, 0xFF, 0xFF, 0xFF, 0x30, 0x00]);
    let mut now: u64 = 0;
    step(&mut emulator, &mut now);
    assert_eq!(emulator.program_counter(), 0x206);
    step(&mut emulator, &mut now);
    assert_eq!(emulator.program_counter(), 0x20A);
}

#[test]
fn jump_with_offset() {
    // v0 = 0x10, B300: pc = 0x300 + 0x10.
    let mut emulator = Emulator::new(0);
    emulator.load_rom(&[0x60, 0x10, 0xB3, 0x00]);
    let mut now: u64 = 0;
    step(&mut emulator, &mut now);
    step(&mut emulator, &mut now);
    assert_eq!(emulator.program_counter(), 0x310);
}

#[test]
fn clear_after_draw_leaves_dark_screen() {
    // Draw glyph 0 at (0, 0), then 00E0: every cell is 0 again.
    let mut emulator = Emulator::new(0);
    emulator.load_rom(&[0x60, 0x00, 0xA0, 0x00, 0xD0, 0x05, 0x00, 0xE0]);
    let mut now: u64 = 0;
    step(&mut emulator, &mut now);
    step(&mut emulator, &mut now);
    step(&mut emulator, &mut now);
    // Glyph 0 begins with 0xF0: its top row lights columns 0 through 3.
    assert_eq!(emulator.pixel(0, 0), 1);
    assert_eq!(emulator.pixel(3, 0), 1);
    assert_eq!(emulator.pixel(4, 0), 0);
    step(&mut emulator, &mut now);
    assert!(emulator.pixels().iter().all(|&cell| cell == 0));
}

#[test]
fn drawing_twice_reports_collision_and_erases() {
    // Drawing the same glyph twice at the same spot erases it and sets vF.
    let mut emulator = Emulator::new(0);
    emulator.load_rom(&[0xA0, 0x00, 0xD0, 0x05, 0xD0, 0x05]);
    let mut now: u64 = 0;
    step(&mut emulator, &mut now);
    step(&mut emulator, &mut now);
    assert_eq!(emulator.register(0xF), 0);
    step(&mut emulator, &mut now);
    assert_eq!(emulator.register(0xF), 1);
    assert!(emulator.pixels().iter().all(|&cell| cell == 0));
}

#[test]
fn store_then_load_roundtrip() {
    // Fill v0..v2, store them at 0x300, clobber them, load them back.
    let mut emulator = Emulator::new(0);
    emulator.load_rom(&[
        0x60, 0x11, 0x61, 0x22, 0x62, 0x33, // v0 = 0x11, v1 = 0x22, v2 = 0x33
        0xA3, 0x00, // i = 0x300
        0xF2, 0x55, // store v0..=v2
        0x60, 0x00, 0x61, 0x00, 0x62, 0x00, // clobber
        0xF2, 0x65, // load v0..=v2
    ]);
    let mut now: u64 = 0;
    for _ in 0..9 {
        step(&mut emulator, &mut now);
    }
    assert_eq!(emulator.register(0), 0x11);
    assert_eq!(emulator.register(1), 0x22);
    assert_eq!(emulator.register(2), 0x33);
}

#[test]
fn glyph_address_is_five_times_digit() {
    // v0 = 7, F029: i = 35.
    let mut emulator = Emulator::new(0);
    emulator.load_rom(&[0x60, 0x07, 0xF0, 0x29]);
    let mut now: u64 = 0;
    step(&mut emulator, &mut now);
    step(&mut emulator, &mut now);
    assert_eq!(emulator.address_register(), 35);
}

#[test]
fn add_register_to_address() {
    // A100: i = 0x100; v0 = 5; F01E: i = 0x105.
    let mut emulator = Emulator::new(0);
    emulator.load_rom(&[0xA1, 0x00, 0x60, 0x05, 0xF0, 0x1E]);
    let mut now: u64 = 0;
    step(&mut emulator, &mut now);
    step(&mut emulator, &mut now);
    step(&mut emulator, &mut now);
    assert_eq!(emulator.address_register(), 0x105);
}

#[test]
fn random_byte_is_masked() {
    // C000: v0 = random & 0x00 is always 0; C00F fits in the low nibble.
    let mut emulator = Emulator::new(0);
    emulator.load_rom(&[0xC0, 0x00, 0xC1, 0x0F]);
    let mut now: u64 = 0;
    step(&mut emulator, &mut now);
    assert_eq!(emulator.register(0), 0);
    step(&mut emulator, &mut now);
    assert!(emulator.register(1) <= 0x0F);
}

#[test]
fn delay_timer_set_and_read_back() {
    // v3 = 5, F315 sets the delay; F407 reads it back within the same tick.
    let mut emulator = Emulator::new(0);
    emulator.load_rom(&[0x63, 0x05, 0xF3, 0x15, 0xF4, 0x07]);
    let mut now: u64 = 0;
    step(&mut emulator, &mut now);
    step(&mut emulator, &mut now);
    step(&mut emulator, &mut now);
    assert_eq!(emulator.register(4), 5);
    assert_eq!(emulator.get_delay(now), 5);
    // One tick after the set-point the derived value has dropped by one.
    assert_eq!(emulator.get_delay(now + 16), 4);
}

#[test]
fn skip_if_key_pressed() {
    // v0 = 5; E09E skips when key 5 is latched.
    let mut emulator = Emulator::new(0);
    emulator.load_rom(&[0x60, 0x05, 0xE0, 0x9E]);
    emulator.press_key(5, 0);
    let mut now: u64 = 0;
    step(&mut emulator, &mut now);
    step(&mut emulator, &mut now);
    assert_eq!(emulator.program_counter(), 0x206);
}

#[test]
fn skip_if_key_not_pressed() {
    // v0 = 5; E0A1 skips when key 5 is not latched.
    let mut emulator = Emulator::new(0);
    emulator.load_rom(&[0x60, 0x05, 0xE0, 0xA1]);
    emulator.press_key(4, 0);
    let mut now: u64 = 0;
    step(&mut emulator, &mut now);
    step(&mut emulator, &mut now);
    assert_eq!(emulator.program_counter(), 0x206);
}

#[test]
fn wait_key_blocks_until_press() {
    // F00A holds the program counter until a key is latched.
    let mut emulator = Emulator::new(0);
    emulator.load_rom(&[0xF0, 0x0A]);
    let mut now: u64 = 0;
    step(&mut emulator, &mut now);
    assert_eq!(emulator.program_counter(), 0x200);
    emulator.press_key(7, now);
    step(&mut emulator, &mut now);
    assert_eq!(emulator.program_counter(), 0x202);
    assert_eq!(emulator.register(0), 7);
}

#[test]
fn sound_timer_write_is_accepted_without_effect() {
    // F018 only advances the program counter.
    let mut emulator = Emulator::new(0);
    emulator.load_rom(&[0xF0, 0x18]);
    let mut now: u64 = 0;
    step(&mut emulator, &mut now);
    assert_eq!(emulator.program_counter(), 0x202);
}

#[test]
fn invalid_encodings_are_detected() {
    // FFFF matches no pattern; 00EE with an empty stack underflows.
    let mut emulator = Emulator::new(0);
    emulator.load_rom(&[0xFF, 0xFF]);
    assert!(!emulator.instruction_is_valid());

    let mut ret_without_call = Emulator::new(0);
    ret_without_call.load_rom(&[0x00, 0xEE]);
    assert!(!ret_without_call.instruction_is_valid());

    let mut fine = Emulator::new(0);
    fine.load_rom(&[0x60, 0x05]);
    assert!(fine.instruction_is_valid());
}

#[test]
fn instruction_interval_gate() {
    let mut emulator = Emulator::new(0);
    emulator.load_rom(&[0x60, 0x05, 0x60, 0x06]);
    assert!(!emulator.can_run_instruction(1));
    assert!(!emulator.can_run_instruction(2));
    assert!(emulator.can_run_instruction(3));
    emulator.run_instruction(3);
    assert!(!emulator.can_run_instruction(5));
    assert!(emulator.can_run_instruction(6));
}

#[test]
fn display_gate_and_flush() {
    let mut emulator = Emulator::new(0);
    assert!(!emulator.can_display(10));
    assert!(emulator.can_display(11));
    emulator.mark_displayed(11);
    assert!(!emulator.can_display(21));
    assert!(emulator.can_display(22));
}

#[test]
fn key_latch_through_facade() {
    let mut emulator = Emulator::new(0);
    emulator.press_key(3, 0);
    assert!(!emulator.can_reset_pressed_key(199));
    assert!(emulator.can_reset_pressed_key(200));
    emulator.reset_pressed_key(200);
    assert!(!emulator.can_reset_pressed_key(500));
}

#[test]
fn bcd_decomposition_writes_digits() {
    // Driving the engine directly exposes memory for inspection.
    let mut cpu = Cpu::new(0);
    let mut ram = Ram::new();
    ram.load_digit_sprites();
    let mut timer = Timer::new(0);
    let mut screen = Screen::new(0);
    let keyboard = Keyboard::new(0);
    // v0 = 251, i = 0x300, F033.
    ram.load_rom(&[0x60, 0xFB, 0xA3, 0x00, 0xF0, 0x33]);
    cpu.run_instruction(&mut ram, &mut timer, &mut screen, &keyboard, 0, 10);
    cpu.run_instruction(&mut ram, &mut timer, &mut screen, &keyboard, 0, 20);
    cpu.run_instruction(&mut ram, &mut timer, &mut screen, &keyboard, 0, 30);
    assert_eq!(ram.read(0x300), 2);
    assert_eq!(ram.read(0x301), 5);
    assert_eq!(ram.read(0x302), 1);
}

#[test]
fn block_store_writes_memory_inclusively() {
    let mut cpu = Cpu::new(0);
    let mut ram = Ram::new();
    ram.load_digit_sprites();
    let mut timer = Timer::new(0);
    let mut screen = Screen::new(0);
    let keyboard = Keyboard::new(0);
    // v0 = 0xAA, v1 = 0xBB, i = 0x300, F155 stores both.
    ram.load_rom(&[0x60, 0xAA, 0x61, 0xBB, 0xA3, 0x00, 0xF1, 0x55]);
    for k in 0..4 {
        cpu.run_instruction(&mut ram, &mut timer, &mut screen, &keyboard, 0, 10 * (k + 1));
    }
    assert_eq!(ram.read(0x300), 0xAA);
    assert_eq!(ram.read(0x301), 0xBB);
    assert_eq!(ram.read(0x302), 0);
}

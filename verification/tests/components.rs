//! Component-level tests: framebuffer, timer, key latch, memory, decoder.

use chip8::cpu::Instr;
use chip8::cpu::decode_instr;
use chip8::keyboard::Keyboard;
use chip8::ram::Ram;
use chip8::screen::Screen;
use chip8::timer::Timer;

#[test]
fn draw_byte_sets_pixels_most_significant_first() {
    let mut screen = Screen::new(0);
    let erased = screen.draw_byte(0b1010_0000, 3, 4);
    assert!(!erased);
    assert_eq!(screen.pixel(3, 4), 1);
    assert_eq!(screen.pixel(4, 4), 0);
    assert_eq!(screen.pixel(5, 4), 1);
    assert_eq!(screen.pixel(6, 4), 0);
}

#[test]
fn draw_byte_twice_restores_and_reports_erasure() {
    let mut screen = Screen::new(0);
    let first = screen.draw_byte(0xFF, 3, 4);
    assert!(!first);
    for col in 3..11 {
        assert_eq!(screen.pixel(col, 4), 1);
    }
    let second = screen.draw_byte(0xFF, 3, 4);
    assert!(second);
    assert!(screen.pixels().iter().all(|&cell| cell == 0));
}

#[test]
fn draw_byte_wraps_at_right_edge() {
    let mut screen = Screen::new(0);
    screen.draw_byte(0xFF, 63, 0);
    assert_eq!(screen.pixel(63, 0), 1);
    for col in 0..7 {
        assert_eq!(screen.pixel(col, 0), 1);
    }
    assert_eq!(screen.pixel(7, 0), 0);
}

#[test]
fn draw_byte_wraps_vertically() {
    let mut screen = Screen::new(0);
    screen.draw_byte(0x80, 0, 33);
    assert_eq!(screen.pixel(0, 1), 1);
    assert_eq!(screen.pixel(0, 0), 0);
}

#[test]
fn clear_darkens_everything() {
    let mut screen = Screen::new(0);
    screen.draw_byte(0xFF, 0, 0);
    screen.draw_byte(0xFF, 20, 31);
    screen.clear();
    assert!(screen.pixels().iter().all(|&cell| cell == 0));
}

#[test]
fn timer_counts_down_in_sixteen_ms_ticks() {
    let mut timer = Timer::new(0);
    timer.set_delay(5, 1000);
    assert_eq!(timer.get_delay(1000), 5);
    assert_eq!(timer.get_delay(1016), 4);
    assert_eq!(timer.get_delay(1079), 1);
    assert_eq!(timer.get_delay(1080), 0);
    assert_eq!(timer.get_delay(60_000), 0);
}

#[test]
fn timer_never_exceeds_set_point() {
    let mut timer = Timer::new(0);
    timer.set_delay(3, 5000);
    // A query timestamped before the set-point still reads the set value.
    assert_eq!(timer.get_delay(4000), 3);
    for t in 0..200u64 {
        assert!(timer.get_delay(5000 + t) <= 3);
    }
}

#[test]
fn fresh_timer_reads_zero() {
    let timer = Timer::new(42);
    assert_eq!(timer.get_delay(42), 0);
    assert_eq!(timer.get_delay(100_000), 0);
}

#[test]
fn key_latch_press_query_and_debounced_clear() {
    let mut keyboard = Keyboard::new(0);
    assert!(!keyboard.is_key_pressed(0));
    keyboard.press_key(3, 100);
    assert!(keyboard.is_key_pressed(3));
    assert!(!keyboard.is_key_pressed(4));
    assert!(!keyboard.can_reset_pressed_key(299));
    assert!(keyboard.can_reset_pressed_key(300));
    keyboard.reset_pressed_key(300);
    assert!(!keyboard.is_key_pressed(3));
    assert!(!keyboard.can_reset_pressed_key(10_000));
}

#[test]
fn repressing_resets_the_hold_window() {
    let mut keyboard = Keyboard::new(0);
    keyboard.press_key(3, 0);
    keyboard.press_key(5, 150);
    assert!(keyboard.is_key_pressed(5));
    assert!(!keyboard.is_key_pressed(3));
    assert!(!keyboard.can_reset_pressed_key(200));
    assert!(keyboard.can_reset_pressed_key(350));
}

#[test]
fn memory_read_write() {
    let mut ram = Ram::new();
    assert_eq!(ram.read(0x300), 0);
    ram.write(0x300, 0xAB);
    assert_eq!(ram.read(0x300), 0xAB);
    assert_eq!(ram.read(0x2FF), 0);
    assert_eq!(ram.read(0x301), 0);
}

#[test]
fn glyph_sprites_fill_the_first_eighty_bytes() {
    let mut ram = Ram::new();
    ram.load_digit_sprites();
    // Digit 0 starts with 0xF0; digit 1 begins at offset 5 with 0x20;
    // digit F ends with 0x80.
    assert_eq!(ram.read(0), 0xF0);
    assert_eq!(ram.read(5), 0x20);
    assert_eq!(ram.read(79), 0x80);
    assert_eq!(ram.read(80), 0);
}

#[test]
fn rom_loads_at_program_origin() {
    let mut ram = Ram::new();
    ram.load_digit_sprites();
    ram.load_rom(&[0xDE, 0xAD, 0xBE, 0xEF]);
    assert_eq!(ram.read(0x200), 0xDE);
    assert_eq!(ram.read(0x203), 0xEF);
    assert_eq!(ram.read(0x204), 0);
    // The glyph region is untouched.
    assert_eq!(ram.read(0), 0xF0);
}

#[test]
fn decoder_recognizes_each_family() {
    assert_eq!(decode_instr(0x00E0), Some(Instr::ClearScreen));
    assert_eq!(decode_instr(0x00EE), Some(Instr::Ret));
    assert_eq!(decode_instr(0x1234), Some(Instr::Jump { nnn: 0x234 }));
    assert_eq!(decode_instr(0x2345), Some(Instr::Call { nnn: 0x345 }));
    assert_eq!(decode_instr(0x3A7F), Some(Instr::SkipEqImm { x: 0xA, nn: 0x7F }));
    assert_eq!(decode_instr(0x4A7F), Some(Instr::SkipNeImm { x: 0xA, nn: 0x7F }));
    assert_eq!(decode_instr(0x5AB0), Some(Instr::SkipEqReg { x: 0xA, y: 0xB }));
    assert_eq!(decode_instr(0x6A7F), Some(Instr::LoadImm { x: 0xA, nn: 0x7F }));
    assert_eq!(decode_instr(0x7A7F), Some(Instr::AddImm { x: 0xA, nn: 0x7F }));
    assert_eq!(decode_instr(0x8AB0), Some(Instr::Copy { x: 0xA, y: 0xB }));
    assert_eq!(decode_instr(0x8AB1), Some(Instr::Or { x: 0xA, y: 0xB }));
    assert_eq!(decode_instr(0x8AB2), Some(Instr::And { x: 0xA, y: 0xB }));
    assert_eq!(decode_instr(0x8AB3), Some(Instr::Xor { x: 0xA, y: 0xB }));
    assert_eq!(decode_instr(0x8AB4), Some(Instr::AddReg { x: 0xA, y: 0xB }));
    assert_eq!(decode_instr(0x8AB5), Some(Instr::SubReg { x: 0xA, y: 0xB }));
    assert_eq!(decode_instr(0x8AB6), Some(Instr::ShiftRight { x: 0xA }));
    assert_eq!(decode_instr(0x8AB7), Some(Instr::SubFrom { x: 0xA, y: 0xB }));
    assert_eq!(decode_instr(0x8ABE), Some(Instr::ShiftLeft { x: 0xA }));
    assert_eq!(decode_instr(0x9AB0), Some(Instr::SkipNeReg { x: 0xA, y: 0xB }));
    assert_eq!(decode_instr(0xA123), Some(Instr::LoadI { nnn: 0x123 }));
    assert_eq!(decode_instr(0xB123), Some(Instr::JumpOffset { nnn: 0x123 }));
    assert_eq!(decode_instr(0xCA55), Some(Instr::Random { x: 0xA, nn: 0x55 }));
    assert_eq!(decode_instr(0xDAB7), Some(Instr::Draw { x: 0xA, y: 0xB, n: 7 }));
    assert_eq!(decode_instr(0xEA9E), Some(Instr::SkipIfKey { x: 0xA }));
    assert_eq!(decode_instr(0xEAA1), Some(Instr::SkipIfNotKey { x: 0xA }));
    assert_eq!(decode_instr(0xFA07), Some(Instr::ReadDelay { x: 0xA }));
    assert_eq!(decode_instr(0xFA0A), Some(Instr::WaitKey { x: 0xA }));
    assert_eq!(decode_instr(0xFA15), Some(Instr::SetDelay { x: 0xA }));
    assert_eq!(decode_instr(0xFA18), Some(Instr::SetSound { x: 0xA }));
    assert_eq!(decode_instr(0xFA1E), Some(Instr::AddToI { x: 0xA }));
    assert_eq!(decode_instr(0xFA29), Some(Instr::GlyphAddr { x: 0xA }));
    assert_eq!(decode_instr(0xFA33), Some(Instr::StoreBcd { x: 0xA }));
    assert_eq!(decode_instr(0xFA55), Some(Instr::StoreRegs { x: 0xA }));
    assert_eq!(decode_instr(0xFA65), Some(Instr::LoadRegs { x: 0xA }));
}

#[test]
fn decoder_rejects_unused_patterns() {
    assert_eq!(decode_instr(0x0000), None);
    assert_eq!(decode_instr(0x00E1), None);
    assert_eq!(decode_instr(0x5AB1), None);
    assert_eq!(decode_instr(0x8AB8), None);
    assert_eq!(decode_instr(0x8ABF), None);
    assert_eq!(decode_instr(0x9AB5), None);
    assert_eq!(decode_instr(0xEA00), None);
    assert_eq!(decode_instr(0xFFFF), None);
    assert_eq!(decode_instr(0xFA16), None);
}

#[test]
fn screen_display_gate() {
    let mut screen = Screen::new(0);
    assert!(!screen.can_display(10));
    assert!(screen.can_display(11));
    screen.mark_displayed(11);
    assert!(!screen.can_display(21));
    assert!(screen.can_display(22));
}

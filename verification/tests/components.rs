use chip8::memory::{load_font, Memory};
use chip8::opcode::Opcode;
use chip8::display::Display;
use chip8::keypad::{Key, Keypad};
use chip8::program_counter::ProgramCounter;
use chip8::stack::Stack;
use chip8::timer::Timer;

#[test]
fn opcode_from_word_splits_nibbles() {
    let op = Opcode::from_word(0xD123);
    assert_eq!(op.category, 0xD);
    assert_eq!(op.x, 0x1);
    assert_eq!(op.y, 0x2);
    assert_eq!(op.n, 0x3);
}

#[test]
fn opcode_kk_is_low_byte() {
    let op = Opcode::from_word(0x6ABC);
    assert_eq!(op.kk(), 0xBC);
}

#[test]
fn opcode_nnn_is_low_twelve_bits() {
    let op = Opcode::from_word(0x1ABC);
    assert_eq!(op.nnn(), 0x0ABC);
}

#[test]
fn memory_round_trips_bytes() {
    let mut memory = Memory::new();
    assert_eq!(memory.get_as_u8(0x300), 0);
    memory.set(0x300, 0xAB);
    assert_eq!(memory.get_as_u8(0x300), 0xAB);
}

#[test]
fn memory_reads_big_endian_words() {
    let mut memory = Memory::new();
    memory.set(0x300, 0x12);
    memory.set(0x301, 0x34);
    assert_eq!(memory.get_as_u16(0x300), 0x1234);
}

#[test]
fn font_lands_at_the_font_base() {
    let mut memory = Memory::new();
    load_font(&mut memory);
    assert_eq!(memory.get_as_u8(0x50), 0xF0);
    assert_eq!(memory.get_as_u8(0x9F), 0x80);
    // the glyph for 1 starts one glyph (five bytes) above the base
    assert_eq!(memory.get_as_u8(0x55), 0x20);
    // bytes outside the font region stay zero
    assert_eq!(memory.get_as_u8(0x4F), 0);
    assert_eq!(memory.get_as_u8(0xA0), 0);
}

#[test]
fn program_counter_starts_at_program_start() {
    let pc = ProgramCounter::new();
    assert_eq!(pc.get(), 0x200);
}

#[test]
fn program_counter_moves_in_steps_of_two() {
    let mut pc = ProgramCounter::new();
    pc.increment();
    assert_eq!(pc.get(), 0x202);
    pc.decrement();
    assert_eq!(pc.get(), 0x200);
    pc.set(0x456);
    assert_eq!(pc.get(), 0x456);
}

#[test]
fn stack_pops_in_reverse_push_order() {
    let mut stack = Stack::new();
    stack.push(0x200);
    stack.push(0x300);
    assert_eq!(stack.len(), 2);
    assert_eq!(stack.pop(), 0x300);
    assert_eq!(stack.pop(), 0x200);
    assert_eq!(stack.len(), 0);
}

#[test]
fn timer_set_get_tick() {
    let mut timer = Timer::new();
    assert_eq!(timer.get(), 0);
    timer.set(3);
    timer.tick();
    assert_eq!(timer.get(), 2);
}

#[test]
fn timer_floors_at_zero_over_many_ticks() {
    let mut timer = Timer::new();
    timer.set(5);
    let mut i = 0;
    while i < 300 {
        timer.tick();
        i += 1;
    }
    assert_eq!(timer.get(), 0);
}

#[test]
fn keypad_tracks_key_state() {
    let mut keypad = Keypad::new();
    assert!(!keypad.is_key_down(0x7));
    keypad.key_down(Key::Key7);
    assert!(keypad.is_key_down(0x7));
    keypad.key_up(Key::Key7);
    assert!(!keypad.is_key_down(0x7));
}

#[test]
fn keypad_reports_lowest_down_key() {
    let mut keypad = Keypad::new();
    assert_eq!(keypad.get_any_key_down(), None);
    keypad.key_down(Key::KeyB);
    keypad.key_down(Key::Key4);
    assert_eq!(keypad.get_any_key_down(), Some(4));
}

#[test]
fn keypad_latch_waits_for_release() {
    let mut keypad = Keypad::new();
    // nothing down: polling latches nothing and reports nothing
    assert_eq!(keypad.get_any_key_up(), None);
    assert_eq!(keypad.get_any_key_up(), None);
    // a key goes down: the first poll latches it, reporting nothing
    keypad.key_down(Key::Key9);
    assert_eq!(keypad.get_any_key_up(), None);
    // still held: nothing reported
    assert_eq!(keypad.get_any_key_up(), None);
    // released: the next poll reports it and clears the latch
    keypad.key_up(Key::Key9);
    assert_eq!(keypad.get_any_key_up(), Some(9));
    assert_eq!(keypad.get_any_key_up(), None);
}

#[test]
fn display_reports_dimensions() {
    let display = Display::new(64, 32);
    assert_eq!(display.width(), 64);
    assert_eq!(display.height(), 32);
}

#[test]
fn flip_pixel_toggles_and_reports_new_state() {
    let mut display = Display::new(64, 32);
    assert!(!display.is_pixel_on(3, 5));
    // off -> on: reports on
    assert!(display.flip_pixel(3, 5));
    assert!(display.is_pixel_on(3, 5));
    // on -> off: reports off (a collision for the interpreter)
    assert!(!display.flip_pixel(3, 5));
    assert!(!display.is_pixel_on(3, 5));
}

#[test]
fn clear_turns_every_pixel_off() {
    let mut display = Display::new(64, 32);
    display.flip_pixel(0, 0);
    display.flip_pixel(63, 31);
    display.clear();
    let mut y = 0;
    while y < 32 {
        let mut x = 0;
        while x < 64 {
            assert!(!display.is_pixel_on(x, y));
            x += 1;
        }
        y += 1;
    }
}

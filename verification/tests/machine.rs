use chip8::display::Display;
use chip8::keypad::Key;
use chip8::memory::Memory;
use chip8::processor::{Chip8, Chip8Error, CycleOutcome};

fn boot(rom: &[u8]) -> Chip8 {
    let mut cpu = Chip8::new(Memory::new());
    cpu.load(&rom.to_vec()).unwrap();
    cpu
}

#[test]
fn cycle_fetches_decodes_executes_and_ticks() {
    // 6A2B: VA = 0x2B; then the timers tick once per cycle
    let mut cpu = boot(&[0x6A, 0x2B, 0xF5, 0x15, 0x00, 0x00]);
    let mut display = Display::new(64, 32);
    let outcome = cpu.emulate_cycle(&mut display).unwrap();
    assert_eq!(outcome, CycleOutcome { redraw: false, unsupported: None });
    assert_eq!(cpu.get_register(0xA), 0x2B);
    assert_eq!(cpu.get_program_counter(), 0x202);
    // F515: delay timer = V5 (0), set before the tick so it stays 0
    cpu.emulate_cycle(&mut display).unwrap();
    assert_eq!(cpu.get_delay_timer(), 0);
}

#[test]
fn delay_timer_is_set_then_ticked_in_the_same_cycle() {
    // 6005: V0 = 5; F015: delay = V0, then this cycle's tick brings it to 4
    let mut cpu = boot(&[0x60, 0x05, 0xF0, 0x15, 0xF1, 0x07]);
    let mut display = Display::new(64, 32);
    cpu.emulate_cycle(&mut display).unwrap();
    cpu.emulate_cycle(&mut display).unwrap();
    assert_eq!(cpu.get_delay_timer(), 4);
    // F107: V1 reads the delay timer before that cycle's tick
    cpu.emulate_cycle(&mut display).unwrap();
    assert_eq!(cpu.get_register(1), 4);
    assert_eq!(cpu.get_delay_timer(), 3);
}

#[test]
fn sound_timer_counts_down() {
    // 6003: V0 = 3; F018: sound = V0 then tick -> 2
    let mut cpu = boot(&[0x60, 0x03, 0xF0, 0x18]);
    let mut display = Display::new(64, 32);
    cpu.emulate_cycle(&mut display).unwrap();
    cpu.emulate_cycle(&mut display).unwrap();
    assert_eq!(cpu.get_sound_timer(), 2);
}

#[test]
fn jump_and_skip_instructions_steer_the_counter() {
    // 1208: jump to 0x208
    let mut cpu = boot(&[0x12, 0x08]);
    let mut display = Display::new(64, 32);
    cpu.emulate_cycle(&mut display).unwrap();
    assert_eq!(cpu.get_program_counter(), 0x208);

    // 3xkk skips when equal
    let mut cpu = boot(&[0x60, 0x07, 0x30, 0x07]);
    cpu.emulate_cycle(&mut display).unwrap();
    cpu.emulate_cycle(&mut display).unwrap();
    assert_eq!(cpu.get_program_counter(), 0x206);

    // 4xkk skips when not equal
    let mut cpu = boot(&[0x60, 0x07, 0x40, 0x07]);
    cpu.emulate_cycle(&mut display).unwrap();
    cpu.emulate_cycle(&mut display).unwrap();
    assert_eq!(cpu.get_program_counter(), 0x204);

    // 5xy0 / 9xy0 compare two registers
    let mut cpu = boot(&[0x60, 0x07, 0x61, 0x07, 0x50, 0x10, 0x00, 0x00, 0x90, 0x10]);
    cpu.emulate_cycle(&mut display).unwrap();
    cpu.emulate_cycle(&mut display).unwrap();
    cpu.emulate_cycle(&mut display).unwrap();
    assert_eq!(cpu.get_program_counter(), 0x208);
    cpu.emulate_cycle(&mut display).unwrap();
    assert_eq!(cpu.get_program_counter(), 0x20A);

    // Bnnn jumps to nnn + V0
    let mut cpu = boot(&[0x60, 0x04, 0xB3, 0x00]);
    cpu.emulate_cycle(&mut display).unwrap();
    cpu.emulate_cycle(&mut display).unwrap();
    assert_eq!(cpu.get_program_counter(), 0x304);
}

#[test]
fn call_and_return_use_the_stack() {
    // 2300: call 0x300; there a 00EE returns past the call site
    let mut display = Display::new(64, 32);
    let mut rom = vec![0u8; 0x102];
    rom[0] = 0x23;
    rom[1] = 0x00;
    rom[0x100] = 0x00;
    rom[0x101] = 0xEE;
    let mut cpu = boot(&rom);
    cpu.emulate_cycle(&mut display).unwrap();
    assert_eq!(cpu.get_program_counter(), 0x300);
    cpu.emulate_cycle(&mut display).unwrap();
    assert_eq!(cpu.get_program_counter(), 0x202);
}

#[test]
fn key_skip_instructions_read_the_pad() {
    // 6005, E09E: skip if key 5 down; then E0A1: skip if key 5 up
    let mut cpu = boot(&[0x60, 0x05, 0xE0, 0x9E, 0xE0, 0xA1]);
    let mut display = Display::new(64, 32);
    cpu.handle_key_down(Key::Key5);
    cpu.emulate_cycle(&mut display).unwrap();
    cpu.emulate_cycle(&mut display).unwrap();
    assert_eq!(cpu.get_program_counter(), 0x206); // skipped past 0x204
    cpu.handle_key_up(Key::Key5);
    let mut cpu = boot(&[0x60, 0x05, 0xE0, 0xA1]);
    cpu.emulate_cycle(&mut display).unwrap();
    cpu.emulate_cycle(&mut display).unwrap();
    assert_eq!(cpu.get_program_counter(), 0x206); // key up: A1 skips
}

#[test]
fn wait_instruction_blocks_until_a_release() {
    // F00A at 0x200: with no keys the counter never moves past the wait
    let mut cpu = boot(&[0xF0, 0x0A]);
    let mut display = Display::new(64, 32);
    for _ in 0..10 {
        cpu.emulate_cycle(&mut display).unwrap();
        assert_eq!(cpu.get_program_counter(), 0x200);
    }
    // a key goes down: one cycle latches it, the counter still replays
    cpu.handle_key_down(Key::Key3);
    cpu.emulate_cycle(&mut display).unwrap();
    assert_eq!(cpu.get_program_counter(), 0x200);
    // held: still waiting
    cpu.emulate_cycle(&mut display).unwrap();
    assert_eq!(cpu.get_program_counter(), 0x200);
    // released: the next cycle stores the key and moves on
    cpu.handle_key_up(Key::Key3);
    cpu.emulate_cycle(&mut display).unwrap();
    assert_eq!(cpu.get_register(0), 3);
    assert_eq!(cpu.get_program_counter(), 0x202);
}

#[test]
fn unsupported_opcode_is_a_soft_no_op() {
    // 0x0123 matches neither 00E0 nor 00EE: reported, counter advances
    let mut cpu = boot(&[0x01, 0x23]);
    let mut display = Display::new(64, 32);
    let outcome = cpu.emulate_cycle(&mut display).unwrap();
    assert_eq!(outcome, CycleOutcome { redraw: false, unsupported: Some(0x0123) });
    assert_eq!(cpu.get_program_counter(), 0x202);
}

#[test]
fn draw_cycle_reports_a_redraw() {
    // A208: I = 0x208 (sprite bytes inside the ROM); D011: draw one row
    let rom = vec![0x60, 0x00, 0x61, 0x00, 0xA2, 0x08, 0xD0, 0x11, 0xFF, 0x00];
    let mut cpu = boot(&rom);
    let mut display = Display::new(64, 32);
    cpu.emulate_cycle(&mut display).unwrap();
    cpu.emulate_cycle(&mut display).unwrap();
    cpu.emulate_cycle(&mut display).unwrap();
    let outcome = cpu.emulate_cycle(&mut display).unwrap();
    assert_eq!(outcome, CycleOutcome { redraw: true, unsupported: None });
    assert!(display.is_pixel_on(0, 0));
    assert!(display.is_pixel_on(7, 0));
    assert!(!display.is_pixel_on(8, 0));
}

#[test]
fn fetch_past_the_end_of_memory_is_fatal() {
    // 1FFF: jump to 0xFFF; the next fetch would read past 0xFFF
    let mut cpu = boot(&[0x1F, 0xFF]);
    let mut display = Display::new(64, 32);
    cpu.emulate_cycle(&mut display).unwrap();
    let err = cpu.emulate_cycle(&mut display).unwrap_err();
    assert_eq!(err, Chip8Error::OutOfBounds(0xFFF));
    // the fault changes nothing: the counter still points at the bad fetch
    assert_eq!(cpu.get_program_counter(), 0xFFF);
}

#[test]
fn return_with_an_empty_stack_is_fatal() {
    let mut cpu = boot(&[0x00, 0xEE]);
    let mut display = Display::new(64, 32);
    let err = cpu.emulate_cycle(&mut display).unwrap_err();
    assert_eq!(err, Chip8Error::StackUnderflow);
    assert_eq!(cpu.get_program_counter(), 0x200);
}

#[test]
fn key_index_past_fifteen_is_fatal() {
    // 6010: V0 = 16; E09E asks about key 16
    let mut cpu = boot(&[0x60, 0x10, 0xE0, 0x9E]);
    let mut display = Display::new(64, 32);
    cpu.emulate_cycle(&mut display).unwrap();
    let err = cpu.emulate_cycle(&mut display).unwrap_err();
    assert_eq!(err, Chip8Error::KeyOutOfRange(16));
}

#[test]
fn bcd_store_past_the_end_of_memory_is_fatal() {
    // AFFE: I = 0xFFE; F033 would write 0xFFE..0x1000
    let mut cpu = boot(&[0xAF, 0xFE, 0xF0, 0x33]);
    let mut display = Display::new(64, 32);
    cpu.emulate_cycle(&mut display).unwrap();
    let err = cpu.emulate_cycle(&mut display).unwrap_err();
    assert_eq!(err, Chip8Error::OutOfBounds(0xFFE));
}

#[test]
fn register_dump_past_the_end_of_memory_is_fatal() {
    // AFFE: I = 0xFFE; F255 writes V0..V2 at 0xFFE..0x1000
    let mut cpu = boot(&[0xAF, 0xFE, 0xF2, 0x55]);
    let mut display = Display::new(64, 32);
    cpu.emulate_cycle(&mut display).unwrap();
    let err = cpu.emulate_cycle(&mut display).unwrap_err();
    assert_eq!(err, Chip8Error::OutOfBounds(0xFFE));
}

#[test]
fn sprite_read_past_the_end_of_memory_is_fatal() {
    // AFFE: I = 0xFFE; D013 would read three sprite rows from 0xFFE
    let mut cpu = boot(&[0xAF, 0xFE, 0xD0, 0x13]);
    let mut display = Display::new(64, 32);
    cpu.emulate_cycle(&mut display).unwrap();
    let err = cpu.emulate_cycle(&mut display).unwrap_err();
    assert_eq!(err, Chip8Error::OutOfBounds(0xFFE));
}

#[test]
fn oversized_rom_is_rejected_whole() {
    let mut cpu = Chip8::new(Memory::new());
    let rom = vec![0xAB; 3585];
    assert_eq!(cpu.load(&rom), Err(Chip8Error::RomTooLarge));
    // nothing was copied
    assert_eq!(cpu.read_memory(0x200), 0);
    // the largest legal image loads
    let rom = vec![0xCD; 3584];
    assert_eq!(cpu.load(&rom), Ok(()));
    assert_eq!(cpu.read_memory(0x200), 0xCD);
    assert_eq!(cpu.read_memory(0xFFF), 0xCD);
}

#[test]
fn random_masked_with_zero_stays_zero_through_a_cycle() {
    // C0 00: Vx = random & 0x00 == 0, whatever was drawn
    let mut cpu = boot(&[0x60, 0x55, 0xC0, 0x00]);
    let mut display = Display::new(64, 32);
    cpu.emulate_cycle(&mut display).unwrap();
    assert_eq!(cpu.get_register(0), 0x55);
    cpu.emulate_cycle(&mut display).unwrap();
    assert_eq!(cpu.get_register(0), 0);
}

#[test]
fn clear_screen_cycle_blanks_the_surface() {
    let mut cpu = boot(&[0x00, 0xE0]);
    let mut display = Display::new(64, 32);
    display.flip_pixel(1, 1);
    display.flip_pixel(60, 30);
    cpu.emulate_cycle(&mut display).unwrap();
    let mut y = 0;
    while y < 32 {
        let mut x = 0;
        while x < 64 {
            assert!(!display.is_pixel_on(x, y));
            x += 1;
        }
        y += 1;
    }
    assert_eq!(cpu.get_program_counter(), 0x202);
}

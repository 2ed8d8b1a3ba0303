use chip8::display::Display;
use chip8::memory::Memory;
use chip8::opcode::Opcode;
use chip8::processor::Chip8;

fn fresh() -> Chip8 {
    Chip8::new(Memory::new())
}

fn opc(category: u8, x: usize, y: usize, n: u8) -> Opcode {
    Opcode { category, x, y, n }
}

#[test]
fn add_immediate_wraps_without_touching_vf() {
    // 7xkk over the whole byte range: spot the wrap point exactly
    let mut cpu = fresh();
    cpu.op_6xkk(&opc(0x6, 0, 0xF, 0xA)); // V0 = 0xFA
    cpu.op_6xkk(&opc(0x6, 0xF, 0x3, 0x7)); // VF = 0x37 (sentinel)
    cpu.op_7xkk(&opc(0x7, 0, 0x0, 0x8)); // V0 += 0x08 -> 0x02, wrapped
    assert_eq!(cpu.get_register(0), 0x02);
    assert_eq!(cpu.get_register(0xF), 0x37); // VF untouched
    cpu.op_7xkk(&opc(0x7, 0, 0x0, 0x1)); // V0 += 1 without wrap
    assert_eq!(cpu.get_register(0), 0x03);
    assert_eq!(cpu.get_register(0xF), 0x37);
}

#[test]
fn add_register_sets_carry_exactly_on_overflow() {
    // 8xy4: Vx=0xFF, Vy=0x02 -> Vx=0x01, VF=1
    let mut cpu = fresh();
    cpu.op_6xkk(&opc(0x6, 0, 0xF, 0xF));
    cpu.op_6xkk(&opc(0x6, 1, 0x0, 0x2));
    cpu.op_8xy4(&opc(0x8, 0, 1, 0x4));
    assert_eq!(cpu.get_register(0), 0x01);
    assert_eq!(cpu.get_register(0xF), 1);
    // no overflow: VF=0
    let mut cpu = fresh();
    cpu.op_6xkk(&opc(0x6, 0, 0x1, 0x0)); // V0 = 0x10
    cpu.op_6xkk(&opc(0x6, 1, 0x0, 0x2)); // V1 = 0x02
    cpu.op_8xy4(&opc(0x8, 0, 1, 0x4));
    assert_eq!(cpu.get_register(0), 0x12);
    assert_eq!(cpu.get_register(0xF), 0);
}

#[test]
fn subtract_sets_no_borrow_flag() {
    // 8xy5: Vx=0x05, Vy=0x0A -> Vx=0xFB, VF=0
    let mut cpu = fresh();
    cpu.op_6xkk(&opc(0x6, 0, 0x0, 0x5));
    cpu.op_6xkk(&opc(0x6, 1, 0x0, 0xA));
    cpu.op_8xy5(&opc(0x8, 0, 1, 0x5));
    assert_eq!(cpu.get_register(0), 0xFB);
    assert_eq!(cpu.get_register(0xF), 0);
    // Vx >= Vy: VF=1
    let mut cpu = fresh();
    cpu.op_6xkk(&opc(0x6, 0, 0x0, 0xA));
    cpu.op_6xkk(&opc(0x6, 1, 0x0, 0x5));
    cpu.op_8xy5(&opc(0x8, 0, 1, 0x5));
    assert_eq!(cpu.get_register(0), 0x05);
    assert_eq!(cpu.get_register(0xF), 1);
}

#[test]
fn subtract_reversed_sets_no_borrow_flag() {
    // 8xy7: Vx = Vy - Vx
    let mut cpu = fresh();
    cpu.op_6xkk(&opc(0x6, 0, 0x0, 0x3));
    cpu.op_6xkk(&opc(0x6, 1, 0x0, 0x8));
    cpu.op_8xy7(&opc(0x8, 0, 1, 0x7));
    assert_eq!(cpu.get_register(0), 0x05);
    assert_eq!(cpu.get_register(0xF), 1);
    let mut cpu = fresh();
    cpu.op_6xkk(&opc(0x6, 0, 0x0, 0x8));
    cpu.op_6xkk(&opc(0x6, 1, 0x0, 0x3));
    cpu.op_8xy7(&opc(0x8, 0, 1, 0x7));
    assert_eq!(cpu.get_register(0), 0xFB);
    assert_eq!(cpu.get_register(0xF), 0);
}

#[test]
fn bitwise_ops_clear_vf_first() {
    let mut cpu = fresh();
    cpu.op_6xkk(&opc(0x6, 0xF, 0x0, 0x1)); // VF = 1
    cpu.op_6xkk(&opc(0x6, 0, 0x3, 0xC)); // V0 = 0x3C
    cpu.op_6xkk(&opc(0x6, 1, 0x0, 0xF)); // V1 = 0x0F
    cpu.op_8xy1(&opc(0x8, 0, 1, 0x1));
    assert_eq!(cpu.get_register(0), 0x3F);
    assert_eq!(cpu.get_register(0xF), 0);
    cpu.op_8xy2(&opc(0x8, 0, 1, 0x2));
    assert_eq!(cpu.get_register(0), 0x0F);
    cpu.op_8xy3(&opc(0x8, 0, 1, 0x3));
    assert_eq!(cpu.get_register(0), 0x00);
}

#[test]
fn shifts_copy_vy_then_shift() {
    // 8xy6: Vx takes Vy shifted right; VF is the bit shifted out
    let mut cpu = fresh();
    cpu.op_6xkk(&opc(0x6, 1, 0x0, 0x5)); // V1 = 0b101
    cpu.op_8xy6(&opc(0x8, 0, 1, 0x6));
    assert_eq!(cpu.get_register(0), 0x02);
    assert_eq!(cpu.get_register(0xF), 1);
    // 8xyE: left shift with the high bit into VF
    let mut cpu = fresh();
    cpu.op_6xkk(&opc(0x6, 1, 0x9, 0x0)); // V1 = 0x90
    cpu.op_8xye(&opc(0x8, 0, 1, 0xE));
    assert_eq!(cpu.get_register(0), 0x20);
    assert_eq!(cpu.get_register(0xF), 1);
}

#[test]
fn bcd_of_255_is_2_5_5() {
    // Fx33 round trip for the largest byte
    let mut cpu = fresh();
    cpu.op_6xkk(&opc(0x6, 0, 0xF, 0xF)); // V0 = 255
    cpu.op_annn(&opc(0xA, 3, 0, 0)); // I = 0x300
    cpu.op_fx33(&opc(0xF, 0, 0x3, 0x3));
    assert_eq!(cpu.read_memory(0x300), 2);
    assert_eq!(cpu.read_memory(0x301), 5);
    assert_eq!(cpu.read_memory(0x302), 5);
    assert_eq!(cpu.get_index_register(), 0x300); // I itself is not moved
}

#[test]
fn store_then_load_round_trips_registers() {
    // Fx55 / Fx65: V0..V3 through memory and back, I advanced by 4 each way
    let mut cpu = fresh();
    cpu.op_6xkk(&opc(0x6, 0, 0x1, 0x1));
    cpu.op_6xkk(&opc(0x6, 1, 0x2, 0x2));
    cpu.op_6xkk(&opc(0x6, 2, 0x3, 0x3));
    cpu.op_6xkk(&opc(0x6, 3, 0x4, 0x4));
    cpu.op_annn(&opc(0xA, 3, 0, 0)); // I = 0x300
    cpu.op_fx55(&opc(0xF, 3, 0x5, 0x5));
    assert_eq!(cpu.get_index_register(), 0x304);
    // scramble the registers, point I back, and load
    cpu.op_6xkk(&opc(0x6, 0, 0x0, 0x0));
    cpu.op_6xkk(&opc(0x6, 1, 0x0, 0x0));
    cpu.op_6xkk(&opc(0x6, 2, 0x0, 0x0));
    cpu.op_6xkk(&opc(0x6, 3, 0x0, 0x0));
    cpu.op_annn(&opc(0xA, 3, 0, 0));
    cpu.op_fx65(&opc(0xF, 3, 0x6, 0x5));
    assert_eq!(cpu.get_register(0), 0x11);
    assert_eq!(cpu.get_register(1), 0x22);
    assert_eq!(cpu.get_register(2), 0x33);
    assert_eq!(cpu.get_register(3), 0x44);
    assert_eq!(cpu.get_index_register(), 0x304);
}

#[test]
fn font_pointer_steps_five_bytes_per_digit() {
    let mut cpu = fresh();
    cpu.op_6xkk(&opc(0x6, 0, 0x0, 0x5)); // V0 = 5
    cpu.op_fx29(&opc(0xF, 0, 0x2, 0x9));
    assert_eq!(cpu.get_index_register(), 0x50 + 25);
}

#[test]
fn index_add_wraps_without_flag() {
    let mut cpu = fresh();
    cpu.op_annn(&opc(0xA, 0xF, 0xF, 0xF)); // I = 0xFFF
    cpu.op_6xkk(&opc(0x6, 0, 0xF, 0xF)); // V0 = 0xFF
    cpu.op_6xkk(&opc(0x6, 0xF, 0x3, 0x7)); // VF sentinel
    let mut i = 0;
    while i < 256 {
        cpu.op_fx1e(&opc(0xF, 0, 0x1, 0xE));
        i += 1;
    }
    // 0xFFF + 256 * 0xFF wraps modulo 2^16
    assert_eq!(cpu.get_index_register(), ((0xFFFu32 + 256 * 0xFF) % 0x10000) as u16);
    assert_eq!(cpu.get_register(0xF), 0x37);
}

#[test]
fn draw_twice_cancels_and_collides() {
    // drawing the same sprite at the same spot: XOR self-cancellation
    let mut cpu = fresh();
    let mut display = Display::new(64, 32);
    // put the sprite rows 0xF0, 0x90 at 0x300..0x301 with a register dump
    cpu.op_6xkk(&opc(0x6, 0, 0xF, 0x0));
    cpu.op_6xkk(&opc(0x6, 1, 0x9, 0x0));
    cpu.op_annn(&opc(0xA, 3, 0, 0));
    cpu.op_fx55(&opc(0xF, 1, 0x5, 0x5));
    // point I back at the sprite and position it at (10, 7)
    cpu.op_annn(&opc(0xA, 3, 0, 0));
    cpu.op_6xkk(&opc(0x6, 0, 0x0, 0xA));
    cpu.op_6xkk(&opc(0x6, 1, 0x0, 0x7));
    // first draw: pixels appear, no collision
    cpu.op_dxyn(&opc(0xD, 0, 1, 0x2), &mut display);
    assert_eq!(cpu.get_register(0xF), 0);
    assert!(display.is_pixel_on(10, 7)); // 0xF0: leftmost four bits of row 0
    assert!(display.is_pixel_on(13, 7));
    assert!(!display.is_pixel_on(14, 7));
    assert!(display.is_pixel_on(10, 8)); // 0x90: bits 0 and 3 of row 1
    assert!(!display.is_pixel_on(11, 8));
    assert!(display.is_pixel_on(13, 8));
    // second identical draw: everything cancels, VF reports the collision
    cpu.op_dxyn(&opc(0xD, 0, 1, 0x2), &mut display);
    assert_eq!(cpu.get_register(0xF), 1);
    let mut y = 0;
    while y < 32 {
        let mut x = 0;
        while x < 64 {
            assert!(!display.is_pixel_on(x, y));
            x += 1;
        }
        y += 1;
    }
}

#[test]
fn draw_clips_at_the_right_edge() {
    let mut cpu = fresh();
    let mut display = Display::new(64, 32);
    // sprite row 0xFF at 0x300 via Fx55
    cpu.op_6xkk(&opc(0x6, 2, 0xF, 0xF));
    cpu.op_annn(&opc(0xA, 3, 0, 0));
    cpu.op_fx55(&opc(0xF, 2, 0x5, 0x5));
    // draw it at x=62: only two columns fit; nothing wraps to x=0
    cpu.op_annn(&opc(0xA, 3, 0, 2)); // I = 0x302, where V2 landed
    cpu.op_6xkk(&opc(0x6, 0, 0x3, 0xE)); // V0 = 62
    cpu.op_6xkk(&opc(0x6, 1, 0x0, 0x0)); // V1 = 0
    cpu.op_dxyn(&opc(0xD, 0, 1, 0x1), &mut display);
    assert!(display.is_pixel_on(62, 0));
    assert!(display.is_pixel_on(63, 0));
    assert!(!display.is_pixel_on(0, 0));
    assert!(!display.is_pixel_on(1, 0));
}

#[test]
fn clear_screen_blanks_the_surface() {
    // 00E0 followed by a pixel query: everything is off before any draw
    let cpu = fresh();
    let mut display = Display::new(64, 32);
    display.flip_pixel(5, 5);
    cpu.op_00e0(&mut display);
    let mut y = 0;
    while y < 32 {
        let mut x = 0;
        while x < 64 {
            assert!(!display.is_pixel_on(x, y));
            x += 1;
        }
        y += 1;
    }
}

#[test]
fn random_byte_masked_with_zero_is_zero() {
    // Cxkk with kk = 0: whatever byte was drawn, the mask forces zero
    let mut cpu = fresh();
    cpu.op_6xkk(&opc(0x6, 0, 0xF, 0xF));
    cpu.op_cxkk(&opc(0xC, 0, 0x0, 0x0), 0xA7);
    assert_eq!(cpu.get_register(0), 0);
    // and the mask keeps only masked bits of the byte handed in
    cpu.op_cxkk(&opc(0xC, 0, 0x0, 0xF), 0xA7);
    assert_eq!(cpu.get_register(0), 0x07);
}

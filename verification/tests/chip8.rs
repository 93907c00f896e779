use chip8::Chip8Error;
use chip8::cpu::Cpu;
use chip8::interp::Interpreter;

fn machine(rom: Vec<u8>) -> Interpreter {
    Interpreter::new(rom).expect("rom fits")
}

fn keys_of(held: &[usize]) -> [bool; 16] {
    let mut k = [false; 16];
    for &i in held {
        k[i] = true;
    }
    k
}

#[test]
fn power_on_state() {
    let m = machine(vec![]);
    assert_eq!(m.get_pc(), 512);
    assert_eq!(m.get_i(), 0);
    assert_eq!(m.get_sp(), 0);
    assert_eq!(m.get_delay(), 0);
    assert_eq!(m.get_sound(), 0);
    let vram = m.get_vram();
    assert_eq!(vram.len(), chip8::WIDTH * chip8::HEIGHT);
    assert!(vram.iter().all(|&p| p == 0));
    // the standard font sits at 0x050: glyph 0 starts 0xF0, glyph F ends 0x80
    let ram = m.get_ram_ptr();
    assert_eq!(ram.len(), 4096);
    assert_eq!(ram[0x50], 0xF0);
    assert_eq!(ram[0x51], 0x90);
    assert_eq!(ram[0x9F], 0x80);
}

#[test]
fn rom_loads_at_0x200() {
    let m = machine(vec![0x12, 0x34, 0x56]);
    let ram = m.get_ram_ptr();
    assert_eq!(ram[0x200], 0x12);
    assert_eq!(ram[0x201], 0x34);
    assert_eq!(ram[0x202], 0x56);
}

#[test]
fn rom_too_large_is_rejected() {
    assert!(matches!(
        Interpreter::new(vec![0u8; 3585]),
        Err(Chip8Error::RomTooLarge)
    ));
    assert!(Interpreter::new(vec![0u8; 3584]).is_ok());
    let mut m = machine(vec![]);
    assert!(matches!(
        m.load_rom(vec![0u8; 3585]),
        Err(Chip8Error::RomTooLarge)
    ));
    assert!(m.load_rom(vec![0u8; 3584]).is_ok());
}

#[test]
fn load_program_at_bounds() {
    let mut c = Cpu::new();
    assert!(matches!(
        c.load_program_at(4095, &vec![1, 2]),
        Err(Chip8Error::RomTooLarge)
    ));
    assert!(c.load_program_at(4094, &vec![1, 2]).is_ok());
    assert_eq!(c.memory_image()[4094], 1);
    assert_eq!(c.memory_image()[4095], 2);
}

#[test]
fn add_with_carry_wraps() {
    // v0 = 250, v1 = 10, v0 += v1: 260 wraps to 4 with the carry set
    let mut m = machine(vec![0x60, 0xFA, 0x61, 0x0A, 0x80, 0x14]);
    m.step();
    m.step();
    m.step();
    let v = m.get_v_ptr();
    assert_eq!(v[0], 4);
    assert_eq!(v[15], 1);
}

#[test]
fn sub_with_borrow_wraps() {
    // v0 = 5, v1 = 10, v0 -= v1: -5 wraps to 251 with the borrow flag clear
    let mut m = machine(vec![0x60, 0x05, 0x61, 0x0A, 0x80, 0x15]);
    m.step();
    m.step();
    m.step();
    let v = m.get_v_ptr();
    assert_eq!(v[0], 251);
    assert_eq!(v[15], 0);
}

#[test]
fn reverse_sub_with_borrow() {
    // v0 = 10, v1 = 25, v0 = v1 - v0 = 15 with the borrow flag set (no borrow)
    let mut m = machine(vec![0x60, 0x0A, 0x61, 0x19, 0x80, 0x17]);
    m.step();
    m.step();
    m.step();
    let v = m.get_v_ptr();
    assert_eq!(v[0], 15);
    assert_eq!(v[15], 1);
}

#[test]
fn add_immediate_wraps_without_flag() {
    let mut m = machine(vec![0x60, 0xFF, 0x70, 0x02]);
    m.step();
    m.step();
    let v = m.get_v_ptr();
    assert_eq!(v[0], 1);
    assert_eq!(v[15], 0);
}

#[test]
fn bitwise_ops() {
    let mut m = machine(vec![
        0x60, 0x0C, 0x61, 0x0A, 0x80, 0x11, // v0 = 0x0C | 0x0A = 0x0E
        0x60, 0x0C, 0x80, 0x12, // v0 = 0x0C & 0x0A = 0x08
        0x60, 0x0C, 0x80, 0x13, // v0 = 0x0C ^ 0x0A = 0x06
        0x80, 0x10, // v0 = v1 = 0x0A
    ]);
    m.step();
    m.step();
    m.step();
    assert_eq!(m.get_v_ptr()[0], 0x0E);
    m.step();
    m.step();
    assert_eq!(m.get_v_ptr()[0], 0x08);
    m.step();
    m.step();
    assert_eq!(m.get_v_ptr()[0], 0x06);
    m.step();
    assert_eq!(m.get_v_ptr()[0], 0x0A);
}

#[test]
fn shift_right_takes_source_and_flag() {
    // v1 = 5, v0 = v1 >> 1 = 2 with v15 = old low bit = 1
    let mut m = machine(vec![0x61, 0x05, 0x80, 0x16]);
    m.step();
    m.step();
    let v = m.get_v_ptr();
    assert_eq!(v[0], 2);
    assert_eq!(v[15], 1);
}

#[test]
fn shift_left_takes_source_and_flag() {
    // v1 = 0x81, v0 = v1 << 1 = 2 with v15 = old high bit = 1
    let mut m = machine(vec![0x61, 0x81, 0x80, 0x1E]);
    m.step();
    m.step();
    let v = m.get_v_ptr();
    assert_eq!(v[0], 2);
    assert_eq!(v[15], 1);
}

#[test]
fn skip_if_equal_immediate() {
    // v2 = 7; "skip if v2 == 7" advances pc by 4 from the instruction start
    let mut m = machine(vec![0x62, 0x07, 0x32, 0x07]);
    m.step();
    assert_eq!(m.get_pc(), 0x202);
    m.step();
    assert_eq!(m.get_pc(), 0x206);
    // "skip if v2 == 8" advances by only 2
    let mut m = machine(vec![0x62, 0x07, 0x32, 0x08]);
    m.step();
    m.step();
    assert_eq!(m.get_pc(), 0x204);
}

#[test]
fn skip_families() {
    // 4xnn skips when not equal
    let mut m = machine(vec![0x62, 0x07, 0x42, 0x08]);
    m.step();
    m.step();
    assert_eq!(m.get_pc(), 0x206);
    // 5xy0 skips when registers equal
    let mut m = machine(vec![0x60, 0x03, 0x61, 0x03, 0x50, 0x10]);
    m.step();
    m.step();
    m.step();
    assert_eq!(m.get_pc(), 0x208);
    // 9xy0 skips when registers differ
    let mut m = machine(vec![0x60, 0x03, 0x61, 0x04, 0x90, 0x10]);
    m.step();
    m.step();
    m.step();
    assert_eq!(m.get_pc(), 0x208);
}

#[test]
fn jump_and_offset_jump() {
    let mut m = machine(vec![0x12, 0xFE]);
    m.step();
    assert_eq!(m.get_pc(), 0x2FE);
    let mut m = machine(vec![0x60, 0x05, 0xB3, 0x00]);
    m.step();
    m.step();
    assert_eq!(m.get_pc(), 0x305);
}

#[test]
fn call_return_round_trip() {
    // call 0x300, then return: pc comes back to the instruction after the call
    let mut rom = vec![0u8; 0x102];
    rom[0] = 0x23;
    rom[1] = 0x00;
    rom[0x100] = 0x00;
    rom[0x101] = 0xEE;
    let mut m = machine(rom);
    m.step();
    assert_eq!(m.get_pc(), 0x300);
    assert_eq!(m.get_sp(), 1);
    m.step();
    assert_eq!(m.get_pc(), 0x202);
    assert_eq!(m.get_sp(), 0);
}

#[test]
fn return_on_empty_stack_is_noop() {
    let mut m = machine(vec![0x00, 0xEE]);
    m.step();
    assert_eq!(m.get_pc(), 0x202);
    assert_eq!(m.get_sp(), 0);
}

#[test]
fn unknown_opcode_is_noop() {
    let mut m = machine(vec![0x00, 0x00, 0x5A, 0xB1, 0xE3, 0x77]);
    m.step();
    m.step();
    m.step();
    assert_eq!(m.get_pc(), 0x206);
    assert!(m.get_v_ptr().iter().all(|&r| r == 0));
    assert_eq!(m.get_sp(), 0);
}

#[test]
fn set_index_and_font_lookup() {
    let mut m = machine(vec![0x60, 0x02, 0xF0, 0x29]);
    m.step();
    m.step();
    assert_eq!(m.get_i(), 0x50 + 5 * 2);
    assert_eq!(m.get_ram_ptr()[m.get_i() as usize], 0xF0);
    // an out-of-range digit leaves the index register unchanged
    let mut m = machine(vec![0xA1, 0x23, 0x60, 0x10, 0xF0, 0x29]);
    m.step();
    m.step();
    m.step();
    assert_eq!(m.get_i(), 0x123);
}

#[test]
fn add_to_index_flags_past_address_space() {
    let mut m = machine(vec![0xAF, 0xFF, 0x60, 0x01, 0xF0, 0x1E]);
    m.step();
    m.step();
    m.step();
    assert_eq!(m.get_i(), 0x1000);
    assert_eq!(m.get_v_ptr()[15], 1);
    // no flag when the sum stays inside the address space
    let mut m = machine(vec![0xA0, 0x10, 0x60, 0x01, 0xF0, 0x1E]);
    m.step();
    m.step();
    m.step();
    assert_eq!(m.get_i(), 0x11);
    assert_eq!(m.get_v_ptr()[15], 0);
}

#[test]
fn binary_coded_decimal() {
    let mut m = machine(vec![0x60, 0xEA, 0xA3, 0x00, 0xF0, 0x33]);
    m.step();
    m.step();
    m.step();
    let ram = m.get_ram_ptr();
    assert_eq!(ram[0x300], 2);
    assert_eq!(ram[0x301], 3);
    assert_eq!(ram[0x302], 4);
}

#[test]
fn store_and_load_registers() {
    let mut m = machine(vec![
        0x60, 0x0B, 0x61, 0x16, 0xA3, 0x00, 0xF1, 0x55, // store v0..=v1 at 0x300
        0x62, 0x00, 0xF2, 0x65, // load v0..=v2 back
    ]);
    m.step();
    m.step();
    m.step();
    m.step();
    let ram = m.get_ram_ptr();
    assert_eq!(ram[0x300], 0x0B);
    assert_eq!(ram[0x301], 0x16);
    assert_eq!(ram[0x302], 0);
    m.step();
    m.step();
    let v = m.get_v_ptr();
    assert_eq!(v[0], 0x0B);
    assert_eq!(v[1], 0x16);
    assert_eq!(v[2], 0);
}

#[test]
fn timers_copy_and_floor() {
    // delay = 3, tick with delta 5: the timer floors at 0, no underflow
    let mut m = machine(vec![0x63, 0x03, 0xF3, 0x15, 0xF3, 0x18, 0xF4, 0x07]);
    m.step();
    m.step();
    m.step();
    assert_eq!(m.get_delay(), 3);
    assert_eq!(m.get_sound(), 3);
    assert!(m.should_beep());
    m.step();
    assert_eq!(m.get_v_ptr()[4], 3);
    m.update_timers(5);
    assert_eq!(m.get_delay(), 0);
    assert_eq!(m.get_sound(), 0);
    assert!(!m.should_beep());
    // an exact delta also lands on 0
    let mut m = machine(vec![0x63, 0x02, 0xF3, 0x15]);
    m.step();
    m.step();
    m.update_timers(2);
    assert_eq!(m.get_delay(), 0);
}

#[test]
fn random_is_masked() {
    // nn = 0 forces v0 = random & 0 = 0; nn = 0x0F keeps the low nibble only
    let mut m = machine(vec![0xC0, 0x00, 0xC1, 0x0F]);
    m.step();
    assert_eq!(m.get_v_ptr()[0], 0);
    m.step();
    assert!(m.get_v_ptr()[1] < 16);
}

#[test]
fn draw_collision_and_idempotence() {
    // draw glyph 0 (five rows from 0x50) at (0, 0), twice
    let mut m = machine(vec![0xA0, 0x50, 0xD0, 0x05, 0xD0, 0x05]);
    m.step();
    m.step();
    assert!(m.should_redraw());
    let vram = m.get_vram();
    // glyph 0's first row is 0xF0: four pixels on
    assert_eq!(&vram[0..8], &[1, 1, 1, 1, 0, 0, 0, 0]);
    assert_eq!(m.get_v_ptr()[15], 0);
    // the second draw toggles everything back off and reports the collision
    m.step();
    assert!(m.get_vram().iter().all(|&p| p == 0));
    assert_eq!(m.get_v_ptr()[15], 1);
}

#[test]
fn draw_clips_at_screen_edge() {
    // draw glyph 0 at (62, 30): only a 2x2 corner lands on-screen
    let mut m = machine(vec![0x60, 0x3E, 0x61, 0x1E, 0xA0, 0x50, 0xD0, 0x15]);
    m.step();
    m.step();
    m.step();
    m.step();
    let vram = m.get_vram();
    let on: usize = vram.iter().map(|&p| p as usize).sum();
    // rows 30 and 31 of glyph 0 are 0xF0 and 0x90: columns 62, 63 give 2 + 1
    assert_eq!(vram[30 * 64 + 62], 1);
    assert_eq!(vram[30 * 64 + 63], 1);
    assert_eq!(vram[31 * 64 + 62], 1);
    assert_eq!(vram[31 * 64 + 63], 0);
    assert_eq!(on, 3);
}

#[test]
fn clear_screen_blanks_vram() {
    let mut m = machine(vec![0xA0, 0x50, 0xD0, 0x05, 0x00, 0xE0]);
    m.step();
    m.step();
    assert!(m.get_vram().iter().any(|&p| p == 1));
    m.step();
    assert!(m.get_vram().iter().all(|&p| p == 0));
    assert!(m.should_redraw());
}

#[test]
fn key_wait_blocks_until_key() {
    let mut m = machine(vec![0xF5, 0x0A]);
    m.step();
    assert_eq!(m.get_pc(), 0x200);
    m.step();
    assert_eq!(m.get_pc(), 0x200);
    // keys 9 and 11 held: the lowest, 9, lands in v5
    m.update_keypad(keys_of(&[9, 11]));
    m.step();
    assert_eq!(m.get_pc(), 0x202);
    assert_eq!(m.get_v_ptr()[5], 9);
}

#[test]
fn skip_on_key_state() {
    // v2 = 3; E29E skips only while key 3 is held
    let mut m = machine(vec![0x62, 0x03, 0xE2, 0x9E]);
    m.step();
    m.step();
    assert_eq!(m.get_pc(), 0x204);
    let mut m = machine(vec![0x62, 0x03, 0xE2, 0x9E]);
    m.update_keypad(keys_of(&[3]));
    m.step();
    m.step();
    assert_eq!(m.get_pc(), 0x206);
    // E2A1 skips only while key 3 is not held
    let mut m = machine(vec![0x62, 0x03, 0xE2, 0xA1]);
    m.step();
    m.step();
    assert_eq!(m.get_pc(), 0x206);
    let mut m = machine(vec![0x62, 0x03, 0xE2, 0xA1]);
    m.update_keypad(keys_of(&[3]));
    m.step();
    m.step();
    assert_eq!(m.get_pc(), 0x204);
    // a key index past 15 counts as not held, whatever the mask
    let mut m = machine(vec![0x62, 0x10, 0xE2, 0x9E, 0xE2, 0xA1]);
    m.update_keypad(keys_of(&[0, 15]));
    m.step();
    m.step();
    assert_eq!(m.get_pc(), 0x204);
    m.step();
    assert_eq!(m.get_pc(), 0x208);
}

#[test]
fn reset_keeps_memory() {
    let mut m = machine(vec![0x60, 0x07, 0xA0, 0x50, 0xD0, 0x05]);
    m.step();
    m.step();
    m.step();
    m.reset();
    assert_eq!(m.get_pc(), 512);
    assert_eq!(m.get_i(), 0);
    assert!(m.get_v_ptr().iter().all(|&r| r == 0));
    assert!(m.get_vram().iter().all(|&p| p == 0));
    // the program image survives a reset
    assert_eq!(m.get_ram_ptr()[0x200], 0x60);
    assert_eq!(m.get_ram_ptr()[0x201], 0x07);
}

#[test]
fn cpu_tick_decrements_then_steps() {
    let mut c = Cpu::new();
    c.load_program_at(0x200, &vec![0x60, 0x2A]).unwrap();
    c.tick_timers(0);
    c.tick(0);
    assert_eq!(c.get_pc(), 0x202);
    assert_eq!(c.registers()[0], 0x2A);
}

#[test]
fn is_pressed_reports_key_bit() {
    let mut c = Cpu::new();
    c.set_key_map(0b0000_0010_0000_1000);
    assert!(c.is_pressed(3) != 0);
    assert!(c.is_pressed(9) != 0);
    assert_eq!(c.is_pressed(4), 0);
}

use std::collections::HashMap;

use chip8::chip8::Chip8;
use chip8::opcode::OpCode;

fn no_keys() -> HashMap<u8, bool> {
    HashMap::new()
}

#[test]
fn test_new_program_layout() {
    let m = Chip8::new_program(vec![0x60, 0x0A]);
    assert_eq!(m.program_counter(), 0x200);
    assert_eq!(m.index_register(), 0);
    assert_eq!(m.delay_timer(), 0);
    assert_eq!(m.sound_timer(), 0);
    assert_eq!(m.stack_depth(), 0);
    assert!(!m.is_waiting_for_input());
    for k in 0..16 {
        assert_eq!(m.register(k), 0);
    }
    for p in m.display() {
        assert_eq!(*p, 0);
    }
}

#[test]
fn test_load_immediate_and_index() {
    // `60 0A` (LD V0, 0x0A) then `A0 00` (LD I, 0x000), stepped twice.
    let mut m = Chip8::new_program(vec![0x60, 0x0A, 0xA0, 0x00]);
    let kb = no_keys();
    m.step(&kb, None);
    m.step(&kb, None);
    assert_eq!(m.register(0), 0x0A);
    assert_eq!(m.index_register(), 0x000);
    assert_eq!(m.program_counter(), 0x204);
}

#[test]
fn test_add_with_carry_flag_set() {
    let mut m = Chip8::new_program(vec![]);
    let kb = no_keys();
    m.apply_with_random(OpCode::LD { vx: 0, other: 200, by_value: true }, &kb, 0);
    m.apply_with_random(OpCode::LD { vx: 1, other: 100, by_value: true }, &kb, 0);
    m.apply_with_random(OpCode::ADDREG { vx: 0, vy: 1 }, &kb, 0);
    assert_eq!(m.register(0), 44);  // (200 + 100) mod 256
    assert_eq!(m.register(15), 1);
}

#[test]
fn test_add_without_carry() {
    let mut m = Chip8::new_program(vec![]);
    let kb = no_keys();
    m.apply_with_random(OpCode::LD { vx: 0, other: 20, by_value: true }, &kb, 0);
    m.apply_with_random(OpCode::LD { vx: 1, other: 30, by_value: true }, &kb, 0);
    m.apply_with_random(OpCode::ADDREG { vx: 0, vy: 1 }, &kb, 0);
    assert_eq!(m.register(0), 50);
    assert_eq!(m.register(15), 0);
}

#[test]
fn test_sub_with_borrow() {
    let kb = no_keys();
    // Vx > Vy: no borrow, VF = 1.
    let mut m = Chip8::new_program(vec![]);
    m.apply_with_random(OpCode::LD { vx: 0, other: 20, by_value: true }, &kb, 0);
    m.apply_with_random(OpCode::LD { vx: 1, other: 10, by_value: true }, &kb, 0);
    m.apply_with_random(OpCode::SUB { vx: 0, vy: 1 }, &kb, 0);
    assert_eq!(m.register(0), 10);
    assert_eq!(m.register(15), 1);
    // Vx <= Vy: borrow, VF = 0, wrapping difference.
    let mut m2 = Chip8::new_program(vec![]);
    m2.apply_with_random(OpCode::LD { vx: 0, other: 10, by_value: true }, &kb, 0);
    m2.apply_with_random(OpCode::LD { vx: 1, other: 20, by_value: true }, &kb, 0);
    m2.apply_with_random(OpCode::SUB { vx: 0, vy: 1 }, &kb, 0);
    assert_eq!(m2.register(0), 246);  // (10 - 20) mod 256
    assert_eq!(m2.register(15), 0);
}

#[test]
fn test_reverse_sub() {
    let kb = no_keys();
    let mut m = Chip8::new_program(vec![]);
    m.apply_with_random(OpCode::LD { vx: 0, other: 10, by_value: true }, &kb, 0);
    m.apply_with_random(OpCode::LD { vx: 1, other: 20, by_value: true }, &kb, 0);
    m.apply_with_random(OpCode::SUBN { vx: 0, vy: 1 }, &kb, 0);
    assert_eq!(m.register(0), 10);  // V1 - V0
    assert_eq!(m.register(15), 1);  // V1 > V0
}

#[test]
fn test_shifts_report_shifted_out_bit() {
    let kb = no_keys();
    let mut m = Chip8::new_program(vec![]);
    m.apply_with_random(OpCode::LD { vx: 3, other: 0b1000_0101, by_value: true }, &kb, 0);
    m.apply_with_random(OpCode::SHR { vx: 3, vy: 0 }, &kb, 0);
    assert_eq!(m.register(3), 0b0100_0010);
    assert_eq!(m.register(15), 1);  // bit 0 was set
    m.apply_with_random(OpCode::SHL { vx: 3, vy: 0 }, &kb, 0);
    assert_eq!(m.register(3), 0b1000_0100);
    assert_eq!(m.register(15), 0);  // bit 7 was clear
}

#[test]
fn test_random_byte_is_masked() {
    let kb = no_keys();
    let mut m = Chip8::new_program(vec![]);
    m.apply_with_random(OpCode::RND { vx: 0, byte: 0x0F }, &kb, 0xAB);
    assert_eq!(m.register(0), 0x0B);
}

#[test]
fn test_draw_twice_clears_and_collides() {
    let kb = no_keys();
    let mut m = Chip8::new_program(vec![]);
    // I = 0: the font glyph for 0 (rows F0 90 90 90 F0), drawn at (0, 0).
    m.apply_with_random(OpCode::DRW { vx: 0, vy: 0, nibble: 5 }, &kb, 0);
    assert_eq!(m.register(15), 0);  // empty display: no collision
    assert_eq!(m.display()[0], 1);  // 0xF0: leftmost pixel of row 0 set
    assert_eq!(m.display()[3], 1);
    assert_eq!(m.display()[4], 0);
    assert_eq!(m.display()[64], 1);  // 0x90: row 1 col 0 set
    assert_eq!(m.display()[65], 0);
    // Drawing the same sprite again clears every pixel it set and reports
    // the collision.
    m.apply_with_random(OpCode::DRW { vx: 0, vy: 0, nibble: 5 }, &kb, 0);
    assert_eq!(m.register(15), 1);
    for p in m.display() {
        assert_eq!(*p, 0);
    }
}

#[test]
fn test_draw_wraps_around_edges() {
    let kb = no_keys();
    let mut m = Chip8::new_program(vec![]);
    m.apply_with_random(OpCode::LD { vx: 0, other: 62, by_value: true }, &kb, 0);
    m.apply_with_random(OpCode::LD { vx: 1, other: 31, by_value: true }, &kb, 0);
    // One row of the glyph for 0 (0xF0): four pixels from (62, 31), wrapping.
    m.apply_with_random(OpCode::DRW { vx: 0, vy: 1, nibble: 1 }, &kb, 0);
    assert_eq!(m.display()[31 * 64 + 62], 1);
    assert_eq!(m.display()[31 * 64 + 63], 1);
    assert_eq!(m.display()[31 * 64 + 0], 1);  // wrapped column
    assert_eq!(m.display()[31 * 64 + 1], 1);
    assert_eq!(m.display()[31 * 64 + 2], 0);
}

#[test]
fn test_clear_screen() {
    let kb = no_keys();
    let mut m = Chip8::new_program(vec![]);
    m.apply_with_random(OpCode::DRW { vx: 0, vy: 0, nibble: 5 }, &kb, 0);
    assert_eq!(m.display()[0], 1);
    m.apply_with_random(OpCode::CLS, &kb, 0);
    for p in m.display() {
        assert_eq!(*p, 0);
    }
}

#[test]
fn test_call_ret_round_trip() {
    let kb = no_keys();
    let mut m = Chip8::new_program(vec![]);
    assert_eq!(m.program_counter(), 0x200);
    m.apply_with_random(OpCode::CALL { addr: 0x300 }, &kb, 0);
    assert_eq!(m.program_counter(), 0x300);
    assert_eq!(m.stack_depth(), 1);
    m.apply_with_random(OpCode::RET, &kb, 0);
    assert_eq!(m.program_counter(), 0x202);  // instruction after the CALL
    assert_eq!(m.stack_depth(), 0);
}

#[test]
fn test_jumps() {
    let kb = no_keys();
    let mut m = Chip8::new_program(vec![]);
    m.apply_with_random(OpCode::JP { addr: 0x456 }, &kb, 0);
    assert_eq!(m.program_counter(), 0x456);
    m.apply_with_random(OpCode::LD { vx: 0, other: 4, by_value: true }, &kb, 0);
    m.apply_with_random(OpCode::JPV0 { addr: 0x100 }, &kb, 0);
    assert_eq!(m.program_counter(), 0x104);
}

#[test]
fn test_skip_equal_and_not_equal() {
    let kb = no_keys();
    let mut m = Chip8::new_program(vec![]);
    m.apply_with_random(OpCode::LD { vx: 0, other: 7, by_value: true }, &kb, 0);
    let pc = m.program_counter();
    m.apply_with_random(OpCode::SE { vx: 0, other: 7, by_value: true }, &kb, 0);
    assert_eq!(m.program_counter(), pc + 4);  // skipped
    let pc2 = m.program_counter();
    m.apply_with_random(OpCode::SNE { vx: 0, other: 7, by_value: true }, &kb, 0);
    assert_eq!(m.program_counter(), pc2 + 2);  // not skipped
}

#[test]
fn test_skip_on_key_state() {
    let mut kb = HashMap::new();
    for k in 0..16u8 {
        kb.insert(k, false);
    }
    kb.insert(5, true);
    let mut m = Chip8::new_program(vec![]);
    m.apply_with_random(OpCode::LD { vx: 0, other: 5, by_value: true }, &kb, 0);
    let pc = m.program_counter();
    m.apply_with_random(OpCode::SKP { vx: 0 }, &kb, 0);
    assert_eq!(m.program_counter(), pc + 4);  // key 5 pressed: skipped
    let pc2 = m.program_counter();
    m.apply_with_random(OpCode::SKNP { vx: 0 }, &kb, 0);
    assert_eq!(m.program_counter(), pc2 + 2);  // pressed: not skipped
}

#[test]
fn test_timer_decay() {
    let kb = no_keys();
    let mut m = Chip8::new_program(vec![]);
    m.apply_with_random(OpCode::LD { vx: 0, other: 10, by_value: true }, &kb, 0);
    m.apply_with_random(OpCode::LDSTVX { vx: 0 }, &kb, 0);
    m.apply_with_random(OpCode::LDDTVX { vx: 0 }, &kb, 0);
    assert_eq!(m.sound_timer(), 10);
    assert_eq!(m.delay_timer(), 10);
    for _ in 0..10 {
        m.tick_timers();
    }
    assert_eq!(m.sound_timer(), 0);
    assert_eq!(m.delay_timer(), 0);
    // A tick at zero is a no-op, never a wrap.
    m.tick_timers();
    assert_eq!(m.sound_timer(), 0);
    assert_eq!(m.delay_timer(), 0);
}

#[test]
fn test_timer_reads_and_font_lookup() {
    let kb = no_keys();
    let mut m = Chip8::new_program(vec![]);
    m.apply_with_random(OpCode::LD { vx: 1, other: 3, by_value: true }, &kb, 0);
    m.apply_with_random(OpCode::LDDTVX { vx: 1 }, &kb, 0);
    m.apply_with_random(OpCode::LDVXDT { vx: 2 }, &kb, 0);
    assert_eq!(m.register(2), 3);
    m.apply_with_random(OpCode::LDF { vx: 1 }, &kb, 0);
    assert_eq!(m.index_register(), 15);  // glyph 3 starts at 3 * 5
}

#[test]
fn test_font_glyph_bytes() {
    let kb = no_keys();
    let mut m = Chip8::new_program(vec![]);
    // I = 0 points at the glyph for 0; load its five bytes into V0..V4.
    m.apply_with_random(OpCode::LDVXMEMI { vx: 4 }, &kb, 0);
    assert_eq!(m.register(0), 0xF0);
    assert_eq!(m.register(1), 0x90);
    assert_eq!(m.register(2), 0x90);
    assert_eq!(m.register(3), 0x90);
    assert_eq!(m.register(4), 0xF0);
}

#[test]
fn test_bcd_store() {
    let kb = no_keys();
    let mut m = Chip8::new_program(vec![]);
    m.apply_with_random(OpCode::LD { vx: 0, other: 234, by_value: true }, &kb, 0);
    m.apply_with_random(OpCode::LDI { addr: 0x300 }, &kb, 0);
    m.apply_with_random(OpCode::LDB { vx: 0 }, &kb, 0);
    // Read the three digits back through the bulk load.
    m.apply_with_random(OpCode::LDVXMEMI { vx: 2 }, &kb, 0);
    assert_eq!(m.register(0), 2);
    assert_eq!(m.register(1), 3);
    assert_eq!(m.register(2), 4);
}

#[test]
fn test_bulk_transfer_round_trip() {
    let kb = no_keys();
    let mut m = Chip8::new_program(vec![]);
    m.apply_with_random(OpCode::LD { vx: 0, other: 11, by_value: true }, &kb, 0);
    m.apply_with_random(OpCode::LD { vx: 1, other: 22, by_value: true }, &kb, 0);
    m.apply_with_random(OpCode::LD { vx: 2, other: 33, by_value: true }, &kb, 0);
    m.apply_with_random(OpCode::LDI { addr: 0x300 }, &kb, 0);
    m.apply_with_random(OpCode::LDMEMI { vx: 2 }, &kb, 0);
    assert_eq!(m.index_register(), 0x300);  // I is not advanced
    m.apply_with_random(OpCode::LD { vx: 0, other: 0, by_value: true }, &kb, 0);
    m.apply_with_random(OpCode::LD { vx: 1, other: 0, by_value: true }, &kb, 0);
    m.apply_with_random(OpCode::LD { vx: 2, other: 0, by_value: true }, &kb, 0);
    m.apply_with_random(OpCode::LDVXMEMI { vx: 2 }, &kb, 0);
    assert_eq!(m.register(0), 11);
    assert_eq!(m.register(1), 22);
    assert_eq!(m.register(2), 33);
}

#[test]
fn test_logic_ops_and_add_immediate() {
    let kb = no_keys();
    let mut m = Chip8::new_program(vec![]);
    m.apply_with_random(OpCode::LD { vx: 0, other: 0b1100, by_value: true }, &kb, 0);
    m.apply_with_random(OpCode::LD { vx: 1, other: 0b1010, by_value: true }, &kb, 0);
    m.apply_with_random(OpCode::OR { vx: 0, vy: 1 }, &kb, 0);
    assert_eq!(m.register(0), 0b1110);
    m.apply_with_random(OpCode::AND { vx: 0, vy: 1 }, &kb, 0);
    assert_eq!(m.register(0), 0b1010);
    m.apply_with_random(OpCode::XOR { vx: 0, vy: 1 }, &kb, 0);
    assert_eq!(m.register(0), 0);
    m.apply_with_random(OpCode::ADD { vx: 0, byte: 250 }, &kb, 0);
    m.apply_with_random(OpCode::ADD { vx: 0, byte: 10 }, &kb, 0);
    assert_eq!(m.register(0), 4);  // wrapping immediate add, no flag
    assert_eq!(m.register(15), 0);
    m.apply_with_random(OpCode::ADDI { vx: 0 }, &kb, 0);
    assert_eq!(m.index_register(), 4);
}

#[test]
fn test_wait_for_input() {
    // `F2 0A` (LD V2, K) then `61 05` (LD V1, 5).
    let mut m = Chip8::new_program(vec![0xF2, 0x0A, 0x61, 0x05]);
    let kb = no_keys();
    let s1 = m.step(&kb, None);
    assert!(!s1.waiting_for_input);  // the pause starts after this step
    assert!(m.is_waiting_for_input());
    assert_eq!(m.program_counter(), 0x202);
    // Without a key, further steps change nothing and report the wait.
    let s2 = m.step(&kb, None);
    assert!(s2.waiting_for_input);
    assert!(!s2.update_display);
    assert_eq!(m.program_counter(), 0x202);
    assert_eq!(m.register(1), 0);
    assert_eq!(m.register(2), 0);
    // A just-pressed key lands in V2 and execution resumes with `LD V1, 5`.
    let s3 = m.step(&kb, Some(0xB));
    assert!(!s3.waiting_for_input);
    assert!(!m.is_waiting_for_input());
    assert_eq!(m.register(2), 0xB);
    assert_eq!(m.register(1), 5);
    assert_eq!(m.program_counter(), 0x204);
}

#[test]
fn test_step_reports_display_and_audio() {
    // `D0 05`: draw the glyph at I = 0 to (0, 0).
    let mut m = Chip8::new_program(vec![0xD0, 0x05]);
    let kb = no_keys();
    let s = m.step(&kb, None);
    assert!(s.update_display);
    assert!(!s.play_audio);
    assert!(!s.waiting_for_input);
    assert_eq!(s.display.len(), 2048);
    assert_eq!(s.display[0], 1);
    // A NOOP step after setting the sound timer reports audio.
    let mut m3 = Chip8::new_program(vec![0x00, 0x00]);
    m3.apply_with_random(OpCode::LD { vx: 0, other: 9, by_value: true }, &kb, 0);
    m3.apply_with_random(OpCode::LDSTVX { vx: 0 }, &kb, 0);
    let s2 = m3.step(&kb, None);
    assert!(s2.play_audio);
    assert!(!s2.update_display);
}

#[test]
fn test_try_step_refuses_empty_stack_ret() {
    // `00 EE` (RET) with an empty call stack is not executable.
    let mut m = Chip8::new_program(vec![0x00, 0xEE]);
    let kb = no_keys();
    assert!(m.try_step(&kb, None).is_none());
    assert_eq!(m.program_counter(), 0x200);
}

#[test]
fn test_try_step_refuses_missing_key() {
    // `E0 9E` (SKP V0) with no entry for key code 0 in the mapping.
    let mut m = Chip8::new_program(vec![0xE0, 0x9E]);
    let kb = no_keys();
    assert!(m.try_step(&kb, None).is_none());
    // With the key present, the same machine steps fine.
    let mut full = HashMap::new();
    for k in 0..16u8 {
        full.insert(k, false);
    }
    let r = m.try_step(&full, None);
    assert!(r.is_some());
    assert_eq!(m.program_counter(), 0x202);  // key 0 not pressed: no skip
}

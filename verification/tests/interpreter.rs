use chip8::Chip8;
use chip8::Version;

const FONT_DATA: [u8; 16 * 5] = [
    0xF0, 0x90, 0x90, 0x90, 0xF0, // 0
    0x20, 0x60, 0x20, 0x20, 0x70, // 1
    0xF0, 0x10, 0xF0, 0x80, 0xF0, // 2
    0xF0, 0x10, 0xF0, 0x10, 0xF0, // 3
    0x90, 0x90, 0xF0, 0x10, 0x10, // 4
    0xF0, 0x80, 0xF0, 0x10, 0xF0, // 5
    0xF0, 0x80, 0xF0, 0x90, 0xF0, // 6
    0xF0, 0x10, 0x20, 0x40, 0x40, // 7
    0xF0, 0x90, 0xF0, 0x90, 0xF0, // 8
    0xF0, 0x90, 0xF0, 0x10, 0xF0, // 9
    0xF0, 0x90, 0xF0, 0x90, 0x90, // A
    0xE0, 0x90, 0xE0, 0x90, 0xE0, // B
    0xF0, 0x80, 0x80, 0x80, 0xF0, // C
    0xE0, 0x90, 0x90, 0x90, 0xE0, // D
    0xF0, 0x80, 0xF0, 0x80, 0xF0, // E
    0xF0, 0x80, 0xF0, 0x80, 0x80, // F
];

/// Stages `opcode` at the program counter so the next step executes it.
fn set_opcode(c: &mut Chip8, opcode: u16) {
    let pc = c.pc as usize;
    c.ram[pc] = (opcode >> 8) as u8;
    c.ram[pc + 1] = (opcode & 0xFF) as u8;
}

#[test]
fn test_font_data() {
    for i in 0..16 {
        let mut chip8 = Chip8::default();
        chip8.v_reg[0] = i;
        chip8.ram[0x200] = 0xF0;
        chip8.ram[0x200 + 1] = 0x29;
        chip8.step();
        for k in 0..5 {
            assert_eq!(chip8.ram[chip8.i_reg as usize + k], FONT_DATA[i as usize * 5 + k]);
        }
    }
}

#[test]
fn test_font_register_value() {
    let mut c = Chip8::default();
    c.v_reg[4] = 0x2B; // low nibble B selects glyph 11
    set_opcode(&mut c, 0xF429);
    c.step();
    assert_eq!(c.i_reg, 0x050 + 5 * 0xB);
}

#[test]
fn test_load_rom_bytes() {
    let mut c = Chip8::new(Version::Schip);
    let rom: Vec<u8> = vec![0xAB, 0xCD, 0x12, 0x00, 0xFF];
    c.load_rom(&rom);
    assert!(c.file_loaded);
    for i in 0..rom.len() {
        assert_eq!(c.ram[0x200 + i], rom[i]);
    }
    for j in 0..4096 {
        let in_rom = (0x200..0x200 + rom.len()).contains(&j);
        let in_font = (0x050..0x050 + 80).contains(&j);
        if !in_rom && !in_font {
            assert_eq!(c.ram[j], 0);
        }
    }
}

#[test]
fn test_load_rom_second_rejected() {
    let mut c = Chip8::new(Version::Original);
    let rom: Vec<u8> = vec![1, 2, 3];
    c.load_rom(&rom);
    let other: Vec<u8> = vec![9, 9, 9];
    c.load_rom(&other);
    assert_eq!(c.ram[0x200], 1);
    assert_eq!(c.ram[0x201], 2);
    assert_eq!(c.ram[0x202], 3);
}

#[test]
fn test_add_imm_wraps() {
    let mut c = Chip8::default();
    c.v_reg[2] = 0xFF;
    c.v_reg[0xF] = 5;
    set_opcode(&mut c, 0x7201); // V2 += 1
    c.step();
    assert_eq!(c.v_reg[2], 0x00);
    assert_eq!(c.v_reg[0xF], 5); // no flag output
}

#[test]
fn test_add_reg_carry() {
    let mut c = Chip8::default();
    c.v_reg[0] = 0xFF;
    c.v_reg[1] = 0x01;
    set_opcode(&mut c, 0x8014); // V0 += V1
    c.step();
    assert_eq!(c.v_reg[0], 0x00);
    assert_eq!(c.v_reg[0xF], 1);
}

#[test]
fn test_sub_borrow() {
    let mut c = Chip8::default();
    c.v_reg[0] = 0x01;
    c.v_reg[1] = 0x02;
    set_opcode(&mut c, 0x8015); // V0 -= V1
    c.step();
    assert_eq!(c.v_reg[0], 0xFF);
    assert_eq!(c.v_reg[0xF], 0);
}

#[test]
fn test_subn_no_borrow() {
    let mut c = Chip8::default();
    c.v_reg[0] = 0x01;
    c.v_reg[1] = 0x02;
    set_opcode(&mut c, 0x8017); // V0 = V1 - V0
    c.step();
    assert_eq!(c.v_reg[0], 0x01);
    assert_eq!(c.v_reg[0xF], 1);
}

#[test]
fn test_bcd() {
    for (value, digits) in [(0u8, (0, 0, 0)), (123u8, (1, 2, 3)), (255u8, (2, 5, 5))] {
        let mut c = Chip8::default();
        c.v_reg[6] = value;
        c.i_reg = 0x300;
        set_opcode(&mut c, 0xF633);
        c.step();
        assert_eq!(c.ram[0x300], digits.0);
        assert_eq!(c.ram[0x301], digits.1);
        assert_eq!(c.ram[0x302], digits.2);
    }
}

#[test]
fn test_draw_twice_toggles_off() {
    let mut c = Chip8::default();
    c.ram[0x300] = 0xFF; // one sprite row, all bits set
    c.i_reg = 0x300;
    c.v_reg[0] = 8; // x
    c.v_reg[1] = 4; // y
    set_opcode(&mut c, 0xD011);
    c.step();
    for col in 8..16 {
        assert!(c.screen_state[4 * 64 + col]);
    }
    assert_eq!(c.v_reg[0xF], 0);
    assert!(c.screen_updated);

    set_opcode(&mut c, 0xD011);
    c.step();
    for col in 8..16 {
        assert!(!c.screen_state[4 * 64 + col]);
    }
    assert_eq!(c.v_reg[0xF], 1);
}

#[test]
fn test_draw_clips_right_edge() {
    let mut c = Chip8::default();
    c.ram[0x300] = 0xFF;
    c.i_reg = 0x300;
    c.v_reg[0] = 60;
    c.v_reg[1] = 0;
    set_opcode(&mut c, 0xD011);
    c.step();
    for col in 60..64 {
        assert!(c.screen_state[col]);
    }
    // no wraparound onto the left edge
    for col in 0..8 {
        assert!(!c.screen_state[col]);
    }
    assert_eq!(c.v_reg[0xF], 0);
}

#[test]
fn test_shift_right_variants() {
    for (version, expected_vx) in [
        (Version::Schip, 0b0101u8),   // shifts Vx itself
        (Version::Original, 0b0010),  // copies Vy first
        (Version::XoChip, 0b0010),
    ] {
        let mut c = Chip8::new(version);
        c.v_reg[0] = 0b1010;
        c.v_reg[1] = 0b0100;
        set_opcode(&mut c, 0x8016);
        c.step();
        assert_eq!(c.v_reg[0], expected_vx);
        assert_eq!(c.v_reg[0xF], 0);
    }
}

#[test]
fn test_shift_left_flag() {
    let mut c = Chip8::new(Version::Schip);
    c.v_reg[0] = 0b1000_0001;
    set_opcode(&mut c, 0x801E);
    c.step();
    assert_eq!(c.v_reg[0], 0b0000_0010);
    assert_eq!(c.v_reg[0xF], 1);
}

#[test]
fn test_logic_quirk_resets_flag() {
    let mut c = Chip8::new(Version::Original);
    c.v_reg[0] = 0x0F;
    c.v_reg[1] = 0xF0;
    c.v_reg[0xF] = 7;
    set_opcode(&mut c, 0x8011); // V0 |= V1
    c.step();
    assert_eq!(c.v_reg[0], 0xFF);
    assert_eq!(c.v_reg[0xF], 0);

    let mut c = Chip8::new(Version::Schip);
    c.v_reg[0] = 0x0F;
    c.v_reg[1] = 0xF0;
    c.v_reg[0xF] = 7;
    set_opcode(&mut c, 0x8011);
    c.step();
    assert_eq!(c.v_reg[0], 0xFF);
    assert_eq!(c.v_reg[0xF], 7);
}

#[test]
fn test_decrement_timers_saturate() {
    let mut c = Chip8::default();
    c.delay_timer = 2;
    c.sound_timer = 0;
    c.decrement_timers();
    assert_eq!(c.delay_timer, 1);
    assert_eq!(c.sound_timer, 0);
    c.decrement_timers();
    c.decrement_timers();
    assert_eq!(c.delay_timer, 0);
    assert_eq!(c.sound_timer, 0);
}

#[test]
fn test_decrement_timers_idempotent_at_zero() {
    let mut c = Chip8::default();
    c.decrement_timers();
    assert_eq!(c.delay_timer, 0);
    assert_eq!(c.sound_timer, 0);
}

#[test]
fn test_wait_key_release() {
    let mut c = Chip8::default();
    c.prev_input_data[3] = true;
    c.input_data[3] = false;
    set_opcode(&mut c, 0xF50A);
    c.step();
    assert_eq!(c.v_reg[5], 3);
    assert_eq!(c.pc, 0x202);
}

#[test]
fn test_wait_key_rearms() {
    let mut c = Chip8::default();
    c.input_data[3] = true; // held but not released
    set_opcode(&mut c, 0xF50A);
    c.step();
    assert_eq!(c.pc, 0x200);
    assert_eq!(c.v_reg[5], 0);
}

#[test]
fn test_skip_key_ops() {
    let mut c = Chip8::default();
    c.v_reg[0] = 7;
    c.input_data[7] = true;
    set_opcode(&mut c, 0xE09E); // skip if key V0 held
    c.step();
    assert_eq!(c.pc, 0x204);

    let mut c = Chip8::default();
    c.v_reg[0] = 7;
    set_opcode(&mut c, 0xE0A1); // skip if key V0 not held
    c.step();
    assert_eq!(c.pc, 0x204);
}

#[test]
fn test_random_masked_to_zero() {
    let mut c = Chip8::default();
    c.v_reg[3] = 0xAA;
    set_opcode(&mut c, 0xC300); // V3 = random & 0x00
    c.step();
    assert_eq!(c.v_reg[3], 0);
}

#[test]
fn test_call_and_return() {
    let mut c = Chip8::default();
    set_opcode(&mut c, 0x2400); // call 0x400
    c.step();
    assert_eq!(c.pc, 0x400);
    set_opcode(&mut c, 0x00EE); // return
    c.step();
    assert_eq!(c.pc, 0x202);
}

#[test]
fn test_jump_offset_variants() {
    let mut c = Chip8::new(Version::Original);
    c.v_reg[0] = 4;
    c.v_reg[3] = 9;
    set_opcode(&mut c, 0xB300);
    c.step();
    assert_eq!(c.pc, 0x304); // nnn + V0

    let mut c = Chip8::new(Version::Schip);
    c.v_reg[0] = 4;
    c.v_reg[3] = 9;
    set_opcode(&mut c, 0xB300);
    c.step();
    assert_eq!(c.pc, 0x309); // nnn + Vx with x = 3
}

#[test]
fn test_store_load_regs_variants() {
    let mut c = Chip8::new(Version::Original);
    c.v_reg[0] = 11;
    c.v_reg[1] = 22;
    c.v_reg[2] = 33;
    c.i_reg = 0x300;
    set_opcode(&mut c, 0xF255); // store V0..V2
    c.step();
    assert_eq!(c.ram[0x300], 11);
    assert_eq!(c.ram[0x301], 22);
    assert_eq!(c.ram[0x302], 33);
    assert_eq!(c.i_reg, 0x303); // advanced on the Original variant

    let mut c = Chip8::new(Version::Schip);
    c.ram[0x300] = 44;
    c.ram[0x301] = 55;
    c.i_reg = 0x300;
    set_opcode(&mut c, 0xF165); // load V0..V1
    c.step();
    assert_eq!(c.v_reg[0], 44);
    assert_eq!(c.v_reg[1], 55);
    assert_eq!(c.v_reg[2], 0);
    assert_eq!(c.i_reg, 0x300); // not advanced on the Super-CHIP variant
}

#[test]
fn test_skip_immediate() {
    let mut c = Chip8::default();
    c.v_reg[1] = 0x42;
    set_opcode(&mut c, 0x3142); // skip if V1 == 0x42
    c.step();
    assert_eq!(c.pc, 0x204);

    let mut c = Chip8::default();
    c.v_reg[1] = 0x41;
    set_opcode(&mut c, 0x3142);
    c.step();
    assert_eq!(c.pc, 0x202);
}

#[test]
fn test_clear_screen() {
    let mut c = Chip8::default();
    c.screen_state[100] = true;
    set_opcode(&mut c, 0x00E0);
    c.step();
    assert!(c.screen_state.iter().all(|p| !p));
    assert!(c.screen_updated);
}

#[test]
fn test_timers_via_opcodes() {
    let mut c = Chip8::default();
    c.v_reg[2] = 77;
    set_opcode(&mut c, 0xF215); // delay = V2
    c.step();
    assert_eq!(c.delay_timer, 77);
    set_opcode(&mut c, 0xF318); // sound = V3
    c.v_reg[3] = 88;
    c.step();
    assert_eq!(c.sound_timer, 88);
    set_opcode(&mut c, 0xF407); // V4 = delay
    c.step();
    assert_eq!(c.v_reg[4], 77);
}

#[test]
fn test_add_index() {
    let mut c = Chip8::default();
    c.i_reg = 0x120;
    c.v_reg[6] = 0x30;
    set_opcode(&mut c, 0xF61E);
    c.step();
    assert_eq!(c.i_reg, 0x150);
}

#[test]
fn test_unknown_opcode_only_advances() {
    let mut c = Chip8::default();
    set_opcode(&mut c, 0x0123); // no such pattern
    c.step();
    assert_eq!(c.pc, 0x202);
    assert_eq!(c.i_reg, 0);
    assert!(!c.screen_updated);
    assert!(c.stack.is_empty());
}

#[test]
fn test_snapshot_input() {
    let mut c = Chip8::default();
    c.input_data[2] = true;
    c.input_data[9] = true;
    c.snapshot_input();
    assert!(c.prev_input_data[2]);
    assert!(c.prev_input_data[9]);
    assert!(!c.prev_input_data[0]);
}

use chip8_core::machine::Emulator;
use chip8_core::state::Chip8Error;

#[test]
fn clear_screen_turns_every_pixel_off() {
    let mut em = Emulator::new();
    let program = [
        0xA2, 0x00, // I = 512
        0xD0, 0x04, // draw 4 rows at (0, 0): some pixels go on
        0x00, 0xE0, // clear screen
    ];
    assert_eq!(em.load(&program), Ok(()));
    assert_eq!(em.tick(), Ok(()));
    assert_eq!(em.tick(), Ok(()));
    assert!(em.get_display().iter().any(|p| *p));
    assert_eq!(em.tick(), Ok(()));
    assert!(em.get_display().iter().all(|p| !*p));
}

#[test]
fn clear_alone_leaves_display_all_false() {
    let mut em = Emulator::new();
    let program = [0x00, 0xE0];
    assert_eq!(em.load(&program), Ok(()));
    assert_eq!(em.tick(), Ok(()));
    assert!(em.get_display().iter().all(|p| !*p));
    assert_eq!(em.program_counter(), 514);
}

#[test]
fn load_then_add_immediate() {
    let mut em = Emulator::new();
    let program = [0x60, 0x05, 0x70, 0x05];
    assert_eq!(em.load(&program), Ok(()));
    assert_eq!(em.tick(), Ok(()));
    assert_eq!(em.tick(), Ok(()));
    assert_eq!(em.register(0), 10);
}

#[test]
fn add_immediate_wraps_silently() {
    let mut em = Emulator::new();
    let program = [0x60, 0xFE, 0x70, 0x05];
    assert_eq!(em.load(&program), Ok(()));
    assert_eq!(em.tick(), Ok(()));
    assert_eq!(em.tick(), Ok(()));
    assert_eq!(em.register(0), 3);
    // The immediate add writes no carry flag.
    assert_eq!(em.register(15), 0);
}

#[test]
fn add_with_carry_sets_flag_on_overflow() {
    let mut em = Emulator::new();
    let program = [0x60, 0xFF, 0x61, 0x01, 0x80, 0x14];
    assert_eq!(em.load(&program), Ok(()));
    for _ in 0..3 {
        assert_eq!(em.tick(), Ok(()));
    }
    assert_eq!(em.register(0), 0);
    assert_eq!(em.register(15), 1);
}

#[test]
fn add_with_carry_clears_flag_without_overflow() {
    let mut em = Emulator::new();
    let program = [0x60, 0x01, 0x61, 0x01, 0x80, 0x14];
    assert_eq!(em.load(&program), Ok(()));
    for _ in 0..3 {
        assert_eq!(em.tick(), Ok(()));
    }
    assert_eq!(em.register(0), 2);
    assert_eq!(em.register(15), 0);
}

#[test]
fn subtract_with_borrow() {
    let mut em = Emulator::new();
    let program = [0x60, 0x05, 0x61, 0x0A, 0x80, 0x15];
    assert_eq!(em.load(&program), Ok(()));
    for _ in 0..3 {
        assert_eq!(em.tick(), Ok(()));
    }
    assert_eq!(em.register(0), 251);
    assert_eq!(em.register(15), 0);
}

#[test]
fn subtract_without_borrow() {
    let mut em = Emulator::new();
    let program = [0x60, 0x0A, 0x61, 0x05, 0x80, 0x15];
    assert_eq!(em.load(&program), Ok(()));
    for _ in 0..3 {
        assert_eq!(em.tick(), Ok(()));
    }
    assert_eq!(em.register(0), 5);
    assert_eq!(em.register(15), 1);
}

#[test]
fn reverse_subtract() {
    let mut em = Emulator::new();
    let program = [0x60, 0x0A, 0x61, 0x05, 0x80, 0x17];
    assert_eq!(em.load(&program), Ok(()));
    for _ in 0..3 {
        assert_eq!(em.tick(), Ok(()));
    }
    // V0 = V1 - V0 = 5 - 10 mod 256; a borrow occurred.
    assert_eq!(em.register(0), 251);
    assert_eq!(em.register(15), 0);
}

#[test]
fn bitwise_or_and_xor_and_copy() {
    let mut em = Emulator::new();
    let program = [
        0x60, 0x0C, 0x61, 0x0A, 0x80, 0x11, // V0 = 0x0C | 0x0A = 0x0E
        0x62, 0x0C, 0x63, 0x0A, 0x82, 0x32, // V2 = 0x0C & 0x0A = 0x08
        0x64, 0x0C, 0x65, 0x0A, 0x84, 0x53, // V4 = 0x0C ^ 0x0A = 0x06
        0x86, 0x00, // V6 = V0
    ];
    assert_eq!(em.load(&program), Ok(()));
    for _ in 0..10 {
        assert_eq!(em.tick(), Ok(()));
    }
    assert_eq!(em.register(0), 0x0E);
    assert_eq!(em.register(2), 0x08);
    assert_eq!(em.register(4), 0x06);
    assert_eq!(em.register(6), 0x0E);
}

#[test]
fn shifts_capture_the_departing_bit() {
    let mut em = Emulator::new();
    let program = [0x60, 0x05, 0x80, 0x06];
    assert_eq!(em.load(&program), Ok(()));
    assert_eq!(em.tick(), Ok(()));
    assert_eq!(em.tick(), Ok(()));
    assert_eq!(em.register(0), 2);
    assert_eq!(em.register(15), 1);

    let mut em = Emulator::new();
    let program = [0x60, 0x81, 0x80, 0x0E];
    assert_eq!(em.load(&program), Ok(()));
    assert_eq!(em.tick(), Ok(()));
    assert_eq!(em.tick(), Ok(()));
    assert_eq!(em.register(0), 2);
    assert_eq!(em.register(15), 1);
}

#[test]
fn skip_if_equal_immediate() {
    let mut em = Emulator::new();
    // V0 = 5; skip if V0 == 5 (it is: skip); V0 = 1 (skipped); V1 = 2.
    let program = [0x60, 0x05, 0x30, 0x05, 0x60, 0x01, 0x61, 0x02];
    assert_eq!(em.load(&program), Ok(()));
    for _ in 0..3 {
        assert_eq!(em.tick(), Ok(()));
    }
    assert_eq!(em.register(0), 5);
    assert_eq!(em.register(1), 2);
}

#[test]
fn skip_if_not_equal_immediate() {
    let mut em = Emulator::new();
    // V0 = 5; skip if V0 != 6 (it is not 6: skip); V0 = 1 (skipped); V1 = 2.
    let program = [0x60, 0x05, 0x40, 0x06, 0x60, 0x01, 0x61, 0x02];
    assert_eq!(em.load(&program), Ok(()));
    for _ in 0..3 {
        assert_eq!(em.tick(), Ok(()));
    }
    assert_eq!(em.register(0), 5);
    assert_eq!(em.register(1), 2);
}

#[test]
fn register_skips_trigger_on_differing_values() {
    let mut em = Emulator::new();
    // V0 = 5, V1 = 6 differ: both the 5xy0 and the 9xy0 pattern skip.
    let program = [0x60, 0x05, 0x61, 0x06, 0x50, 0x10, 0x62, 0x01, 0x90, 0x10, 0x63, 0x01];
    assert_eq!(em.load(&program), Ok(()));
    for _ in 0..4 {
        assert_eq!(em.tick(), Ok(()));
    }
    assert_eq!(em.register(2), 0);
    assert_eq!(em.register(3), 0);
    assert_eq!(em.program_counter(), 524);
}

#[test]
fn register_skips_fall_through_on_equal_values() {
    let mut em = Emulator::new();
    let program = [0x60, 0x05, 0x61, 0x05, 0x50, 0x10, 0x62, 0x01];
    assert_eq!(em.load(&program), Ok(()));
    for _ in 0..4 {
        assert_eq!(em.tick(), Ok(()));
    }
    assert_eq!(em.register(2), 1);
}

#[test]
fn jump_to_self_loops() {
    let mut em = Emulator::new();
    let program = [0x12, 0x00];
    assert_eq!(em.load(&program), Ok(()));
    assert_eq!(em.tick(), Ok(()));
    assert_eq!(em.program_counter(), 512);
    assert_eq!(em.tick(), Ok(()));
    assert_eq!(em.program_counter(), 512);
}

#[test]
fn offset_jump_adds_register_zero() {
    let mut em = Emulator::new();
    let program = [0x60, 0x04, 0xB3, 0x00];
    assert_eq!(em.load(&program), Ok(()));
    assert_eq!(em.tick(), Ok(()));
    assert_eq!(em.tick(), Ok(()));
    assert_eq!(em.program_counter(), 0x304);
}

#[test]
fn load_index_and_add_to_index() {
    let mut em = Emulator::new();
    let program = [0xA1, 0x23, 0x60, 0x07, 0xF0, 0x1E];
    assert_eq!(em.load(&program), Ok(()));
    for _ in 0..3 {
        assert_eq!(em.tick(), Ok(()));
    }
    assert_eq!(em.index_register(), 0x123 + 7);
}

#[test]
fn glyph_index_is_five_times_the_digit() {
    let mut em = Emulator::new();
    let program = [0x60, 0x0A, 0xF0, 0x29];
    assert_eq!(em.load(&program), Ok(()));
    assert_eq!(em.tick(), Ok(()));
    assert_eq!(em.tick(), Ok(()));
    assert_eq!(em.index_register(), 50);
}

#[test]
fn bcd_of_157_and_of_5() {
    let mut em = Emulator::new();
    let program = [0x60, 0x9D, 0xA3, 0x00, 0xF0, 0x33];
    assert_eq!(em.load(&program), Ok(()));
    for _ in 0..3 {
        assert_eq!(em.tick(), Ok(()));
    }
    assert_eq!(em.memory_byte(0x300), 1);
    assert_eq!(em.memory_byte(0x301), 5);
    assert_eq!(em.memory_byte(0x302), 7);

    let mut em = Emulator::new();
    let program = [0x60, 0x05, 0xA3, 0x00, 0xF0, 0x33];
    assert_eq!(em.load(&program), Ok(()));
    for _ in 0..3 {
        assert_eq!(em.tick(), Ok(()));
    }
    assert_eq!(em.memory_byte(0x300), 0);
    assert_eq!(em.memory_byte(0x301), 0);
    assert_eq!(em.memory_byte(0x302), 5);
}

#[test]
fn bcd_of_the_largest_byte() {
    let mut em = Emulator::new();
    let program = [0x60, 0xFF, 0xA3, 0x00, 0xF0, 0x33];
    assert_eq!(em.load(&program), Ok(()));
    for _ in 0..3 {
        assert_eq!(em.tick(), Ok(()));
    }
    assert_eq!(em.memory_byte(0x300), 2);
    assert_eq!(em.memory_byte(0x301), 5);
    assert_eq!(em.memory_byte(0x302), 5);
}

#[test]
fn store_then_load_registers_round_trip() {
    let mut em = Emulator::new();
    let program = [
        0x60, 0x11, 0x61, 0x22, 0x62, 0x33, // V0..V2
        0xA3, 0x00, // I = 0x300
        0xF2, 0x55, // memory[I..=I+2] = V0..=V2
        0x60, 0x00, 0x61, 0x00, 0x62, 0x00, // wipe V0..V2
        0xF2, 0x65, // V0..=V2 = memory[I..=I+2]
    ];
    assert_eq!(em.load(&program), Ok(()));
    for _ in 0..9 {
        assert_eq!(em.tick(), Ok(()));
    }
    assert_eq!(em.memory_byte(0x300), 0x11);
    assert_eq!(em.memory_byte(0x301), 0x22);
    assert_eq!(em.memory_byte(0x302), 0x33);
    assert_eq!(em.register(0), 0x11);
    assert_eq!(em.register(1), 0x22);
    assert_eq!(em.register(2), 0x33);
    assert_eq!(em.memory_byte(0x303), 0);
}

#[test]
fn read_delay_timer_into_register() {
    let mut em = Emulator::new();
    let program = [0x60, 0x09, 0xF0, 0x15, 0xF1, 0x07];
    assert_eq!(em.load(&program), Ok(()));
    for _ in 0..3 {
        assert_eq!(em.tick(), Ok(()));
    }
    assert_eq!(em.register(1), 9);
}

#[test]
fn draw_glyph_zero_top_row() {
    let mut em = Emulator::new();
    // I = 0 (digit 0's glyph), draw 1 row at (V0, V1) = (0, 0).
    let program = [0xA0, 0x00, 0xD0, 0x11];
    assert_eq!(em.load(&program), Ok(()));
    assert_eq!(em.tick(), Ok(()));
    assert_eq!(em.tick(), Ok(()));
    let display = em.get_display();
    // The glyph's first row is 0xF0: four pixels on, four off.
    for x in 0..4 {
        assert!(display[x]);
    }
    for x in 4..8 {
        assert!(!display[x]);
    }
    assert_eq!(em.register(15), 0);
}

#[test]
fn draw_twice_collides_and_erases() {
    let mut em = Emulator::new();
    let program = [0xA0, 0x00, 0xD0, 0x11, 0xD0, 0x11];
    assert_eq!(em.load(&program), Ok(()));
    assert_eq!(em.tick(), Ok(()));
    assert_eq!(em.tick(), Ok(()));
    assert_eq!(em.register(15), 0);
    assert!(em.get_display().iter().any(|p| *p));
    assert_eq!(em.tick(), Ok(()));
    assert_eq!(em.register(15), 1);
    assert!(em.get_display().iter().all(|p| !*p));
}

#[test]
fn draw_wraps_both_axes() {
    let mut em = Emulator::new();
    // Origin (62, 31): the glyph row 0xF0 spans columns 62, 63, 0, 1 of row 31.
    let program = [0xA0, 0x00, 0x60, 0x3E, 0x61, 0x1F, 0xD0, 0x11];
    assert_eq!(em.load(&program), Ok(()));
    for _ in 0..4 {
        assert_eq!(em.tick(), Ok(()));
    }
    let display = em.get_display();
    assert!(display[31 * 64 + 62]);
    assert!(display[31 * 64 + 63]);
    assert!(display[31 * 64]);
    assert!(display[31 * 64 + 1]);
    assert!(!display[31 * 64 + 2]);
}

#[test]
fn draw_beyond_memory_is_reported() {
    let mut em = Emulator::new();
    let program = [0xAF, 0xFF, 0xD0, 0x0F];
    assert_eq!(em.load(&program), Ok(()));
    assert_eq!(em.tick(), Ok(()));
    assert_eq!(em.tick(), Err(Chip8Error::OutOfBoundsAccess));
    assert!(em.get_display().iter().all(|p| !*p));
}

#[test]
fn skip_if_key_down_and_up() {
    let mut em = Emulator::new();
    em.keypress(4, true);
    // V0 = 4; skip if key V0 down (it is); V1 = 1 (skipped); V2 = 2.
    let program = [0x60, 0x04, 0xE0, 0x9E, 0x61, 0x01, 0x62, 0x02];
    assert_eq!(em.load(&program), Ok(()));
    for _ in 0..3 {
        assert_eq!(em.tick(), Ok(()));
    }
    assert_eq!(em.register(1), 0);
    assert_eq!(em.register(2), 2);

    let mut em = Emulator::new();
    em.keypress(4, true);
    // V0 = 4; skip if key V0 up (it is down: no skip); V1 = 1.
    let program = [0x60, 0x04, 0xE0, 0xA1, 0x61, 0x01];
    assert_eq!(em.load(&program), Ok(()));
    for _ in 0..3 {
        assert_eq!(em.tick(), Ok(()));
    }
    assert_eq!(em.register(1), 1);
}

#[test]
fn wait_key_spins_until_a_key_is_pressed() {
    let mut em = Emulator::new();
    let program = [0xF0, 0x0A];
    assert_eq!(em.load(&program), Ok(()));
    assert_eq!(em.tick(), Ok(()));
    assert_eq!(em.program_counter(), 512);
    assert_eq!(em.tick(), Ok(()));
    assert_eq!(em.program_counter(), 512);
    em.keypress(9, true);
    assert_eq!(em.tick(), Ok(()));
    assert_eq!(em.program_counter(), 514);
    assert_eq!(em.register(0), 9);
}

#[test]
fn wait_key_takes_the_lowest_pressed_index() {
    let mut em = Emulator::new();
    em.keypress(11, true);
    em.keypress(5, true);
    let program = [0xF3, 0x0A];
    assert_eq!(em.load(&program), Ok(()));
    assert_eq!(em.tick(), Ok(()));
    assert_eq!(em.register(3), 5);
}

#[test]
fn random_is_masked_by_the_immediate() {
    let mut em = Emulator::new();
    let program = [0x60, 0x55, 0xC0, 0x00, 0xC1, 0x0F];
    assert_eq!(em.load(&program), Ok(()));
    for _ in 0..3 {
        assert_eq!(em.tick(), Ok(()));
    }
    // A zero mask forces zero whatever byte the source produced.
    assert_eq!(em.register(0), 0);
    assert!(em.register(1) <= 0x0F);
}

#[test]
fn nop_only_advances_the_program_counter() {
    let mut em = Emulator::new();
    let program = [0x00, 0x00];
    assert_eq!(em.load(&program), Ok(()));
    assert_eq!(em.tick(), Ok(()));
    assert_eq!(em.program_counter(), 514);
    for x in 0..16 {
        assert_eq!(em.register(x), 0);
    }
}

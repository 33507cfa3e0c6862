use chip8::Chip8;

const FONT: [u8; 80] = [
    0xF0, 0x90, 0x90, 0x90, 0xF0, 0x20, 0x60, 0x20, 0x20, 0x70, 0xF0, 0x10, 0xF0, 0x80, 0xF0,
    0xF0, 0x10, 0xF0, 0x10, 0xF0, 0x90, 0x90, 0xF0, 0x10, 0x10, 0xF0, 0x80, 0xF0, 0x10, 0xF0,
    0xF0, 0x80, 0xF0, 0x90, 0xF0, 0xF0, 0x10, 0x20, 0x40, 0x40, 0xF0, 0x90, 0xF0, 0x90, 0xF0,
    0xF0, 0x90, 0xF0, 0x10, 0xF0, 0xF0, 0x90, 0xF0, 0x90, 0x90, 0xE0, 0x90, 0xE0, 0x90, 0xE0,
    0xF0, 0x80, 0x80, 0x80, 0xF0, 0xE0, 0x90, 0x90, 0x90, 0xE0, 0xF0, 0x80, 0xF0, 0x80, 0xF0,
    0xF0, 0x80, 0xF0, 0x80, 0x80,
];

fn machine_with(program: &[u8]) -> Chip8 {
    let mut c = Chip8::new();
    assert_eq!(c.loadProgram(program), Ok(program.len()));
    c
}

fn cycles(c: &mut Chip8, n: usize) {
    for _ in 0..n {
        c.execute_cycle_with(0);
    }
}

#[test]
fn new_machine_state() {
    let c = Chip8::new();
    for a in 0..80 {
        assert_eq!(c.memory_at(a), FONT[a]);
    }
    for a in 80..4096 {
        assert_eq!(c.memory_at(a), 0);
    }
    assert_eq!(c.program_counter(), 0x200);
    assert_eq!(c.index_register(), 0);
    assert_eq!(c.stack_pointer(), 0);
    for i in 0..16 {
        assert_eq!(c.register(i), 0);
    }
    assert_eq!(c.delay_timer(), 0);
    assert_eq!(c.sound_timer(), 0);
    assert_eq!(c.get_display().len(), 64 * 64);
    assert!(c.get_display().iter().all(|p| !p));
}

#[test]
fn load_program_copies_bytes() {
    let c = machine_with(&[1, 2, 3, 0xFF]);
    assert_eq!(c.memory_at(0x1FF), 0);
    assert_eq!(c.memory_at(0x200), 1);
    assert_eq!(c.memory_at(0x201), 2);
    assert_eq!(c.memory_at(0x202), 3);
    assert_eq!(c.memory_at(0x203), 0xFF);
    assert_eq!(c.memory_at(0x204), 0);
}

#[test]
fn load_program_largest_image() {
    let data: Vec<u8> = (0..3584).map(|i| (i % 251) as u8 + 1).collect();
    let c = machine_with(&data);
    for i in 0..3584 {
        assert_eq!(c.memory_at(0x200 + i), data[i]);
    }
}

#[test]
fn load_program_too_big_is_refused() {
    let mut c = machine_with(&[0xAA; 16]);
    let data = vec![7u8; 3585];
    assert!(c.loadProgram(&data).is_err());
    for i in 0..16 {
        assert_eq!(c.memory_at(0x200 + i), 0xAA);
    }
    for i in 16..3584 {
        assert_eq!(c.memory_at(0x200 + i), 0);
    }
}

#[test]
fn set_register_immediate() {
    let mut c = machine_with(&[0x6A, 0x42]);
    cycles(&mut c, 1);
    assert_eq!(c.register(0xA), 0x42);
    assert_eq!(c.program_counter(), 0x202);
}

#[test]
fn add_immediate_wraps_without_flag() {
    let mut c = machine_with(&[0x6F, 0x05, 0x6A, 0xFF, 0x7A, 0x01]);
    cycles(&mut c, 3);
    assert_eq!(c.register(0xA), 0x00);
    assert_eq!(c.register(0xF), 0x05);
}

#[test]
fn add_registers_sets_carry() {
    let mut c = machine_with(&[0x61, 0xFF, 0x62, 0x01, 0x81, 0x24]);
    cycles(&mut c, 3);
    assert_eq!(c.register(1), 0x00);
    assert_eq!(c.register(0xF), 1);

    let mut c = machine_with(&[0x61, 0x01, 0x62, 0x01, 0x81, 0x24]);
    cycles(&mut c, 3);
    assert_eq!(c.register(1), 0x02);
    assert_eq!(c.register(0xF), 0);
}

#[test]
fn sub_registers_sets_no_borrow() {
    let mut c = machine_with(&[0x61, 0x01, 0x62, 0x02, 0x81, 0x25]);
    cycles(&mut c, 3);
    assert_eq!(c.register(1), 0xFF);
    assert_eq!(c.register(0xF), 0);

    let mut c = machine_with(&[0x61, 0x02, 0x62, 0x01, 0x81, 0x25]);
    cycles(&mut c, 3);
    assert_eq!(c.register(1), 0x01);
    assert_eq!(c.register(0xF), 1);
}

#[test]
fn reverse_sub_sets_no_borrow() {
    let mut c = machine_with(&[0x61, 0x05, 0x62, 0x03, 0x81, 0x27]);
    cycles(&mut c, 3);
    assert_eq!(c.register(1), 0xFE);
    assert_eq!(c.register(0xF), 0);

    let mut c = machine_with(&[0x61, 0x03, 0x62, 0x05, 0x81, 0x27]);
    cycles(&mut c, 3);
    assert_eq!(c.register(1), 0x02);
    assert_eq!(c.register(0xF), 1);
}

#[test]
fn logic_operations() {
    let mut c = machine_with(&[
        0x61, 0b1100, 0x62, 0b1010, 0x83, 0x10, 0x83, 0x21, 0x84, 0x10, 0x84, 0x22, 0x85, 0x10,
        0x85, 0x23, 0x86, 0x20,
    ]);
    cycles(&mut c, 9);
    assert_eq!(c.register(3), 0b1110);
    assert_eq!(c.register(4), 0b1000);
    assert_eq!(c.register(5), 0b0110);
    assert_eq!(c.register(6), 0b1010);
}

#[test]
fn shifts_flag_the_bit_shifted_out() {
    let mut c = machine_with(&[0x61, 0x81, 0x81, 0x06]);
    cycles(&mut c, 2);
    assert_eq!(c.register(1), 0x40);
    assert_eq!(c.register(0xF), 1);

    let mut c = machine_with(&[0x61, 0x81, 0x81, 0x0E]);
    cycles(&mut c, 2);
    assert_eq!(c.register(1), 0x02);
    assert_eq!(c.register(0xF), 1);

    let mut c = machine_with(&[0x61, 0x42, 0x81, 0x0E]);
    cycles(&mut c, 2);
    assert_eq!(c.register(1), 0x84);
    assert_eq!(c.register(0xF), 0);
}

#[test]
fn draw_twice_collides_and_clears() {
    // V0 = 0, V1 = 0, IR = glyph of 0, draw five rows twice.
    let mut c = machine_with(&[0x60, 0x00, 0x61, 0x00, 0xF0, 0x29, 0xD0, 0x15, 0xD0, 0x15]);
    cycles(&mut c, 4);
    assert_eq!(c.register(0xF), 0);
    assert!(c.is_pixel_set(0, 0));
    assert!(c.is_pixel_set(3, 0));
    assert!(!c.is_pixel_set(4, 0));
    assert!(c.is_pixel_set(0, 1));
    assert!(!c.is_pixel_set(1, 1));
    assert!(c.is_pixel_set(3, 4));
    let lit = c.get_display().iter().filter(|p| **p).count();
    assert_eq!(lit, 14);
    cycles(&mut c, 1);
    assert_eq!(c.register(0xF), 1);
    assert!(c.get_display().iter().all(|p| !p));
}

#[test]
fn draw_wraps_around_the_screen() {
    // V0 = 62, V1 = 63, IR = glyph of 0 (first row 0xF0).
    let mut c = machine_with(&[0x60, 62, 0x61, 63, 0xA0, 0x00, 0xD0, 0x12]);
    cycles(&mut c, 4);
    assert!(c.is_pixel_set(62, 63));
    assert!(c.is_pixel_set(63, 63));
    assert!(c.is_pixel_set(0, 63));
    assert!(c.is_pixel_set(1, 63));
    assert!(!c.is_pixel_set(2, 63));
    // second row 0x90 lands on row 0
    assert!(c.is_pixel_set(62, 0));
    assert!(c.is_pixel_set(1, 0));
    assert!(!c.is_pixel_set(63, 0));
    assert_eq!(c.register(0xF), 0);
}

#[test]
fn clear_screen() {
    let mut c = machine_with(&[0xA0, 0x00, 0xD0, 0x15, 0x00, 0xE0]);
    cycles(&mut c, 2);
    assert!(c.get_display().iter().any(|p| *p));
    cycles(&mut c, 1);
    assert!(c.get_display().iter().all(|p| !p));
}

#[test]
fn store_and_load_registers_round_trip() {
    let mut c = machine_with(&[
        0x60, 0x11, 0x61, 0x22, 0x62, 0x33, 0x63, 0x44, 0xA3, 0x00, 0xF3, 0x55, 0x60, 0x00,
        0x61, 0x00, 0x62, 0x00, 0xF3, 0x65,
    ]);
    cycles(&mut c, 6);
    assert_eq!(c.memory_at(0x300), 0x11);
    assert_eq!(c.memory_at(0x301), 0x22);
    assert_eq!(c.memory_at(0x302), 0x33);
    assert_eq!(c.memory_at(0x303), 0x00);
    cycles(&mut c, 3);
    assert_eq!(c.register(0), 0);
    cycles(&mut c, 1);
    assert_eq!(c.register(0), 0x11);
    assert_eq!(c.register(1), 0x22);
    assert_eq!(c.register(2), 0x33);
    assert_eq!(c.register(3), 0x44);
}

#[test]
fn store_registers_fifteen() {
    let mut prog = Vec::new();
    for i in 0..16u8 {
        prog.push(0x60 | i);
        prog.push(i + 1);
    }
    prog.extend_from_slice(&[0xA4, 0x00, 0xFF, 0x55]);
    let mut c = machine_with(&prog);
    cycles(&mut c, 18);
    for i in 0..15 {
        assert_eq!(c.memory_at(0x400 + i), i as u8 + 1);
    }
    assert_eq!(c.memory_at(0x40F), 0);
}

#[test]
fn binary_coded_decimal() {
    let mut c = machine_with(&[0x60, 123, 0xA3, 0x00, 0xF0, 0x33]);
    cycles(&mut c, 3);
    assert_eq!(c.memory_at(0x300), 1);
    assert_eq!(c.memory_at(0x301), 2);
    assert_eq!(c.memory_at(0x302), 3);

    let mut c = machine_with(&[0x60, 7, 0xA3, 0x00, 0xF0, 0x33]);
    cycles(&mut c, 3);
    assert_eq!(c.memory_at(0x300), 0);
    assert_eq!(c.memory_at(0x301), 0);
    assert_eq!(c.memory_at(0x302), 7);
}

#[test]
fn two_jumps_end_at_second_target() {
    let mut prog = vec![0u8; 16];
    prog[0] = 0x12;
    prog[1] = 0x08;
    prog[8] = 0x12;
    prog[9] = 0x0C;
    let mut c = machine_with(&prog);
    cycles(&mut c, 1);
    assert_eq!(c.program_counter(), 0x208);
    cycles(&mut c, 1);
    assert_eq!(c.program_counter(), 0x20C);
    assert_eq!(c.stack_pointer(), 0);
}

#[test]
fn call_then_return_resumes_after_call() {
    let mut prog = vec![0u8; 8];
    prog[0] = 0x22;
    prog[1] = 0x06;
    prog[6] = 0x00;
    prog[7] = 0xEE;
    let mut c = machine_with(&prog);
    cycles(&mut c, 1);
    assert_eq!(c.program_counter(), 0x206);
    assert_eq!(c.stack_pointer(), 1);
    cycles(&mut c, 1);
    assert_eq!(c.program_counter(), 0x202);
    assert_eq!(c.stack_pointer(), 0);
}

#[test]
fn jump_with_offset() {
    let mut c = machine_with(&[0x60, 0x10, 0xB3, 0x00]);
    cycles(&mut c, 2);
    assert_eq!(c.program_counter(), 0x310);
}

#[test]
fn wait_for_key_blocks_then_takes_lowest() {
    let mut c = machine_with(&[0xF5, 0x0A]);
    for _ in 0..5 {
        cycles(&mut c, 1);
        assert_eq!(c.program_counter(), 0x200);
    }
    c.keypress(7, true);
    c.keypress(3, true);
    cycles(&mut c, 1);
    assert_eq!(c.register(5), 3);
    assert_eq!(c.program_counter(), 0x202);
}

#[test]
fn skip_instructions() {
    // 3xnn taken, 4xnn not taken, 5xy0 taken, 9xy0 not taken
    let mut c = machine_with(&[0x60, 0x07, 0x30, 0x07]);
    cycles(&mut c, 2);
    assert_eq!(c.program_counter(), 0x206);

    let mut c = machine_with(&[0x60, 0x07, 0x40, 0x07]);
    cycles(&mut c, 2);
    assert_eq!(c.program_counter(), 0x204);

    let mut c = machine_with(&[0x60, 0x07, 0x61, 0x07, 0x50, 0x10]);
    cycles(&mut c, 3);
    assert_eq!(c.program_counter(), 0x208);

    let mut c = machine_with(&[0x60, 0x07, 0x61, 0x07, 0x90, 0x10]);
    cycles(&mut c, 3);
    assert_eq!(c.program_counter(), 0x206);
}

#[test]
fn skip_on_key_state() {
    let mut c = machine_with(&[0x60, 0x04, 0xE0, 0x9E]);
    c.keypress(4, true);
    cycles(&mut c, 2);
    assert_eq!(c.program_counter(), 0x206);

    let mut c = machine_with(&[0x60, 0x04, 0xE0, 0xA1]);
    cycles(&mut c, 2);
    assert_eq!(c.program_counter(), 0x206);

    let mut c = machine_with(&[0x60, 0x04, 0xE0, 0xA1]);
    c.keypress(4, true);
    c.keypress(4, false);
    c.keypress(5, true);
    cycles(&mut c, 2);
    assert_eq!(c.program_counter(), 0x206);

    // a key index past the keypad counts as not pressed
    let mut c = machine_with(&[0x60, 0x20, 0xE0, 0x9E]);
    cycles(&mut c, 2);
    assert_eq!(c.program_counter(), 0x204);
}

#[test]
fn timers_count_down_and_stop_at_one() {
    let mut c = machine_with(&[0x60, 0x03, 0xF0, 0x15, 0xF0, 0x18, 0xF1, 0x07]);
    cycles(&mut c, 2);
    assert_eq!(c.delay_timer(), 2);
    cycles(&mut c, 1);
    assert_eq!(c.delay_timer(), 1);
    assert_eq!(c.sound_timer(), 2);
    cycles(&mut c, 1);
    assert_eq!(c.register(1), 1);
    assert_eq!(c.delay_timer(), 1);
    assert_eq!(c.sound_timer(), 1);
}

#[test]
fn index_register_instructions() {
    let mut c = machine_with(&[0x60, 0x0A, 0xAF, 0xFF, 0xF0, 0x1E, 0xF0, 0x29]);
    cycles(&mut c, 2);
    assert_eq!(c.index_register(), 0xFFF);
    cycles(&mut c, 1);
    assert_eq!(c.index_register(), 0x1009);
    cycles(&mut c, 1);
    assert_eq!(c.index_register(), 50);
}

#[test]
fn random_byte_is_masked() {
    let mut c = machine_with(&[0xC3, 0x0F]);
    c.execute_cycle_with(0xAB);
    assert_eq!(c.register(3), 0x0B);

    let mut c = machine_with(&[0xC3, 0x0F, 0xC4, 0x00]);
    c.executeCycle();
    assert!(c.register(3) <= 0x0F);
    c.executeCycle();
    assert_eq!(c.register(4), 0);
    assert_eq!(c.program_counter(), 0x204);
}

#[test]
fn unknown_instructions_do_nothing() {
    let mut c = machine_with(&[0x60, 0x05, 0x50, 0x01, 0xE0, 0x00, 0x80, 0x08, 0xF0, 0xFF, 0x01, 0x23]);
    cycles(&mut c, 6);
    assert_eq!(c.program_counter(), 0x20C);
    assert_eq!(c.register(0), 5);
    for i in 1..16 {
        assert_eq!(c.register(i), 0);
    }
}

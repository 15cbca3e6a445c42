use chip8::display::{cell_origin, WINDOW_X_SIZE, WINDOW_Y_SIZE};
use chip8::{Fault, Program, DISPLAY_X, DISPLAY_Y, RAM_SIZE};

fn load(words: &[u16]) -> Program {
    let mut p = Program::default();
    for (slot, w) in words.iter().enumerate() {
        p.set_ins(slot, *w);
    }
    p
}

fn run(p: &mut Program, cycles: usize) {
    for _ in 0..cycles {
        p.run_cycle_with(0).unwrap();
    }
}

fn all_dark(p: &Program) -> bool {
    (0..DISPLAY_Y).all(|row| (0..DISPLAY_X).all(|col| !p.pixel(col, row)))
}

#[test]
fn three_instruction_program() {
    let mut p = load(&[0x6005, 0x6103, 0x8014]);
    let start = p.pointer();
    run(&mut p, 3);
    assert_eq!(p.register(0), 8);
    assert_eq!(p.register(0xF), 0);
    assert_eq!(p.pointer(), start + 6);
}

#[test]
fn clear_after_lit_pixel() {
    // draw one lit pixel at (0, 0), jump back to slot 0, then clear from there
    let mut p = load(&[0xA00A, 0xD011, 0x1000, 0x0000, 0x0000, 0x8000]);
    run(&mut p, 3);
    assert!(p.pixel(0, 0));
    assert_eq!(p.pointer(), 0);
    p.set_ins(0, 0x00E0);
    run(&mut p, 1);
    assert!(all_dark(&p));
}

#[test]
fn sprite_clips_at_right_edge() {
    // V0 := 60, V1 := 0, I := 200, draw one row of 0xFF
    let mut p = load(&[0x603C, 0x6100, 0xA0C8, 0xD011]);
    p.set_ins(100, 0xFF00);
    run(&mut p, 4);
    for col in 60..64 {
        assert!(p.pixel(col, 0));
    }
    for col in 0..60 {
        assert!(!p.pixel(col, 0));
    }
    for col in 0..DISPLAY_X {
        assert!(!p.pixel(col, 1));
    }
}

#[test]
fn sprite_clips_at_bottom_edge() {
    // V0 := 0, V1 := 30, I := 200, draw four rows of 0x80
    let mut p = load(&[0x6000, 0x611E, 0xA0C8, 0xD014]);
    p.set_ins(100, 0x8080);
    p.set_ins(101, 0x8080);
    run(&mut p, 4);
    assert!(p.pixel(0, 30));
    assert!(p.pixel(0, 31));
    assert!(!p.pixel(0, 0));
    assert!(!p.pixel(0, 1));
}

#[test]
fn sprite_origin_wraps_modulo_screen() {
    // V0 := 66 is column 2, V1 := 33 is row 1
    let mut p = load(&[0x6042, 0x6121, 0xA0C8, 0xD011]);
    p.set_ins(100, 0x8000);
    run(&mut p, 4);
    assert!(p.pixel(2, 1));
}

#[test]
fn draw_twice_restores_pixels() {
    let mut p = load(&[0x6005, 0x6107, 0xA0C8, 0xD013, 0xD013]);
    p.set_ins(100, 0xA55A);
    p.set_ins(101, 0xF000);
    run(&mut p, 4);
    assert!(p.pixel(5, 7));
    assert!(!p.pixel(6, 7));
    assert!(p.pixel(7, 7));
    assert!(p.pixel(6, 8));
    run(&mut p, 1);
    assert!(all_dark(&p));
}

#[test]
fn add_with_carry() {
    let mut p = load(&[0x60C8, 0x6164, 0x8014]);
    run(&mut p, 3);
    assert_eq!(p.register(0), 44);
    assert_eq!(p.register(0xF), 1);
}

#[test]
fn add_at_exact_wrap() {
    let mut p = load(&[0x60FF, 0x6101, 0x8014]);
    run(&mut p, 3);
    assert_eq!(p.register(0), 0);
    assert_eq!(p.register(0xF), 1);
}

#[test]
fn sub_without_borrow() {
    let mut p = load(&[0x6005, 0x6103, 0x8015]);
    run(&mut p, 3);
    assert_eq!(p.register(0), 2);
    assert_eq!(p.register(0xF), 0);
}

#[test]
fn sub_with_borrow() {
    let mut p = load(&[0x6003, 0x6105, 0x8015]);
    run(&mut p, 3);
    assert_eq!(p.register(0), 254);
    assert_eq!(p.register(0xF), 1);
}

#[test]
fn sub_equal_values() {
    let mut p = load(&[0x6009, 0x6109, 0x8015]);
    run(&mut p, 3);
    assert_eq!(p.register(0), 0);
    assert_eq!(p.register(0xF), 0);
}

#[test]
fn bitwise_operations() {
    let mut p = load(&[0x60CC, 0x61AA, 0x8011, 0x62CC, 0x8212, 0x63CC, 0x8313]);
    run(&mut p, 7);
    assert_eq!(p.register(0), 0xEE);
    assert_eq!(p.register(2), 0x88);
    assert_eq!(p.register(3), 0x66);
}

#[test]
fn shifts_set_flag() {
    let mut p = load(&[0x6181, 0x8016, 0x821E]);
    run(&mut p, 2);
    assert_eq!(p.register(0), 0x40);
    assert_eq!(p.register(0xF), 1);
    run(&mut p, 1);
    assert_eq!(p.register(2), 0x02);
    assert_eq!(p.register(0xF), 1);
}

#[test]
fn add_immediate_wraps_without_flag() {
    let mut p = load(&[0x60FA, 0x7010]);
    run(&mut p, 2);
    assert_eq!(p.register(0), 10);
    assert_eq!(p.register(0xF), 0);
}

#[test]
fn skips_on_register_tests() {
    let mut p = load(&[0x6007, 0x3007, 0x6101, 0x4007, 0x6201]);
    run(&mut p, 2);
    assert_eq!(p.pointer(), 6);
    run(&mut p, 1);
    assert_eq!(p.pointer(), 8);
    run(&mut p, 1);
    assert_eq!(p.register(1), 0);
    assert_eq!(p.register(2), 1);
}

#[test]
fn skips_on_register_pairs() {
    let mut p = load(&[0x5010, 0x0000, 0x9010, 0x0000]);
    run(&mut p, 1);
    assert_eq!(p.pointer(), 4);
    run(&mut p, 1);
    assert_eq!(p.pointer(), 6);
}

#[test]
fn jump_lands_on_slot() {
    let mut p = load(&[0x1005]);
    run(&mut p, 1);
    assert_eq!(p.pointer(), 10);
}

#[test]
fn jump_plus_register() {
    let mut p = load(&[0x6004, 0xB010]);
    run(&mut p, 2);
    assert_eq!(p.pointer(), 0x14 + 2);
}

#[test]
fn call_then_return_resumes_after_call() {
    let mut p = load(&[0x2005]);
    p.set_ins(5, 0x00EE);
    run(&mut p, 1);
    assert_eq!(p.depth(), 1);
    assert_eq!(p.pointer(), 10);
    run(&mut p, 1);
    assert_eq!(p.depth(), 0);
    assert_eq!(p.pointer(), 2);
}

#[test]
fn return_on_empty_stack_faults() {
    let mut p = load(&[0x00EE]);
    assert_eq!(p.run_cycle_with(0), Err(Fault::StackUnderflow { pointer: 0 }));
    assert_eq!(p.pointer(), 0);
    assert_eq!(p.depth(), 0);
}

#[test]
fn call_past_deepest_frame_faults() {
    let mut p = load(&[0x2000]);
    run(&mut p, 15);
    assert_eq!(p.depth(), 15);
    assert_eq!(p.run_cycle_with(0), Err(Fault::StackOverflow { pointer: 0 }));
    assert_eq!(p.depth(), 15);
}

#[test]
fn fetch_past_memory_faults() {
    let mut p = load(&[0x1FFF]);
    run(&mut p, 1);
    assert_eq!(p.pointer(), 0x1FFE);
    assert_eq!(p.run_cycle_with(0), Err(Fault::FetchOutOfRange { pointer: 0x1FFE }));
}

#[test]
fn fetch_at_last_byte_faults() {
    // V0 := 0, then jump to 0x6FC + V0, which the step after the jump carries to the last byte
    let mut p = load(&[0x6000, 0xB6FC]);
    run(&mut p, 2);
    assert_eq!(p.pointer(), RAM_SIZE - 1);
    assert_eq!(p.run_cycle_with(0), Err(Fault::FetchOutOfRange { pointer: RAM_SIZE - 1 }));
}

#[test]
fn sprite_past_memory_faults() {
    let mut p = load(&[0xA6FF, 0xD001]);
    run(&mut p, 1);
    assert_eq!(
        p.run_cycle_with(0),
        Err(Fault::MemoryOutOfRange { pointer: 2, start: 0x6FF, len: 1 })
    );
    assert_eq!(p.pointer(), 2);
}

#[test]
fn digits_store_per_digit_quotients() {
    let mut p = load(&[0x60EA, 0xA0C8, 0xF033]);
    run(&mut p, 3);
    assert_eq!(p.memory(200), 2);
    assert_eq!(p.memory(201), 23);
    assert_eq!(p.memory(202), 234);
}

#[test]
fn digits_past_memory_fault() {
    let mut p = load(&[0xA6FD, 0xF033]);
    run(&mut p, 1);
    assert_eq!(
        p.run_cycle_with(0),
        Err(Fault::MemoryOutOfRange { pointer: 2, start: 0x6FD, len: 3 })
    );
}

#[test]
fn store_and_load_registers() {
    let mut p = load(&[0x6011, 0x6122, 0x6233, 0xA0C8, 0xF355, 0x6000, 0x6100, 0x6200, 0xF265]);
    run(&mut p, 5);
    assert_eq!(p.memory(200), 0x11);
    assert_eq!(p.memory(201), 0x22);
    assert_eq!(p.memory(202), 0x33);
    run(&mut p, 4);
    assert_eq!(p.register(0), 0x11);
    assert_eq!(p.register(1), 0x22);
    assert_eq!(p.register(2), 0);
}

#[test]
fn index_register_updates() {
    let mut p = load(&[0xA123, 0x6010, 0xF01E, 0x6107, 0xF129]);
    run(&mut p, 3);
    assert_eq!(p.index_register(), 0x133);
    run(&mut p, 2);
    assert_eq!(p.index_register(), 7);
}

#[test]
fn random_byte_is_masked() {
    let mut p = load(&[0xC00F]);
    p.run_cycle_with(0xAB).unwrap();
    assert_eq!(p.register(0), 0x0B);
}

#[test]
fn random_from_generator_is_masked() {
    let mut p = load(&[0xC000, 0xC10F]);
    p.run_cycle().unwrap();
    assert_eq!(p.register(0), 0);
    p.run_cycle().unwrap();
    assert!(p.register(1) <= 0x0F);
    assert_eq!(p.pointer(), 4);
}

#[test]
fn key_skips() {
    let mut p = load(&[0x6003, 0xE09E, 0x0000, 0xE0A1, 0x0000]);
    p.set_key(3, true);
    assert!(p.key(3));
    run(&mut p, 2);
    assert_eq!(p.pointer(), 6);
    run(&mut p, 1);
    assert_eq!(p.pointer(), 8);
    p.set_key(3, false);
    run(&mut p, 1);
    assert_eq!(p.pointer(), 10);
}

#[test]
fn key_past_keypad_is_up() {
    let mut p = load(&[0x6020, 0xE0A1]);
    run(&mut p, 2);
    assert_eq!(p.pointer(), 6);
}

#[test]
fn unknown_sub_keys_only_advance() {
    let mut p = load(&[0x0123, 0x8019, 0xE0FF, 0xF0FF]);
    run(&mut p, 4);
    assert_eq!(p.pointer(), 8);
    assert_eq!(p.register(0), 0);
}

#[test]
fn decoder_fields() {
    let p = load(&[0xD4A7]);
    assert_eq!(p.get_ins(0), 0xD4A7);
    assert_eq!(p.get_cur_ins(), 0xD4A7);
    assert_eq!(p.get_nibble(0, 0), 0xD);
    assert_eq!(p.get_nibble(0, 1), 0x4);
    assert_eq!(p.get_nibble(0, 2), 0xA);
    assert_eq!(p.get_cur_nibble(3), 0x7);
    assert_eq!(p.get_nibbles(0, 0, 3), 0x4A7);
    assert_eq!(p.get_nibbles(0, 0, 2), 0xA7);
    assert_eq!(p.get_nibbles(0, 1, 2), 0x4A);
    assert_eq!(p.get_cur_nibbles(3, 1), 0xD);
}

#[test]
fn set_ins_writes_high_byte_first() {
    let mut p = Program::default();
    p.set_ins(3, 0x12AB);
    assert_eq!(p.memory(6), 0x12);
    assert_eq!(p.memory(7), 0xAB);
}

#[test]
fn power_on_state() {
    let p = Program::default();
    assert_eq!(p.pointer(), 0);
    assert_eq!(p.depth(), 0);
    assert_eq!(p.index_register(), 0);
    assert!(all_dark(&p));
    assert!((0..16).all(|k| p.register(k) == 0 && !p.key(k)));
}

#[test]
fn cell_positions() {
    assert_eq!(cell_origin(0, 0), (8, 8));
    assert_eq!(cell_origin(63, 31), (63 * 16 + 8, 31 * 16 + 8));
    assert_eq!(WINDOW_X_SIZE, 1040);
    assert_eq!(WINDOW_Y_SIZE, 528);
}

#[test]
fn empty_sprite_past_memory_draws_nothing() {
    let mut p = load(&[0xA700, 0xD000]);
    run(&mut p, 1);
    assert_eq!(p.index_register(), 0x700);
    assert_eq!(p.run_cycle_with(0), Ok(()));
    assert_eq!(p.pointer(), 4);
    assert!(all_dark(&p));
}

#[test]
fn empty_register_copy_past_memory_is_a_no_op() {
    let mut p = load(&[0x6009, 0xA700, 0xF055, 0xF065]);
    run(&mut p, 2);
    assert_eq!(p.run_cycle_with(0), Ok(()));
    assert_eq!(p.run_cycle_with(0), Ok(()));
    assert_eq!(p.pointer(), 8);
    assert_eq!(p.register(0), 9);
}

#[test]
fn stack_keeps_saved_pointers() {
    let mut p = load(&[0x0000, 0x2005]);
    p.set_ins(5, 0x200A);
    run(&mut p, 3);
    assert_eq!(p.depth(), 2);
    assert_eq!(p.stack_entry(0), 2);
    assert_eq!(p.stack_entry(1), 10);
    assert_eq!(p.stack_entry(2), 20);
    assert_eq!(p.stack_entry(2), p.pointer());
}

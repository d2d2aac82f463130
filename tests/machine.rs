use chip8_core::{decode, Emu, EmuError, Instr, SCREEN_HEIGHT, SCREEN_WIDTH};

fn with_program(bytes: &[u8]) -> Emu {
    let mut emu = Emu::new();
    assert_eq!(emu.load(bytes), Ok(()));
    emu
}

fn run_ticks(emu: &mut Emu, count: usize) {
    for _ in 0..count {
        assert_eq!(emu.tick_with(0), Ok(()));
    }
}

#[test]
fn new_machine_holds_font_and_start_address() {
    let emu = Emu::new();
    assert_eq!(emu.pc(), 0x200);
    assert_eq!(emu.memory(0), 0xF0);
    assert_eq!(emu.memory(5), 0x20);
    assert_eq!(emu.memory(79), 0x80);
    assert_eq!(emu.memory(80), 0);
    assert_eq!(emu.index_register(), 0);
    assert_eq!(emu.stack_depth(), 0);
    assert!(emu.get_display().iter().all(|p| !p));
    assert_eq!(emu.get_display().len(), SCREEN_WIDTH * SCREEN_HEIGHT);
}

#[test]
fn reset_restores_initial_state() {
    let mut emu = with_program(&[0x61, 0x05, 0xA1, 0x23, 0x00, 0xE0]);
    run_ticks(&mut emu, 2);
    emu.keypress(3, true);
    emu.reset();
    assert_eq!(emu.pc(), 0x200);
    assert_eq!(emu.register(1), 0);
    assert_eq!(emu.index_register(), 0);
    assert_eq!(emu.memory(0x200), 0);
    assert_eq!(emu.memory(0), 0xF0);
}

#[test]
fn load_copies_program_at_start_address() {
    let emu = with_program(&[0xAB, 0xCD, 0xEF]);
    assert_eq!(emu.memory(0x200), 0xAB);
    assert_eq!(emu.memory(0x201), 0xCD);
    assert_eq!(emu.memory(0x202), 0xEF);
    assert_eq!(emu.memory(0x203), 0);
}

#[test]
fn load_accepts_largest_program() {
    let mut emu = Emu::new();
    let data = vec![0x12u8; 4096 - 0x200];
    assert_eq!(emu.load(&data), Ok(()));
    assert_eq!(emu.memory(4095), 0x12);
}

#[test]
fn load_refuses_oversized_program() {
    let mut emu = Emu::new();
    let data = vec![0x12u8; 4096 - 0x200 + 1];
    assert_eq!(emu.load(&data), Err(EmuError::CapacityExceeded));
    assert_eq!(emu.memory(0x200), 0);
}

#[test]
fn set_then_add_wraps() {
    let mut emu = with_program(&[0x64, 0xF0, 0x74, 0x20]);
    run_ticks(&mut emu, 2);
    assert_eq!(emu.register(4), 0x10);
    assert_eq!(emu.register(0xF), 0);
    assert_eq!(emu.pc(), 0x204);
}

#[test]
fn add_registers_sets_carry() {
    let mut emu = with_program(&[0x61, 200, 0x62, 100, 0x81, 0x24]);
    run_ticks(&mut emu, 3);
    assert_eq!(emu.register(1), 44);
    assert_eq!(emu.register(0xF), 1);

    let mut emu = with_program(&[0x61, 100, 0x62, 155, 0x81, 0x24]);
    run_ticks(&mut emu, 3);
    assert_eq!(emu.register(1), 255);
    assert_eq!(emu.register(0xF), 0);
}

#[test]
fn subtract_registers_sets_borrow_flag() {
    let mut emu = with_program(&[0x61, 10, 0x62, 20, 0x81, 0x25]);
    run_ticks(&mut emu, 3);
    assert_eq!(emu.register(1), 246);
    assert_eq!(emu.register(0xF), 0);

    let mut emu = with_program(&[0x61, 20, 0x62, 20, 0x81, 0x25]);
    run_ticks(&mut emu, 3);
    assert_eq!(emu.register(1), 0);
    assert_eq!(emu.register(0xF), 1);
}

#[test]
fn reverse_subtract_sets_borrow_flag() {
    let mut emu = with_program(&[0x61, 30, 0x62, 20, 0x81, 0x27]);
    run_ticks(&mut emu, 3);
    assert_eq!(emu.register(1), 246);
    assert_eq!(emu.register(0xF), 0);
}

#[test]
fn shifts_capture_bit_shifted_out() {
    let mut emu = with_program(&[0x63, 0x81, 0x83, 0x06]);
    run_ticks(&mut emu, 2);
    assert_eq!(emu.register(3), 0x40);
    assert_eq!(emu.register(0xF), 1);

    let mut emu = with_program(&[0x63, 0x81, 0x83, 0x0E]);
    run_ticks(&mut emu, 2);
    assert_eq!(emu.register(3), 0x02);
    assert_eq!(emu.register(0xF), 1);

    let mut emu = with_program(&[0x63, 0x40, 0x83, 0x0E]);
    run_ticks(&mut emu, 2);
    assert_eq!(emu.register(3), 0x80);
    assert_eq!(emu.register(0xF), 0);
}

#[test]
fn bitwise_ops_and_move() {
    let mut emu = with_program(&[
        0x61, 0b1100, 0x62, 0b1010, 0x83, 0x10, 0x83, 0x21, 0x84, 0x10, 0x84, 0x22, 0x85, 0x10,
        0x85, 0x23,
    ]);
    run_ticks(&mut emu, 8);
    assert_eq!(emu.register(3), 0b1110);
    assert_eq!(emu.register(4), 0b1000);
    assert_eq!(emu.register(5), 0b0110);
}

#[test]
fn skips_follow_comparisons() {
    // V1 = 5; skip if V1 == 5; (skipped) V2 = 1; skip if V1 != 5; V3 = 1
    let mut emu = with_program(&[0x61, 5, 0x31, 5, 0x62, 1, 0x41, 5, 0x63, 1]);
    run_ticks(&mut emu, 4);
    assert_eq!(emu.register(2), 0);
    assert_eq!(emu.register(3), 1);
    assert_eq!(emu.pc(), 0x20A);

    // V1 = 5, V2 = 5; skip if V1 == V2; (skipped); skip if V1 != V2; V4 = 1
    let mut emu = with_program(&[0x61, 5, 0x62, 5, 0x51, 0x20, 0x63, 1, 0x91, 0x20, 0x64, 1]);
    run_ticks(&mut emu, 5);
    assert_eq!(emu.register(3), 0);
    assert_eq!(emu.register(4), 1);
}

#[test]
fn jumps_set_program_counter() {
    let mut emu = with_program(&[0x13, 0x45]);
    run_ticks(&mut emu, 1);
    assert_eq!(emu.pc(), 0x345);

    let mut emu = with_program(&[0x60, 0x10, 0xB3, 0x00]);
    run_ticks(&mut emu, 2);
    assert_eq!(emu.pc(), 0x310);
}

#[test]
fn call_then_return_resumes_after_call() {
    // 0x200: call 0x206; 0x202: V1 = 7; 0x206: return
    let mut emu = with_program(&[0x22, 0x06, 0x61, 0x07, 0x00, 0x00, 0x00, 0xEE]);
    run_ticks(&mut emu, 1);
    assert_eq!(emu.pc(), 0x206);
    assert_eq!(emu.stack_depth(), 1);
    run_ticks(&mut emu, 1);
    assert_eq!(emu.pc(), 0x202);
    assert_eq!(emu.stack_depth(), 0);
    run_ticks(&mut emu, 1);
    assert_eq!(emu.register(1), 7);
}

#[test]
fn bcd_of_157() {
    let mut emu = with_program(&[0x6A, 157, 0xA3, 0x00, 0xFA, 0x33]);
    run_ticks(&mut emu, 3);
    assert_eq!(emu.memory(0x300), 1);
    assert_eq!(emu.memory(0x301), 5);
    assert_eq!(emu.memory(0x302), 7);
    assert_eq!(emu.index_register(), 0x300);
}

#[test]
fn font_address_of_glyph_a() {
    let mut emu = with_program(&[0x65, 0x0A, 0xF5, 0x29]);
    run_ticks(&mut emu, 2);
    assert_eq!(emu.index_register(), 50);
}

#[test]
fn key_wait_repeats_until_key_pressed() {
    let mut emu = with_program(&[0xF3, 0x0A, 0x61, 0x01]);
    run_ticks(&mut emu, 1);
    assert_eq!(emu.pc(), 0x200);
    run_ticks(&mut emu, 1);
    assert_eq!(emu.pc(), 0x200);
    emu.keypress(9, true);
    emu.keypress(7, true);
    run_ticks(&mut emu, 1);
    assert_eq!(emu.register(3), 7);
    assert_eq!(emu.pc(), 0x202);
}

#[test]
fn key_skips_follow_keypad() {
    // V0 = 4; skip if key V0 down; V1 = 1; skip if key V0 up; V2 = 1
    let prog = [0x60, 4, 0xE0, 0x9E, 0x61, 1, 0xE0, 0xA1, 0x62, 1];
    let mut emu = with_program(&prog);
    emu.keypress(4, true);
    run_ticks(&mut emu, 4);
    assert_eq!(emu.register(1), 0);
    assert_eq!(emu.register(2), 1);

    let mut emu = with_program(&prog);
    run_ticks(&mut emu, 4);
    assert_eq!(emu.register(1), 1);
    assert_eq!(emu.register(2), 0);
    assert_eq!(emu.pc(), 0x20A);
}

#[test]
fn draw_font_glyph_and_collide_on_redraw() {
    // I = glyph 0; draw 5 rows at (V0, V1) = (0, 0), twice
    let mut emu = with_program(&[0xA0, 0x00, 0xD0, 0x15, 0xD0, 0x15]);
    run_ticks(&mut emu, 2);
    let disp = emu.get_display();
    assert!(disp[0] && disp[1] && disp[2] && disp[3] && !disp[4]);
    assert!(disp[SCREEN_WIDTH] && !disp[SCREEN_WIDTH + 1] && disp[SCREEN_WIDTH + 3]);
    assert_eq!(disp.iter().filter(|p| **p).count(), 14);
    assert_eq!(emu.register(0xF), 0);
    run_ticks(&mut emu, 1);
    assert!(emu.get_display().iter().all(|p| !p));
    assert_eq!(emu.register(0xF), 1);
}

#[test]
fn draw_wraps_around_both_edges() {
    // V0 = 62, V1 = 31, I = 0x20A holding 0xFF, 0x80; draw 2 rows
    let prog = [0x60, 62, 0x61, 31, 0xA2, 0x0A, 0xD0, 0x12, 0x00, 0x00, 0xFF, 0x80];
    let mut emu = with_program(&prog);
    run_ticks(&mut emu, 4);
    let disp = emu.get_display();
    let at = |x: usize, y: usize| disp[x + SCREEN_WIDTH * y];
    assert!(at(62, 31) && at(63, 31));
    for x in 0..6 {
        assert!(at(x, 31));
    }
    assert!(!at(6, 31));
    assert!(at(62, 0) && !at(63, 0));
    assert_eq!(disp.iter().filter(|p| **p).count(), 9);
    assert_eq!(emu.register(0xF), 0);
}

#[test]
fn clear_screen_turns_pixels_off() {
    let mut emu = with_program(&[0xA0, 0x00, 0xD0, 0x15, 0x00, 0xE0]);
    run_ticks(&mut emu, 3);
    assert!(emu.get_display().iter().all(|p| !p));
}

#[test]
fn store_and_load_registers() {
    // V0..V2 = 1, 2, 3; I = 0x300; store V0..=V2; V0..V2 = 0; load V0..=V1
    let mut emu = with_program(&[
        0x60, 1, 0x61, 2, 0x62, 3, 0xA3, 0x00, 0xF2, 0x55, 0x60, 0, 0x61, 0, 0x62, 0, 0xF1,
        0x65,
    ]);
    run_ticks(&mut emu, 9);
    assert_eq!(emu.memory(0x300), 1);
    assert_eq!(emu.memory(0x301), 2);
    assert_eq!(emu.memory(0x302), 3);
    assert_eq!(emu.memory(0x303), 0);
    assert_eq!(emu.register(0), 1);
    assert_eq!(emu.register(1), 2);
    assert_eq!(emu.register(2), 0);
}

#[test]
fn timers_count_down_to_zero() {
    let mut emu = with_program(&[0x60, 2, 0xF0, 0x15, 0xF0, 0x18, 0xF1, 0x07]);
    run_ticks(&mut emu, 3);
    assert_eq!(emu.delay_timer(), 2);
    assert_eq!(emu.sound_timer(), 2);
    emu.tick_timers();
    run_ticks(&mut emu, 1);
    assert_eq!(emu.register(1), 1);
    emu.tick_timers();
    emu.tick_timers();
    assert_eq!(emu.delay_timer(), 0);
    assert_eq!(emu.sound_timer(), 0);
}

#[test]
fn add_to_index_wraps() {
    let mut emu = with_program(&[0xAF, 0xFF, 0x60, 0x01, 0xF0, 0x1E]);
    run_ticks(&mut emu, 3);
    assert_eq!(emu.index_register(), 0x1000);
}

#[test]
fn random_uses_given_byte_masked() {
    let mut emu = with_program(&[0xC2, 0x0F]);
    assert_eq!(emu.tick_with(0xAB), Ok(()));
    assert_eq!(emu.register(2), 0x0B);
}

#[test]
fn random_from_generator_respects_mask() {
    for _ in 0..20 {
        let mut emu = with_program(&[0xC2, 0x0F, 0xC3, 0x00]);
        assert_eq!(emu.tick(), Ok(()));
        assert!(emu.register(2) <= 0x0F);
        assert_eq!(emu.tick(), Ok(()));
        assert_eq!(emu.register(3), 0);
    }
}

#[test]
fn fetch_past_memory_faults() {
    let mut emu = with_program(&[0x1F, 0xFF]);
    run_ticks(&mut emu, 1);
    assert_eq!(emu.tick_with(0), Err(EmuError::MemoryFault));
    assert_eq!(emu.pc(), 0xFFF);
}

#[test]
fn call_depth_past_stack_overflows() {
    let mut emu = with_program(&[0x22, 0x00]);
    run_ticks(&mut emu, 16);
    assert_eq!(emu.stack_depth(), 16);
    assert_eq!(emu.tick_with(0), Err(EmuError::StackOverflow));
    assert_eq!(emu.stack_depth(), 16);
}

#[test]
fn return_on_empty_stack_underflows() {
    let mut emu = with_program(&[0x00, 0xEE]);
    assert_eq!(emu.tick_with(0), Err(EmuError::StackUnderflow));
}

#[test]
fn unknown_opcode_is_reported() {
    let mut emu = with_program(&[0x51, 0x21]);
    assert_eq!(emu.tick_with(0), Err(EmuError::UnknownOpcode { op: 0x5121 }));
    assert_eq!(emu.pc(), 0x202);
    assert_eq!(decode(0xF0FF), Err(EmuError::UnknownOpcode { op: 0xF0FF }));
}

#[test]
fn key_register_out_of_range_is_reported() {
    let mut emu = with_program(&[0x60, 16, 0xE0, 0x9E]);
    run_ticks(&mut emu, 1);
    assert_eq!(emu.tick_with(0), Err(EmuError::InvalidKey { key: 16 }));
}

#[test]
fn memory_access_past_end_faults() {
    let mut emu = with_program(&[0xAF, 0xFE, 0xF0, 0x33]);
    run_ticks(&mut emu, 1);
    assert_eq!(emu.tick_with(0), Err(EmuError::MemoryFault));

    let mut emu = with_program(&[0xAF, 0xFF, 0xF1, 0x55]);
    run_ticks(&mut emu, 1);
    assert_eq!(emu.tick_with(0), Err(EmuError::MemoryFault));

    let mut emu = with_program(&[0xAF, 0xFF, 0xF1, 0x65]);
    run_ticks(&mut emu, 1);
    assert_eq!(emu.tick_with(0), Err(EmuError::MemoryFault));

    let mut emu = with_program(&[0xAF, 0xFE, 0xD0, 0x03]);
    run_ticks(&mut emu, 1);
    assert_eq!(emu.tick_with(0), Err(EmuError::MemoryFault));
}

#[test]
fn decode_splits_operands() {
    assert_eq!(decode(0xD12F), Ok(Instr::Draw { x: 1, y: 2, n: 0xF }));
    assert_eq!(decode(0x2ABC), Ok(Instr::Call { addr: 0xABC }));
    assert_eq!(decode(0x8A3E), Ok(Instr::ShiftLeft { x: 0xA }));
    assert_eq!(decode(0x0000), Ok(Instr::Nop));
    assert_eq!(decode(0x00E0), Ok(Instr::ClearScreen));
}

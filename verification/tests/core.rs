//! Behavioural tests for the interpreter core, driven through its public
//! surface: programs are loaded at the entry offset and stepped one
//! instruction at a time.

use chip8_core::Emu;
use chip8_core::EmuError;

/// Loads a program into a fresh machine.
fn boot(program: &[u8]) -> Emu {
    let mut emu = Emu::new();
    emu.load(&program.to_vec()).unwrap();
    emu
}

#[test]
fn load_immediate_then_self_loop() {
    // Load 5 into register 0, then jump back to the entry offset.
    let mut emu = boot(&[0x60, 0x05, 0x12, 0x00]);
    emu.tick().unwrap();
    assert_eq!(emu.v_reg[0], 5);
    assert_eq!(emu.pc, 0x202);
    emu.tick().unwrap();
    assert_eq!(emu.pc, 0x200);
}

#[test]
fn draw_font_glyph_row_then_erase_it() {
    // The index register of a fresh machine points at the font's first
    // byte, 0xF0: one sprite row whose top nibble is set.
    let mut emu = boot(&[0xD0, 0x01, 0xD0, 0x01]);
    assert_eq!(emu.i_reg, 0);
    assert_eq!(emu.ram[0], 0xF0);
    emu.tick().unwrap();
    for x in 0..4 {
        assert!(emu.screen[x]);
    }
    for x in 4..8 {
        assert!(!emu.screen[x]);
    }
    assert_eq!(emu.v_reg[15], 0);
    // Drawing the identical sprite again XORs the same cells off.
    emu.tick().unwrap();
    for x in 0..8 {
        assert!(!emu.screen[x]);
    }
    assert_eq!(emu.v_reg[15], 1);
}

#[test]
fn sound_timer_boundary() {
    let mut emu = Emu::new();
    emu.st = 1;
    assert!(emu.tick_timers());
    assert_eq!(emu.st, 0);
    assert!(!emu.tick_timers());
    assert_eq!(emu.st, 0);
}

#[test]
fn delay_timer_counts_down() {
    let mut emu = Emu::new();
    emu.dt = 5;
    assert!(!emu.tick_timers());
    assert_eq!(emu.dt, 4);
    emu.dt = 0;
    assert!(!emu.tick_timers());
    assert_eq!(emu.dt, 0);
}

#[test]
fn clear_screen_turns_every_cell_off() {
    let mut emu = boot(&[0x00, 0xE0]);
    for i in 0..2048 {
        emu.screen[i] = i % 3 == 0;
    }
    emu.tick().unwrap();
    for i in 0..2048 {
        assert!(!emu.screen[i]);
    }
    assert_eq!(emu.pc, 0x202);
}

#[test]
fn call_then_return_resumes_after_call() {
    // Call 0x204; the routine there returns at once.
    let mut emu = boot(&[0x22, 0x04, 0x00, 0x00, 0x00, 0xEE]);
    emu.tick().unwrap();
    assert_eq!(emu.pc, 0x204);
    assert_eq!(emu.sp, 1);
    assert_eq!(emu.stack[0], 0x202);
    emu.tick().unwrap();
    assert_eq!(emu.pc, 0x202);
    assert_eq!(emu.sp, 0);
}

#[test]
fn add_with_carry_flag() {
    let mut emu = boot(&[0x80, 0x14]);
    emu.v_reg[0] = 200;
    emu.v_reg[1] = 100;
    emu.tick().unwrap();
    assert_eq!(emu.v_reg[0], 44);
    assert_eq!(emu.v_reg[15], 1);

    let mut emu = boot(&[0x80, 0x14]);
    emu.v_reg[0] = 10;
    emu.v_reg[1] = 20;
    emu.tick().unwrap();
    assert_eq!(emu.v_reg[0], 30);
    assert_eq!(emu.v_reg[15], 0);
}

#[test]
fn subtract_with_borrow_flag() {
    let mut emu = boot(&[0x80, 0x15]);
    emu.v_reg[0] = 50;
    emu.v_reg[1] = 60;
    emu.tick().unwrap();
    assert_eq!(emu.v_reg[0], 246);
    assert_eq!(emu.v_reg[15], 0);

    let mut emu = boot(&[0x80, 0x15]);
    emu.v_reg[0] = 60;
    emu.v_reg[1] = 50;
    emu.tick().unwrap();
    assert_eq!(emu.v_reg[0], 10);
    assert_eq!(emu.v_reg[15], 1);
}

#[test]
fn reverse_subtract_with_borrow_flag() {
    let mut emu = boot(&[0x80, 0x17]);
    emu.v_reg[0] = 5;
    emu.v_reg[1] = 7;
    emu.tick().unwrap();
    assert_eq!(emu.v_reg[0], 2);
    assert_eq!(emu.v_reg[15], 1);
}

#[test]
fn shift_right_reports_low_bit() {
    let mut emu = boot(&[0x80, 0x16]);
    emu.v_reg[0] = 5;
    emu.tick().unwrap();
    assert_eq!(emu.v_reg[0], 2);
    assert_eq!(emu.v_reg[15], 1);

    let mut emu = boot(&[0x80, 0x16]);
    emu.v_reg[0] = 8;
    emu.tick().unwrap();
    assert_eq!(emu.v_reg[0], 4);
    assert_eq!(emu.v_reg[15], 0);
}

#[test]
fn shift_left_reports_high_bit() {
    let mut emu = boot(&[0x80, 0x0E]);
    emu.v_reg[0] = 0x81;
    emu.tick().unwrap();
    assert_eq!(emu.v_reg[0], 0x02);
    assert_eq!(emu.v_reg[15], 1);
}

#[test]
fn bitwise_ops_between_registers() {
    let mut emu = boot(&[0x80, 0x11, 0x82, 0x32, 0x84, 0x53, 0x86, 0x70]);
    emu.v_reg[0] = 0b1100;
    emu.v_reg[1] = 0b1010;
    emu.v_reg[2] = 0b1100;
    emu.v_reg[3] = 0b1010;
    emu.v_reg[4] = 0b1100;
    emu.v_reg[5] = 0b1010;
    emu.v_reg[7] = 42;
    emu.tick().unwrap();
    assert_eq!(emu.v_reg[0], 0b1110);
    emu.tick().unwrap();
    assert_eq!(emu.v_reg[2], 0b1000);
    emu.tick().unwrap();
    assert_eq!(emu.v_reg[4], 0b0110);
    emu.tick().unwrap();
    assert_eq!(emu.v_reg[6], 42);
}

#[test]
fn add_immediate_wraps_without_flag() {
    let mut emu = boot(&[0x70, 0x0A]);
    emu.v_reg[0] = 250;
    emu.v_reg[15] = 9;
    emu.tick().unwrap();
    assert_eq!(emu.v_reg[0], 4);
    assert_eq!(emu.v_reg[15], 9);
}

#[test]
fn skip_if_equal_immediate() {
    let mut emu = boot(&[0x30, 0x07]);
    emu.v_reg[0] = 7;
    emu.tick().unwrap();
    assert_eq!(emu.pc, 0x204);

    let mut emu = boot(&[0x30, 0x07]);
    emu.v_reg[0] = 8;
    emu.tick().unwrap();
    assert_eq!(emu.pc, 0x202);
}

#[test]
fn skip_if_not_equal_immediate() {
    let mut emu = boot(&[0x40, 0x07]);
    emu.v_reg[0] = 8;
    emu.tick().unwrap();
    assert_eq!(emu.pc, 0x204);

    let mut emu = boot(&[0x40, 0x07]);
    emu.v_reg[0] = 7;
    emu.tick().unwrap();
    assert_eq!(emu.pc, 0x202);
}

#[test]
fn skip_on_register_comparisons() {
    let mut emu = boot(&[0x50, 0x10]);
    emu.v_reg[0] = 3;
    emu.v_reg[1] = 3;
    emu.tick().unwrap();
    assert_eq!(emu.pc, 0x204);

    let mut emu = boot(&[0x90, 0x10]);
    emu.v_reg[0] = 3;
    emu.v_reg[1] = 4;
    emu.tick().unwrap();
    assert_eq!(emu.pc, 0x204);

    let mut emu = boot(&[0x90, 0x10]);
    emu.v_reg[0] = 3;
    emu.v_reg[1] = 3;
    emu.tick().unwrap();
    assert_eq!(emu.pc, 0x202);
}

#[test]
fn skip_if_key_down() {
    let mut emu = boot(&[0xE0, 0x9E]);
    emu.v_reg[0] = 5;
    emu.keypress(5, true);
    emu.tick().unwrap();
    assert_eq!(emu.pc, 0x204);

    let mut emu = boot(&[0xE0, 0x9E]);
    emu.v_reg[0] = 5;
    emu.tick().unwrap();
    assert_eq!(emu.pc, 0x202);
}

#[test]
fn set_index_register() {
    let mut emu = boot(&[0xA1, 0x23]);
    emu.tick().unwrap();
    assert_eq!(emu.i_reg, 0x123);
}

#[test]
fn jump_with_offset() {
    let mut emu = boot(&[0xB2, 0x08]);
    emu.v_reg[0] = 4;
    emu.tick().unwrap();
    assert_eq!(emu.pc, 0x20C);
}

#[test]
fn random_byte_is_masked() {
    // A zero mask forces zero whatever byte was drawn.
    let mut emu = boot(&[0xC0, 0x00]);
    emu.v_reg[0] = 99;
    emu.tick().unwrap();
    assert_eq!(emu.v_reg[0], 0);

    let mut emu = boot(&[0xC0, 0x0F]);
    emu.tick().unwrap();
    assert!(emu.v_reg[0] <= 0x0F);
}

#[test]
fn no_op_word_only_advances() {
    let mut emu = Emu::new();
    // Memory past the program is zeroed: the no-op terminator.
    assert_eq!(emu.tick(), Ok(()));
    assert_eq!(emu.pc, 0x202);
}

#[test]
fn unknown_opcode_reports_word_and_address() {
    let mut emu = boot(&[0xF0, 0x00]);
    assert_eq!(
        emu.tick(),
        Err(EmuError::UnknownOpcode { op: 0xF000, pc: 0x200 })
    );
    assert_eq!(emu.pc, 0x202);
}

#[test]
fn program_counter_out_of_bounds() {
    let mut emu = Emu::new();
    emu.pc = 4095;
    assert_eq!(emu.tick(), Err(EmuError::PcOutOfBounds));
    assert_eq!(emu.pc, 4095);
}

#[test]
fn return_with_empty_stack_underflows() {
    let mut emu = boot(&[0x00, 0xEE]);
    assert_eq!(emu.tick(), Err(EmuError::StackUnderflow));
}

#[test]
fn seventeenth_nested_call_overflows() {
    // The call at the entry offset targets itself, nesting one level
    // per step.
    let mut emu = boot(&[0x22, 0x00]);
    for _ in 0..16 {
        assert_eq!(emu.tick(), Ok(()));
    }
    assert_eq!(emu.sp, 16);
    assert_eq!(emu.tick(), Err(EmuError::StackOverflow));
}

#[test]
fn sprite_read_past_memory_end() {
    let mut emu = boot(&[0xAF, 0xFF, 0xD0, 0x02]);
    emu.tick().unwrap();
    assert_eq!(emu.i_reg, 0xFFF);
    assert_eq!(emu.tick(), Err(EmuError::SpriteOutOfBounds));
}

#[test]
fn key_skip_with_bad_key_code() {
    let mut emu = boot(&[0xE0, 0x9E]);
    emu.v_reg[0] = 20;
    assert_eq!(emu.tick(), Err(EmuError::InvalidKey));
}

#[test]
fn oversized_program_is_refused() {
    let mut emu = Emu::new();
    let too_big = vec![0u8; 3585];
    assert_eq!(emu.load(&too_big), Err(EmuError::ProgramTooLarge));
    let just_fits = vec![0xAAu8; 3584];
    assert_eq!(emu.load(&just_fits), Ok(()));
    assert_eq!(emu.ram[512], 0xAA);
    assert_eq!(emu.ram[4095], 0xAA);
}

#[test]
fn font_sits_at_bottom_of_memory() {
    let emu = Emu::new();
    assert_eq!(emu.ram[0], 0xF0);
    assert_eq!(emu.ram[4], 0xF0);
    assert_eq!(emu.ram[5], 0x20);
    assert_eq!(emu.ram[79], 0x80);
    assert_eq!(emu.ram[80], 0x00);
}

#[test]
fn sprite_wraps_around_both_edges() {
    // Draw the font's 0xF0 row at (62, 31): the row wraps into columns
    // 62, 63, 0, 1 of the last line.
    let mut emu = boot(&[0xD0, 0x11]);
    emu.v_reg[0] = 62;
    emu.v_reg[1] = 31;
    emu.tick().unwrap();
    let last_row = 64 * 31;
    assert!(emu.screen[last_row + 62]);
    assert!(emu.screen[last_row + 63]);
    assert!(emu.screen[last_row]);
    assert!(emu.screen[last_row + 1]);
    assert_eq!(emu.v_reg[15], 0);
}

#[test]
fn reset_restores_initial_state() {
    let mut emu = boot(&[0x60, 0x2A, 0xA1, 0x23]);
    emu.tick().unwrap();
    emu.tick().unwrap();
    emu.st = 3;
    emu.keypress(2, true);
    emu.screen[17] = true;
    emu.reset();
    let fresh = Emu::new();
    assert_eq!(emu.pc, fresh.pc);
    assert_eq!(emu.ram, fresh.ram);
    assert_eq!(emu.screen, fresh.screen);
    assert_eq!(emu.v_reg, fresh.v_reg);
    assert_eq!(emu.i_reg, fresh.i_reg);
    assert_eq!(emu.sp, fresh.sp);
    assert_eq!(emu.stack, fresh.stack);
    assert_eq!(emu.keys, fresh.keys);
    assert_eq!(emu.dt, fresh.dt);
    assert_eq!(emu.st, fresh.st);
}

#[test]
fn display_accessor_mirrors_screen() {
    let mut emu = boot(&[0xD0, 0x01]);
    emu.tick().unwrap();
    let display = emu.get_display();
    assert!(display[0] && display[1] && display[2] && display[3]);
    assert!(!display[4]);
}

#[test]
fn copy_register() {
    let mut emu = boot(&[0x83, 0x50]);
    emu.v_reg[5] = 77;
    emu.tick().unwrap();
    assert_eq!(emu.v_reg[3], 77);
}

#[test]
fn add_into_flag_register_keeps_only_flag() {
    // With the flag register as destination, the flag write lands last.
    let mut emu = boot(&[0x8F, 0x14]);
    emu.v_reg[15] = 200;
    emu.v_reg[1] = 100;
    emu.tick().unwrap();
    assert_eq!(emu.v_reg[15], 1);
    assert_eq!(emu.v_reg[1], 100);
}

#[test]
fn zero_height_sprite_draws_nothing() {
    let mut emu = boot(&[0xD0, 0x00]);
    emu.tick().unwrap();
    for i in 0..2048 {
        assert!(!emu.screen[i]);
    }
    assert_eq!(emu.v_reg[15], 0);
    assert_eq!(emu.pc, 0x202);
}

#[test]
fn five_row_glyph_draws_in_place() {
    // The font's first glyph: 0xF0, 0x90, 0x90, 0x90, 0xF0.
    let mut emu = boot(&[0xD0, 0x15]);
    emu.tick().unwrap();
    assert_eq!(emu.v_reg[15], 0);
    for x in 0..4 {
        assert!(emu.screen[x]);
        assert!(emu.screen[64 * 4 + x]);
    }
    for row in 1..4 {
        assert!(emu.screen[64 * row]);
        assert!(!emu.screen[64 * row + 1]);
        assert!(!emu.screen[64 * row + 2]);
        assert!(emu.screen[64 * row + 3]);
    }
}

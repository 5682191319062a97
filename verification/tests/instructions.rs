use chip_8_emulator::Chip8;
use chip_8_emulator::Fault;
use chip_8_emulator::Keyboard;

fn fresh() -> Chip8 {
    let mut chip8 = Chip8::new();
    chip8.load_font();
    chip8
}

#[test]
fn add_with_carry_sets_flag_on_overflow() {
    let mut c = fresh();
    c.v_regs[3] = 200;
    c.v_regs[4] = 100;
    c.decode_and_execute_with(0x8344, 0).unwrap();
    assert_eq!(c.v_regs[3], 44);
    assert_eq!(c.v_regs[15], 1);
    assert_eq!(c.pc_reg, 514);
}

#[test]
fn add_with_carry_clears_flag_without_overflow() {
    let mut c = fresh();
    c.v_regs[3] = 200;
    c.v_regs[4] = 5;
    c.v_regs[15] = 1;
    c.decode_and_execute_with(0x8344, 0).unwrap();
    assert_eq!(c.v_regs[3], 205);
    assert_eq!(c.v_regs[15], 0);
}

#[test]
fn add_immediate_leaves_flag_alone() {
    let mut c = fresh();
    c.v_regs[3] = 254;
    c.v_regs[15] = 9;
    c.decode_and_execute_with(0x7305, 0).unwrap();
    assert_eq!(c.v_regs[3], 3);
    assert_eq!(c.v_regs[15], 9);
}

#[test]
fn subtract_sets_flag_when_no_borrow() {
    let mut c = fresh();
    c.v_regs[3] = 7;
    c.v_regs[4] = 5;
    c.decode_and_execute_with(0x8345, 0).unwrap();
    assert_eq!(c.v_regs[3], 2);
    assert_eq!(c.v_regs[15], 1);
}

#[test]
fn subtract_wraps_and_clears_flag_on_borrow() {
    let mut c = fresh();
    c.v_regs[3] = 5;
    c.v_regs[4] = 7;
    c.decode_and_execute_with(0x8345, 0).unwrap();
    assert_eq!(c.v_regs[3], 254);
    assert_eq!(c.v_regs[15], 0);
}

#[test]
fn subtract_flipped_takes_other_direction() {
    let mut c = fresh();
    c.v_regs[3] = 5;
    c.v_regs[4] = 7;
    c.decode_and_execute_with(0x8347, 0).unwrap();
    assert_eq!(c.v_regs[3], 2);
    assert_eq!(c.v_regs[15], 1);
}

#[test]
fn bitwise_ops_write_register() {
    let mut c = fresh();
    c.v_regs[1] = 0b1100;
    c.v_regs[2] = 0b1010;
    c.decode_and_execute_with(0x8121, 0).unwrap();
    assert_eq!(c.v_regs[1], 0b1110);
    c.v_regs[1] = 0b1100;
    c.decode_and_execute_with(0x8122, 0).unwrap();
    assert_eq!(c.v_regs[1], 0b1000);
    c.v_regs[1] = 0b1100;
    c.decode_and_execute_with(0x8123, 0).unwrap();
    assert_eq!(c.v_regs[1], 0b0110);
}

#[test]
fn shift_right_reports_low_bit() {
    let mut c = fresh();
    c.v_regs[3] = 0b1000_0101;
    c.decode_and_execute_with(0x8346, 0).unwrap();
    assert_eq!(c.v_regs[3], 0b0100_0010);
    assert_eq!(c.v_regs[15], 1);
}

#[test]
fn shift_left_reports_high_bit() {
    let mut c = fresh();
    c.v_regs[3] = 0b1000_0101;
    c.decode_and_execute_with(0x834E, 0).unwrap();
    assert_eq!(c.v_regs[3], 0b0000_1010);
    assert_eq!(c.v_regs[15], 1);
}

#[test]
fn skips_compare_register_to_immediate() {
    let mut c = fresh();
    c.v_regs[2] = 0x42;
    c.decode_and_execute_with(0x3242, 0).unwrap();
    assert_eq!(c.pc_reg, 516);
    c.decode_and_execute_with(0x3241, 0).unwrap();
    assert_eq!(c.pc_reg, 518);
    c.decode_and_execute_with(0x4241, 0).unwrap();
    assert_eq!(c.pc_reg, 522);
}

#[test]
fn skips_compare_two_registers() {
    let mut c = fresh();
    c.v_regs[2] = 7;
    c.v_regs[3] = 7;
    c.decode_and_execute_with(0x5230, 0).unwrap();
    assert_eq!(c.pc_reg, 516);
    c.decode_and_execute_with(0x9230, 0).unwrap();
    assert_eq!(c.pc_reg, 518);
    c.v_regs[3] = 8;
    c.decode_and_execute_with(0x9230, 0).unwrap();
    assert_eq!(c.pc_reg, 522);
}

#[test]
fn skip_on_key_compares_pressed_key() {
    let mut c = fresh();
    c.keyboard = Keyboard::Key7;
    c.v_regs[2] = 7;
    c.decode_and_execute_with(0xE29E, 0).unwrap();
    assert_eq!(c.pc_reg, 516);
    c.decode_and_execute_with(0xE2A1, 0).unwrap();
    assert_eq!(c.pc_reg, 518);
}

#[test]
fn skip_on_key_with_nothing_pressed() {
    let mut c = fresh();
    c.keyboard = Keyboard::NoKey;
    // No pressed key ever equals a register value, not even 0xFF.
    c.v_regs[2] = 0xFF;
    c.decode_and_execute_with(0xE29E, 0).unwrap();
    assert_eq!(c.pc_reg, 514);
    c.decode_and_execute_with(0xE2A1, 0).unwrap();
    assert_eq!(c.pc_reg, 518);
}

#[test]
fn jump_sets_program_counter() {
    let mut c = fresh();
    c.decode_and_execute_with(0x1ABC, 0).unwrap();
    assert_eq!(c.pc_reg, 0xABC);
}

#[test]
fn jump_with_offset_adds_register() {
    let mut c = fresh();
    c.v_regs[2] = 4;
    c.decode_and_execute_with(0xB211, 0).unwrap();
    assert_eq!(c.pc_reg, 0x211 + 4);
}

#[test]
fn call_then_return_resumes_after_call() {
    let mut c = fresh();
    assert_eq!(c.pc_reg, 512);
    c.decode_and_execute_with(0x2300, 0).unwrap();
    assert_eq!(c.pc_reg, 0x300);
    assert_eq!(c.stack, vec![514]);
    c.decode_and_execute_with(0x00EE, 0).unwrap();
    assert_eq!(c.pc_reg, 514);
    assert!(c.stack.is_empty());
}

#[test]
fn return_on_empty_stack_is_fatal() {
    let mut c = fresh();
    let r = c.decode_and_execute_with(0x00EE, 0);
    assert_eq!(r, Err(Fault::StackUnderflow));
    assert_eq!(c.pc_reg, 512);
}

#[test]
fn seventeenth_nested_call_overflows() {
    let mut c = fresh();
    for _ in 0..16 {
        c.decode_and_execute_with(0x2300, 0).unwrap();
    }
    let r = c.decode_and_execute_with(0x2300, 0);
    assert_eq!(r, Err(Fault::StackOverflow));
    assert_eq!(c.stack.len(), 16);
}

#[test]
fn set_and_read_timers() {
    let mut c = fresh();
    c.v_regs[3] = 2;
    c.decode_and_execute_with(0xF315, 0).unwrap();
    c.decode_and_execute_with(0xF318, 0).unwrap();
    assert_eq!(c.delay_timer_register, 2);
    assert_eq!(c.sound_timer_register, 2);
    c.update_timers();
    c.update_timers();
    c.update_timers();
    assert_eq!(c.delay_timer_register, 0);
    assert_eq!(c.sound_timer_register, 0);
    c.decode_and_execute_with(0xF407, 0).unwrap();
    assert_eq!(c.v_regs[4], 0);
}

#[test]
fn add_to_index_wraps_sixteen_bits() {
    let mut c = fresh();
    c.index_reg = 0xFFF0;
    c.v_regs[1] = 0x20;
    c.decode_and_execute_with(0xF11E, 0).unwrap();
    assert_eq!(c.index_reg, 0x10);
}

#[test]
fn font_index_points_at_digit_sprite() {
    let mut c = fresh();
    c.v_regs[2] = 0xC;
    c.decode_and_execute_with(0xF229, 0).unwrap();
    assert_eq!(c.index_reg, 80 + 5 * 0xC);
}

#[test]
fn font_index_of_non_digit_faults() {
    let mut c = fresh();
    c.v_regs[2] = 16;
    let r = c.decode_and_execute_with(0xF229, 0);
    assert_eq!(r, Err(Fault::InvalidFontDigit));
}

#[test]
fn bcd_writes_decimal_digits() {
    let mut c = fresh();
    c.v_regs[5] = 156;
    c.index_reg = 0x300;
    c.decode_and_execute_with(0xF533, 0).unwrap();
    assert_eq!(c.memory[0x300], 1);
    assert_eq!(c.memory[0x301], 5);
    assert_eq!(c.memory[0x302], 6);
}

#[test]
fn bcd_past_end_of_memory_faults() {
    let mut c = fresh();
    c.index_reg = 4094;
    let r = c.decode_and_execute_with(0xF033, 0);
    assert_eq!(r, Err(Fault::MemoryOutOfRange));
}

#[test]
fn store_and_load_registers_roundtrip() {
    let mut c = fresh();
    for k in 0..4 {
        c.v_regs[k] = 10 + k as u8;
    }
    c.index_reg = 0x400;
    c.decode_and_execute_with(0xF355, 0).unwrap();
    assert_eq!(c.index_reg, 0x400);
    assert_eq!(&c.memory[0x400..0x404], &[10, 11, 12, 13]);
    for k in 0..4 {
        c.v_regs[k] = 0;
    }
    c.decode_and_execute_with(0xF365, 0).unwrap();
    assert_eq!(&c.v_regs[0..4], &[10, 11, 12, 13]);
}

#[test]
fn store_past_end_of_memory_faults() {
    let mut c = fresh();
    c.index_reg = 4090;
    let r = c.decode_and_execute_with(0xF755, 0);
    assert_eq!(r, Err(Fault::MemoryOutOfRange));
}

#[test]
fn unknown_opcodes_advance_as_nops() {
    let mut c = fresh();
    c.decode_and_execute_with(0x0123, 0).unwrap();
    assert_eq!(c.pc_reg, 514);
    c.decode_and_execute_with(0x5121, 0).unwrap();
    assert_eq!(c.pc_reg, 516);
    c.decode_and_execute_with(0xE3BB, 0).unwrap();
    assert_eq!(c.pc_reg, 518);
    c.decode_and_execute_with(0xF399, 0).unwrap();
    assert_eq!(c.pc_reg, 520);
}

#[test]
fn random_with_fixed_byte_masks() {
    let mut c = fresh();
    c.random_instruction_with(2, 0x0F, 0xAB);
    assert_eq!(c.v_regs[2], 0x0B);
    assert_eq!(c.pc_reg, 514);
}

#[test]
fn random_byte_stays_below_255() {
    let mut c = fresh();
    c.random_instruction(2, 0xFF);
    assert_ne!(c.v_regs[2], 255);
}

#[test]
fn random_masked_with_zero_is_zero() {
    let mut c = fresh();
    c.v_regs[2] = 77;
    c.random_instruction(2, 0x00);
    assert_eq!(c.v_regs[2], 0);
}

#[test]
fn keyboard_reports_keycodes() {
    assert_eq!(Keyboard::Key0.get_keycode(), 0x0);
    assert_eq!(Keyboard::Key9.get_keycode(), 0x9);
    assert_eq!(Keyboard::KeyF.get_keycode(), 0xF);
    assert_eq!(Keyboard::NoKey.get_keycode(), 0xFF);
}

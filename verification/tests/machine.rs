use chip_8_emulator::Chip8;
use chip_8_emulator::Fault;
use chip_8_emulator::Keyboard;
use chip_8_emulator::LoadError;

fn fresh() -> Chip8 {
    let mut chip8 = Chip8::new();
    chip8.load_font();
    chip8
}

fn lit_pixels(c: &Chip8) -> usize {
    c.display_buffer.iter().map(|row| row.iter().filter(|p| **p).count()).sum()
}

#[test]
fn load_font_places_sprite_table() {
    let c = fresh();
    // Digit 0 is the five bytes F0 90 90 90 F0 at the base address 80.
    assert_eq!(&c.memory[80..85], &[0xF0, 0x90, 0x90, 0x90, 0xF0]);
    // Digit F starts at 80 + 5 * 15.
    assert_eq!(c.memory[80 + 5 * 15], 0xF0);
    // The program area is untouched.
    assert_eq!(c.memory[512], 0);
}

#[test]
fn font_table_base_is_configurable() {
    let mut c = Chip8::new();
    c.font = chip_8_emulator::Font::new_standard_at(0);
    c.load_font();
    assert_eq!(&c.memory[0..5], &[0xF0, 0x90, 0x90, 0x90, 0xF0]);
    c.v_regs[0] = 5;
    c.decode_and_execute_with(0xF029, 0).unwrap();
    assert_eq!(c.index_reg, 25);
}

#[test]
fn fetch_reads_big_endian_word() {
    let mut c = fresh();
    c.memory[512] = 0xAB;
    c.memory[513] = 0xCD;
    assert_eq!(c.fetch(), 0xABCD);
}

#[test]
fn draw_lights_sprite_pixels() {
    let mut c = fresh();
    // Point the index at the font sprite for 0 and draw it at (3, 2).
    c.v_regs[0] = 0;
    c.decode_and_execute_with(0xF029, 0).unwrap();
    c.v_regs[1] = 3;
    c.v_regs[2] = 2;
    c.decode_and_execute_with(0xD125, 0).unwrap();
    // Top row of the 0 glyph is 0xF0: four lit pixels at columns 3..7.
    assert!(c.display_buffer[2][3]);
    assert!(c.display_buffer[2][6]);
    assert!(!c.display_buffer[2][7]);
    assert_eq!(c.v_regs[15], 0);
}

#[test]
fn draw_twice_restores_framebuffer_and_reports_collision() {
    let mut c = fresh();
    c.v_regs[0] = 7;
    c.decode_and_execute_with(0xF029, 0).unwrap();
    c.v_regs[1] = 10;
    c.v_regs[2] = 11;
    c.decode_and_execute_with(0xD125, 0).unwrap();
    assert!(lit_pixels(&c) > 0);
    c.decode_and_execute_with(0xD125, 0).unwrap();
    assert_eq!(lit_pixels(&c), 0);
    assert_eq!(c.v_regs[15], 1);
}

#[test]
fn draw_wraps_start_position_and_clips_edges() {
    let mut c = fresh();
    c.index_reg = 0x300;
    c.memory[0x300] = 0xFF;
    c.memory[0x301] = 0xFF;
    // Start column 68 wraps to 4.
    c.v_regs[1] = 68;
    c.v_regs[2] = 0;
    c.decode_and_execute_with(0xD121, 0).unwrap();
    assert!(c.display_buffer[0][4]);
    assert!(c.display_buffer[0][11]);
    assert!(!c.display_buffer[0][3]);
    // Start column 60: only columns 60..63 fit; nothing wraps to 0..3.
    let mut c = fresh();
    c.index_reg = 0x300;
    c.memory[0x300] = 0xFF;
    c.v_regs[1] = 60;
    c.v_regs[2] = 5;
    c.decode_and_execute_with(0xD121, 0).unwrap();
    assert!(c.display_buffer[5][60]);
    assert!(c.display_buffer[5][63]);
    assert!(!c.display_buffer[5][0]);
    assert_eq!(lit_pixels(&c), 4);
    // Start row 31 with a two-row sprite: the second row is clipped.
    let mut c = fresh();
    c.index_reg = 0x300;
    c.memory[0x300] = 0xFF;
    c.memory[0x301] = 0xFF;
    c.v_regs[1] = 0;
    c.v_regs[2] = 31;
    c.decode_and_execute_with(0xD122, 0).unwrap();
    assert_eq!(lit_pixels(&c), 8);
    assert!(c.display_buffer[31][0]);
}

#[test]
fn clear_screen_blanks_framebuffer() {
    let mut c = fresh();
    c.v_regs[0] = 3;
    c.decode_and_execute_with(0xF029, 0).unwrap();
    c.decode_and_execute_with(0xD115, 0).unwrap();
    assert!(lit_pixels(&c) > 0);
    c.decode_and_execute_with(0x00E0, 0).unwrap();
    assert_eq!(lit_pixels(&c), 0);
}

#[test]
fn two_instruction_program_adds_into_v0() {
    let mut c = fresh();
    let start = c.pc_reg;
    c.load_rom_bytes(&vec![0x60, 0x0C, 0x70, 0x05]).unwrap();
    assert_eq!(c.processor_frame(Keyboard::NoKey), Ok(true));
    assert_eq!(c.processor_frame(Keyboard::NoKey), Ok(true));
    assert_eq!(c.v_regs[0], 17);
    assert_eq!(c.pc_reg, start + 4);
}

#[test]
fn key_wait_blocks_until_a_key_arrives() {
    let mut c = fresh();
    c.load_rom_bytes(&vec![0xF3, 0x0A]).unwrap();
    assert_eq!(c.processor_frame(Keyboard::NoKey), Ok(true));
    assert_eq!(c.pc_reg, 512);
    assert_eq!(c.processor_frame(Keyboard::NoKey), Ok(true));
    assert_eq!(c.pc_reg, 512);
    assert_eq!(c.processor_frame(Keyboard::KeyA), Ok(true));
    assert_eq!(c.v_regs[3], 0xA);
    assert_eq!(c.pc_reg, 514);
}

#[test]
fn frame_stops_past_end_of_memory() {
    let mut c = fresh();
    c.pc_reg = 4095;
    assert_eq!(c.processor_frame(Keyboard::NoKey), Ok(false));
    assert_eq!(c.pc_reg, 4095);
    c.pc_reg = 4094;
    // Memory is zeroed there: 0x0000 executes as a NOP.
    assert_eq!(c.processor_frame(Keyboard::NoKey), Ok(true));
    assert_eq!(c.pc_reg, 4096);
}

#[test]
fn fault_surfaces_through_processor_frame() {
    let mut c = fresh();
    c.load_rom_bytes(&vec![0x00, 0xEE]).unwrap();
    assert_eq!(c.processor_frame(Keyboard::NoKey), Err(Fault::StackUnderflow));
    assert_eq!(c.pc_reg, 512);
}

#[test]
fn rom_that_fits_is_placed_at_the_base() {
    let mut c = fresh();
    c.load_rom_bytes(&vec![1, 2, 3]).unwrap();
    assert_eq!(&c.memory[512..516], &[1, 2, 3, 0]);
}

#[test]
fn rom_too_large_is_rejected_whole() {
    let mut c = fresh();
    let rom = vec![7u8; 4096 - 512 + 1];
    assert_eq!(c.load_rom_bytes(&rom), Err(LoadError::TooLarge));
    assert_eq!(c.memory[512], 0);
    let rom = vec![7u8; 4096 - 512];
    assert_eq!(c.load_rom_bytes(&rom), Ok(()));
    assert_eq!(c.memory[4095], 7);
}

#[test]
fn radix_lines_skip_blanks_and_comments() {
    let mut c = fresh();
    let lines: Vec<Vec<u8>> = vec![
        b";; registers".to_vec(),
        b"600c".to_vec(),
        b"".to_vec(),
        b"6105".to_vec(),
        b";; done".to_vec(),
    ];
    c.load_rom_from_radix_lines(&lines).unwrap();
    assert_eq!(&c.memory[512..516], &[0x60, 0x0C, 0x61, 0x05]);
}

#[test]
fn radix_lines_accept_both_hex_cases() {
    let mut c = fresh();
    let lines: Vec<Vec<u8>> = vec![b"ABcd".to_vec()];
    c.load_rom_from_radix_lines(&lines).unwrap();
    assert_eq!(&c.memory[512..514], &[0xAB, 0xCD]);
}

#[test]
fn radix_line_that_is_not_four_hex_digits_is_rejected() {
    let mut c = fresh();
    assert_eq!(
        c.load_rom_from_radix_lines(&vec![b"60".to_vec()]),
        Err(LoadError::BadInstruction)
    );
    assert_eq!(
        c.load_rom_from_radix_lines(&vec![b"60gz".to_vec()]),
        Err(LoadError::BadInstruction)
    );
    assert_eq!(
        c.load_rom_from_radix_lines(&vec![b"600c0".to_vec()]),
        Err(LoadError::BadInstruction)
    );
}

#[test]
fn radix_program_past_end_of_memory_is_rejected() {
    let mut c = fresh();
    // 1792 words fill memory from 512 to 4096; one more does not fit.
    let mut lines: Vec<Vec<u8>> = Vec::new();
    for _ in 0..1793 {
        lines.push(b"600c".to_vec());
    }
    assert_eq!(c.load_rom_from_radix_lines(&lines), Err(LoadError::TooLarge));
    lines.pop();
    let mut c = fresh();
    assert_eq!(c.load_rom_from_radix_lines(&lines), Ok(()));
    assert_eq!(c.memory[4094], 0x60);
    assert_eq!(c.memory[4095], 0x0C);
}

#[test]
fn program_draws_a_font_glyph() {
    // The text format example: set V0 and V1, point the index at the
    // font sprite for V0, draw a 5-row sprite at (V0, V1).
    let mut c = fresh();
    let lines: Vec<Vec<u8>> = vec![
        b"600c".to_vec(),
        b"6105".to_vec(),
        b"f029".to_vec(),
        b"d015".to_vec(),
    ];
    c.load_rom_from_radix_lines(&lines).unwrap();
    for _ in 0..4 {
        assert_eq!(c.processor_frame(Keyboard::NoKey), Ok(true));
    }
    // The glyph for 0xC (F0 80 80 80 F0) drawn at (12, 5).
    assert!(c.display_buffer[5][12]);
    assert!(c.display_buffer[6][12]);
    assert!(!c.display_buffer[6][13]);
    assert_eq!(lit_pixels(&c), 4 + 1 + 1 + 1 + 4);
}

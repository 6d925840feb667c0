use apple2_core::memory::Apple2Memory;
use apple2_core::video::{blink_phase, Video, FRAME_PIXELS, SCREEN_WIDTH};

const GREEN: u32 = 0x00_00_FF_00;
const BLACK: u32 = 0;

fn char_rom_with_glyph(code: usize, rows: [u8; 8]) -> [u8; 2048] {
    let mut rom = [0u8; 2048];
    rom[code * 8..code * 8 + 8].copy_from_slice(&rows);
    rom
}

#[test]
fn new_video_has_a_black_frame() {
    let video = Video::new();
    assert_eq!(video.frame_buffer.len(), FRAME_PIXELS);
    assert!(video.frame_buffer.iter().all(|&p| p == 0));
}

#[test]
fn normal_text_draws_the_glyph_msb_left() {
    let mut mem = Apple2Memory::new();
    mem.ram[0x0400] = 0xC1; // 'A', normal
    let rom = char_rom_with_glyph(0xC1, [0x40, 0x01, 0, 0, 0, 0, 0, 0]);
    let mut video = Video::new();
    video.render_text_frame_at(&mem, &rom, false);
    assert_eq!(video.frame_buffer[0], GREEN); // bit 6 -> leftmost pixel
    assert_eq!(video.frame_buffer[1], BLACK);
    assert_eq!(video.frame_buffer[SCREEN_WIDTH + 6], GREEN); // row 1, bit 0 -> rightmost
}

#[test]
fn inverse_and_flashing_text() {
    let mut mem = Apple2Memory::new();
    mem.ram[0x0400] = 0x01; // inverse, glyph of $41
    mem.ram[0x0401] = 0x41; // flashing
    let rom = char_rom_with_glyph(0x41, [0x40, 0, 0, 0, 0, 0, 0, 0]);
    let mut video = Video::new();
    video.render_text_frame_at(&mem, &rom, false);
    assert_eq!(video.frame_buffer[0], BLACK); // inverted lit pixel
    assert_eq!(video.frame_buffer[1], GREEN);
    assert_eq!(video.frame_buffer[7], GREEN); // flashing shown normal
    video.render_text_frame_at(&mem, &rom, true);
    assert_eq!(video.frame_buffer[7], BLACK); // flashing shown inverse
}

#[test]
fn text_rows_are_interleaved() {
    let mut mem = Apple2Memory::new();
    mem.ram[0x0428] = 0xC1; // row 8, column 0
    let rom = char_rom_with_glyph(0xC1, [0x40, 0, 0, 0, 0, 0, 0, 0]);
    let mut video = Video::new();
    video.render_text_frame_at(&mem, &rom, false);
    assert_eq!(video.frame_buffer[64 * SCREEN_WIDTH], GREEN);
}

#[test]
fn lores_blocks_take_nibble_colours() {
    let mut mem = Apple2Memory::new();
    mem.text_mode = false;
    mem.ram[0x0400] = 0xF1; // top: deep red, bottom: white
    let rom = [0u8; 2048];
    let mut video = Video::new();
    video.render_lores_frame_at(&mem, &rom, false);
    assert_eq!(video.frame_buffer[0], 0xFF_DD_0B_41);
    assert_eq!(video.frame_buffer[3 * SCREEN_WIDTH + 6], 0xFF_DD_0B_41);
    assert_eq!(video.frame_buffer[4 * SCREEN_WIDTH], 0xFF_FF_FF_FF);
    assert_eq!(video.frame_buffer[7], 0xFF_00_00_00); // next cell is black
}

#[test]
fn mixed_lores_shows_text_at_the_bottom() {
    let mut mem = Apple2Memory::new();
    mem.mixed_mode = true;
    // row 20 starts at $0650
    mem.ram[0x0650] = 0xC1;
    let rom = char_rom_with_glyph(0xC1, [0x40, 0, 0, 0, 0, 0, 0, 0]);
    let mut video = Video::new();
    video.render_lores_frame_at(&mem, &rom, false);
    assert_eq!(video.frame_buffer[160 * SCREEN_WIDTH], GREEN);
}

#[test]
fn hires_artifact_colours() {
    let mut mem = Apple2Memory::new();
    let rom = [0u8; 2048];
    mem.ram[0x2000] = 0x01; // lone pixel at even column 0, palette 0 -> purple
    mem.ram[0x2002] = 0x82; // lone pixel at column 15 (odd), palette 1 -> orange
    mem.ram[0x2004] = 0x03; // two adjacent pixels -> white
    let mut video = Video::new();
    video.render_hires_frame_at(&mem, &rom, false);
    assert_eq!(video.frame_buffer[0], 0xFF_D3_59_D6);
    assert_eq!(video.frame_buffer[1], 0xFF_00_00_00);
    assert_eq!(video.frame_buffer[15], 0xFF_ED_79_00);
    assert_eq!(video.frame_buffer[28], 0xFF_FF_FF_FF);
    assert_eq!(video.frame_buffer[29], 0xFF_FF_FF_FF);
}

#[test]
fn hires_page2_and_line_interleave() {
    let mut mem = Apple2Memory::new();
    let rom = [0u8; 2048];
    mem.page2 = true;
    mem.ram[0x4400] = 0x02; // line 1 of page 2, column 1 (odd) -> green
    let mut video = Video::new();
    video.render_hires_frame_at(&mem, &rom, false);
    assert_eq!(video.frame_buffer[SCREEN_WIDTH + 1], 0xFF_1E_D6_00);
}

#[test]
fn wall_clock_rendering_fills_the_frame() {
    let mem = Apple2Memory::new();
    let rom = [0xFFu8; 2048];
    let mut video = Video::new();
    video.render_text_frame(&mem, &rom);
    // RAM is zero: inverse '@' glyph of all-ones rows renders black
    assert!(video.frame_buffer.iter().all(|&p| p == BLACK));
    video.render_lores_frame(&mem, &rom);
    assert!(video.frame_buffer.iter().all(|&p| p == 0xFF_00_00_00));
    video.render_hires_frame(&mem, &rom);
    assert!(video.frame_buffer.iter().all(|&p| p == 0xFF_00_00_00));
}

#[test]
fn blink_phase_is_the_second_half_of_533ms() {
    assert!(!blink_phase(Some(0)));
    assert!(!blink_phase(Some(266)));
    assert!(blink_phase(Some(267)));
    assert!(blink_phase(Some(532)));
    assert!(!blink_phase(Some(533)));
    assert!(blink_phase(Some(533 * 1000 + 300)));
    assert!(!blink_phase(None));
}

#[test]
fn text_page_2_is_drawn_when_selected() {
    let mut mem = Apple2Memory::new();
    mem.page2 = true;
    mem.ram[0x0800] = 0xC1;
    mem.ram[0x0400] = 0x20 | 0x80; // page 1 holds a blank
    let rom = char_rom_with_glyph(0xC1, [0x40, 0, 0, 0, 0, 0, 0, 0]);
    let mut video = Video::new();
    video.render_text_frame_at(&mem, &rom, false);
    assert_eq!(video.frame_buffer[0], GREEN);
    mem.page2 = false;
    video.render_text_frame_at(&mem, &rom, false);
    assert_eq!(video.frame_buffer[0], BLACK);
}

#[test]
fn mixed_mode_text_rows_follow_the_page() {
    let mut mem = Apple2Memory::new();
    mem.mixed_mode = true;
    mem.page2 = true;
    mem.ram[0x0A50] = 0xC1; // row 20 of page 2
    let rom = char_rom_with_glyph(0xC1, [0x40, 0, 0, 0, 0, 0, 0, 0]);
    let mut video = Video::new();
    video.render_hires_frame_at(&mem, &rom, false);
    assert_eq!(video.frame_buffer[160 * SCREEN_WIDTH], GREEN);
    video.render_lores_frame_at(&mem, &rom, false);
    assert_eq!(video.frame_buffer[160 * SCREEN_WIDTH], GREEN);
}

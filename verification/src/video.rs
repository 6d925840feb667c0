//! Frame rendering for the text, lo-res and hi-res display modes into a
//! 280x192 XRGB frame buffer.
use vstd::prelude::*;
use crate::memory::{Apple2Memory, RAM_SIZE};

verus! {

/// The Apple II Text Screen is 40 columns by 24 rows
pub const SCREEN_WIDTH: usize = 280;  // 40 cols * 7 pixels per char

pub const SCREEN_HEIGHT: usize = 192;  // 24 rows * 8 pixels per char

/// Pixels in one frame (280 x 192).
pub const FRAME_PIXELS: usize = 53760;

/// Text foreground and background, and the hi-res artifact colours (XRGB).
pub const TEXT_GREEN: u32 = 0x00_00_FF_00;
pub const TEXT_BLACK: u32 = 0x00_00_00_00;
pub const HIRES_WHITE: u32 = 0xFF_FF_FF_FF;
pub const HIRES_BLACK: u32 = 0xFF_00_00_00;
pub const HIRES_GREEN: u32 = 0xFF_1E_D6_00;
pub const HIRES_PURPLE: u32 = 0xFF_D3_59_D6;
pub const HIRES_ORANGE: u32 = 0xFF_ED_79_00;
pub const HIRES_BLUE: u32 = 0xFF_63_AF_FF;

/// First byte of text (and lo-res) row `row` (0-23) on page 1 ($0400) or
/// page 2 ($0800): rows interleave in groups of eight 128 bytes apart, the
/// three groups 40 bytes apart.
pub open spec fn text_row_addr(row: int, page2: bool) -> int {
    (if page2 { 0x0800int } else { 0x0400 }) + (row % 8) * 128 + (row / 8) * 40
}

/// First byte of hi-res scan line `row` (0-191) on page 1 ($2000) or 2
/// ($4000): 1KB between the lines of a character row, 128 bytes between
/// character rows, 40 bytes between the three thirds of the screen.
pub open spec fn hires_row_addr(row: int, page2: bool) -> int {
    (if page2 { 0x4000int } else { 0x2000 }) + (row % 8) * 1024 + ((row % 64) / 8) * 128 + (row / 64) * 40
}

/// The 16 lo-res colours (XRGB), by the low four bits of `color_index`.
pub open spec fn lores_color(color_index: u8) -> u32 {
    let c = color_index % 16;
    if c == 0x0 { 0xFF_00_00_00 }  // Black
    else if c == 0x1 { 0xFF_DD_0B_41 }  // Deep Red
    else if c == 0x2 { 0xFF_00_00_8A }  // Dark Blue
    else if c == 0x3 { 0xFF_D3_59_D6 }  // Purple
    else if c == 0x4 { 0xFF_00_75_00 }  // Dark Green
    else if c == 0x5 { 0xFF_60_60_60 }  // Dark Gray
    else if c == 0x6 { 0xFF_1F_3A_FF }  // Medium Blue
    else if c == 0x7 { 0xFF_63_AF_FF }  // Light Blue
    else if c == 0x8 { 0xFF_51_44_00 }  // Brown
    else if c == 0x9 { 0xFF_ED_79_00 }  // Orange
    else if c == 0xA { 0xFF_A0_A0_A0 }  // Light Gray
    else if c == 0xB { 0xFF_FF_91_FF }  // Pink
    else if c == 0xC { 0xFF_1E_D6_00 }  // Light Green
    else if c == 0xD { 0xFF_D6_D6_00 }  // Yellow
    else if c == 0xE { 0xFF_65_FF_A2 }  // Aquamarine
    else { 0xFF_FF_FF_FF }  // White
}

/// Pixel `char_x` (0-6, left to right) of line `char_y` (0-7) of the
/// character with screen code `code`: codes $00-$3F are inverse, $40-$7F
/// flash (shown inverse while `blink_on`), $80-$FF normal; $00-$3F use the
/// glyphs of $40-$7F. In the character ROM bit 6 is the leftmost pixel.
pub open spec fn glyph_pixel(char_rom: Seq<u8>, code: u8, char_y: int, char_x: int, blink_on: bool) -> bool {
    let invert = code < 0x40 || (code < 0x80 && blink_on);
    let index = if code < 0x40 { code + 0x40 } else { code as int };
    let font_byte = char_rom[index * 8 + char_y];
    let lit = font_byte & ((1u8 << ((6 - char_x) as u8)) as u8) != 0;
    if invert { !lit } else { lit }
}

/// Colour of screen pixel (`x`, `y`) in text mode: green on black.
pub open spec fn text_pixel(ram: Seq<u8>, char_rom: Seq<u8>, page2: bool, blink_on: bool, x: int, y: int) -> u32 {
    let code = ram[text_row_addr(y / 8, page2) + x / 7];
    if glyph_pixel(char_rom, code, y % 8, x % 7, blink_on) { TEXT_GREEN } else { TEXT_BLACK }
}

/// Colour of screen pixel (`x`, `y`) in lo-res mode: each byte of the text
/// page is two blocks of 7x4 pixels, the low nibble's colour on top; with
/// mixed mode on, the last four text rows show text.
pub open spec fn lores_pixel(ram: Seq<u8>, char_rom: Seq<u8>, mixed: bool, page2: bool, blink_on: bool, x: int, y: int) -> u32 {
    if mixed && y >= 160 {
        text_pixel(ram, char_rom, page2, blink_on, x, y)
    } else {
        let color_byte = ram[text_row_addr(y / 8, page2) + x / 7];
        if y % 8 < 4 { lores_color(color_byte & 0x0F) } else { lores_color(color_byte >> 4u8) }
    }
}

/// Whether hi-res pixel `x` (0-279) of the line at `row_addr` is set: bits
/// 0-6 of each byte, least significant bit leftmost.
pub open spec fn hires_bit(ram: Seq<u8>, row_addr: int, x: int) -> bool {
    ram[row_addr + x / 7] & ((1u8 << ((x % 7) as u8)) as u8) != 0
}

/// Colour of screen pixel (`x`, `y`) in hi-res mode (NTSC artifact colours
/// approximated): a set pixel next to another set pixel is white; a lone one
/// is purple or green on even or odd columns, blue or orange instead when
/// bit 7 of its byte is set; a clear pixel is black. With mixed mode on, the
/// last 32 lines show text.
pub open spec fn hires_pixel(ram: Seq<u8>, char_rom: Seq<u8>, mixed: bool, page2: bool, blink_on: bool, x: int, y: int) -> u32 {
    if mixed && y >= 160 {
        text_pixel(ram, char_rom, page2, blink_on, x, y)
    } else {
        let row_addr = hires_row_addr(y, page2);
        if !hires_bit(ram, row_addr, x) {
            HIRES_BLACK
        } else if (x > 0 && hires_bit(ram, row_addr, x - 1)) || (x < 279 && hires_bit(ram, row_addr, x + 1)) {
            HIRES_WHITE
        } else {
            let shift = ram[row_addr + x / 7] & 0x80 != 0;
            let even = x % 2 == 0;
            if even && !shift { HIRES_PURPLE }
            else if !even && !shift { HIRES_GREEN }
            else if even { HIRES_BLUE }
            else { HIRES_ORANGE }
        }
    }
}

/// The whole text screen, pixel by pixel in rows of 280.
pub open spec fn text_frame(ram: Seq<u8>, char_rom: Seq<u8>, page2: bool, blink_on: bool) -> Seq<u32> {
    Seq::new(FRAME_PIXELS as nat, |i: int| text_pixel(ram, char_rom, page2, blink_on, i % 280, i / 280))
}

/// The whole lo-res screen.
pub open spec fn lores_frame(ram: Seq<u8>, char_rom: Seq<u8>, mixed: bool, page2: bool, blink_on: bool) -> Seq<u32> {
    Seq::new(FRAME_PIXELS as nat, |i: int| lores_pixel(ram, char_rom, mixed, page2, blink_on, i % 280, i / 280))
}

/// The whole hi-res screen.
pub open spec fn hires_frame(ram: Seq<u8>, char_rom: Seq<u8>, mixed: bool, page2: bool, blink_on: bool) -> Seq<u32> {
    Seq::new(FRAME_PIXELS as nat, |i: int| hires_pixel(ram, char_rom, mixed, page2, blink_on, i % 280, i / 280))
}

pub struct Video {
    pub frame_buffer: Vec<u32>,
}

/// The wall clock's time type, carried through opaquely.
#[verifier::external_type_specification]
#[verifier::external_body]
pub struct ExSystemTime(std::time::SystemTime);

/// The wall clock now (`std::time::SystemTime::now`). Nothing is claimed of
/// the value: it depends on the time of the call.
#[verifier::external_body]
fn wall_clock_now() -> std::time::SystemTime {
    std::time::SystemTime::now()
}

/// Time elapsed from the Unix epoch to `t` (`SystemTime::duration_since`
/// with `UNIX_EPOCH`); `None` when `t` is before the epoch. Nothing is
/// claimed of the value.
#[verifier::external_body]
fn since_unix_epoch(t: &std::time::SystemTime) -> Option<core::time::Duration> {
    match t.duration_since(std::time::UNIX_EPOCH) {
        Ok(elapsed) => Some(elapsed),
        Err(_) => None,
    }
}

/// Whole milliseconds of a duration (`Duration::as_millis`); a duration is
/// opaque here, so nothing is claimed of the number.
#[verifier::external_body]
fn whole_millis(d: &core::time::Duration) -> u128 {
    d.as_millis()
}

/// Whether flashing characters show inverse now: during the second half of
/// every 533ms of the wall clock; off when the clock cannot be read.
fn blink_on_now() -> bool {
    let now = wall_clock_now();
    let millis = match since_unix_epoch(&now) {
        Some(elapsed) => Some(whole_millis(&elapsed)),
        None => None,
    };
    blink_phase(millis)
}

/// The blink phase at `millis` milliseconds past the Unix epoch: flashing
/// characters show inverse during the second half of every 533ms; with no
/// reading of the clock they show normal.
pub fn blink_phase(millis: Option<u128>) -> (r: bool)
    ensures
        r == (match millis {
            Some(ms) => ms % 533 > 266,
            None => false,
        }),
{
    match millis {
        Some(ms) => ms % 533 > 266,
        None => false,
    }
}

impl Video {
    pub fn new() -> (r: Self)
        ensures
            r.frame_buffer@ == Seq::new(FRAME_PIXELS as nat, |i: int| 0u32),
    {
        let frame_buffer = vec![0u32; FRAME_PIXELS];
        proof {
            assert(frame_buffer@ =~= Seq::new(FRAME_PIXELS as nat, |i: int| 0u32));
        }
        Self { frame_buffer }
    }

    /// Calculate the memory address of the first character of a given row
    fn get_text_row_addr(row: usize, page2: bool) -> (r: u16)
        requires
            row < 24,
        ensures
            r == text_row_addr(row as int, page2),
            r <= 0x0BD0,
    {
        // Apple II text rows are interleaved:
        // Row 0 = 0x0400, Row 1 = 0x0480, Row 2 = 0x0500...
        // Row 8 = 0x0428, Row 9 = 0x04A8...
        // Row 16 = 0x0450...
        let base: usize = if page2 { 0x0800 } else { 0x0400 };
        let block = row / 8;
        let offset = row % 8;
        (base + offset * 128 + block * 40) as u16
    }

    /// Convert Apple II 4-bit Lo-Res color index to 32-bit ARGB
    fn get_lores_color(color_index: u8) -> (r: u32)
        ensures
            r == lores_color(color_index),
    {
        let c = color_index % 16;
        if c == 0x0 { 0xFF_00_00_00 }  // Black
        else if c == 0x1 { 0xFF_DD_0B_41 }  // Deep Red
        else if c == 0x2 { 0xFF_00_00_8A }  // Dark Blue
        else if c == 0x3 { 0xFF_D3_59_D6 }  // Purple
        else if c == 0x4 { 0xFF_00_75_00 }  // Dark Green
        else if c == 0x5 { 0xFF_60_60_60 }  // Dark Gray
        else if c == 0x6 { 0xFF_1F_3A_FF }  // Medium Blue
        else if c == 0x7 { 0xFF_63_AF_FF }  // Light Blue
        else if c == 0x8 { 0xFF_51_44_00 }  // Brown
        else if c == 0x9 { 0xFF_ED_79_00 }  // Orange
        else if c == 0xA { 0xFF_A0_A0_A0 }  // Light Gray
        else if c == 0xB { 0xFF_FF_91_FF }  // Pink
        else if c == 0xC { 0xFF_1E_D6_00 }  // Light Green
        else if c == 0xD { 0xFF_D6_D6_00 }  // Yellow
        else if c == 0xE { 0xFF_65_FF_A2 }  // Aquamarine
        else { 0xFF_FF_FF_FF }  // White
    }

    /// Calculate the memory address of the first byte of a given Hi-Res row
    fn get_hires_row_addr(row: usize, page2: bool) -> (r: u16)
        requires
            row < 192,
        ensures
            r == hires_row_addr(row as int, page2),
            r <= 0x5FD0,
    {
        // Hi-Res memory is also interleaved, similar to text but spread over 8KB
        // Page 1: 0x2000 - 0x3FFF
        // Page 2: 0x4000 - 0x5FFF
        let base: usize = if page2 { 0x4000 } else { 0x2000 };
        let block = row / 64;  // 0, 1, 2
        let sub_block = (row % 64) / 8;  // 0..7
        let offset = row % 8;  // 0..7
        (base + offset * 1024 + sub_block * 128 + block * 40) as u16
    }

    fn text_pixel_color(ram: &Vec<u8>, char_rom: &[u8; 2048], page2: bool, blink_on: bool, x: usize, y: usize) -> (r: u32)
        requires
            ram@.len() == RAM_SIZE,
            x < SCREEN_WIDTH,
            y < SCREEN_HEIGHT,
        ensures
            r == text_pixel(ram@, char_rom@, page2, blink_on, x as int, y as int),
    {
        let row_addr = Self::get_text_row_addr(y / 8, page2);
        let char_code = ram[row_addr as usize + x / 7];
        // Text Modes:
        // $00-$3F: Inverse (uppercase only)
        // $40-$7F: Flashing (uppercase only)
        // $80-$FF: Normal (upper and lowercase, etc.)
        let invert_colors = char_code < 0x40 || (char_code < 0x80 && blink_on);
        // The Apple II character generator ROM is 2KB; $00-$3F use the
        // glyphs of $40-$7F.
        let char_index: usize = if char_code < 0x40 { char_code as usize + 0x40 } else { char_code as usize };
        let char_y = y % 8;
        let char_x = x % 7;
        let font_byte = char_rom[char_index * 8 + char_y];
        // Bit 6 is the leftmost pixel, bit 0 the rightmost.
        let lit = font_byte & (1u8 << ((6 - char_x) as u8)) != 0;
        let pixel_on = if invert_colors { !lit } else { lit };
        if pixel_on { TEXT_GREEN } else { TEXT_BLACK }
    }

    fn lores_pixel_color(mem: &Apple2Memory, char_rom: &[u8; 2048], blink_on: bool, x: usize, y: usize) -> (r: u32)
        requires
            mem@.wf(),
            x < SCREEN_WIDTH,
            y < SCREEN_HEIGHT,
        ensures
            r == lores_pixel(mem@.ram, char_rom@, mem.mixed_mode, mem.page2, blink_on, x as int, y as int),
    {
        // Mixed mode: the bottom 4 text rows are text.
        if mem.mixed_mode && y >= 160 {
            return Self::text_pixel_color(&mem.ram, char_rom, mem.page2, blink_on, x, y);
        }
        let row_addr = Self::get_text_row_addr(y / 8, mem.page2);
        let color_byte = mem.ram[row_addr as usize + x / 7];
        // The top block is the low nibble, the bottom block the high one.
        if y % 8 < 4 {
            Self::get_lores_color(color_byte & 0x0F)
        } else {
            Self::get_lores_color(color_byte >> 4u8)
        }
    }

    fn hires_bit_at(ram: &Vec<u8>, row_addr: usize, x: usize) -> (r: bool)
        requires
            ram@.len() == RAM_SIZE,
            row_addr <= 0x5FD0,
            x < SCREEN_WIDTH,
        ensures
            r == hires_bit(ram@, row_addr as int, x as int),
    {
        ram[row_addr + x / 7] & (1u8 << ((x % 7) as u8)) != 0
    }

    fn hires_pixel_color(mem: &Apple2Memory, char_rom: &[u8; 2048], blink_on: bool, x: usize, y: usize) -> (r: u32)
        requires
            mem@.wf(),
            x < SCREEN_WIDTH,
            y < SCREEN_HEIGHT,
        ensures
            r == hires_pixel(mem@.ram, char_rom@, mem.mixed_mode, mem.page2, blink_on, x as int, y as int),
    {
        // Mixed mode: the bottom 32 scanlines (4 text rows) are text.
        if mem.mixed_mode && y >= 160 {
            return Self::text_pixel_color(&mem.ram, char_rom, mem.page2, blink_on, x, y);
        }
        let row_addr = Self::get_hires_row_addr(y, mem.page2) as usize;
        let current_bit = Self::hires_bit_at(&mem.ram, row_addr, x);
        if !current_bit {
            return HIRES_BLACK;
        }
        let prev_bit = x > 0 && Self::hires_bit_at(&mem.ram, row_addr, x - 1);
        let next_bit = x < 279 && Self::hires_bit_at(&mem.ram, row_addr, x + 1);
        // NTSC artifact colour approximation: neighbouring set pixels make
        // white; a lone pixel's colour depends on its column's parity and on
        // the palette bit (bit 7) of its byte.
        if prev_bit || next_bit {
            HIRES_WHITE
        } else {
            let shift_bit = mem.ram[row_addr + x / 7] & 0x80 != 0;
            let is_even_col = x % 2 == 0;
            if is_even_col && !shift_bit {
                HIRES_PURPLE
            } else if !is_even_col && !shift_bit {
                HIRES_GREEN
            } else if is_even_col {
                HIRES_BLUE
            } else {
                HIRES_ORANGE
            }
        }
    }

    /// Renders the text screen (the page the page switch selects) with the
    /// given blink phase.
    pub fn render_text_frame_at(&mut self, mem: &Apple2Memory, char_rom: &[u8; 2048], blink_on: bool)
        requires
            mem@.wf(),
            old(self).frame_buffer@.len() == FRAME_PIXELS,
        ensures
            final(self).frame_buffer@ == text_frame(mem@.ram, char_rom@, mem.page2, blink_on),
    {
        for i in 0..FRAME_PIXELS
            invariant
                mem@.wf(),
                self.frame_buffer@.len() == FRAME_PIXELS,
                forall|j: int| 0 <= j < i ==> #[trigger] self.frame_buffer@[j]
                    == text_pixel(mem@.ram, char_rom@, mem.page2, blink_on, j % 280, j / 280),
        {
            let color = Self::text_pixel_color(&mem.ram, char_rom, mem.page2, blink_on, i % SCREEN_WIDTH, i / SCREEN_WIDTH);
            self.frame_buffer.set(i, color);
        }
        proof {
            assert(self.frame_buffer@ =~= text_frame(mem@.ram, char_rom@, mem.page2, blink_on));
        }
    }

    /// Renders the lo-res screen (the page the page switch selects, text in
    /// the last four rows in mixed mode) with the given blink phase.
    pub fn render_lores_frame_at(&mut self, mem: &Apple2Memory, char_rom: &[u8; 2048], blink_on: bool)
        requires
            mem@.wf(),
            old(self).frame_buffer@.len() == FRAME_PIXELS,
        ensures
            final(self).frame_buffer@ == lores_frame(mem@.ram, char_rom@, mem.mixed_mode, mem.page2, blink_on),
    {
        for i in 0..FRAME_PIXELS
            invariant
                mem@.wf(),
                self.frame_buffer@.len() == FRAME_PIXELS,
                forall|j: int| 0 <= j < i ==> #[trigger] self.frame_buffer@[j]
                    == lores_pixel(mem@.ram, char_rom@, mem.mixed_mode, mem.page2, blink_on, j % 280, j / 280),
        {
            let color = Self::lores_pixel_color(mem, char_rom, blink_on, i % SCREEN_WIDTH, i / SCREEN_WIDTH);
            self.frame_buffer.set(i, color);
        }
        proof {
            assert(self.frame_buffer@ =~= lores_frame(mem@.ram, char_rom@, mem.mixed_mode, mem.page2, blink_on));
        }
    }

    /// Renders the hi-res screen (the page the page switch selects; text in
    /// the last 32 lines in mixed mode) with the given blink phase.
    pub fn render_hires_frame_at(&mut self, mem: &Apple2Memory, char_rom: &[u8; 2048], blink_on: bool)
        requires
            mem@.wf(),
            old(self).frame_buffer@.len() == FRAME_PIXELS,
        ensures
            final(self).frame_buffer@ == hires_frame(mem@.ram, char_rom@, mem.mixed_mode, mem.page2, blink_on),
    {
        for i in 0..FRAME_PIXELS
            invariant
                mem@.wf(),
                self.frame_buffer@.len() == FRAME_PIXELS,
                forall|j: int| 0 <= j < i ==> #[trigger] self.frame_buffer@[j]
                    == hires_pixel(mem@.ram, char_rom@, mem.mixed_mode, mem.page2, blink_on, j % 280, j / 280),
        {
            let color = Self::hires_pixel_color(mem, char_rom, blink_on, i % SCREEN_WIDTH, i / SCREEN_WIDTH);
            self.frame_buffer.set(i, color);
        }
        proof {
            assert(self.frame_buffer@ =~= hires_frame(mem@.ram, char_rom@, mem.mixed_mode, mem.page2, blink_on));
        }
    }

    /// Render the Apple II Text Mode frame into the 32-bit framebuffer, with
    /// flashing characters in the blink phase of the wall clock.
    pub fn render_text_frame(&mut self, mem: &Apple2Memory, char_rom: &[u8; 2048])
        requires
            mem@.wf(),
            old(self).frame_buffer@.len() == FRAME_PIXELS,
        ensures
            final(self).frame_buffer@ == text_frame(mem@.ram, char_rom@, mem.page2, false)
                || final(self).frame_buffer@ == text_frame(mem@.ram, char_rom@, mem.page2, true),
    {
        let blink_on = blink_on_now();
        self.render_text_frame_at(mem, char_rom, blink_on);
    }

    /// Render the Apple II Low-Res Graphics Mode frame into the 32-bit
    /// framebuffer. In mixed mode, the bottom 4 lines of text (rows 20-23)
    /// are rendered as text.
    pub fn render_lores_frame(&mut self, mem: &Apple2Memory, char_rom: &[u8; 2048])
        requires
            mem@.wf(),
            old(self).frame_buffer@.len() == FRAME_PIXELS,
        ensures
            final(self).frame_buffer@ == lores_frame(mem@.ram, char_rom@, mem.mixed_mode, mem.page2, false)
                || final(self).frame_buffer@ == lores_frame(mem@.ram, char_rom@, mem.mixed_mode, mem.page2, true),
    {
        let blink_on = blink_on_now();
        self.render_lores_frame_at(mem, char_rom, blink_on);
    }

    /// Render the Apple II High-Res Graphics Mode frame into the 32-bit
    /// framebuffer.
    pub fn render_hires_frame(&mut self, mem: &Apple2Memory, char_rom: &[u8; 2048])
        requires
            mem@.wf(),
            old(self).frame_buffer@.len() == FRAME_PIXELS,
        ensures
            final(self).frame_buffer@ == hires_frame(mem@.ram, char_rom@, mem.mixed_mode, mem.page2, false)
                || final(self).frame_buffer@ == hires_frame(mem@.ram, char_rom@, mem.mixed_mode, mem.page2, true),
    {
        let blink_on = blink_on_now();
        self.render_hires_frame_at(mem, char_rom, blink_on);
    }
}

/// A scan line number taken apart into third, character row and line.
proof fn lemma_scan_line_digits(y: int, q: int, k: int, j: int)
    requires
        0 <= q,
        0 <= k < 8,
        0 <= j < 8,
        y == 64 * q + 8 * k + j,
    ensures
        y % 8 == j,
        (y % 64) / 8 == k,
        y / 64 == q,
{
    vstd::arithmetic::div_mod::lemma_fundamental_div_mod_converse(y, 64, q, 8 * k + j);
    vstd::arithmetic::div_mod::lemma_fundamental_div_mod_converse(8 * k + j, 8, k, j);
    vstd::arithmetic::div_mod::lemma_fundamental_div_mod_converse(y, 8, 8 * q + k, j);
}

/// How hi-res scan lines lie in memory: line 0 starts the page ($2000, or
/// $4000 on page 2); within a character row each line is 1KB after the one
/// above it; each character row of a third is 128 bytes after the one above
/// it; each third of the screen (64 lines) is 40 bytes after the one above
/// it; page 2 is page 1 moved by $2000; and every line's 40 bytes lie inside
/// its 8KB page.
pub proof fn law_hires_scan_line_layout(y: int, page2: bool)
    requires
        0 <= y < 192,
    ensures
        hires_row_addr(0, page2) == (if page2 { 0x4000int } else { 0x2000 }),
        y % 8 != 7 ==> hires_row_addr(y + 1, page2) == hires_row_addr(y, page2) + 1024,
        y % 64 < 56 ==> hires_row_addr(y + 8, page2) == hires_row_addr(y, page2) + 128,
        y + 64 < 192 ==> hires_row_addr(y + 64, page2) == hires_row_addr(y, page2) + 40,
        hires_row_addr(y, true) == hires_row_addr(y, false) + 0x2000,
        (if page2 { 0x4000int } else { 0x2000 }) <= hires_row_addr(y, page2),
        hires_row_addr(y, page2) + 40 <= (if page2 { 0x4000int } else { 0x2000 }) + 0x2000,
{
    let q = y / 64;
    let k = (y % 64) / 8;
    let j = y % 8;
    vstd::arithmetic::div_mod::lemma_fundamental_div_mod(y, 64);
    vstd::arithmetic::div_mod::lemma_fundamental_div_mod(y % 64, 8);
    vstd::arithmetic::div_mod::lemma_fundamental_div_mod(y, 8);
    assert(0 <= k < 8 && 0 <= j < 8 && 0 <= q < 3);
    assert(y == 64 * q + 8 * k + (y % 64) % 8);
    lemma_scan_line_digits(y, q, k, (y % 64) % 8);
    lemma_scan_line_digits(0, 0, 0, 0);
    if j != 7 {
        lemma_scan_line_digits(y + 1, q, k, j + 1);
    }
    if k != 7 {
        lemma_scan_line_digits(y + 8, q, k + 1, j);
    }
    lemma_scan_line_digits(y + 64, q + 1, k, j);
}

/// How text (and lo-res) rows lie in memory: row 0 starts the page ($0400,
/// or $0800 on page 2); each row of a group of eight is 128 bytes after the
/// one above it; each group of eight rows is 40 bytes after the one above it;
/// page 2 is page 1 moved by $0400; and every row's 40 bytes lie inside its
/// 1KB page.
pub proof fn law_text_row_layout(row: int, page2: bool)
    requires
        0 <= row < 24,
    ensures
        text_row_addr(0, page2) == (if page2 { 0x0800int } else { 0x0400 }),
        row % 8 != 7 ==> text_row_addr(row + 1, page2) == text_row_addr(row, page2) + 128,
        row + 8 < 24 ==> text_row_addr(row + 8, page2) == text_row_addr(row, page2) + 40,
        text_row_addr(row, true) == text_row_addr(row, false) + 0x0400,
        (if page2 { 0x0800int } else { 0x0400 }) <= text_row_addr(row, page2),
        text_row_addr(row, page2) + 40 <= (if page2 { 0x0800int } else { 0x0400 }) + 0x0400,
{
}

} // verus!

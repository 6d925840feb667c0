//! What the desktop front end decides: host keys to Apple II key codes,
//! arrow keys to joystick positions, pasted text to key codes, and disk
//! image files (plain or gzip-compressed) to 140KB DOS 3.3 images.
use vstd::prelude::*;
use crate::nibble::DSK_BYTES;

verus! {

/// The host keyboard keys the emulator reads.
#[derive(Clone, Copy, Debug, PartialEq, Eq, Structural)]
pub enum HostKey {
    A, B, C, D, E, F, G, H, I, J, K, L, M, N, O, P, Q, R, S, T, U, V, W, X, Y, Z,
    Key0, Key1, Key2, Key3, Key4, Key5, Key6, Key7, Key8, Key9,
    Minus, Equal, Comma, Period, Slash, Semicolon, Apostrophe,
    Space, Enter, Backspace, Escape,
    /// Any key without an Apple II key code.
    Other,
}

/// Position of a letter key in the alphabet.
pub open spec fn letter_index(key: HostKey) -> Option<int> {
    match key {
        HostKey::A => Some(0), HostKey::B => Some(1), HostKey::C => Some(2), HostKey::D => Some(3),
        HostKey::E => Some(4), HostKey::F => Some(5), HostKey::G => Some(6), HostKey::H => Some(7),
        HostKey::I => Some(8), HostKey::J => Some(9), HostKey::K => Some(10), HostKey::L => Some(11),
        HostKey::M => Some(12), HostKey::N => Some(13), HostKey::O => Some(14), HostKey::P => Some(15),
        HostKey::Q => Some(16), HostKey::R => Some(17), HostKey::S => Some(18), HostKey::T => Some(19),
        HostKey::U => Some(20), HostKey::V => Some(21), HostKey::W => Some(22), HostKey::X => Some(23),
        HostKey::Y => Some(24), HostKey::Z => Some(25),
        _ => None,
    }
}

/// Value of a digit key.
pub open spec fn digit_index(key: HostKey) -> Option<int> {
    match key {
        HostKey::Key0 => Some(0), HostKey::Key1 => Some(1), HostKey::Key2 => Some(2), HostKey::Key3 => Some(3),
        HostKey::Key4 => Some(4), HostKey::Key5 => Some(5), HostKey::Key6 => Some(6), HostKey::Key7 => Some(7),
        HostKey::Key8 => Some(8), HostKey::Key9 => Some(9),
        _ => None,
    }
}

/// The characters on the digit keys with shift held: `)!@#$%^&*(`.
pub open spec fn shifted_digit(d: int) -> u8 {
    seq![0x29u8, 0x21, 0x40, 0x23, 0x24, 0x25, 0x5E, 0x26, 0x2A, 0x28][d]
}

/// The Apple II key code of a host key (0 for none): letters are upper case,
/// or control codes 1-26 with ctrl; digits and punctuation follow the US
/// layout with shift; space, return, backspace and escape are 32, 13, 8, 27.
pub open spec fn key_ascii(key: HostKey, ctrl_down: bool, shift_down: bool) -> u8 {
    match letter_index(key) {
        Some(i) => if ctrl_down { (i + 1) as u8 } else { (0x41 + i) as u8 },
        None => match digit_index(key) {
            Some(d) => if shift_down { shifted_digit(d) } else { (0x30 + d) as u8 },
            None => match key {
                HostKey::Minus => if shift_down { 0x5F } else { 0x2D },
                HostKey::Equal => if shift_down { 0x2B } else { 0x3D },
                HostKey::Comma => if shift_down { 0x3C } else { 0x2C },
                HostKey::Period => if shift_down { 0x3E } else { 0x2E },
                HostKey::Slash => if shift_down { 0x3F } else { 0x2F },
                HostKey::Semicolon => if shift_down { 0x3A } else { 0x3B },
                HostKey::Apostrophe => if shift_down { 0x22 } else { 0x27 },
                HostKey::Space => 0x20,
                HostKey::Enter => 0x0D,
                HostKey::Backspace => 0x08,
                HostKey::Escape => 0x1B,
                _ => 0,
            },
        },
    }
}

/// Shared ASCII mapping used both for the key-down event queue and for
/// re-checking whether a held key is still down.
pub fn key_to_ascii(key: HostKey, ctrl_down: bool, shift_down: bool) -> (r: u8)
    ensures
        r == key_ascii(key, ctrl_down, shift_down),
        r < 0x80,
{
    match key {
        HostKey::A => if ctrl_down { 0x01 } else { 0x41 },  // A
        HostKey::B => if ctrl_down { 0x02 } else { 0x42 },  // B
        HostKey::C => if ctrl_down { 0x03 } else { 0x43 },  // C
        HostKey::D => if ctrl_down { 0x04 } else { 0x44 },  // D
        HostKey::E => if ctrl_down { 0x05 } else { 0x45 },  // E
        HostKey::F => if ctrl_down { 0x06 } else { 0x46 },  // F
        HostKey::G => if ctrl_down { 0x07 } else { 0x47 },  // G
        HostKey::H => if ctrl_down { 0x08 } else { 0x48 },  // H
        HostKey::I => if ctrl_down { 0x09 } else { 0x49 },  // I
        HostKey::J => if ctrl_down { 0x0A } else { 0x4A },  // J
        HostKey::K => if ctrl_down { 0x0B } else { 0x4B },  // K
        HostKey::L => if ctrl_down { 0x0C } else { 0x4C },  // L
        HostKey::M => if ctrl_down { 0x0D } else { 0x4D },  // M
        HostKey::N => if ctrl_down { 0x0E } else { 0x4E },  // N
        HostKey::O => if ctrl_down { 0x0F } else { 0x4F },  // O
        HostKey::P => if ctrl_down { 0x10 } else { 0x50 },  // P
        HostKey::Q => if ctrl_down { 0x11 } else { 0x51 },  // Q
        HostKey::R => if ctrl_down { 0x12 } else { 0x52 },  // R
        HostKey::S => if ctrl_down { 0x13 } else { 0x53 },  // S
        HostKey::T => if ctrl_down { 0x14 } else { 0x54 },  // T
        HostKey::U => if ctrl_down { 0x15 } else { 0x55 },  // U
        HostKey::V => if ctrl_down { 0x16 } else { 0x56 },  // V
        HostKey::W => if ctrl_down { 0x17 } else { 0x57 },  // W
        HostKey::X => if ctrl_down { 0x18 } else { 0x58 },  // X
        HostKey::Y => if ctrl_down { 0x19 } else { 0x59 },  // Y
        HostKey::Z => if ctrl_down { 0x1A } else { 0x5A },  // Z
        HostKey::Key0 => if shift_down { 0x29 } else { 0x30 },  // ) 0
        HostKey::Key1 => if shift_down { 0x21 } else { 0x31 },  // ! 1
        HostKey::Key2 => if shift_down { 0x40 } else { 0x32 },  // @ 2
        HostKey::Key3 => if shift_down { 0x23 } else { 0x33 },  // # 3
        HostKey::Key4 => if shift_down { 0x24 } else { 0x34 },  // $ 4
        HostKey::Key5 => if shift_down { 0x25 } else { 0x35 },  // % 5
        HostKey::Key6 => if shift_down { 0x5E } else { 0x36 },  // ^ 6
        HostKey::Key7 => if shift_down { 0x26 } else { 0x37 },  // & 7
        HostKey::Key8 => if shift_down { 0x2A } else { 0x38 },  // * 8
        HostKey::Key9 => if shift_down { 0x28 } else { 0x39 },  // ( 9
        HostKey::Minus => if shift_down { 0x5F } else { 0x2D },  // _ -
        HostKey::Equal => if shift_down { 0x2B } else { 0x3D },  // + =
        HostKey::Comma => if shift_down { 0x3C } else { 0x2C },  // < ,
        HostKey::Period => if shift_down { 0x3E } else { 0x2E },  // > .
        HostKey::Slash => if shift_down { 0x3F } else { 0x2F },  // ? /
        HostKey::Semicolon => if shift_down { 0x3A } else { 0x3B },  // : ;
        HostKey::Apostrophe => if shift_down { 0x22 } else { 0x27 },  // " '
        HostKey::Space => 0x20,  //  
        HostKey::Enter => 0x0D,
        HostKey::Backspace => 0x08,
        HostKey::Escape => 0x1B,
        HostKey::Other => 0,
    }
}

/// The two characters printed on a letter, digit or punctuation key of a US
/// keyboard: the one typed without shift, and the one typed with it.
pub open spec fn keycap(key: HostKey) -> Option<(char, char)> {
    match key {
        HostKey::A => Some(('a', 'A')), HostKey::B => Some(('b', 'B')), HostKey::C => Some(('c', 'C')),
        HostKey::D => Some(('d', 'D')), HostKey::E => Some(('e', 'E')), HostKey::F => Some(('f', 'F')),
        HostKey::G => Some(('g', 'G')), HostKey::H => Some(('h', 'H')), HostKey::I => Some(('i', 'I')),
        HostKey::J => Some(('j', 'J')), HostKey::K => Some(('k', 'K')), HostKey::L => Some(('l', 'L')),
        HostKey::M => Some(('m', 'M')), HostKey::N => Some(('n', 'N')), HostKey::O => Some(('o', 'O')),
        HostKey::P => Some(('p', 'P')), HostKey::Q => Some(('q', 'Q')), HostKey::R => Some(('r', 'R')),
        HostKey::S => Some(('s', 'S')), HostKey::T => Some(('t', 'T')), HostKey::U => Some(('u', 'U')),
        HostKey::V => Some(('v', 'V')), HostKey::W => Some(('w', 'W')), HostKey::X => Some(('x', 'X')),
        HostKey::Y => Some(('y', 'Y')), HostKey::Z => Some(('z', 'Z')),
        HostKey::Key0 => Some(('0', ')')), HostKey::Key1 => Some(('1', '!')), HostKey::Key2 => Some(('2', '@')),
        HostKey::Key3 => Some(('3', '#')), HostKey::Key4 => Some(('4', '$')), HostKey::Key5 => Some(('5', '%')),
        HostKey::Key6 => Some(('6', '^')), HostKey::Key7 => Some(('7', '&')), HostKey::Key8 => Some(('8', '*')),
        HostKey::Key9 => Some(('9', '(')),
        HostKey::Minus => Some(('-', '_')), HostKey::Equal => Some(('=', '+')), HostKey::Comma => Some((',', '<')),
        HostKey::Period => Some(('.', '>')), HostKey::Slash => Some(('/', '?')), HostKey::Semicolon => Some((';', ':')),
        HostKey::Apostrophe => Some(('\'', '"')),
        HostKey::Space => Some((' ', ' ')),
        _ => None,
    }
}

/// Typing a key without ctrl gives what pasting the character on its keycap
/// gives: the lower character without shift, the upper one with shift (so
/// letters type upper case either way, and `-` types '-' and shift-`-` '_').
pub proof fn law_typing_a_key_types_its_keycap(key: HostKey, shift_down: bool)
    requires
        keycap(key) is Some,
    ensures
        ({
            let (lower, upper) = keycap(key)->Some_0;
            &&& paste_code(lower) == Some(key_ascii(key, false, false))
            &&& paste_code(upper) == Some(key_ascii(key, false, true))
        }),
{
}

/// Ctrl only acts on letters: with it a letter types its control code (its
/// upper-case code minus $40, 1 for A to 26 for Z); every other key types the
/// same with or without ctrl.
pub proof fn law_ctrl_makes_control_codes(key: HostKey, shift_down: bool)
    ensures
        letter_index(key) is Some ==> key_ascii(key, true, shift_down) + 0x40 == key_ascii(key, false, shift_down)
            && 1 <= key_ascii(key, true, shift_down) <= 26,
        letter_index(key) is None ==> key_ascii(key, true, shift_down) == key_ascii(key, false, shift_down),
{
}

/// A joystick axis from its two arrow keys: 0 towards the negative key, 255
/// towards the positive one, centred (127) with neither or both held.
pub fn joystick_axis(negative_pressed: bool, positive_pressed: bool) -> (r: u8)
    ensures
        r == (if negative_pressed && !positive_pressed { 0u8 } else if positive_pressed && !negative_pressed { 255u8 } else { 127u8 }),
{
    if negative_pressed && !positive_pressed {
        0
    } else if !negative_pressed && positive_pressed {
        255
    } else {
        127
    }
}

/// The key code a pasted character types: a line feed becomes return and a
/// lower-case letter upper case; characters outside ASCII type nothing.
pub open spec fn paste_code(c: char) -> Option<u8> {
    let a = c as u32;
    let b: int = if a == 10 { 13 } else if 97 <= a <= 122 { a - 32 } else { a as int };
    if b < 128 { Some(b as u8) } else { None }
}

/// The key codes pasted text types, in order.
pub open spec fn paste_codes(text: Seq<char>) -> Seq<u8>
    decreases text.len(),
{
    if text.len() == 0 {
        Seq::empty()
    } else {
        let before = paste_codes(text.drop_last());
        match paste_code(text.last()) {
            Some(b) => before.push(b),
            None => before,
        }
    }
}

/// Converts clipboard text into the key codes it types (see `paste_code`).
pub fn paste_text_keys(text: &str) -> (r: Vec<u8>)
    ensures
        r@ == paste_codes(text@),
{
    let mut keys: Vec<u8> = Vec::new();
    let ghost mut n: int = 0;
    broadcast use vstd::string::axiom_spec_iter;
    for c in it: text.chars()
        invariant
            n == it.index(),
            it.seq() == text@,
            keys@ == paste_codes(text@.take(n)),
    {
        proof {
            assert(text@.take(n + 1).drop_last() =~= text@.take(n));
            assert(text@.take(n + 1).last() == c);
        }
        let mut ascii = c as u32;
        if ascii == 10 {
            ascii = 13;
        }
        if ascii >= 97 && ascii <= 122 {
            ascii = ascii - 32;
        }
        if ascii < 128 {
            keys.push(ascii as u8);
        }
        proof {
            n = n + 1;
        }
    }
    proof {
        assert(text@.take(n) =~= text@);
    }
    keys
}

/// A file longer than a disk image is accepted when at most this many bytes
/// trail the image; they are trimmed.
pub const MAX_TRAILING_BYTES: usize = 4096;

/// Why a file is not a 140KB DOS 3.3 image.
#[derive(Clone, Copy, Debug, PartialEq, Eq, Structural)]
pub enum DiskImageError {
    /// Shorter than 143360 bytes.
    TooSmall { len: usize },
    /// More than `MAX_TRAILING_BYTES` bytes past the image.
    TooLarge { len: usize, trailing: usize },
}

/// The file starts with the gzip magic number 1F 8B.
pub open spec fn is_gzip(data: Seq<u8>) -> bool {
    data.len() >= 2 && data[0] == 0x1F && data[1] == 0x8B
}

/// The bytes a gzip decoder (flate2's `read::GzDecoder`, reading to the
/// end) produces from `data`: the decompressed first member, or `None` when
/// decompression fails.
pub uninterp spec fn gunzip(data: Seq<u8>) -> Option<Seq<u8>>;

/// Decompresses gzip data with `flate2::read::GzDecoder` and
/// `Read::read_to_end`; the result is the name `gunzip` of the input. What
/// the decompressed bytes are is not stated here: gzip decoding is flate2's.
#[verifier::external_body]
fn gunzip_bytes(data: &[u8]) -> (r: Option<Vec<u8>>)
    ensures
        match r {
            Some(out) => gunzip(data@) == Some(out@),
            None => gunzip(data@) is None,
        },
{
    let mut decoder = flate2::read::GzDecoder::new(data);
    let mut out: Vec<u8> = Vec::new();
    match std::io::Read::read_to_end(&mut decoder, &mut out) {
        Ok(_) => Some(out),
        Err(_) => None,
    }
}

/// The image in a file's contents: exactly its first 143360 bytes when it
/// has that many and at most `MAX_TRAILING_BYTES` more.
pub open spec fn fitted_image(disk: Seq<u8>) -> Result<Seq<u8>, DiskImageError> {
    if disk.len() < DSK_BYTES {
        Err(DiskImageError::TooSmall { len: disk.len() as usize })
    } else if disk.len() - DSK_BYTES > MAX_TRAILING_BYTES {
        Err(DiskImageError::TooLarge { len: disk.len() as usize, trailing: (disk.len() - DSK_BYTES) as usize })
    } else {
        Ok(disk.take(DSK_BYTES as int))
    }
}

/// The contents of a disk file once decompressed: gzip data (by its magic
/// number) that decompresses gives the decompressed bytes; anything else,
/// or gzip data that fails to decompress, is taken as it is.
pub open spec fn decompressed_image(raw: Seq<u8>) -> Seq<u8> {
    if is_gzip(raw) {
        match gunzip(raw) {
            Some(out) => out,
            None => raw,
        }
    } else {
        raw
    }
}

/// Checks the size of a (decompressed) disk file and trims up to
/// `MAX_TRAILING_BYTES` trailing bytes (see `fitted_image`).
pub fn fit_disk_image(disk: Vec<u8>) -> (r: Result<Vec<u8>, DiskImageError>)
    ensures
        match r {
            Ok(image) => fitted_image(disk@) == Ok::<Seq<u8>, DiskImageError>(image@),
            Err(e) => fitted_image(disk@) == Err::<Seq<u8>, DiskImageError>(e),
        },
{
    if disk.len() < DSK_BYTES {
        return Err(DiskImageError::TooSmall { len: disk.len() });
    }
    if disk.len() > DSK_BYTES {
        let trailing = disk.len() - DSK_BYTES;
        if trailing > MAX_TRAILING_BYTES {
            return Err(DiskImageError::TooLarge { len: disk.len(), trailing });
        }
    }
    let mut image = disk;
    image.truncate(DSK_BYTES);
    Ok(image)
}

/// Decompresses a disk file's contents when they start with the gzip magic
/// number: the bytes of `decompressed_image`, and whether gzip data failed to
/// decompress and is taken as it is.
pub fn decompress_disk_file(raw_data: Vec<u8>) -> (r: (Vec<u8>, bool))
    ensures
        r.0@ == decompressed_image(raw_data@),
        r.1 == (is_gzip(raw_data@) && gunzip(raw_data@) is None),
{
    let is_gz_magic = raw_data.len() >= 2 && raw_data[0] == 0x1F && raw_data[1] == 0x8B;
    if is_gz_magic {
        match gunzip_bytes(&raw_data) {
            Some(out) => (out, false),
            // A file with the gzip magic that does not decompress is used as it is.
            None => (raw_data, true),
        }
    } else {
        (raw_data, false)
    }
}

/// Reads a disk file's contents as a 140KB DOS 3.3 image: gzip-compressed
/// files are decompressed first (falling back to the raw bytes when that
/// fails), then the size is checked and trailing bytes trimmed.
pub fn decode_disk_image(raw_data: Vec<u8>) -> (r: Result<Vec<u8>, DiskImageError>)
    ensures
        match r {
            Ok(image) => fitted_image(decompressed_image(raw_data@)) == Ok::<Seq<u8>, DiskImageError>(image@),
            Err(e) => fitted_image(decompressed_image(raw_data@)) == Err::<Seq<u8>, DiskImageError>(e),
        },
{
    let (disk, _fell_back) = decompress_disk_file(raw_data);
    fit_disk_image(disk)
}

/// An accepted disk file always yields a whole 140KB image, and a file of
/// exactly that size is accepted as it is.
pub proof fn law_fitted_image_is_a_whole_disk(disk: Seq<u8>)
    ensures
        fitted_image(disk) is Ok ==> fitted_image(disk)->Ok_0.len() == DSK_BYTES,
        disk.len() == DSK_BYTES ==> fitted_image(disk) == Ok::<Seq<u8>, DiskImageError>(disk),
{
    if disk.len() == DSK_BYTES {
        assert(disk.take(DSK_BYTES as int) =~= disk);
    }
}

/// Why a disk file is refused by the strict reader of the probe tools.
#[derive(Clone, Copy, Debug, PartialEq, Eq, Structural)]
pub enum StrictImageError {
    /// The file is gzip (by name or magic number) and does not decompress.
    Decompress,
    /// The (decompressed) contents are not exactly 143360 bytes.
    WrongSize { len: usize },
}

/// What the strict reader makes of a file's contents: gzip files (named
/// `.gz`, or with the magic number) must decompress, and the result must be
/// exactly one 140KB image.
pub open spec fn strict_image(gz_name: bool, raw: Seq<u8>) -> Result<Seq<u8>, StrictImageError> {
    let disk = if gz_name || is_gzip(raw) { gunzip(raw) } else { Some(raw) };
    match disk {
        None => Err(StrictImageError::Decompress),
        Some(d) => if d.len() == DSK_BYTES { Ok(d) } else { Err(StrictImageError::WrongSize { len: d.len() as usize }) },
    }
}

/// Reads a disk file's contents strictly (see `strict_image`); `gz_name`
/// tells whether the file is named `.gz`.
pub fn decode_strict_disk_image(gz_name: bool, raw_data: Vec<u8>) -> (r: Result<Vec<u8>, StrictImageError>)
    ensures
        match r {
            Ok(image) => strict_image(gz_name, raw_data@) == Ok::<Seq<u8>, StrictImageError>(image@),
            Err(e) => strict_image(gz_name, raw_data@) == Err::<Seq<u8>, StrictImageError>(e),
        },
{
    let is_gz_magic = raw_data.len() >= 2 && raw_data[0] == 0x1F && raw_data[1] == 0x8B;
    let disk = if gz_name || is_gz_magic {
        match gunzip_bytes(&raw_data) {
            Some(out) => out,
            None => {
                return Err(StrictImageError::Decompress);
            },
        }
    } else {
        raw_data
    };
    if disk.len() != DSK_BYTES {
        return Err(StrictImageError::WrongSize { len: disk.len() });
    }
    Ok(disk)
}

} // verus!

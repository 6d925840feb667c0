use apple2_core::host::{
    decode_strict_disk_image, StrictImageError, decode_disk_image, decompress_disk_file, fit_disk_image, joystick_axis, key_to_ascii, paste_text_keys, DiskImageError, HostKey,
};
use std::io::Write;

#[test]
fn letters_are_upper_case_or_control_codes() {
    assert_eq!(key_to_ascii(HostKey::A, false, false), b'A');
    assert_eq!(key_to_ascii(HostKey::A, false, true), b'A');
    assert_eq!(key_to_ascii(HostKey::B, true, false), 0x02);
    assert_eq!(key_to_ascii(HostKey::Z, true, true), 0x1A);
}

#[test]
fn digits_and_punctuation_follow_shift() {
    assert_eq!(key_to_ascii(HostKey::Key2, false, true), b'@');
    assert_eq!(key_to_ascii(HostKey::Key2, false, false), b'2');
    assert_eq!(key_to_ascii(HostKey::Key0, false, true), b')');
    assert_eq!(key_to_ascii(HostKey::Apostrophe, false, true), b'"');
    assert_eq!(key_to_ascii(HostKey::Semicolon, false, false), b';');
    assert_eq!(key_to_ascii(HostKey::Enter, true, true), 0x0D);
    assert_eq!(key_to_ascii(HostKey::Escape, false, false), 0x1B);
    assert_eq!(key_to_ascii(HostKey::Other, false, false), 0);
}

#[test]
fn joystick_axis_from_arrow_keys() {
    assert_eq!(joystick_axis(true, false), 0);
    assert_eq!(joystick_axis(false, true), 255);
    assert_eq!(joystick_axis(false, false), 127);
    assert_eq!(joystick_axis(true, true), 127);
}

#[test]
fn pasted_text_becomes_upper_case_keys_with_returns() {
    assert_eq!(paste_text_keys("10 print \"hi\"\n"), b"10 PRINT \"HI\"\r".to_vec());
    assert_eq!(paste_text_keys("caf\u{e9}!"), b"CAF!".to_vec());
    assert_eq!(paste_text_keys(""), Vec::<u8>::new());
}

#[test]
fn disk_images_are_checked_and_trimmed() {
    assert_eq!(fit_disk_image(vec![0; 100]), Err(DiskImageError::TooSmall { len: 100 }));
    assert_eq!(fit_disk_image(vec![7; 143_360]), Ok(vec![7; 143_360]));
    let mut long = vec![1u8; 143_360];
    long.extend_from_slice(&[2u8; 4096]);
    assert_eq!(fit_disk_image(long), Ok(vec![1; 143_360]));
    assert_eq!(
        fit_disk_image(vec![0; 143_360 + 4097]),
        Err(DiskImageError::TooLarge { len: 143_360 + 4097, trailing: 4097 })
    );
}

#[test]
fn gzip_disk_images_are_decompressed() {
    let disk: Vec<u8> = (0..143_360u32).map(|i| (i * 7 % 251) as u8).collect();
    let mut encoder = flate2::write::GzEncoder::new(Vec::new(), flate2::Compression::default());
    encoder.write_all(&disk).unwrap();
    let compressed = encoder.finish().unwrap();
    assert!(compressed.len() < disk.len());
    assert_eq!(decode_disk_image(compressed), Ok(disk.clone()));
    assert_eq!(decode_disk_image(disk.clone()), Ok(disk));
}

#[test]
fn broken_gzip_falls_back_to_the_raw_bytes() {
    let mut raw = vec![0u8; 143_360];
    raw[0] = 0x1F;
    raw[1] = 0x8B;
    assert_eq!(decode_disk_image(raw.clone()), Ok(raw));
    assert_eq!(decode_disk_image(vec![0x1F, 0x8B, 0, 0]), Err(DiskImageError::TooSmall { len: 4 }));
}

#[test]
fn strict_reader_needs_an_exact_image() {
    let disk: Vec<u8> = (0..143_360u32).map(|i| (i % 253) as u8).collect();
    assert_eq!(decode_strict_disk_image(false, disk.clone()), Ok(disk.clone()));
    let mut encoder = flate2::write::GzEncoder::new(Vec::new(), flate2::Compression::default());
    encoder.write_all(&disk).unwrap();
    let compressed = encoder.finish().unwrap();
    assert_eq!(decode_strict_disk_image(true, compressed.clone()), Ok(disk.clone()));
    assert_eq!(decode_strict_disk_image(false, compressed), Ok(disk.clone()));
    assert_eq!(decode_strict_disk_image(true, disk.clone()), Err(StrictImageError::Decompress));
    let mut long = disk;
    long.push(0);
    assert_eq!(decode_strict_disk_image(false, long), Err(StrictImageError::WrongSize { len: 143_361 }));
}

#[test]
fn decompress_disk_file_reports_a_gzip_fallback() {
    let plain = vec![1u8, 2, 3, 4];
    assert_eq!(decompress_disk_file(plain.clone()), (plain, false));
    let broken = vec![0x1F, 0x8B, 0x00, 0x00, 0x00];
    assert_eq!(decompress_disk_file(broken.clone()), (broken, true));
    let mut encoder = flate2::write::GzEncoder::new(Vec::new(), flate2::Compression::default());
    encoder.write_all(&[7u8; 300]).unwrap();
    let packed = encoder.finish().unwrap();
    assert_eq!(decompress_disk_file(packed), (vec![7u8; 300], false));
}

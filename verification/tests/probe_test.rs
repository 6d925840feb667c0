use apple2_core::machine::Apple2Machine;
use apple2_core::nibble::{nibblize_dsk, TrackData};
use apple2_core::probe::{
    classify_control_transfer, decode_4x4, encode_4x4, enqueue_line, nearest_prologue_distance, parse_type_string,
    patch_address_field_volume, peek_byte, peek_word, pump, screen_lines, text_page_lines, text_page_row_addr,
    track_prologues,
};
use std::collections::VecDeque;

#[test]
fn peeking_does_not_touch_soft_switches() {
    let mut machine = Apple2Machine::new();
    machine.mem.ram[0x0300] = 0x4C;
    machine.mem.rom[0x2FFE] = 0x34;
    machine.mem.rom[0x2FFF] = 0x12;
    machine.mem.keyboard_latch = 0xC1;
    assert_eq!(peek_byte(&machine, 0x0300), 0x4C);
    assert_eq!(peek_byte(&machine, 0xC010), 0x00);
    assert_eq!(machine.mem.keyboard_latch, 0xC1);
    assert_eq!(peek_word(&machine, 0xFFFE), 0x1234);
}

#[test]
fn control_transfers_are_classified() {
    let mut machine = Apple2Machine::new();
    machine.mem.rom[0x2FFE] = 0x00;
    machine.mem.rom[0x2FFF] = 0xFA; // BRK vector $FA00
    machine.mem.rom[0x2FFC] = 0x62;
    machine.mem.rom[0x2FFD] = 0xFA; // reset vector $FA62
    machine.mem.ram[0x1000] = 0x00;
    machine.mem.ram[0x2000] = 0x4C;
    machine.mem.ram[0x3000] = 0x6C;
    assert_eq!(classify_control_transfer(&machine, 0x1000, 0xFA00), "brk_vector");
    assert_eq!(classify_control_transfer(&machine, 0x2000, 0x1234), "jmp_abs");
    assert_eq!(classify_control_transfer(&machine, 0x3000, 0x1234), "jmp_ind");
    assert_eq!(classify_control_transfer(&machine, 0x1001, 0xFA62), "reset_vector");
    assert_eq!(classify_control_transfer(&machine, 0x1001, 0x1234), "other");
}

#[test]
fn text_page_rows() {
    assert_eq!(text_page_row_addr(0x0400, 0), 0x0400);
    assert_eq!(text_page_row_addr(0x0400, 1), 0x0480);
    assert_eq!(text_page_row_addr(0x0800, 8), 0x0828);
    assert_eq!(text_page_row_addr(0x0400, 23), 0x07D0);
}

#[test]
fn screen_dump_shows_printable_characters() {
    let mut machine = Apple2Machine::new();
    for (i, b) in b"HELLO".iter().enumerate() {
        machine.mem.ram[0x0400 + i] = b | 0x80;
    }
    machine.mem.ram[0x0405] = 0x05; // control character
    let lines = screen_lines(&machine);
    assert_eq!(lines.len(), 24);
    assert_eq!(&lines[0][..7], "HELLO  ");
    assert_eq!(lines[0].len(), 40);
    assert_eq!(lines[1], " ".repeat(40));
}

#[test]
fn typed_lines_are_upper_case_with_return() {
    let mut queue = VecDeque::new();
    queue.push_back(b'X');
    enqueue_line(&mut queue, "run hello");
    let typed: Vec<u8> = queue.into_iter().collect();
    assert_eq!(typed, b"XRUN HELLO\r".to_vec());
}

#[test]
fn key_strings_expand_escapes() {
    assert_eq!(parse_type_string("CATALOG\\r"), b"CATALOG\r".to_vec());
    assert_eq!(parse_type_string("a\\tb\\\\c\\n"), b"a\tb\\c\r".to_vec());
    assert_eq!(parse_type_string("^c^D"), vec![0x03, 0x04]);
    assert_eq!(parse_type_string("\\q"), b"q".to_vec());
    assert_eq!(parse_type_string("x^"), b"x".to_vec());
}

#[test]
fn pump_types_keys_as_they_are_read() {
    let mut machine = Apple2Machine::new();
    let mut rom = vec![0xEAu8; 12288];
    rom[0x2FFC] = 0x00;
    rom[0x2FFD] = 0xD0;
    // loop: LDA $C000 ; BPL loop ; STA $C010 ; JMP loop
    let program = [0xAD, 0x00, 0xC0, 0x10, 0xFB, 0x8D, 0x10, 0xC0, 0x4C, 0x00, 0xD0];
    rom[..program.len()].copy_from_slice(&program);
    machine.load_rom(&rom);
    machine.reset();
    let mut queue: VecDeque<u8> = VecDeque::from(vec![b'A', b'B']);
    pump(&mut machine, &mut queue, 200);
    assert!(queue.is_empty());
    assert!(machine.total_cycles >= 200);
    assert_eq!(machine.mem.keyboard_latch, b'B');
}

#[test]
fn nearest_prologue_on_a_circular_track() {
    let mut track = TrackData::new();
    for _ in 0..100 {
        track.push(0xFF);
    }
    track.raw_bytes[10] = 0xD5;
    track.raw_bytes[11] = 0xAA;
    track.raw_bytes[12] = 0x96;
    assert_eq!(nearest_prologue_distance(&track, 10), 0);
    assert_eq!(nearest_prologue_distance(&track, 15), 5);
    assert_eq!(nearest_prologue_distance(&track, 95), 15);
    let empty = TrackData::new();
    assert_eq!(nearest_prologue_distance(&empty, 0), 0);
}

#[test]
fn four_and_four_round_trip() {
    for v in 0..=255u8 {
        let (hi, lo) = encode_4x4(v);
        assert_eq!(decode_4x4(hi, lo), v);
    }
    assert_eq!(encode_4x4(0xFE), (0xFF, 0xFE));
}

#[test]
fn volume_patch_rewrites_every_address_field() {
    let disk = vec![0u8; 143_360];
    let mut tracks = nibblize_dsk(&disk);
    let track = &mut tracks[3];
    patch_address_field_volume(track, 0x01);
    let b = &track.raw_bytes;
    // first address field at offset 128
    assert_eq!(decode_4x4(b[131], b[132]), 0x01);
    let trk = decode_4x4(b[133], b[134]);
    let sec = decode_4x4(b[135], b[136]);
    assert_eq!((trk, sec), (3, 0));
    assert_eq!(decode_4x4(b[137], b[138]), 0x01 ^ 3 ^ 0);
    // the second sector's field too
    assert_eq!(decode_4x4(b[128 + 395 + 3], b[128 + 395 + 4]), 0x01);
}

#[test]
fn text_pages_and_prologue_lists() {
    let mut machine = Apple2Machine::new();
    machine.mem.ram[0x0800] = b'O' | 0x80;
    machine.mem.ram[0x0801] = b'K' | 0x80;
    let lines = text_page_lines(&machine, 0x0800, '.');
    assert_eq!(&lines[0][..3], "OK.");
    assert_eq!(lines[23], ".".repeat(40));

    let disk = vec![0u8; 143_360];
    let tracks = nibblize_dsk(&disk);
    let listed = track_prologues(&tracks[0], 3);
    assert_eq!(listed.len(), 3);
    assert_eq!(listed[0], (128, 0xFF, 0xFF));
    assert_eq!(listed[1].0, 128 + 395);
    assert_eq!(track_prologues(&tracks[0], 0).len(), 1);
    assert_eq!(track_prologues(&tracks[0], 100).len(), 16);
}

use apple2_core::disk2::Disk2;
use apple2_core::nibble::{denibblize_dsk, nibblize_dsk, TrackData};

fn sample_disk() -> Vec<u8> {
    let mut disk = vec![0u8; 143_360];
    let mut x: u32 = 0x1234_5678;
    for b in disk.iter_mut() {
        x ^= x << 13;
        x ^= x >> 17;
        x ^= x << 5;
        *b = (x >> 24) as u8;
    }
    disk
}

#[test]
fn saving_right_after_loading_returns_the_image() {
    let disk = sample_disk();
    let mut drive = Disk2::new();
    drive.load_disk(&disk);
    assert!(drive.is_disk_loaded);
    assert_eq!(drive.tracks.len(), 40);
    let saved = denibblize_dsk(&drive.tracks).unwrap();
    assert_eq!(saved, disk);
}

#[test]
fn nibblized_tracks_have_the_standard_layout() {
    let disk = sample_disk();
    let tracks = nibblize_dsk(&disk);
    assert_eq!(tracks.len(), 35);
    for track in &tracks {
        assert_eq!(track.length, 6656);
        assert_eq!(track.read_length, 6656);
        assert_eq!(track.raw_bytes.len(), 6656);
        assert!(track.raw_bytes[..128].iter().all(|&b| b == 0xFF));
        assert_eq!(&track.raw_bytes[128..131], &[0xD5, 0xAA, 0x96]);
        // address epilogue, 12 sync bytes, data prologue
        assert_eq!(&track.raw_bytes[139..142], &[0xDE, 0xAA, 0xEB]);
        assert!(track.raw_bytes[142..154].iter().all(|&b| b == 0xFF));
        assert_eq!(&track.raw_bytes[154..157], &[0xD5, 0xAA, 0xAD]);
        // data epilogue, 20 sync bytes, next address prologue
        assert_eq!(&track.raw_bytes[500..503], &[0xDE, 0xAA, 0xEB]);
        assert!(track.raw_bytes[503..523].iter().all(|&b| b == 0xFF));
        assert_eq!(&track.raw_bytes[523..526], &[0xD5, 0xAA, 0x96]);
        // sync bytes pad the track to the full buffer
        assert!(track.raw_bytes[128 + 16 * 395..].iter().all(|&b| b == 0xFF));
    }
}

#[test]
fn blank_tracks_read_back_as_zeros() {
    let tracks: Vec<TrackData> = (0..35).map(|_| TrackData::new()).collect();
    let out = denibblize_dsk(&tracks).unwrap();
    assert_eq!(out.len(), 143_360);
    assert!(out.iter().all(|&b| b == 0));
}

#[test]
fn a_damaged_sector_reads_back_as_zeros_and_the_others_survive() {
    let disk = sample_disk();
    let mut tracks = nibblize_dsk(&disk);
    // break the address prologue of the first physical sector of track 0
    tracks[0].raw_bytes[128] = 0x00;
    let out = denibblize_dsk(&tracks).unwrap();
    // physical sector 0 holds logical sector 0
    assert!(out[..256].iter().all(|&b| b == 0));
    assert_eq!(&out[256..], &disk[256..]);
}

#[test]
fn wrong_sized_images_are_ignored() {
    let mut drive = Disk2::new();
    drive.load_disk(&[0u8; 1000]);
    assert!(!drive.is_disk_loaded);
    assert_eq!(drive.tracks[0].length, 0);
}

#[test]
fn track_push_stops_at_capacity() {
    let mut track = TrackData::new();
    for i in 0..7000u32 {
        track.push(i as u8);
    }
    assert_eq!(track.length, 6656);
    assert_eq!(track.raw_bytes[6655], (6655u32 % 256) as u8);
}

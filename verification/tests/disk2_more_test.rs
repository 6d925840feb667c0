use apple2_core::disk2::Disk2;

#[test]
fn stepping_through_the_phases_moves_two_quarter_tracks_per_phase() {
    let mut disk = Disk2::new();
    disk.write_io(0xC0E1, 0); // phase 0 on
    assert_eq!(disk.current_qtr_track, 0);
    disk.write_io(0xC0E3, 0); // phase 1 on -> half step
    disk.write_io(0xC0E0, 0); // phase 0 off
    assert_eq!(disk.current_qtr_track, 2);
    disk.write_io(0xC0E5, 0); // phase 2 on
    disk.write_io(0xC0E2, 0); // phase 1 off
    assert_eq!(disk.current_qtr_track, 4);
    assert_eq!(disk.current_track, 1);
}

#[test]
fn the_head_stops_at_track_zero() {
    let mut disk = Disk2::new();
    disk.write_io(0xC0E7, 0); // phase 3 on: nearest position is -2, limited to 0
    assert_eq!(disk.current_qtr_track, 0);
    assert_eq!(disk.current_track, 0);
}

#[test]
fn motor_timer_runs_down() {
    let mut disk = Disk2::new();
    let _ = disk.read_io(0xC0E8);
    assert_eq!(disk.motor_timer_cycles, 1_023_000);
    disk.tick(23_000);
    assert_eq!(disk.motor_timer_cycles, 1_000_000);
    disk.tick(u32::MAX - 64);
    assert_eq!(disk.motor_timer_cycles, 0);
}

#[test]
fn bitstream_read_mode_reads_bits_in_order() {
    let mut disk = Disk2::new();
    disk.is_disk_loaded = true;
    disk.tracks[0].length = 2;
    disk.tracks[0].read_length = 2;
    disk.tracks[0].raw_bytes[0] = 0xD5;
    disk.tracks[0].raw_bytes[1] = 0xAA;
    disk.set_bitstream_read_mode(true);
    disk.write_io(0xC0E9, 0);
    disk.write_io(0xC0EE, 0);
    disk.tick(32);
    assert_eq!(disk.data_latch, 0xD5);
    disk.tick(32);
    assert_eq!(disk.data_latch, 0xAA);
    assert_eq!(disk.read_stream_position, 0);
}

#[test]
fn deferred_latch_publishes_one_byte_late() {
    let mut disk = Disk2::new();
    disk.is_disk_loaded = true;
    disk.tracks[0].length = 2;
    disk.tracks[0].raw_bytes[0] = 0xD5;
    disk.tracks[0].raw_bytes[1] = 0xAA;
    disk.set_defer_read_latch_update(true);
    disk.write_io(0xC0E9, 0);
    disk.write_io(0xC0EE, 0);
    disk.tick(32);
    assert_eq!(disk.data_latch, 0);
    assert_eq!(disk.pending_read_latch, Some(0xD5));
    disk.tick(32);
    assert_eq!(disk.data_latch, 0xD5);
}

#[test]
fn prologue_sync_tweak_holds_the_head_after_a_data_prologue() {
    let mut disk = Disk2::new();
    disk.is_disk_loaded = true;
    disk.tracks[0].length = 4;
    disk.tracks[0].raw_bytes[0] = 0xD5;
    disk.tracks[0].raw_bytes[1] = 0xAA;
    disk.tracks[0].raw_bytes[2] = 0x96;
    disk.tracks[0].raw_bytes[3] = 0xFF;
    disk.set_prologue_sync_tweak(true);
    disk.write_io(0xC0E9, 0);
    disk.write_io(0xC0EE, 0);
    disk.tick(96);
    assert_eq!(disk.recent_published_bytes, [0xD5, 0xAA, 0x96]);
    assert_eq!(disk.prologue_sync_bytes_remaining, 7);
}

#[test]
fn reset_parks_the_head_and_keeps_the_disk() {
    let mut disk = Disk2::new();
    disk.is_disk_loaded = true;
    disk.current_qtr_track = 40;
    disk.current_track = 10;
    disk.motor_on = true;
    disk.reset();
    assert_eq!(disk.current_qtr_track, 0);
    assert_eq!(disk.current_track, 0);
    assert!(!disk.motor_on);
    assert!(disk.is_disk_loaded);
}

use apple2_core::disk2::Disk2;
use apple2_core::machine::Apple2Machine;
use apple2_core::memory::{Apple2Memory, Memory};
use apple2_core::nibble::{denibblize_dsk_checked, nibblize_dsk};
use apple2_core::probe::{apply_joystick_calibration, calibration_input_at, pump_with_calibration};
use std::collections::VecDeque;

fn machine_running(program: &[u8], brk_vector: u16) -> Apple2Machine {
    let mut rom = vec![0xEAu8; 12288];
    rom[..program.len()].copy_from_slice(program);
    rom[0x2FFC] = 0x00;
    rom[0x2FFD] = 0xD0;
    rom[0x2FFE] = (brk_vector & 0xFF) as u8;
    rom[0x2FFF] = (brk_vector >> 8) as u8;
    let mut machine = Apple2Machine::new();
    machine.load_rom(&rom);
    machine.reset();
    machine
}

fn sample_disk() -> Vec<u8> {
    let mut disk = vec![0u8; 143_360];
    let mut x: u32 = 0x0BAD_F00D;
    for b in disk.iter_mut() {
        x ^= x << 13;
        x ^= x >> 17;
        x ^= x << 5;
        *b = (x >> 24) as u8;
    }
    disk
}

#[test]
fn php_then_plp_gives_the_flags_back() {
    // SED ; SEC ; PHP ; CLD ; CLC ; PLP
    let mut machine = machine_running(&[0xF8, 0x38, 0x08, 0xD8, 0x18, 0x28], 0xD100);
    let sp = machine.cpu.sp;
    machine.step();
    machine.step();
    assert_eq!(machine.step(), 3);
    // C, I, D and the unused bit, with B and the unused bit forced on
    assert_eq!(machine.mem.ram[0x0100 + sp as usize], 0x3D);
    machine.step();
    machine.step();
    assert!(!machine.cpu.status.c && !machine.cpu.status.d);
    assert_eq!(machine.step(), 4);
    assert_eq!(machine.cpu.sp, sp);
    assert!(machine.cpu.status.c && machine.cpu.status.d && machine.cpu.status.i);
    assert!(!machine.cpu.status.b);
    assert!(machine.cpu.status.u);
    assert!(!machine.cpu.status.z && !machine.cpu.status.n && !machine.cpu.status.v);
}

#[test]
fn rti_after_brk_returns_past_the_padding_byte() {
    // $D000: CLI ; BRK ; (padding) ; NOP      handler at $D010: RTI
    let mut program = vec![0x58, 0x00, 0xFF, 0xEA];
    program.resize(0x10, 0xEA);
    program.push(0x40);
    let mut machine = machine_running(&program, 0xD010);
    let sp = machine.cpu.sp;
    machine.step();
    assert!(!machine.cpu.status.i);
    assert_eq!(machine.step(), 7);
    assert_eq!(machine.cpu.pc, 0xD010);
    assert!(machine.cpu.status.i);
    assert_eq!(machine.cpu.sp, sp.wrapping_sub(3));
    assert_eq!(machine.step(), 6);
    assert_eq!(machine.cpu.pc, 0xD003);
    assert_eq!(machine.cpu.sp, sp);
    assert!(!machine.cpu.status.i);
    assert!(!machine.cpu.status.b);
}

#[test]
fn indexed_reads_take_a_cycle_more_across_a_page() {
    // LDX #$20 ; LDA $10F0,X ; LDX #$05 ; LDA $10F0,X ; LDY #$20 ; LDA ($80),Y ; LDY #$01 ; LDA ($80),Y
    let program = [
        0xA2, 0x20, 0xBD, 0xF0, 0x10, 0xA2, 0x05, 0xBD, 0xF0, 0x10, 0xA0, 0x20, 0xB1, 0x80, 0xA0, 0x01, 0xB1, 0x80,
    ];
    let mut machine = machine_running(&program, 0xD100);
    machine.mem.ram[0x1110] = 0x42;
    machine.mem.ram[0x10F5] = 0x00;
    machine.mem.ram[0x10F1] = 0x99;
    machine.mem.ram[0x80] = 0xF0;
    machine.mem.ram[0x81] = 0x10;
    machine.step();
    assert_eq!(machine.step(), 5);
    assert_eq!(machine.cpu.a, 0x42);
    assert_eq!(machine.cpu.pc, 0xD005);
    machine.step();
    assert_eq!(machine.step(), 4);
    assert_eq!(machine.cpu.a, 0x00);
    assert!(machine.cpu.status.z);
    machine.step();
    assert_eq!(machine.step(), 6);
    assert_eq!(machine.cpu.a, 0x42);
    machine.step();
    assert_eq!(machine.step(), 5);
    assert_eq!(machine.cpu.a, 0x99);
    assert!(machine.cpu.status.n);
    assert_eq!(machine.cpu.pc, 0xD012);
}

fn spinning_drive() -> Disk2 {
    let mut drive = Disk2::new();
    drive.load_disk(&sample_disk());
    let _ = drive.read_io(0xC0E9); // motor on
    drive.tick(60_000); // past the spin-up
    drive
}

#[test]
fn two_ticks_equal_one_tick_of_their_sum() {
    let mut split = spinning_drive();
    let mut whole = spinning_drive();
    assert_eq!(split.spin_up_cycles, 0);
    split.tick(1_001);
    split.tick(2_345);
    whole.tick(3_346);
    assert_eq!(split.cycles_accumulator, whole.cycles_accumulator);
    assert_eq!(split.byte_index, whole.byte_index);
    assert_eq!(split.data_latch, whole.data_latch);
    assert_eq!(split.read_shift_register, whole.read_shift_register);
    assert_eq!(split.read_bit_phase, whole.read_bit_phase);
    assert_eq!(split.motor_timer_cycles, whole.motor_timer_cycles);
    assert_eq!(split.current_track, whole.current_track);
    assert_eq!(split.tracks[0].raw_bytes, whole.tracks[0].raw_bytes);
}

#[test]
fn the_head_never_leaves_the_track_buffers() {
    let mut drive = spinning_drive();
    // walk the phases outward far past the last track
    for step in 0..400u16 {
        let on = 0xC0E1 + 2 * (step % 4);
        let off = 0xC0E0 + 2 * ((step + 3) % 4);
        drive.write_io(on, 0);
        drive.write_io(off, 0);
    }
    assert_eq!(drive.current_track, 39);
    assert_eq!(drive.tracks.len(), 40);
    assert_eq!(drive.tracks[39].length, 0);
    drive.tick(10_000);
    assert_eq!(drive.current_track, 39);
}

#[test]
fn the_video_scanner_repeats_every_frame() {
    let mut mem = Apple2Memory::new();
    for (i, cell) in mem.ram.iter_mut().enumerate() {
        *cell = (i ^ (i >> 8)) as u8;
    }
    for c in [0u64, 1, 64, 4_000, 12_345, 17_029] {
        mem.begin_cpu_step(c);
        let now = mem.read(0xC020);
        mem.end_cpu_step();
        mem.begin_cpu_step(c + 17_030);
        let next_frame = mem.read(0xC020);
        mem.end_cpu_step();
        assert_eq!(now, next_frame);
    }
}

#[test]
fn the_scanner_address_repeats_every_frame() {
    let mut mem = Apple2Memory::new();
    for page2 in [false, true] {
        mem.page2 = page2;
        for c in [0u64, 39, 65 * 192, 16_999, 17_029, 1_000_000] {
            let addr = mem.video_scanner_address(c);
            assert!(addr < 0xC000);
            assert_eq!(addr, mem.video_scanner_address(c + 17_030));
        }
    }
}

#[test]
fn checked_denibblize_refuses_sectors_past_the_image() {
    let disk = sample_disk();
    let mut drive = Disk2::new();
    drive.load_disk(&disk);
    assert_eq!(denibblize_dsk_checked(&drive.tracks), Some(disk.clone()));
    let extra = nibblize_dsk(&disk);
    drive.tracks[36].raw_bytes = extra[5].raw_bytes.clone();
    drive.tracks[36].length = extra[5].length;
    drive.tracks[36].read_length = extra[5].read_length;
    assert_eq!(denibblize_dsk_checked(&drive.tracks), None);
}

#[test]
fn joystick_calibration_schedule() {
    assert_eq!(calibration_input_at(0), (0, 0, true));
    assert_eq!(calibration_input_at(509_999), (0, 0, true));
    assert_eq!(calibration_input_at(510_000), (0, 0, false));
    assert_eq!(calibration_input_at(3_061_499), (0, 0, false));
    assert_eq!(calibration_input_at(3_061_500), (255, 0, true));
    assert_eq!(calibration_input_at(2 * 3_061_500 + 600_000), (255, 255, false));
    assert_eq!(calibration_input_at(3 * 3_061_500 + 1), (0, 255, true));
    assert_eq!(calibration_input_at(4 * 3_061_500), (0, 0, true));

    let mut machine = Apple2Machine::new();
    apply_joystick_calibration(&mut machine, 1_000, 999);
    assert_eq!(machine.mem.paddles[0], 127);
    assert!(!machine.mem.pushbuttons[0]);
    apply_joystick_calibration(&mut machine, 1_000, 1_000 + 3_061_500 + 10);
    assert_eq!((machine.mem.paddles[0], machine.mem.paddles[1]), (255, 0));
    assert!(machine.mem.pushbuttons[0]);
    assert!(!machine.mem.pushbuttons[1]);
}

#[test]
fn pumping_with_calibration_drives_the_joystick() {
    let mut machine = machine_running(&[], 0xD100);
    let mut queue: VecDeque<u8> = VecDeque::new();
    pump_with_calibration(&mut machine, &mut queue, 100, 1_000);
    assert!(machine.total_cycles >= 100);
    assert_eq!(machine.mem.paddles[0], 127);
    assert!(!machine.mem.pushbuttons[0]);
    pump_with_calibration(&mut machine, &mut queue, 1_000, 50);
    let (x, y, pressed) = calibration_input_at(machine.total_cycles - 50);
    assert_eq!((machine.mem.paddles[0], machine.mem.paddles[1]), (x, y));
    assert_eq!(machine.mem.pushbuttons[0], pressed);
    assert!(pressed);
}

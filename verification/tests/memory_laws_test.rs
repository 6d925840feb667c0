use apple2_core::memory::{Apple2Memory, Memory};

#[test]
fn main_ram_keeps_what_is_written() {
    let mut mem = Apple2Memory::new();
    mem.write(0x1234, 0x5A);
    mem.write(0xBFFF, 0xA5);
    assert_eq!(mem.read(0x1234), 0x5A);
    assert_eq!(mem.read(0xBFFF), 0xA5);
    assert_eq!(mem.read(0x1235), 0x00);
}

#[test]
fn rom_is_read_only_without_the_language_card() {
    let mut mem = Apple2Memory::new();
    mem.load_rom(&[0x11, 0x22, 0x33]);
    assert_eq!(mem.read(0xD000), 0x11);
    mem.write(0xD000, 0x99);
    assert_eq!(mem.read(0xD000), 0x11);
    assert_eq!(mem.read(0xD003), 0x00);
}

#[test]
fn language_card_read_write_ram() {
    let mut mem = Apple2Memory::new();
    let _ = mem.read(0xC083);
    let _ = mem.read(0xC083);
    assert!(mem.lc_read_enable && mem.lc_write_enable && mem.lc_bank2);
    mem.write(0xFFFC, 0x62);
    assert_eq!(mem.read(0xFFFC), 0x62);
    assert_eq!(mem.lc_ram[0x3FFC], 0x62);
    // an even switch write-protects again
    let _ = mem.read(0xC080);
    mem.write(0xFFFC, 0x00);
    assert_eq!(mem.read(0xFFFC), 0x62);
}

#[test]
fn language_card_switch_writes_write_protect() {
    let mut mem = Apple2Memory::new();
    let _ = mem.read(0xC08B);
    let _ = mem.read(0xC08B);
    assert!(mem.lc_write_enable);
    mem.write(0xC08B, 0);
    assert!(!mem.lc_write_enable);
    assert!(mem.lc_read_enable);
    assert!(!mem.lc_bank2);
}

#[test]
fn keyboard_latch_and_strobe() {
    let mut mem = Apple2Memory::new();
    mem.keyboard_latch = 0xC1;
    assert_eq!(mem.read(0xC00F), 0xC1);
    assert_eq!(mem.keyboard_latch, 0xC1);
    mem.write(0xC01F, 0);
    assert_eq!(mem.keyboard_latch, 0x41);
}

#[test]
fn full_deflection_paddle_times_out_at_3191_cycles() {
    let mut mem = Apple2Memory::new();
    mem.paddles[1] = 255;
    mem.begin_cpu_step(0);
    let _ = mem.read(0xC070);
    mem.end_cpu_step();
    mem.begin_cpu_step(3190);
    assert_eq!(mem.read(0xC065), 0x80);
    mem.end_cpu_step();
    mem.begin_cpu_step(3191);
    assert_eq!(mem.read(0xC065), 0x00);
    mem.end_cpu_step();
}

#[test]
fn slot6_rom_and_disk_switches() {
    let mut mem = Apple2Memory::new();
    mem.disk2.load_boot_rom(&[0xA2, 0x20]);
    assert_eq!(mem.read(0xC600), 0xA2);
    assert_eq!(mem.read(0xC601), 0x20);
    let _ = mem.read(0xC0E9);
    assert!(mem.disk2.motor_on);
    mem.write(0xC0E8, 0);
    assert!(!mem.disk2.motor_on);
}

#[test]
fn video_switches() {
    let mut mem = Apple2Memory::new();
    let _ = mem.read(0xC050);
    let _ = mem.read(0xC053);
    mem.write(0xC055, 0);
    mem.write(0xC057, 0);
    assert!(!mem.text_mode && mem.mixed_mode && mem.page2 && mem.hires_mode);
    let _ = mem.read(0xC051);
    assert!(mem.text_mode);
}

#[test]
fn floating_bus_reads_the_scanned_ram() {
    let mut mem = Apple2Memory::new();
    for b in mem.ram.iter_mut() {
        *b = 0x5A;
    }
    mem.begin_cpu_step(0);
    for _ in 0..100 {
        assert_eq!(mem.read(0xC0FF), 0x5A);
    }
    mem.end_cpu_step();
}

#[test]
fn finalize_runs_the_disk_for_the_unaccounted_cycles() {
    let mut mem = Apple2Memory::new();
    mem.disk2.write_io(0xC0E9, 0);
    let timer = mem.disk2.motor_timer_cycles;
    mem.begin_cpu_step(10);
    let _ = mem.read(0x0000);
    let _ = mem.read(0x0001);
    mem.finalize_cpu_step_cycles(6);
    mem.end_cpu_step();
    assert_eq!(mem.cpu_step_cycle_cursor, 6);
    assert_eq!(mem.disk2.motor_timer_cycles, timer - 6);
}

#[test]
fn power_on_reset_restores_the_switches() {
    let mut mem = Apple2Memory::new();
    mem.write(0x03F4, 0xA5);
    let _ = mem.read(0xC050);
    let _ = mem.read(0xC083);
    let _ = mem.read(0xC083);
    mem.set_joystick_state(0, 255, true, true);
    mem.power_on_reset();
    assert_eq!(mem.ram[0x03F4], 0);
    assert!(mem.text_mode);
    assert!(!mem.lc_read_enable && !mem.lc_write_enable && mem.lc_bank2);
    assert_eq!(mem.paddles, [127, 127, 127, 127]);
    assert_eq!(mem.pushbuttons, [false, false]);
}

#[test]
fn an_even_switch_between_odd_reads_keeps_the_card_write_protected() {
    let mut mem = Apple2Memory::new();
    mem.begin_cpu_step(0);
    let _ = mem.read(0xC081);
    let _ = mem.read(0xC080);
    let _ = mem.read(0xC081);
    mem.end_cpu_step();
    assert!(!mem.lc_write_enable);
    let _ = mem.read(0xC081);
    assert!(mem.lc_write_enable);
}

#[test]
fn an_even_switch_write_resets_the_pre_write_flip_flop() {
    let mut mem = Apple2Memory::new();
    let _ = mem.read(0xC083);
    mem.write(0xC082, 0);
    let _ = mem.read(0xC083);
    assert!(!mem.lc_write_enable);
}

use apple2_core::machine::Apple2Machine;

fn rom_with_reset_vector(vector: u16) -> Vec<u8> {
    let mut rom = vec![0xEAu8; 12288]; // NOP everywhere
    rom[0x2FFC] = (vector & 0xFF) as u8;
    rom[0x2FFD] = (vector >> 8) as u8;
    rom
}

#[test]
fn reset_loads_the_vector_from_rom() {
    let mut machine = Apple2Machine::new();
    machine.load_rom(&rom_with_reset_vector(0xFA62));
    machine.reset();
    assert_eq!(machine.cpu.pc, 0xFA62);
    assert_eq!(machine.cpu.sp, 0xFD);
    assert!(machine.cpu.status.i);
}

#[test]
fn steps_count_cycles() {
    let mut machine = Apple2Machine::new();
    machine.load_rom(&rom_with_reset_vector(0xD000));
    machine.reset();
    let cycles = machine.step();
    assert_eq!(cycles, 2);
    assert_eq!(machine.total_cycles, 2);
    assert_eq!(machine.cpu.pc, 0xD001);
    machine.step();
    assert_eq!(machine.total_cycles, 4);
}

#[test]
fn speaker_clicks_are_stamped_with_their_cycle() {
    let mut machine = Apple2Machine::new();
    let mut rom = rom_with_reset_vector(0xD000);
    // LDA $C030 ; LDA $C030
    rom[0] = 0xAD;
    rom[1] = 0x30;
    rom[2] = 0xC0;
    rom[3] = 0xAD;
    rom[4] = 0x30;
    rom[5] = 0xC0;
    machine.load_rom(&rom);
    machine.reset();
    assert_eq!(machine.step(), 4);
    assert_eq!(machine.step(), 4);
    // each LDA abs reads opcode, two operand bytes, then $C030 on its 4th cycle
    assert_eq!(machine.mem.take_speaker_toggle_cycles(), vec![3, 7]);
    assert!(!machine.mem.speaker);
}

#[test]
fn power_on_clears_memory_and_resets() {
    let mut machine = Apple2Machine::new();
    machine.load_rom(&rom_with_reset_vector(0xD000));
    machine.mem.ram[0x3F4] = 0xA5;
    machine.mem.text_mode = false;
    machine.power_on();
    assert_eq!(machine.mem.ram[0x3F4], 0);
    assert!(machine.mem.text_mode);
    assert_eq!(machine.cpu.pc, 0xD000);
}

#[test]
fn kil_opcode_jams_until_reset() {
    let mut machine = Apple2Machine::new();
    let mut rom = rom_with_reset_vector(0xD000);
    rom[0] = 0x02;
    machine.load_rom(&rom);
    machine.reset();
    assert_eq!(machine.step(), 1);
    assert!(machine.cpu.jammed);
    assert_eq!(machine.step(), 1);
    assert_eq!(machine.cpu.pc, 0xD000);
    machine.reset();
    assert!(!machine.cpu.jammed);
}

#[test]
fn tick_disk_runs_the_drive() {
    let mut machine = Apple2Machine::new();
    machine.mem.disk2.write_io(0xC0E9, 0);
    let before = machine.mem.disk2.motor_timer_cycles;
    machine.tick_disk(1000);
    assert_eq!(machine.mem.disk2.motor_timer_cycles, before - 1000);
}

#[test]
fn subroutine_call_returns_after_the_call() {
    let mut machine = Apple2Machine::new();
    let mut rom = rom_with_reset_vector(0xD000);
    // D000: JSR D010 ; D003: NOP ... D010: RTS
    rom[0] = 0x20;
    rom[1] = 0x10;
    rom[2] = 0xD0;
    rom[0x10] = 0x60;
    machine.load_rom(&rom);
    machine.reset();
    let sp = machine.cpu.sp;
    assert_eq!(machine.step(), 6);
    assert_eq!(machine.cpu.pc, 0xD010);
    assert_eq!(machine.mem.ram[0x0100 + sp as usize], 0xD0);
    assert_eq!(machine.mem.ram[0x0100 + sp as usize - 1], 0x02);
    assert_eq!(machine.step(), 6);
    assert_eq!(machine.cpu.pc, 0xD003);
    assert_eq!(machine.cpu.sp, sp);
}

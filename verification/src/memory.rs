//! The 6502 bus and the Apple II memory map.
use vstd::prelude::*;
use crate::disk2::{Disk2, DiskState};

verus! {

/// The 6502 has a 16-bit address bus (64KB of address space) and an 8-bit
/// data bus. Both reads and writes may have side effects (soft switches), so
/// the bus is modelled as a state machine over the view of the memory:
/// `spec_read` gives the state after the access together with the byte
/// returned, `spec_write` the state after a store.
pub trait Memory: View + Sized {
    /// Well-formedness that every bus access needs and keeps.
    spec fn inv(&self) -> bool;

    /// Effect of a read access: the new bus state and the byte on the data bus.
    spec fn spec_read(state: Self::V, addr: u16) -> (Self::V, u8);

    /// Effect of a write access.
    spec fn spec_write(state: Self::V, addr: u16, data: u8) -> Self::V;

    fn read(&mut self, addr: u16) -> (r: u8)
        requires
            old(self).inv(),
        ensures
            final(self).inv(),
            (final(self)@, r) == Self::spec_read(old(self)@, addr),
    ;

    fn write(&mut self, addr: u16, data: u8)
        requires
            old(self).inv(),
        ensures
            final(self).inv(),
            final(self)@ == Self::spec_write(old(self)@, addr, data),
    ;

    /// Little-endian 16-bit read: the low byte at `addr`, then the high byte at
    /// `addr + 1` (wrapping at the top of the address space).
    fn read_word(&mut self, addr: u16) -> (r: u16)
        requires
            old(self).inv(),
        ensures
            final(self).inv(),
            ({
                let (m1, lo) = Self::spec_read(old(self)@, addr);
                let (m2, hi) = Self::spec_read(m1, addr.wrapping_add(1));
                final(self)@ == m2 && r == hi * 256 + lo
            }),
    {
        let lo = self.read(addr);
        let hi = self.read(addr.wrapping_add(1));
        hi as u16 * 256 + lo as u16
    }
}

/// Two consecutive reads at `addr` and `addr + 1`, combined little-endian.
pub open spec fn spec_read_word<M: Memory>(m: M::V, addr: u16) -> (M::V, u16) {
    let (m1, lo) = M::spec_read(m, addr);
    let (m2, hi) = M::spec_read(m1, addr.wrapping_add(1));
    (m2, (hi * 256 + lo) as u16)
}

/// Main RAM: 48KB at $0000-$BFFF.
pub const RAM_SIZE: usize = 49152;

/// System ROM: 12KB at $D000-$FFFF.
pub const ROM_SIZE: usize = 12288;

/// Language card RAM: 16KB, two 4KB banks for $D000-$DFFF and 8KB for
/// $E000-$FFFF.
pub const LC_RAM_SIZE: usize = 16384;

/// Largest cycle count that can start a CPU step: the bus cycles counted
/// within a step (at most `u32::MAX`) are added to it without overflow.
pub const MAX_CYCLE_BASE: u64 = 0xFFFF_FFFF_0000_0000;

pub struct Apple2Memory {
    pub ram: Vec<u8>,  // 48KB (0x0000 - 0xBFFF)
    pub rom: Vec<u8>,  // 12KB (0xD000 - 0xFFFF)
    // Video Soft Switches
    pub text_mode: bool,
    pub mixed_mode: bool,
    pub page2: bool,
    pub hires_mode: bool,
    // Key presses from the desktop window
    pub keyboard_latch: u8,
    // Disk II controller in Slot 6
    pub disk2: Box<Disk2>,
    // Speaker State
    pub speaker: bool,
    pub speaker_toggle_cycles: Vec<u64>,
    pub cpu_step_cycle_base: u64,
    pub cpu_step_cycle_cursor: u32,
    pub cpu_step_audio_active: bool,
    // Joystick / Paddle input
    pub pushbuttons: [bool; 2],
    pub paddles: [u8; 4],
    pub paddle_latch_cycle: u64,
    // Language Card (16K RAM at $D000-$FFFF)
    pub lc_ram: Vec<u8>,
    pub lc_read_enable: bool,
    pub lc_write_enable: bool,
    pub lc_bank2: bool,
    pub lc_pre_write_switch: u16,
}

/// The memory map and its soft switches as plain values.
pub struct MemoryState {
    pub ram: Seq<u8>,
    pub rom: Seq<u8>,
    pub text_mode: bool,
    pub mixed_mode: bool,
    pub page2: bool,
    pub hires_mode: bool,
    pub keyboard_latch: u8,
    pub disk2: DiskState,
    pub speaker: bool,
    pub speaker_toggle_cycles: Seq<u64>,
    pub cpu_step_cycle_base: u64,
    pub cpu_step_cycle_cursor: u32,
    pub cpu_step_audio_active: bool,
    pub pushbuttons: Seq<bool>,
    pub paddles: Seq<u8>,
    pub paddle_latch_cycle: u64,
    pub lc_ram: Seq<u8>,
    pub lc_read_enable: bool,
    pub lc_write_enable: bool,
    pub lc_bank2: bool,
    pub lc_pre_write_switch: u16,
}

impl View for Apple2Memory {
    type V = MemoryState;

    open spec fn view(&self) -> MemoryState {
        MemoryState {
            ram: self.ram@,
            rom: self.rom@,
            text_mode: self.text_mode,
            mixed_mode: self.mixed_mode,
            page2: self.page2,
            hires_mode: self.hires_mode,
            keyboard_latch: self.keyboard_latch,
            disk2: self.disk2@,
            speaker: self.speaker,
            speaker_toggle_cycles: self.speaker_toggle_cycles@,
            cpu_step_cycle_base: self.cpu_step_cycle_base,
            cpu_step_cycle_cursor: self.cpu_step_cycle_cursor,
            cpu_step_audio_active: self.cpu_step_audio_active,
            pushbuttons: self.pushbuttons@,
            paddles: self.paddles@,
            paddle_latch_cycle: self.paddle_latch_cycle,
            lc_ram: self.lc_ram@,
            lc_read_enable: self.lc_read_enable,
            lc_write_enable: self.lc_write_enable,
            lc_bank2: self.lc_bank2,
            lc_pre_write_switch: self.lc_pre_write_switch,
        }
    }
}

/// The language card switch that `addr` ($C080-$C08F) is an alias of: bit 2
/// of the switch number is not decoded.
pub open spec fn spec_canonical_lc_switch(addr: u16) -> u16 {
    0xC080u16 | (((addr - 0xC080) as u16) & 0x000B)
}

/// How long a paddle's timer output stays high after the $C070 strobe, in
/// cycles, for a paddle value `value`: 8 + 11 cycles per step, and past the
/// centre a quadratic stretch that reaches about 3191 cycles at full
/// deflection.
pub open spec fn paddle_timeout(value: u8) -> int {
    8 + 11 * value + if value > 128 { 3 * (value - 128) * (value - 128) / 128 } else { 0 }
}

/// Bit `i` of a counter state.
pub open spec fn bit(state: u32, i: u32) -> u32 {
    (state >> i) & 1
}

/// Address the video scanner fetches from at `cycle` (Jim Sather's model of
/// the Apple II video counters, NTSC: 65 clocks per line, 262 lines).
/// `hires` is the hi-res display switch in effect (hi-res on and text off),
/// `mixed` the mixed-mode switch, `page2` the page switch.
pub open spec fn scanner_address(hires_display: bool, mixed: bool, page2: bool, cycle: u64) -> u16 {
    let n_cycles = cycle % 17030;
    let n_hclock = ((n_cycles + 40) % 65) as u32;
    let n_hstate = (0x18 + n_hclock - (if n_hclock >= 41 { 1int } else { 0 })) as u32;
    let n_vline = (n_cycles / 65) as u32;
    let n_vstate = (0x100 + n_vline - (if n_vline >= 256 { 262int } else { 0 })) as u32;
    let (h0, h1, h2, h3, h4, h5) = (bit(n_hstate, 0), bit(n_hstate, 1), bit(n_hstate, 2), bit(n_hstate, 3), bit(n_hstate, 4), bit(n_hstate, 5));
    let (va, vb, vc, v0, v1, v2, v3, v4) = (bit(n_vstate, 0), bit(n_vstate, 1), bit(n_vstate, 2), bit(n_vstate, 3), bit(n_vstate, 4), bit(n_vstate, 5), bit(n_vstate, 6), bit(n_vstate, 7));
    // In mixed mode the bottom four text rows fetch from the text page.
    let hires = hires_display && !(mixed && v4 != 0 && v2 != 0);
    let addend1 = (h5 << 2) | (h4 << 1) | h3;
    let addend2 = (v4 << 3) | (v3 << 2) | (v4 << 1) | v3;
    let sum = ((0x0D + addend1 + addend2) as u32) & 0x0F;
    let hbl = if !hires && h5 == 0 && (h4 == 0 || h3 == 0) { 0x1000u32 } else { 0 };
    let addr_h = h0 | (h1 << 1) | (h2 << 2) | (sum << 3) | hbl;
    let addr_v0 = (v0 << 7) | (v1 << 8) | (v2 << 9);
    let addr_v = if hires { addr_v0 | (va << 10) | (vb << 11) | (vc << 12) } else { addr_v0 };
    let addr_p = if hires { if page2 { 0x4000u32 } else { 0x2000 } } else { if page2 { 0x0800u32 } else { 0x0400 } };
    (addr_p | addr_v | addr_h) as u16
}

/// Index into the language card RAM of an address in $D000-$FFFF: the
/// selected 4KB bank for $D000-$DFFF (bank 1 first), the common 8KB after both.
pub open spec fn lc_index(addr: u16, bank2: bool) -> int {
    if addr < 0xE000 {
        if bank2 { addr - 0xD000 + 0x1000 } else { addr - 0xD000 }
    } else {
        addr - 0xE000 + 0x2000
    }
}

impl MemoryState {
    /// The memory map at power-on: memory cleared, text mode, no key, speaker
    /// off, paddles centred at 127, the language card reading ROM with bank 2
    /// selected, and a fresh Disk II controller.
    pub open spec fn initial() -> MemoryState {
        MemoryState {
            ram: Seq::new(RAM_SIZE as nat, |i: int| 0u8),
            rom: Seq::new(ROM_SIZE as nat, |i: int| 0u8),
            text_mode: true,
            mixed_mode: false,
            page2: false,
            hires_mode: false,
            keyboard_latch: 0,
            disk2: DiskState::initial(),
            speaker: false,
            speaker_toggle_cycles: Seq::empty(),
            cpu_step_cycle_base: 0,
            cpu_step_cycle_cursor: 0,
            cpu_step_audio_active: false,
            pushbuttons: seq![false, false],
            paddles: seq![127u8, 127, 127, 127],
            paddle_latch_cycle: 0,
            lc_ram: Seq::new(LC_RAM_SIZE as nat, |i: int| 0u8),
            lc_read_enable: false,
            lc_write_enable: false,
            lc_bank2: true,
            lc_pre_write_switch: 0,
        }
    }

    /// Cold start: RAM cleared (so the ROM's warm-start signature at $03F4
    /// is gone), switches, speaker, step counters, joystick and language card
    /// back to their power-on values, and the disk controller reset. The ROM
    /// and the inserted disk stay.
    pub open spec fn power_on(self) -> MemoryState {
        MemoryState {
            ram: Seq::new(RAM_SIZE as nat, |i: int| 0u8),
            text_mode: true,
            mixed_mode: false,
            page2: false,
            hires_mode: false,
            keyboard_latch: 0,
            speaker: false,
            speaker_toggle_cycles: Seq::empty(),
            cpu_step_cycle_base: 0,
            cpu_step_cycle_cursor: 0,
            cpu_step_audio_active: false,
            pushbuttons: seq![false, false],
            paddles: seq![127u8, 127, 127, 127],
            paddle_latch_cycle: 0,
            disk2: self.disk2.reset(),
            lc_read_enable: false,
            lc_write_enable: false,
            lc_bank2: true,
            lc_pre_write_switch: 0,
            ..self
        }
    }

    /// Start of a CPU step at cycle `base`.
    pub open spec fn begin_step(self, base: u64) -> MemoryState {
        MemoryState { cpu_step_cycle_base: base, cpu_step_cycle_cursor: 0, cpu_step_audio_active: true, ..self }
    }

    /// End of a CPU step of `total_cycles` cycles: the disk runs the cycles
    /// that no bus access accounted for, and the cursor moves to the end.
    pub open spec fn finalize_step(self, total_cycles: u32) -> MemoryState {
        let accounted = if self.cpu_step_cycle_cursor < total_cycles { self.cpu_step_cycle_cursor } else { total_cycles };
        let remaining = (total_cycles - accounted) as u32;
        if remaining > 0 {
            MemoryState { disk2: self.disk2.tick(remaining), cpu_step_cycle_cursor: total_cycles, ..self }
        } else {
            self
        }
    }

    pub open spec fn wf(self) -> bool {
        &&& self.ram.len() == RAM_SIZE
        &&& self.rom.len() == ROM_SIZE
        &&& self.lc_ram.len() == LC_RAM_SIZE
        &&& self.pushbuttons.len() == 2
        &&& self.paddles.len() == 4
        &&& self.disk2.wf()
        &&& self.cpu_step_cycle_base <= MAX_CYCLE_BASE
    }

    /// The cycle of the current bus access within the running CPU step.
    pub open spec fn cursor_cycle(self) -> u64 {
        (self.cpu_step_cycle_base + self.cpu_step_cycle_cursor) as u64
    }

    /// Each bus access inside a CPU step takes one cycle: the disk runs one
    /// cycle and the access is stamped with its cycle. Outside a step nothing
    /// is counted.
    pub open spec fn record_access(self) -> (MemoryState, Option<u64>) {
        if !self.cpu_step_audio_active {
            (self, None)
        } else {
            (
                MemoryState {
                    cpu_step_cycle_cursor: if self.cpu_step_cycle_cursor == u32::MAX { u32::MAX } else { (self.cpu_step_cycle_cursor + 1) as u32 },
                    disk2: self.disk2.tick(1),
                    ..self
                },
                Some(self.cursor_cycle()),
            )
        }
    }

    /// The cycle an I/O access happens at.
    pub open spec fn io_cycle(self, access: Option<u64>) -> u64 {
        match access {
            Some(c) => c,
            None => self.cursor_cycle(),
        }
    }

    /// The byte the video scanner is fetching at the access's cycle.
    pub open spec fn floating_bus(self, access: Option<u64>) -> u8 {
        let hires = self.hires_mode && !self.text_mode;
        self.ram[scanner_address(hires, self.mixed_mode, self.page2, self.io_cycle(access)) as int]
    }

    pub open spec fn toggle_speaker(self, access: Option<u64>) -> MemoryState {
        MemoryState {
            speaker: !self.speaker,
            speaker_toggle_cycles: match access {
                Some(c) => self.speaker_toggle_cycles.push(c),
                None => self.speaker_toggle_cycles,
            },
            ..self
        }
    }

    /// Paddle `index` reads with bit 7 set until its timeout has passed since
    /// the last strobe.
    pub open spec fn read_paddle(self, index: int, access: Option<u64>) -> u8 {
        let now = self.io_cycle(access);
        let elapsed = if now >= self.paddle_latch_cycle { now - self.paddle_latch_cycle } else { 0 };
        if elapsed < paddle_timeout(self.paddles[index]) { 0x80 } else { 0 }
    }

    /// A language card switch ($C080-$C08F) read: bit 3 clear selects bank 2,
    /// switches 0 and 3 (of each four) read RAM, the others ROM; an odd switch
    /// read twice in a row (counting aliases as the same switch) enables RAM
    /// writes; an even one disables them and resets the pre-write flip-flop,
    /// so an odd read after it starts a new pair. The read itself floats.
    pub open spec fn lc_switch_read(self, addr: u16) -> MemoryState {
        let low = addr % 4;
        let canonical = spec_canonical_lc_switch(addr);
        let s = MemoryState { lc_bank2: addr & 0x08 == 0, lc_read_enable: low == 0 || low == 3, ..self };
        if addr % 2 == 1 {
            MemoryState {
                lc_write_enable: if self.lc_pre_write_switch == canonical { true } else { self.lc_write_enable },
                lc_pre_write_switch: canonical,
                ..s
            }
        } else {
            MemoryState { lc_write_enable: false, lc_pre_write_switch: 0, ..s }
        }
    }

    /// A language card switch write: bank and read source are selected as for
    /// a read, writes to the card are disabled, and an even switch resets the
    /// pre-write flip-flop.
    pub open spec fn lc_switch_write(self, addr: u16) -> MemoryState {
        let low = addr % 4;
        MemoryState {
            lc_bank2: addr & 0x08 == 0,
            lc_read_enable: low == 0 || low == 3,
            lc_write_enable: false,
            lc_pre_write_switch: if addr % 2 == 0 { 0 } else { self.lc_pre_write_switch },
            ..self
        }
    }

    /// Effect of a video switch access ($C050-$C057) on the display modes.
    pub open spec fn video_switch(self, addr: u16) -> MemoryState {
        if addr == 0xC050 {
            MemoryState { text_mode: false, ..self }
        } else if addr == 0xC051 {
            MemoryState { text_mode: true, ..self }
        } else if addr == 0xC052 {
            MemoryState { mixed_mode: false, ..self }
        } else if addr == 0xC053 {
            MemoryState { mixed_mode: true, ..self }
        } else if addr == 0xC054 {
            MemoryState { page2: false, ..self }
        } else if addr == 0xC055 {
            MemoryState { page2: true, ..self }
        } else if addr == 0xC056 {
            MemoryState { hires_mode: false, ..self }
        } else {
            MemoryState { hires_mode: true, ..self }
        }
    }

    /// A read in the I/O page $C000-$CFFF, after the access was counted.
    pub open spec fn io_read(self, addr: u16, access: Option<u64>) -> (MemoryState, u8) {
        if addr <= 0xC00F {
            // Keyboard data
            (self, self.keyboard_latch)
        } else if addr <= 0xC01F {
            // Keyboard strobe clear; the read itself floats.
            (MemoryState { keyboard_latch: self.keyboard_latch & 0x7F, ..self }, self.floating_bus(access))
        } else if 0xC030 <= addr <= 0xC03F {
            let s = self.toggle_speaker(access);
            (s, s.floating_bus(access))
        } else if 0xC050 <= addr <= 0xC057 {
            let s = self.video_switch(addr);
            (s, s.floating_bus(access))
        } else if addr == 0xC061 || addr == 0xC062 {
            (self, if self.pushbuttons[addr - 0xC061] { 0x80 } else { 0 })
        } else if addr == 0xC063 {
            (self, 0)
        } else if 0xC064 <= addr <= 0xC067 {
            (self, self.read_paddle(addr - 0xC064, access))
        } else if addr == 0xC070 {
            (MemoryState { paddle_latch_cycle: self.io_cycle(access), ..self }, 0)
        } else if 0xC080 <= addr <= 0xC08F {
            let s = self.lc_switch_read(addr);
            (s, s.floating_bus(access))
        } else if 0xC0E0 <= addr <= 0xC0EF {
            let (d, v) = self.disk2.read_io(addr);
            (MemoryState { disk2: d, ..self }, v)
        } else if 0xC600 <= addr <= 0xC6FF {
            (self, self.disk2.rom[addr - 0xC600])
        } else {
            // Any other undriven I/O location reads the floating bus.
            (self, self.floating_bus(access))
        }
    }

    /// A read of $D000-$FFFF: language card RAM when enabled for reading,
    /// otherwise the ROM.
    pub open spec fn high_read(self, addr: u16) -> u8 {
        if self.lc_read_enable { self.lc_ram[lc_index(addr, self.lc_bank2)] } else { self.rom[addr - 0xD000] }
    }

    pub open spec fn read(self, addr: u16) -> (MemoryState, u8) {
        let (s, access) = self.record_access();
        if addr < 0xC000 {
            (s, s.ram[addr as int])
        } else if addr < 0xD000 {
            s.io_read(addr, access)
        } else {
            (s, s.high_read(addr))
        }
    }

    /// A write in the I/O page, after the access was counted.
    pub open spec fn io_write(self, addr: u16, data: u8, access: Option<u64>) -> MemoryState {
        if 0xC010 <= addr <= 0xC01F {
            MemoryState { keyboard_latch: self.keyboard_latch & 0x7F, ..self }
        } else if 0xC030 <= addr <= 0xC03F {
            self.toggle_speaker(access)
        } else if 0xC050 <= addr <= 0xC057 {
            self.video_switch(addr)
        } else if addr == 0xC070 {
            MemoryState { paddle_latch_cycle: self.io_cycle(access), ..self }
        } else if 0xC080 <= addr <= 0xC08F {
            self.lc_switch_write(addr)
        } else if 0xC0E0 <= addr <= 0xC0EF {
            MemoryState { disk2: self.disk2.write_io(addr, data), ..self }
        } else {
            self
        }
    }

    pub open spec fn write(self, addr: u16, data: u8) -> MemoryState {
        let (s, access) = self.record_access();
        if addr < 0xC000 {
            MemoryState { ram: s.ram.update(addr as int, data), ..s }
        } else if addr < 0xD000 {
            s.io_write(addr, data, access)
        } else if s.lc_write_enable {
            MemoryState { lc_ram: s.lc_ram.update(lc_index(addr, s.lc_bank2), data), ..s }
        } else {
            s
        }
    }
}

impl Apple2Memory {
    /// Power-on state: memory cleared, text mode, no key, speaker off,
    /// paddles centred at 127, the language card reading ROM with bank 2
    /// selected, and a fresh Disk II controller.
    pub fn new() -> (r: Self)
        ensures
            r@ == MemoryState::initial(),
            r@.wf(),
    {
        let r = Self {
            ram: vec![0u8; RAM_SIZE],
            rom: vec![0u8; ROM_SIZE],
            text_mode: true,
            mixed_mode: false,
            page2: false,
            hires_mode: false,
            keyboard_latch: 0,
            disk2: Box::new(Disk2::new()),
            speaker: false,
            speaker_toggle_cycles: Vec::new(),
            cpu_step_cycle_base: 0,
            cpu_step_cycle_cursor: 0,
            cpu_step_audio_active: false,
            pushbuttons: [false, false],
            paddles: [127u8, 127u8, 127u8, 127u8],
            paddle_latch_cycle: 0,
            lc_ram: vec![0u8; LC_RAM_SIZE],
            lc_read_enable: false,
            lc_write_enable: false,
            lc_bank2: true,
            lc_pre_write_switch: 0,
        };
        proof {
            assert(r@.ram =~= Seq::new(RAM_SIZE as nat, |i: int| 0u8));
            assert(r@.rom =~= Seq::new(ROM_SIZE as nat, |i: int| 0u8));
            assert(r@.lc_ram =~= Seq::new(LC_RAM_SIZE as nat, |i: int| 0u8));
            assert(r@.pushbuttons =~= seq![false, false]);
            assert(r@.paddles =~= seq![127u8, 127, 127, 127]);
        }
        r
    }

    /// Copies the system ROM image into $D000-$FFFF (at most 12KB; a shorter
    /// image leaves the rest as it was).
    pub fn load_rom(&mut self, data: &[u8])
        requires
            old(self)@.wf(),
        ensures
            final(self)@ == (MemoryState {
                rom: Seq::new(ROM_SIZE as nat, |i: int| if i < data@.len() { data@[i] } else { old(self)@.rom[i] }),
                ..old(self)@
            }),
    {
        let copy_len = if data.len() < ROM_SIZE { data.len() } else { ROM_SIZE };
        proof {
            assert(self@.rom =~= Seq::new(ROM_SIZE as nat, |k: int| if k < 0 { data@[k] } else { old(self)@.rom[k] }));
        }
        for i in 0..copy_len
            invariant
                copy_len <= data@.len(),
                copy_len <= ROM_SIZE,
                self@ == (MemoryState {
                    rom: Seq::new(ROM_SIZE as nat, |k: int| if k < i { data@[k] } else { old(self)@.rom[k] }),
                    ..old(self)@
                }),
        {
            self.rom.set(i, data[i]);
            proof {
                assert(self@.rom =~= Seq::new(ROM_SIZE as nat, |k: int| if k < i + 1 { data@[k] } else { old(self)@.rom[k] }));
            }
        }
        proof {
            assert(self@.rom =~= Seq::new(ROM_SIZE as nat, |k: int| if k < data@.len() { data@[k] } else { old(self)@.rom[k] }));
        }
    }

    /// Cold start (see `MemoryState::power_on`).
    pub fn power_on_reset(&mut self)
        requires
            old(self)@.wf(),
        ensures
            final(self)@ == old(self)@.power_on(),
            final(self)@.wf(),
    {
        proof {
            assert(self@.ram =~= Seq::new(RAM_SIZE as nat, |k: int| if k < 0 { 0u8 } else { old(self)@.ram[k] }));
        }
        for i in 0..RAM_SIZE
            invariant
                self@ == (MemoryState {
                    ram: Seq::new(RAM_SIZE as nat, |k: int| if k < i { 0u8 } else { old(self)@.ram[k] }),
                    ..old(self)@
                }),
        {
            self.ram.set(i, 0);
            proof {
                assert(self@.ram =~= Seq::new(RAM_SIZE as nat, |k: int| if k < i + 1 { 0u8 } else { old(self)@.ram[k] }));
            }
        }
        self.text_mode = true;
        self.mixed_mode = false;
        self.page2 = false;
        self.hires_mode = false;
        self.keyboard_latch = 0;
        self.speaker = false;
        self.speaker_toggle_cycles.clear();
        self.cpu_step_cycle_base = 0;
        self.cpu_step_cycle_cursor = 0;
        self.cpu_step_audio_active = false;
        self.pushbuttons = [false, false];
        self.paddles = [127u8, 127u8, 127u8, 127u8];
        self.paddle_latch_cycle = 0;
        self.disk2.reset();
        self.lc_read_enable = false;
        self.lc_write_enable = false;
        self.lc_bank2 = true;
        self.lc_pre_write_switch = 0;
        // Ensure Apple II ROM performs a cold boot by clearing the signature
        self.ram.set(0x03F4, 0);
        proof {
            assert(self@.ram =~= Seq::new(RAM_SIZE as nat, |i: int| 0u8));
            assert(self@.pushbuttons =~= seq![false, false]);
            assert(self@.paddles =~= seq![127u8, 127, 127, 127]);
        }
    }

    /// Starts counting the bus cycles of one CPU step from `cycle_base`: each
    /// access is stamped with its cycle and runs the disk one cycle.
    pub fn begin_cpu_step(&mut self, cycle_base: u64)
        requires
            old(self)@.wf(),
            cycle_base <= MAX_CYCLE_BASE,
        ensures
            final(self)@.wf(),
            final(self)@ == old(self)@.begin_step(cycle_base),
    {
        self.cpu_step_cycle_base = cycle_base;
        self.cpu_step_cycle_cursor = 0;
        self.cpu_step_audio_active = true;
    }

    pub fn end_cpu_step(&mut self)
        requires
            old(self)@.wf(),
        ensures
            final(self)@.wf(),
            final(self)@ == (MemoryState { cpu_step_audio_active: false, ..old(self)@ }),
    {
        self.cpu_step_audio_active = false;
    }

    /// Runs the disk for the cycles of a `total_cycles`-cycle step that no bus
    /// access accounted for, and moves the step's cursor to its end.
    pub fn finalize_cpu_step_cycles(&mut self, total_cycles: u32)
        requires
            old(self)@.wf(),
            old(self).disk2.cycles_accumulator + (total_cycles - (if old(self).cpu_step_cycle_cursor < total_cycles { old(self).cpu_step_cycle_cursor as int } else { total_cycles as int })) <= u32::MAX,
        ensures
            final(self)@.wf(),
            final(self)@ == old(self)@.finalize_step(total_cycles),
    {
        let accounted = if self.cpu_step_cycle_cursor < total_cycles { self.cpu_step_cycle_cursor } else { total_cycles };
        let remaining = total_cycles - accounted;
        if remaining > 0 {
            self.disk2.tick(remaining);
            self.cpu_step_cycle_cursor = total_cycles;
        }
    }

    /// Hands out the cycles of the speaker toggles recorded so far, oldest
    /// first, and forgets them.
    pub fn take_speaker_toggle_cycles(&mut self) -> (r: Vec<u64>)
        requires
            old(self)@.wf(),
        ensures
            final(self)@.wf(),
            r@ == old(self)@.speaker_toggle_cycles,
            final(self)@ == (MemoryState { speaker_toggle_cycles: Seq::empty(), ..old(self)@ }),
    {
        let mut taken: Vec<u64> = Vec::new();
        std::mem::swap(&mut taken, &mut self.speaker_toggle_cycles);
        taken
    }

    /// Joystick position (paddles 0 and 1) and its two buttons.
    pub fn set_joystick_state(&mut self, x: u8, y: u8, button0: bool, button1: bool)
        requires
            old(self)@.wf(),
        ensures
            final(self)@.wf(),
            final(self)@ == (MemoryState {
                paddles: old(self)@.paddles.update(0, x).update(1, y),
                pushbuttons: seq![button0, button1],
                ..old(self)@
            }),
    {
        self.paddles[0] = x;
        self.paddles[1] = y;
        self.pushbuttons[0] = button0;
        self.pushbuttons[1] = button1;
        proof {
            assert(self@.paddles =~= old(self)@.paddles.update(0, x).update(1, y));
            assert(self@.pushbuttons =~= seq![button0, button1]);
        }
    }
}

impl Apple2Memory {
    fn canonical_lc_switch(addr: u16) -> (r: u16)
        requires
            0xC080 <= addr,
        ensures
            r == spec_canonical_lc_switch(addr),
    {
        0xC080 | ((addr - 0xC080) & 0x000B)
    }

    fn record_bus_access_cycle(&mut self) -> (r: Option<u64>)
        requires
            old(self)@.wf(),
        ensures
            final(self)@.wf(),
            (final(self)@, r) == old(self)@.record_access(),
    {
        if !self.cpu_step_audio_active {
            return None;
        }
        let cycle = self.cpu_step_cycle_base + self.cpu_step_cycle_cursor as u64;
        self.cpu_step_cycle_cursor = self.cpu_step_cycle_cursor.saturating_add(1);
        self.disk2.tick(1);
        Some(cycle)
    }

    fn toggle_speaker(&mut self, cycle: Option<u64>)
        requires
            old(self)@.wf(),
        ensures
            final(self)@.wf(),
            final(self)@ == old(self)@.toggle_speaker(cycle),
    {
        self.speaker = !self.speaker;
        match cycle {
            Some(c) => { self.speaker_toggle_cycles.push(c); },
            None => {},
        }
    }

    fn current_io_cycle(&self, access_cycle: Option<u64>) -> (r: u64)
        requires
            self@.wf(),
        ensures
            r == self@.io_cycle(access_cycle),
    {
        match access_cycle {
            Some(c) => c,
            None => self.cpu_step_cycle_base + self.cpu_step_cycle_cursor as u64,
        }
    }

    fn latch_paddles(&mut self, access_cycle: Option<u64>)
        requires
            old(self)@.wf(),
        ensures
            final(self)@.wf(),
            final(self)@ == (MemoryState { paddle_latch_cycle: old(self)@.io_cycle(access_cycle), ..old(self)@ }),
    {
        self.paddle_latch_cycle = self.current_io_cycle(access_cycle);
    }

    fn read_pushbutton(&self, index: usize) -> (r: u8)
        requires
            self@.wf(),
            index < 2,
        ensures
            r == (if self@.pushbuttons[index as int] { 0x80u8 } else { 0 }),
    {
        if self.pushbuttons[index] { 0x80 } else { 0x00 }
    }

    fn paddle_timeout_cycles(value: u8) -> (r: u64)
        ensures
            r == paddle_timeout(value),
    {
        let linear = 8 + value as u64 * 11;
        if value > 128 {
            let d = (value - 128) as u64;
            proof {
                assert(3 * d * d <= 3 * 127 * 127) by (nonlinear_arith)
                    requires
                        d <= 127,
                ;
            }
            linear + 3 * d * d / 128
        } else {
            linear
        }
    }

    fn read_paddle(&self, index: usize, access_cycle: Option<u64>) -> (r: u8)
        requires
            self@.wf(),
            index < 4,
        ensures
            r == self@.read_paddle(index as int, access_cycle),
    {
        let elapsed = self.current_io_cycle(access_cycle).saturating_sub(self.paddle_latch_cycle);
        if elapsed < Self::paddle_timeout_cycles(self.paddles[index]) { 0x80 } else { 0x00 }
    }
}

/// Every address the video scanner generates lies in the first 24KB of main
/// RAM (hi-res page 2 ends at $5FFF).
pub proof fn lemma_scanner_address_in_ram(hires_display: bool, mixed: bool, page2: bool, cycle: u64)
    ensures
        scanner_address(hires_display, mixed, page2, cycle) < 0x6000,
{
    let n_cycles = cycle % 17030;
    let n_hclock = ((n_cycles + 40) % 65) as u32;
    let n_hstate = (0x18 + n_hclock - (if n_hclock >= 41 { 1int } else { 0 })) as u32;
    let n_vline = (n_cycles / 65) as u32;
    let n_vstate = (0x100 + n_vline - (if n_vline >= 256 { 262int } else { 0 })) as u32;
    let (h0, h1, h2, h3, h4, h5) = (bit(n_hstate, 0), bit(n_hstate, 1), bit(n_hstate, 2), bit(n_hstate, 3), bit(n_hstate, 4), bit(n_hstate, 5));
    let (va, vb, vc, v0, v1, v2, v3, v4) = (bit(n_vstate, 0), bit(n_vstate, 1), bit(n_vstate, 2), bit(n_vstate, 3), bit(n_vstate, 4), bit(n_vstate, 5), bit(n_vstate, 6), bit(n_vstate, 7));
    lemma_bit_le_one(n_hstate);
    lemma_bit_le_one(n_vstate);
    let hires = hires_display && !(mixed && v4 != 0 && v2 != 0);
    let addend1 = (h5 << 2) | (h4 << 1) | h3;
    let addend2 = (v4 << 3) | (v3 << 2) | (v4 << 1) | v3;
    assert(addend1 <= 7 && addend2 <= 15) by (bit_vector)
        requires
            h3 <= 1 && h4 <= 1 && h5 <= 1 && v3 <= 1 && v4 <= 1,
            addend1 == (h5 << 2) | (h4 << 1) | h3,
            addend2 == (v4 << 3) | (v3 << 2) | (v4 << 1) | v3,
    ;
    let sum = ((0x0D + addend1 + addend2) as u32) & 0x0F;
    let hbl = if !hires && h5 == 0 && (h4 == 0 || h3 == 0) { 0x1000u32 } else { 0 };
    let addr_h = h0 | (h1 << 1) | (h2 << 2) | (sum << 3) | hbl;
    let addr_v0 = (v0 << 7) | (v1 << 8) | (v2 << 9);
    let addr_v = if hires { addr_v0 | (va << 10) | (vb << 11) | (vc << 12) } else { addr_v0 };
    let addr_p = if hires { if page2 { 0x4000u32 } else { 0x2000 } } else { if page2 { 0x0800u32 } else { 0x0400 } };
    assert((addr_p | addr_v | addr_h) < 0x6000) by (bit_vector)
        requires
            h0 <= 1 && h1 <= 1 && h2 <= 1,
            va <= 1 && vb <= 1 && vc <= 1 && v0 <= 1 && v1 <= 1 && v2 <= 1,
            sum == ((0x0D + addend1 + addend2) as u32) & 0x0F,
            hbl == 0x1000u32 || hbl == 0,
            addr_h == h0 | (h1 << 1) | (h2 << 2) | (sum << 3) | hbl,
            addr_v0 == (v0 << 7) | (v1 << 8) | (v2 << 9),
            addr_v == addr_v0 | (va << 10) | (vb << 11) | (vc << 12) || addr_v == addr_v0,
            addr_p == 0x4000u32 || addr_p == 0x2000u32 || addr_p == 0x0800u32 || addr_p == 0x0400u32,
            hbl == 0x1000u32 ==> addr_p == 0x0800u32 || addr_p == 0x0400u32,
            addr_v != addr_v0 ==> addr_p == 0x4000u32 || addr_p == 0x2000u32,
            addend1 <= 7 && addend2 <= 15,
    ;
}

proof fn lemma_bit_le_one(state: u32)
    ensures
        forall|i: u32| i < 32 ==> #[trigger] bit(state, i) <= 1,
{
    assert forall|i: u32| i < 32 implies #[trigger] bit(state, i) <= 1 by {
        assert((state >> i) & 1 <= 1) by (bit_vector);
    }
}

impl Apple2Memory {
    /// Address the video scanner is fetching from RAM at the given CPU cycle.
    ///
    /// Jim Sather's model (Understanding the Apple IIe, ch.5), NTSC timing:
    /// 65 horizontal clocks per scan line, 262 scan lines per frame. The
    /// scanner keeps generating addresses during HBL/VBL, which is why the
    /// floating bus is useful as a randomness source: its value tracks the
    /// beam position and so changes from one read to the next.
    pub fn video_scanner_address(&self, cycle: u64) -> (r: u16)
        ensures
            r == scanner_address(self.hires_mode && !self.text_mode, self.mixed_mode, self.page2, cycle),
            r < 0x6000,
    {
        let n_cycles = cycle % 17030;
        // Horizontal counter state (h_0..h_5).
        let n_hclock = ((n_cycles + 40) % 65) as u32;
        let n_hstate: u32 = if n_hclock >= 41 { 0x18 + n_hclock - 1 } else { 0x18 + n_hclock };
        let h_0 = (n_hstate >> 0u32) & 1;
        let h_1 = (n_hstate >> 1u32) & 1;
        let h_2 = (n_hstate >> 2u32) & 1;
        let h_3 = (n_hstate >> 3u32) & 1;
        let h_4 = (n_hstate >> 4u32) & 1;
        let h_5 = (n_hstate >> 5u32) & 1;
        // Vertical counter state (v_a..v_5).
        let n_vline = (n_cycles / 65) as u32;
        let n_vstate: u32 = if n_vline >= 256 { 0x100 + n_vline - 262 } else { 0x100 + n_vline };
        let v_a = (n_vstate >> 0u32) & 1;
        let v_b = (n_vstate >> 1u32) & 1;
        let v_c = (n_vstate >> 2u32) & 1;
        let v_0 = (n_vstate >> 3u32) & 1;
        let v_1 = (n_vstate >> 4u32) & 1;
        let v_2 = (n_vstate >> 5u32) & 1;
        let v_3 = (n_vstate >> 6u32) & 1;
        let v_4 = (n_vstate >> 7u32) & 1;
        proof {
            lemma_bit_le_one(n_hstate);
            lemma_bit_le_one(n_vstate);
            assert(h_3 == bit(n_hstate, 3) && h_4 == bit(n_hstate, 4) && h_5 == bit(n_hstate, 5));
            assert(v_3 == bit(n_vstate, 6) && v_4 == bit(n_vstate, 7));
        }
        // 80STORE is an Apple //e feature; on the II/II+ it is always off.
        // In mixed mode the bottom four text rows fetch from the text page.
        let hires = self.hires_mode && !self.text_mode && !(self.mixed_mode && v_4 != 0 && v_2 != 0);
        // Sather's 4-bit "sum" that forms address bits A3..A6.
        let addend1 = (h_5 << 2u32) | (h_4 << 1u32) | h_3;
        let addend2 = (v_4 << 3u32) | (v_3 << 2u32) | (v_4 << 1u32) | v_3;
        proof {
            assert(addend1 <= 7 && addend2 <= 15) by (bit_vector)
                requires
                    h_3 <= 1 && h_4 <= 1 && h_5 <= 1 && v_3 <= 1 && v_4 <= 1,
                    addend1 == (h_5 << 2) | (h_4 << 1) | h_3,
                    addend2 == (v_4 << 3) | (v_3 << 2) | (v_4 << 1) | v_3,
            ;
        }
        let sum = (0x0D + addend1 + addend2) & 0x0F;
        // Apple II/II+: during HBL the text/lores scanner addresses the
        // $1000/$1800 region (no display there, but the bus still carries it).
        let hbl: u32 = if !hires && h_5 == 0 && (h_4 == 0 || h_3 == 0) { 0x1000 } else { 0 };
        let addr_h = h_0 | (h_1 << 1u32) | (h_2 << 2u32) | (sum << 3u32) | hbl;
        let addr_v0 = (v_0 << 7u32) | (v_1 << 8u32) | (v_2 << 9u32);
        // With 80STORE off: page 2 selects $0800 / $4000 instead of $0400 / $2000.
        let addr_v = if hires { addr_v0 | (v_a << 10u32) | (v_b << 11u32) | (v_c << 12u32) } else { addr_v0 };
        let addr_p: u32 = if hires { if self.page2 { 0x4000 } else { 0x2000 } } else { if self.page2 { 0x0800 } else { 0x0400 } };
        proof {
            lemma_scanner_address_in_ram(self.hires_mode && !self.text_mode, self.mixed_mode, self.page2, cycle);
        }
        (addr_p | addr_v | addr_h) as u16
    }

    /// Value seen when reading an undriven `$C0xx` location: the byte the video
    /// scanner is fetching this cycle. Games (e.g. Castle Wolfenstein) use this
    /// as their only hardware randomness source, for explosion white noise and
    /// for combat hit/penetration rolls. Returning a constant here collapses the
    /// noise to a single tone and makes every roll land the same way.
    fn floating_bus(&self, access_cycle: Option<u64>) -> (r: u8)
        requires
            self@.wf(),
        ensures
            r == self@.floating_bus(access_cycle),
    {
        let cycle = self.current_io_cycle(access_cycle);
        let addr = self.video_scanner_address(cycle) as usize;
        self.ram[addr]
    }
}

impl Apple2Memory {
    fn set_video_switch(&mut self, addr: u16)
        requires
            old(self)@.wf(),
            0xC050 <= addr <= 0xC057,
        ensures
            final(self)@.wf(),
            final(self)@ == old(self)@.video_switch(addr),
    {
        if addr == 0xC050 {
            self.text_mode = false;  // Graphics Mode
        } else if addr == 0xC051 {
            self.text_mode = true;  // Text Mode
        } else if addr == 0xC052 {
            self.mixed_mode = false;  // Full Screen
        } else if addr == 0xC053 {
            self.mixed_mode = true;  // Mixed Mode
        } else if addr == 0xC054 {
            self.page2 = false;  // Page 1
        } else if addr == 0xC055 {
            self.page2 = true;  // Page 2
        } else if addr == 0xC056 {
            self.hires_mode = false;  // Lo-Res
        } else {
            self.hires_mode = true;  // Hi-Res
        }
    }

    fn lc_switch_read(&mut self, addr: u16)
        requires
            old(self)@.wf(),
            0xC080 <= addr <= 0xC08F,
        ensures
            final(self)@.wf(),
            final(self)@ == old(self)@.lc_switch_read(addr),
    {
        let bank2 = (addr & 0x08) == 0;
        let read_ram = addr % 4 == 0 || addr % 4 == 3;
        let is_write_en_switch = addr % 2 == 1;
        let canonical = Self::canonical_lc_switch(addr);
        self.lc_bank2 = bank2;
        self.lc_read_enable = read_ram;
        if is_write_en_switch {
            // Two consecutive reads of an odd $C08x address enable LC write.
            // The pre-write flip-flop only responds to $C08x accesses:
            // intervening RAM/ROM reads (including the CPU's own opcode and
            // operand fetches between two `LDA $C083` instructions) must not
            // clear it, or software RAM probes see a 48K machine.
            if self.lc_pre_write_switch == canonical {
                self.lc_write_enable = true;
            }
            self.lc_pre_write_switch = canonical;
        } else {
            // Only an even $C08x access resets the pre-write flip-flop.
            self.lc_write_enable = false;
            self.lc_pre_write_switch = 0;
        }
    }

    fn lc_switch_write(&mut self, addr: u16)
        requires
            old(self)@.wf(),
            0xC080 <= addr <= 0xC08F,
        ensures
            final(self)@.wf(),
            final(self)@ == old(self)@.lc_switch_write(addr),
    {
        self.lc_bank2 = (addr & 0x08) == 0;
        self.lc_read_enable = addr % 4 == 0 || addr % 4 == 3;
        // Writes to LC switches always write-protect; an even switch also
        // resets the pre-write flip-flop.
        self.lc_write_enable = false;
        if addr % 2 == 0 {
            self.lc_pre_write_switch = 0;
        }
    }

    fn io_read(&mut self, addr: u16, access_cycle: Option<u64>) -> (r: u8)
        requires
            old(self)@.wf(),
            0xC000 <= addr < 0xD000,
        ensures
            final(self)@.wf(),
            (final(self)@, r) == old(self)@.io_read(addr, access_cycle),
    {
        if addr <= 0xC00F {
            // Keyboard Data (mirrored $C000-$C00F)
            self.keyboard_latch
        } else if addr <= 0xC01F {
            // Keyboard Clear Strobe (mirrored $C010-$C01F); the read floats.
            self.keyboard_latch = self.keyboard_latch & 0x7F;
            self.floating_bus(access_cycle)
        } else if 0xC030 <= addr && addr <= 0xC03F {
            // Speaker toggle: the read both clicks the speaker and returns the
            // floating bus; noise routines read here in a timing loop.
            self.toggle_speaker(access_cycle);
            self.floating_bus(access_cycle)
        } else if 0xC050 <= addr && addr <= 0xC057 {
            self.set_video_switch(addr);
            self.floating_bus(access_cycle)
        } else if addr == 0xC061 || addr == 0xC062 {
            self.read_pushbutton((addr - 0xC061) as usize)
        } else if addr == 0xC063 {
            0x00
        } else if 0xC064 <= addr && addr <= 0xC067 {
            self.read_paddle((addr - 0xC064) as usize, access_cycle)
        } else if addr == 0xC070 {
            self.latch_paddles(access_cycle);
            0x00
        } else if 0xC080 <= addr && addr <= 0xC08F {
            // Language Card Soft Switches; the read floats.
            self.lc_switch_read(addr);
            self.floating_bus(access_cycle)
        } else if 0xC0E0 <= addr && addr <= 0xC0EF {
            // Disk II Controller (Slot 6)
            self.disk2.read_io(addr)
        } else if 0xC600 <= addr && addr <= 0xC6FF {
            // Slot 6 ROM
            self.disk2.rom[(addr - 0xC600) as usize]
        } else {
            // Any other undriven I/O location reads the floating bus.
            self.floating_bus(access_cycle)
        }
    }

    fn lc_ram_index(addr: u16, bank2: bool) -> (r: usize)
        requires
            0xD000 <= addr,
        ensures
            r == lc_index(addr, bank2),
            r < LC_RAM_SIZE,
    {
        if addr < 0xE000 {
            if bank2 { (addr - 0xD000 + 0x1000) as usize } else { (addr - 0xD000) as usize }
        } else {
            (addr - 0xE000 + 0x2000) as usize
        }
    }

    fn high_read(&self, addr: u16) -> (r: u8)
        requires
            self@.wf(),
            0xD000 <= addr,
        ensures
            r == self@.high_read(addr),
    {
        if self.lc_read_enable {
            self.lc_ram[Self::lc_ram_index(addr, self.lc_bank2)]
        } else {
            self.rom[(addr - 0xD000) as usize]
        }
    }

    fn io_write(&mut self, addr: u16, data: u8, access_cycle: Option<u64>)
        requires
            old(self)@.wf(),
            0xC000 <= addr < 0xD000,
        ensures
            final(self)@.wf(),
            final(self)@ == old(self)@.io_write(addr, data, access_cycle),
    {
        if 0xC010 <= addr && addr <= 0xC01F {
            // Any write to $C010-$C01F clears the keyboard strobe
            self.keyboard_latch = self.keyboard_latch & 0x7F;
        } else if 0xC030 <= addr && addr <= 0xC03F {
            self.toggle_speaker(access_cycle);
        } else if 0xC050 <= addr && addr <= 0xC057 {
            self.set_video_switch(addr);
        } else if addr == 0xC070 {
            self.latch_paddles(access_cycle);
        } else if 0xC080 <= addr && addr <= 0xC08F {
            self.lc_switch_write(addr);
        } else if 0xC0E0 <= addr && addr <= 0xC0EF {
            self.disk2.write_io(addr, data);
        }
    }
}

// Memory map implementation specific for Apple II
impl Memory for Apple2Memory {
    open spec fn inv(&self) -> bool {
        self@.wf()
    }

    open spec fn spec_read(state: MemoryState, addr: u16) -> (MemoryState, u8) {
        state.read(addr)
    }

    open spec fn spec_write(state: MemoryState, addr: u16, data: u8) -> MemoryState {
        state.write(addr, data)
    }

    fn read(&mut self, addr: u16) -> (r: u8) {
        let access_cycle = self.record_bus_access_cycle();
        if addr < 0xC000 {
            // Main RAM (48K)
            self.ram[addr as usize]
        } else if addr < 0xD000 {
            // Hardware I/O Space (Soft Switches)
            self.io_read(addr, access_cycle)
        } else {
            // Standard System ROM or Language Card RAM (12K / 16K)
            self.high_read(addr)
        }
    }

    fn write(&mut self, addr: u16, data: u8) {
        let access_cycle = self.record_bus_access_cycle();
        // A plain write does not clear the language card pre-write flip-flop:
        // unlock sequences may store to RAM between the two switch reads.
        if addr < 0xC000 {
            self.ram.set(addr as usize, data);
        } else if addr < 0xD000 {
            self.io_write(addr, data, access_cycle);
        } else if self.lc_write_enable {
            let index = Self::lc_ram_index(addr, self.lc_bank2);
            self.lc_ram.set(index, data);
        }
    }
}

/// Main RAM keeps what is written: a read of $0000-$BFFF after a write
/// gives the written byte at the written address and the old byte elsewhere.
pub proof fn law_ram_read_after_write(s: MemoryState, waddr: u16, data: u8, raddr: u16)
    requires
        s.wf(),
        waddr < 0xC000,
        raddr < 0xC000,
    ensures
        s.write(waddr, data).read(raddr).1 == (if raddr == waddr { data } else { s.ram[raddr as int] }),
{
}

/// With the language card enabled for reading and writing, $D000-$FFFF
/// keeps what is written, in the bank that is selected.
pub proof fn law_language_card_read_after_write(s: MemoryState, addr: u16, data: u8)
    requires
        s.wf(),
        0xD000 <= addr,
        s.lc_read_enable,
        s.lc_write_enable,
    ensures
        s.write(addr, data).read(addr).1 == data,
{
}

/// Two reads in a row of an odd language card switch (or of two aliases of
/// it) enable writes to the language card RAM, whatever the state before.
pub proof fn law_language_card_double_read_enables_write(s: MemoryState, first: u16, second: u16)
    requires
        s.wf(),
        0xC080 <= first <= 0xC08F,
        0xC080 <= second <= 0xC08F,
        first % 2 == 1,
        spec_canonical_lc_switch(first) == spec_canonical_lc_switch(second),
    ensures
        s.read(first).0.read(second).0.lc_write_enable,
{
    assert(second % 2 == 1) by (bit_vector)
        requires
            0xC080 <= first <= 0xC08F,
            0xC080 <= second <= 0xC08F,
            first % 2 == 1,
            0xC080u16 | (((first - 0xC080) as u16) & 0x000B) == 0xC080u16 | (((second - 0xC080) as u16) & 0x000B),
    ;
}

/// A language card write-enable needs two reads: one odd switch read after an
/// even one, or after a different odd switch, leaves writes disabled.
pub proof fn law_language_card_single_read_keeps_write_protect(s: MemoryState, addr: u16)
    requires
        s.wf(),
        0xC080 <= addr <= 0xC08F,
        !s.lc_write_enable,
        s.lc_pre_write_switch != spec_canonical_lc_switch(addr),
    ensures
        !s.read(addr).0.lc_write_enable,
{
}

/// Any access to $C030-$C03F flips the speaker; within a CPU step the cycle
/// of the access is appended to the recorded toggle cycles.
pub proof fn law_speaker_access_toggles(s: MemoryState, addr: u16, data: u8)
    requires
        s.wf(),
        0xC030 <= addr <= 0xC03F,
    ensures
        s.read(addr).0.speaker == !s.speaker,
        s.write(addr, data).speaker == !s.speaker,
        s.read(addr).0.speaker_toggle_cycles
            == (if s.cpu_step_audio_active { s.speaker_toggle_cycles.push(s.cursor_cycle()) } else { s.speaker_toggle_cycles }),
        s.write(addr, data).speaker_toggle_cycles == s.read(addr).0.speaker_toggle_cycles,
{
}

/// Within a CPU step each bus access takes one cycle: the access is stamped
/// `base + cursor` and the cursor moves on by one.
pub proof fn law_bus_access_advances_cycle(s: MemoryState, addr: u16, data: u8)
    requires
        s.wf(),
        s.cpu_step_audio_active,
        s.cpu_step_cycle_cursor < u32::MAX,
    ensures
        s.read(addr).0.cpu_step_cycle_cursor == s.cpu_step_cycle_cursor + 1,
        s.write(addr, data).cpu_step_cycle_cursor == s.cpu_step_cycle_cursor + 1,
        s.read(addr).0.cpu_step_cycle_base == s.cpu_step_cycle_base,
{
}

/// $C000-$C00F read the keyboard latch unchanged; an access to $C010-$C01F
/// clears its strobe (bit 7) and keeps the key code.
pub proof fn law_keyboard_strobe(s: MemoryState, data_addr: u16, strobe_addr: u16, data: u8)
    requires
        s.wf(),
        0xC000 <= data_addr <= 0xC00F,
        0xC010 <= strobe_addr <= 0xC01F,
    ensures
        s.read(data_addr).1 == s.keyboard_latch,
        s.read(data_addr).0.keyboard_latch == s.keyboard_latch,
        s.read(strobe_addr).0.keyboard_latch == s.keyboard_latch & 0x7F,
        s.write(strobe_addr, data).keyboard_latch == s.keyboard_latch & 0x7F,
{
}

/// A paddle pushed further holds its timer output high at least as long:
/// the timeout grows with the paddle value, and up to the centre (128) it is
/// exactly 8 + 11 cycles per step.
pub proof fn law_paddle_timeout_monotonic(a: u8, b: u8)
    requires
        a <= b,
    ensures
        paddle_timeout(a) <= paddle_timeout(b),
        a <= 128 ==> paddle_timeout(a) == 8 + 11 * a,
{
    if a > 128 {
        let da = a - 128;
        let db = b - 128;
        assert(3 * da * da <= 3 * db * db) by (nonlinear_arith)
            requires
                0 < da <= db,
        ;
        assert(3 * da * da / 128 <= 3 * db * db / 128) by (nonlinear_arith)
            requires
                3 * da * da <= 3 * db * db,
                0 <= 3 * da * da,
        ;
    }
}

/// A read never changes main RAM, and a write changes at most the byte it
/// writes (and only when it writes main RAM).
pub proof fn law_bus_access_keeps_ram(s: MemoryState, addr: u16, data: u8)
    ensures
        s.read(addr).0.ram == s.ram,
        s.write(addr, data).ram == (if addr < 0xC000 { s.ram.update(addr as int, data) } else { s.ram }),
{
}

/// An even language card switch between two odd reads breaks the pair: after
/// reading an odd switch, an even one and the odd one again, writes to the
/// language card RAM stay disabled.
pub proof fn law_language_card_even_access_breaks_the_pair(s: MemoryState, odd: u16, even: u16)
    requires
        s.wf(),
        0xC080 <= odd <= 0xC08F,
        0xC080 <= even <= 0xC08F,
        odd % 2 == 1,
        even % 2 == 0,
    ensures
        s.read(even).0.lc_pre_write_switch == 0,
        !s.read(odd).0.read(even).0.read(odd).0.lc_write_enable,
{
    assert(0xC080u16 | (((odd - 0xC080) as u16) & 0x000B) != 0) by (bit_vector);
}

/// The video scanner (what `Apple2Memory::video_scanner_address` returns)
/// repeats every frame of 262 lines of 65 cycles: the address it reads at a
/// cycle is the one it reads 17030 cycles later, and it always lies in main
/// RAM.
pub proof fn law_scanner_address_repeats_every_frame(hires_display: bool, mixed: bool, page2: bool, cycle: u64)
    requires
        cycle + 17030 <= u64::MAX,
    ensures
        scanner_address(hires_display, mixed, page2, cycle) == scanner_address(hires_display, mixed, page2, (cycle + 17030) as u64),
        scanner_address(hires_display, mixed, page2, cycle) < 0xC000,
{
    assert(((cycle + 17030) as u64) % 17030 == cycle % 17030);
    lemma_scanner_address_in_ram(hires_display, mixed, page2, cycle);
}

/// The floating bus repeats every frame too: an undriven I/O location read
/// at a cycle gives what it gives 17030 cycles later, a RAM byte the scanner
/// fetches.
pub proof fn law_floating_bus_repeats_every_frame(s: MemoryState, cycle: u64)
    requires
        cycle + 17030 <= u64::MAX,
    ensures
        s.floating_bus(Some(cycle)) == s.floating_bus(Some((cycle + 17030) as u64)),
{
    law_scanner_address_repeats_every_frame(s.hires_mode && !s.text_mode, s.mixed_mode, s.page2, cycle);
}

/// The scanner address depends on the cycle only through its position in
/// the frame (the cycle modulo 17030).
pub proof fn law_scanner_address_follows_frame_position(hires_display: bool, mixed: bool, page2: bool, c1: u64, c2: u64)
    requires
        c1 % 17030 == c2 % 17030,
    ensures
        scanner_address(hires_display, mixed, page2, c1) == scanner_address(hires_display, mixed, page2, c2),
{
}

} // verus!

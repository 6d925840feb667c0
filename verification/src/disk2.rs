//! Disk II controller (slot 6): stepper motor, drive motor timers and the
//! read/write sequencer working on nibblized tracks.
use vstd::prelude::*;
use crate::nibble::{TrackData, TrackState, nibblize_dsk, nibblized_track, unformatted_track, TRACK_CAPACITY, DSK_BYTES, DSK_TRACKS};

verus! {

/// Number of track buffers the controller keeps (tracks 0..=39).
pub const DRIVE_TRACKS: usize = 40;

/// Highest quarter-track position of the head (track 39).
pub const MAX_QTR_TRACK: i32 = 156;

/// The drive motor keeps spinning this many cycles after the last access
/// to a controller switch (about one second at 1.023 MHz).
pub const MOTOR_TIMEOUT_CYCLES: u32 = 1_023_000;

pub struct Disk2 {
    pub rom: Vec<u8>,
    pub motor_on: bool,  // This is the software-controlled flip-flop ($C0E8/$C0E9)
    pub motor_timer_cycles: u32,  // Hardware 1-second timer re-triggered by any I/O access
    pub spin_up_cycles: u32,  // 150ms delay before data is valid
    pub drive_select: u8,
    pub write_mode: bool,
    pub load_mode: bool,
    pub current_track: usize,
    pub tracks: Vec<TrackData>,
    pub is_disk_loaded: bool,
    pub phases: [bool; 4],
    pub current_qtr_track: i32,
    // Stable Emulation: Byte-level Sync (~32 cycles per byte)
    pub byte_index: usize,
    pub cycles_accumulator: u32,
    pub data_latch: u8,
    pub read_shift_register: u8,
    pub read_bit_phase: u8,
    pub read_rotation_accumulator: usize,
    pub bitstream_read_mode: bool,
    pub read_stream_position: usize,
    pub defer_read_latch_update: bool,
    pub prologue_sync_tweak: bool,
    pub prologue_sync_bytes_remaining: u8,
    pub recent_published_bytes: [u8; 3],
    pub pending_read_latch: Option<u8>,
    pub write_ready: bool,
    pub write_bit_phase: u8,
    pub is_dirty: bool,
}

/// The controller as plain values.
pub struct DiskState {
    pub rom: Seq<u8>,
    pub motor_on: bool,
    pub motor_timer_cycles: u32,
    pub spin_up_cycles: u32,
    pub drive_select: u8,
    pub write_mode: bool,
    pub load_mode: bool,
    pub current_track: usize,
    pub tracks: Seq<TrackState>,
    pub is_disk_loaded: bool,
    pub phases: Seq<bool>,
    pub current_qtr_track: i32,
    pub byte_index: usize,
    pub cycles_accumulator: u32,
    pub data_latch: u8,
    pub read_shift_register: u8,
    pub read_bit_phase: u8,
    pub read_rotation_accumulator: usize,
    pub bitstream_read_mode: bool,
    pub read_stream_position: usize,
    pub defer_read_latch_update: bool,
    pub prologue_sync_tweak: bool,
    pub prologue_sync_bytes_remaining: u8,
    pub recent_published_bytes: Seq<u8>,
    pub pending_read_latch: Option<u8>,
    pub write_ready: bool,
    pub write_bit_phase: u8,
    pub is_dirty: bool,
}

impl View for Disk2 {
    type V = DiskState;

    open spec fn view(&self) -> DiskState {
        DiskState {
            rom: self.rom@,
            motor_on: self.motor_on,
            motor_timer_cycles: self.motor_timer_cycles,
            spin_up_cycles: self.spin_up_cycles,
            drive_select: self.drive_select,
            write_mode: self.write_mode,
            load_mode: self.load_mode,
            current_track: self.current_track,
            tracks: self.tracks@.map_values(|t: TrackData| t@),
            is_disk_loaded: self.is_disk_loaded,
            phases: self.phases@,
            current_qtr_track: self.current_qtr_track,
            byte_index: self.byte_index,
            cycles_accumulator: self.cycles_accumulator,
            data_latch: self.data_latch,
            read_shift_register: self.read_shift_register,
            read_bit_phase: self.read_bit_phase,
            read_rotation_accumulator: self.read_rotation_accumulator,
            bitstream_read_mode: self.bitstream_read_mode,
            read_stream_position: self.read_stream_position,
            defer_read_latch_update: self.defer_read_latch_update,
            prologue_sync_tweak: self.prologue_sync_tweak,
            prologue_sync_bytes_remaining: self.prologue_sync_bytes_remaining,
            recent_published_bytes: self.recent_published_bytes@,
            pending_read_latch: self.pending_read_latch,
            write_ready: self.write_ready,
            write_bit_phase: self.write_bit_phase,
            is_dirty: self.is_dirty,
        }
    }
}

/// What the sequencer does with each slice of cycles.
#[derive(Clone, Copy)]
pub enum SequencerMode {
    /// Q7=1, Q6=0: shifting the write latch onto the disk, 4 cycles per bit.
    Write,
    /// Q7=0, Q6=0: shifting bits off the disk, 4 cycles per bit.
    Read,
    /// Anything else while spinning: the disk just rotates.
    Idle,
}

/// Bits in one revolution of the read stream: the read length (or the track
/// length when it is zero) times eight, at least one.
pub open spec fn effective_read_bits(actual_length: int, read_length: int) -> int {
    let effective = if read_length == 0 { actual_length } else { read_length };
    if effective * 8 >= 1 { effective * 8 } else { 1 }
}

/// Source bit on the track for a position of the read stream, scaling the
/// stream's length to the track's.
pub open spec fn source_bit_index(position: int, actual_length: int, effective_bits: int) -> int {
    let actual_bits = if actual_length * 8 >= 1 { actual_length * 8 } else { 1 };
    ((position % effective_bits) * actual_bits / effective_bits) % actual_bits
}

/// Where the head settles from quarter track `q` when the coils pull it
/// towards position `target_mod` of the 8-quarter-track cycle: the nearest of
/// that position in this cycle, the previous and the next (the first of
/// equally near ones wins), limited to quarter tracks 0..=156.
pub open spec fn head_target(q: int, target_mod: int) -> int {
    let c0 = (q / 8) * 8 + target_mod;
    let c1 = c0 - 8;
    let c2 = c0 + 8;
    let d0 = if c0 >= q { c0 - q } else { q - c0 };
    let d1 = if c1 >= q { c1 - q } else { q - c1 };
    let d2 = if c2 >= q { c2 - q } else { q - c2 };
    let (b01, bd01) = if d1 < d0 { (c1, d1) } else { (c0, d0) };
    let best = if d2 < bd01 { c2 } else { b01 };
    if best < 0 { 0 } else if best > 156 { 156 } else { best }
}

impl DiskState {
    pub open spec fn wf(self) -> bool {
        &&& self.rom.len() == 256
        &&& self.tracks.len() == DRIVE_TRACKS
        &&& forall|t: int| 0 <= t < DRIVE_TRACKS ==> (#[trigger] self.tracks[t]).wf()
            && self.tracks[t].read_length <= TRACK_CAPACITY
        &&& forall|t: int| DSK_TRACKS <= t < DRIVE_TRACKS ==> (#[trigger] self.tracks[t]).length == 0
        &&& self.phases.len() == 4
        &&& self.recent_published_bytes.len() == 3
        &&& self.current_track < DRIVE_TRACKS
        &&& 0 <= self.current_qtr_track <= MAX_QTR_TRACK
        &&& self.byte_index < TRACK_CAPACITY
        &&& self.read_bit_phase < 8
        &&& self.write_bit_phase < 8
        &&& self.read_rotation_accumulator < TRACK_CAPACITY
        &&& self.read_stream_position < 8 * TRACK_CAPACITY
        &&& self.cycles_accumulator < 32
    }

    /// Rotation and sequencer state cleared, as after a seek or a new disk.
    pub open spec fn reset_rotation(self) -> DiskState {
        DiskState {
            byte_index: 0,
            read_shift_register: 0,
            read_bit_phase: 0,
            read_rotation_accumulator: 0,
            read_stream_position: 0,
            prologue_sync_bytes_remaining: 0,
            recent_published_bytes: seq![0u8, 0, 0],
            pending_read_latch: None,
            write_bit_phase: 0,
            ..self
        }
    }

    /// The controller at power-on: no disk, 40 unformatted track buffers, a
    /// zeroed boot ROM, drive 1 selected, everything else off or zero.
    pub open spec fn initial() -> DiskState {
        DiskState {
            rom: Seq::new(256, |i: int| 0u8),
            motor_on: false,
            motor_timer_cycles: 0,
            spin_up_cycles: 0,
            drive_select: 1,
            write_mode: false,
            load_mode: false,
            current_track: 0,
            tracks: Seq::new(DRIVE_TRACKS as nat, |t: int| unformatted_track()),
            is_disk_loaded: false,
            phases: seq![false, false, false, false],
            current_qtr_track: 0,
            byte_index: 0,
            cycles_accumulator: 0,
            data_latch: 0,
            read_shift_register: 0,
            read_bit_phase: 0,
            read_rotation_accumulator: 0,
            bitstream_read_mode: false,
            read_stream_position: 0,
            defer_read_latch_update: false,
            prologue_sync_tweak: false,
            prologue_sync_bytes_remaining: 0,
            recent_published_bytes: seq![0u8, 0, 0],
            pending_read_latch: None,
            write_ready: false,
            write_bit_phase: 0,
            is_dirty: false,
        }
    }

    /// Controller reset: motor, head position, phases, latch and sequencer
    /// state return to their power-on values; the disk stays in.
    pub open spec fn reset(self) -> DiskState {
        DiskState {
            motor_on: false,
            current_track: 0,
            cycles_accumulator: 0,
            data_latch: 0,
            write_ready: false,
            phases: seq![false, false, false, false],
            current_qtr_track: 0,
            ..self
        }.reset_rotation()
    }

    /// The energized coils as a 4-bit mask, phase 0 in bit 0.
    pub open spec fn phase_mask(self) -> int {
        (if self.phases[0] { 1int } else { 0 }) + (if self.phases[1] { 2int } else { 0 })
            + (if self.phases[2] { 4int } else { 0 }) + (if self.phases[3] { 8int } else { 0 })
    }

    /// Stepper target within one 8-quarter-track cycle: single coils land on
    /// even positions, two adjacent coils on the odd position between them;
    /// any other combination does not move the head.
    pub open spec fn stepper_target(self) -> Option<int> {
        let m = self.phase_mask();
        if m == 1 { Some(0) }
        else if m == 3 { Some(1) }
        else if m == 2 { Some(2) }
        else if m == 6 { Some(3) }
        else if m == 4 { Some(4) }
        else if m == 12 { Some(5) }
        else if m == 8 { Some(6) }
        else if m == 9 { Some(7) }
        else { None }
    }

    /// The head moves to the position of the target phase nearest to where
    /// it is (the candidates in this cycle, the previous and the next; the
    /// first of equally near ones wins), limited to tracks 0..=39. Moving to
    /// another whole track restarts the rotation state.
    pub open spec fn step_motor(self) -> DiskState {
        match self.stepper_target() {
            None => self,
            Some(target_mod) => {
                let clamped = head_target(self.current_qtr_track as int, target_mod);
                let moved = DiskState { current_qtr_track: clamped as i32, ..self };
                let next_track = clamped / 4;
                if next_track != self.current_track {
                    DiskState { current_track: next_track as usize, ..moved }.reset_rotation()
                } else {
                    moved
                }
            },
        }
    }

    /// Effect of any access to the controller switches $C0E0-$C0EF: the motor
    /// timer restarts, and the switch (the low address nibble) acts: phase
    /// coils off/on, motor off/on, drive 1/2, Q6 off/on, Q7 off/on.
    pub open spec fn handle_io(self, addr: u16) -> DiskState {
        let switch = addr % 16;
        let s = DiskState { motor_timer_cycles: MOTOR_TIMEOUT_CYCLES, ..self };
        if switch < 8 {
            let phase = switch / 2;
            let on = switch % 2 == 1;
            if on != s.phases[phase as int] {
                DiskState { phases: s.phases.update(phase as int, on), ..s }.step_motor()
            } else {
                s
            }
        } else if switch == 8 {
            DiskState { motor_on: false, ..s }
        } else if switch == 9 {
            // A motor that was completely off first spins up for 50ms.
            let s1 = if !s.motor_on && s.motor_timer_cycles == 0 { DiskState { spin_up_cycles: 51_150, ..s } } else { s };
            DiskState { motor_on: true, ..s1 }
        } else if switch == 10 {
            DiskState { drive_select: 1, ..s }
        } else if switch == 11 {
            DiskState { drive_select: 2, ..s }
        } else if switch == 12 {
            let s1 = if s.load_mode && s.write_mode { DiskState { write_bit_phase: 0, ..s } } else { s };
            DiskState { write_mode: false, ..s1 }
        } else if switch == 13 {
            DiskState { write_mode: true, ..s }
        } else if switch == 14 {
            DiskState { load_mode: false, ..s }
        } else {
            DiskState { load_mode: true, ..s }
        }
    }

    /// A read of a controller switch. With the drive spinning, $C0xC returns
    /// the data latch and clears its bit 7 (a destructive read), or in write
    /// mode (Q7 on) reports and clears the write-ready flag as bit 7; without
    /// a disk it reads 0. Every other read returns 0.
    pub open spec fn read_io(self, addr: u16) -> (DiskState, u8) {
        let s = self.handle_io(addr);
        let switch = addr % 16;
        if (s.motor_on || s.motor_timer_cycles > 0) && switch == 12 {
            if !s.is_disk_loaded {
                (s, 0)
            } else if s.load_mode {
                (DiskState { write_ready: false, ..s }, if s.write_ready { 0x80 } else { 0 })
            } else {
                (DiskState { data_latch: s.data_latch & 0x7F, ..s }, s.data_latch)
            }
        } else {
            (s, 0)
        }
    }

    /// A write to a controller switch; in write-load mode (Q7 and Q6 on) a
    /// write to $C0xD loads the data latch.
    pub open spec fn write_io(self, addr: u16, data: u8) -> DiskState {
        let s = self.handle_io(addr);
        if s.load_mode && s.write_mode && addr % 16 == 13 { DiskState { data_latch: data, ..s } } else { s }
    }

    /// Remembers a published byte; with the prologue tweak on, seeing
    /// `D5 AA 96` holds the rotation for 8 byte times.
    pub open spec fn note_published_byte(self, value: u8) -> DiskState {
        let r = seq![self.recent_published_bytes[1], self.recent_published_bytes[2], value];
        let s = DiskState { recent_published_bytes: r, ..self };
        if self.prologue_sync_tweak && r == seq![0xD5u8, 0xAA, 0x96] {
            DiskState { prologue_sync_bytes_remaining: 8, ..s }
        } else {
            s
        }
    }

    /// Advances the head one byte time on a track of `actual_length` bytes
    /// whose revolution is `read_length` byte times long.
    pub open spec fn advance_read_rotation(self, actual_length: int, read_length: int) -> DiskState {
        if actual_length == 0 {
            self
        } else if self.prologue_sync_bytes_remaining > 0 {
            DiskState {
                prologue_sync_bytes_remaining: (self.prologue_sync_bytes_remaining - 1) as u8,
                byte_index: ((self.byte_index + 1) % actual_length) as usize,
                ..self
            }
        } else {
            let effective = if read_length == 0 { actual_length } else { read_length };
            if effective <= actual_length {
                DiskState { byte_index: ((self.byte_index + 1) % actual_length) as usize, ..self }
            } else {
                let acc = self.read_rotation_accumulator + actual_length;
                if acc >= effective {
                    DiskState {
                        read_rotation_accumulator: (acc - effective) as usize,
                        byte_index: ((self.byte_index + 1) % actual_length) as usize,
                        ..self
                    }
                } else {
                    DiskState { read_rotation_accumulator: acc as usize, ..self }
                }
            }
        }
    }

    /// One 4-cycle write slot: the next bit of the data latch (MSB first)
    /// replaces the bit under the head; after 8 bits the write-ready flag is
    /// set and the head moves to the next byte.
    pub open spec fn write_bit(self) -> DiskState {
        let t = self.tracks[self.current_track as int];
        if t.length == 0 {
            self
        } else {
            let bit_pos = 7 - self.write_bit_phase;
            let mask = (1u8 << bit_pos) as u8;
            let old_byte = t.raw[self.byte_index as int];
            let new_byte = if (self.data_latch >> bit_pos) & 1 != 0 { old_byte | mask } else { old_byte & !mask };
            let track = TrackState { raw: t.raw.update(self.byte_index as int, new_byte), ..t };
            let phase = self.write_bit_phase + 1;
            DiskState {
                tracks: self.tracks.update(self.current_track as int, track),
                is_dirty: true,
                write_bit_phase: if phase >= 8 { 0 } else { phase as u8 },
                write_ready: if phase >= 8 { true } else { self.write_ready },
                byte_index: if phase >= 8 { ((self.byte_index + 1) % (t.length as int)) as usize } else { self.byte_index },
                ..self
            }
        }
    }

    /// Publishes a completed byte from the shift register: bytes with bit 7
    /// set reach the data latch (one byte later when updates are deferred).
    pub open spec fn publish_byte(self, published: u8) -> DiskState {
        let valid = published & 0x80 != 0;
        let s = if self.defer_read_latch_update {
            DiskState {
                data_latch: match self.pending_read_latch { Some(p) => p, None => self.data_latch },
                pending_read_latch: if valid { Some(published) } else { None },
                ..self
            }
        } else if valid {
            DiskState { data_latch: published, ..self }
        } else {
            self
        };
        if valid { s.note_published_byte(published) } else { s }
    }

    /// One 4-cycle read slot: the next bit from the disk enters the shift
    /// register; after 8 bits the byte is published and the head advances.
    pub open spec fn read_bit(self) -> DiskState {
        let t = self.tracks[self.current_track as int];
        if t.length == 0 {
            self
        } else {
            let len = t.length as int;
            let effective_bits = effective_read_bits(len, t.read_length as int);
            let src = source_bit_index(self.read_stream_position as int, len, effective_bits);
            let (bit, s1) = if self.bitstream_read_mode {
                (
                    (t.raw[src / 8] >> ((7 - src % 8) as u8)) & 1,
                    DiskState {
                        byte_index: (src / 8) as usize,
                        read_stream_position: ((self.read_stream_position + 1) % effective_bits) as usize,
                        ..self
                    },
                )
            } else {
                ((t.raw[self.byte_index as int] >> ((7 - self.read_bit_phase) as u8)) & 1, self)
            };
            let shifted = ((s1.read_shift_register << 1u8) | bit) as u8;
            let phase = s1.read_bit_phase + 1;
            if phase < 8 {
                DiskState { read_shift_register: shifted, read_bit_phase: phase as u8, ..s1 }
            } else {
                let s2 = DiskState { read_shift_register: shifted, read_bit_phase: 0, ..s1 }.publish_byte(shifted);
                if !s2.bitstream_read_mode { s2.advance_read_rotation(len, t.read_length as int) } else { s2 }
            }
        }
    }

    /// One rotation slot without data transfer (32 cycles, or 4 in bitstream mode).
    pub open spec fn idle_step(self) -> DiskState {
        let t = self.tracks[self.current_track as int];
        if t.length == 0 {
            self
        } else if self.bitstream_read_mode {
            let effective_bits = effective_read_bits(t.length as int, t.read_length as int);
            DiskState { read_stream_position: ((self.read_stream_position + 1) % effective_bits) as usize, ..self }
        } else {
            self.advance_read_rotation(t.length as int, t.read_length as int)
        }
    }

    pub open spec fn sequencer_step(self, mode: SequencerMode) -> DiskState {
        match mode {
            SequencerMode::Write => self.write_bit(),
            SequencerMode::Read => self.read_bit(),
            SequencerMode::Idle => self.idle_step(),
        }
    }

    /// `n` consecutive sequencer slots.
    pub open spec fn repeat(self, mode: SequencerMode, n: nat) -> DiskState
        decreases n,
    {
        if n == 0 { self } else { self.repeat(mode, (n - 1) as nat).sequencer_step(mode) }
    }

    pub open spec fn sequencer_mode(self) -> SequencerMode {
        if self.spin_up_cycles == 0 && self.load_mode && !self.write_mode {
            SequencerMode::Write
        } else if self.spin_up_cycles == 0 && !self.load_mode && !self.write_mode {
            SequencerMode::Read
        } else {
            SequencerMode::Idle
        }
    }

    pub open spec fn slot_cycles(self) -> int {
        match self.sequencer_mode() {
            SequencerMode::Idle => if self.bitstream_read_mode { 4 } else { 32 },
            _ => 4,
        }
    }

    /// Advances the drive by `cycles` CPU cycles: the motor and spin-up timers
    /// run down; while the motor spins with a disk in, the cycles accumulate
    /// and every full slot of the current mode runs one sequencer step.
    pub open spec fn tick(self, cycles: u32) -> DiskState {
        let s1 = DiskState {
            motor_timer_cycles: if self.motor_timer_cycles >= cycles { (self.motor_timer_cycles - cycles) as u32 } else { 0 },
            spin_up_cycles: if self.spin_up_cycles >= cycles { (self.spin_up_cycles - cycles) as u32 } else { 0 },
            ..self
        };
        if (s1.motor_on || s1.motor_timer_cycles > 0) && s1.is_disk_loaded {
            let acc = s1.cycles_accumulator + cycles;
            let slot = s1.slot_cycles();
            DiskState { cycles_accumulator: (acc % slot) as u32, ..s1 }.repeat(s1.sequencer_mode(), (acc / slot) as nat)
        } else {
            s1
        }
    }
}

impl Disk2 {
    /// The controller state every operation needs and keeps: a 256-byte boot
    /// ROM, 40 well-formed track buffers of which those past the 35 tracks of
    /// an image stay empty, a read length per track no longer than a track
    /// buffer, and the head, rotation and sequencer counters in range.
    pub open spec fn wf(self) -> bool {
        self@.wf()
    }
}


impl Disk2 {
    pub fn new() -> (r: Self)
        ensures
            r.wf(),
            r@ == DiskState::initial(),
    {
        let mut tracks: Vec<TrackData> = Vec::new();
        for t in 0..40
            invariant
                tracks@.len() == t,
                forall|i: int| 0 <= i < t ==> (#[trigger] tracks@[i]).wf() && tracks@[i]@ == unformatted_track(),
        {
            tracks.push(TrackData::new());
        }
        let rom = vec![0u8; 256];
        let r = Self {
            rom,
            motor_on: false,
            motor_timer_cycles: 0,
            spin_up_cycles: 0,
            drive_select: 1,
            write_mode: false,
            load_mode: false,
            current_track: 0,
            tracks,
            is_disk_loaded: false,
            phases: [false, false, false, false],
            current_qtr_track: 0,
            byte_index: 0,
            cycles_accumulator: 0,
            data_latch: 0,
            read_shift_register: 0,
            read_bit_phase: 0,
            read_rotation_accumulator: 0,
            bitstream_read_mode: false,
            read_stream_position: 0,
            defer_read_latch_update: false,
            prologue_sync_tweak: false,
            prologue_sync_bytes_remaining: 0,
            recent_published_bytes: [0u8, 0u8, 0u8],
            pending_read_latch: None,
            write_ready: false,
            write_bit_phase: 0,
            is_dirty: false,
        };
        proof {
            assert(r@.tracks =~= Seq::new(DRIVE_TRACKS as nat, |t: int| unformatted_track()));
            assert(r@.rom =~= Seq::new(256, |i: int| 0u8));
            assert(r@.phases =~= seq![false, false, false, false]);
            assert(r@.recent_published_bytes =~= seq![0u8, 0, 0]);
        }
        r
    }
}


impl Disk2 {
    pub fn set_defer_read_latch_update(&mut self, enabled: bool)
        requires
            old(self).wf(),
        ensures
            final(self).wf(),
            final(self)@ == (DiskState { defer_read_latch_update: enabled, pending_read_latch: None, ..old(self)@ }),
    {
        self.defer_read_latch_update = enabled;
        self.pending_read_latch = None;
    }

    pub fn set_prologue_sync_tweak(&mut self, enabled: bool)
        requires
            old(self).wf(),
        ensures
            final(self).wf(),
            final(self)@ == (DiskState {
                prologue_sync_tweak: enabled,
                prologue_sync_bytes_remaining: 0,
                recent_published_bytes: seq![0u8, 0, 0],
                ..old(self)@
            }),
    {
        self.prologue_sync_tweak = enabled;
        self.prologue_sync_bytes_remaining = 0;
        self.recent_published_bytes = [0u8, 0u8, 0u8];
        proof {
            assert(self@.recent_published_bytes =~= seq![0u8, 0, 0]);
        }
    }

    pub fn set_bitstream_read_mode(&mut self, enabled: bool)
        requires
            old(self).wf(),
        ensures
            final(self).wf(),
            final(self)@ == (DiskState { bitstream_read_mode: enabled, read_stream_position: 0, byte_index: 0, ..old(self)@ }),
    {
        self.bitstream_read_mode = enabled;
        self.read_stream_position = 0;
        self.byte_index = 0;
    }

    fn note_published_byte(&mut self, value: u8)
        requires
            old(self).wf(),
        ensures
            final(self).wf(),
            final(self)@ == old(self)@.note_published_byte(value),
    {
        let r1 = self.recent_published_bytes[1];
        let r2 = self.recent_published_bytes[2];
        self.recent_published_bytes = [r1, r2, value];
        proof {
            assert(self@.recent_published_bytes =~= seq![old(self)@.recent_published_bytes[1], old(self)@.recent_published_bytes[2], value]);
        }
        if self.prologue_sync_tweak && r1 == 0xD5 && r2 == 0xAA && value == 0x96 {
            self.prologue_sync_bytes_remaining = 8;
        }
        proof {
            let r = seq![r1, r2, value];
            assert((r == seq![0xD5u8, 0xAA, 0x96]) == (r1 == 0xD5 && r2 == 0xAA && value == 0x96)) by {
                if r == seq![0xD5u8, 0xAA, 0x96] {
                    assert(r[0] == 0xD5 && r[1] == 0xAA && r[2] == 0x96);
                }
                if r1 == 0xD5 && r2 == 0xAA && value == 0x96 {
                    assert(r =~= seq![0xD5u8, 0xAA, 0x96]);
                }
            }
        }
    }

    /// Copies up to 256 bytes of the controller's boot ROM (slot 6 $C600).
    pub fn load_boot_rom(&mut self, rom_data: &[u8])
        requires
            old(self).wf(),
        ensures
            final(self).wf(),
            final(self)@ == (DiskState {
                rom: Seq::new(256, |i: int| if i < rom_data@.len() { rom_data@[i] } else { old(self)@.rom[i] }),
                ..old(self)@
            }),
    {
        let len = if rom_data.len() < 256 { rom_data.len() } else { 256 };
        proof {
            assert(self@.rom =~= Seq::new(256, |k: int| if k < 0 { rom_data@[k] } else { old(self)@.rom[k] }));
        }
        for i in 0..len
            invariant
                self.wf(),
                len <= rom_data@.len(),
                len <= 256,
                self@ == (DiskState {
                    rom: Seq::new(256, |k: int| if k < i { rom_data@[k] } else { old(self)@.rom[k] }),
                    ..old(self)@
                }),
        {
            self.rom.set(i, rom_data[i]);
            proof {
                assert(self@.rom =~= Seq::new(256, |k: int| if k < i + 1 { rom_data@[k] } else { old(self)@.rom[k] }));
            }
        }
        proof {
            assert(self@.rom =~= Seq::new(256, |k: int| if k < rom_data@.len() { rom_data@[k] } else { old(self)@.rom[k] }));
        }
    }

    fn reset_rotation_state(&mut self)
        requires
            old(self).wf(),
        ensures
            final(self).wf(),
            final(self)@ == old(self)@.reset_rotation(),
    {
        self.byte_index = 0;
        self.read_shift_register = 0;
        self.read_bit_phase = 0;
        self.read_rotation_accumulator = 0;
        self.read_stream_position = 0;
        self.prologue_sync_bytes_remaining = 0;
        self.recent_published_bytes = [0u8, 0u8, 0u8];
        self.pending_read_latch = None;
        self.write_bit_phase = 0;
        proof {
            assert(self@.recent_published_bytes =~= seq![0u8, 0, 0]);
        }
    }

    /// Inserts a 140KB DOS 3.3 image (exactly 143360 bytes; any other size is
    /// ignored): its 35 tracks are nibblized, the tracks past the image stay
    /// unformatted, and the rotation state restarts.
    pub fn load_disk(&mut self, disk_data: &[u8])
        requires
            old(self).wf(),
        ensures
            final(self).wf(),
            disk_data@.len() == DSK_BYTES ==> final(self)@ == (DiskState {
                tracks: Seq::new(DRIVE_TRACKS as nat, |t: int| if t < DSK_TRACKS { nibblized_track(disk_data@, t) } else { unformatted_track() }),
                is_disk_loaded: true,
                ..old(self)@
            }).reset_rotation(),
            disk_data@.len() != DSK_BYTES ==> final(self)@ == old(self)@,
    {
        if disk_data.len() == DSK_BYTES {
            let mut tracks = nibblize_dsk(disk_data);
            for t in 35..40
                invariant
                    tracks@.len() == t,
                    forall|i: int| 0 <= i < DSK_TRACKS ==> (#[trigger] tracks@[i]).wf() && tracks@[i]@ == nibblized_track(disk_data@, i),
                    forall|i: int| DSK_TRACKS <= i < t ==> (#[trigger] tracks@[i]).wf() && tracks@[i]@ == unformatted_track(),
            {
                tracks.push(TrackData::new());
            }
            self.tracks = tracks;
            self.is_disk_loaded = true;
            proof {
                assert(self@.tracks =~= Seq::new(DRIVE_TRACKS as nat, |t: int| if t < DSK_TRACKS { nibblized_track(disk_data@, t) } else { unformatted_track() }));
                assert forall|t: int| 0 <= t < DSK_TRACKS implies nibblized_track(disk_data@, t).read_length <= TRACK_CAPACITY by {}
            }
            self.reset_rotation_state();
        }
    }
}


fn distance(a: i32, b: i32) -> (r: i32)
    requires
        -1000 <= a <= 1000,
        -1000 <= b <= 1000,
    ensures
        r == (if a >= b { a - b } else { b - a }),
{
    if a >= b { a - b } else { b - a }
}

impl Disk2 {
    /// The stepper target of the energized coils, as in `stepper_target`.
    fn phase_target(&self) -> (r: Option<i32>)
        requires
            self.wf(),
        ensures
            r is None <==> self@.stepper_target() is None,
            r is Some ==> self@.stepper_target() == Some(r->0 as int),
    {
        let phase_mask: u8 = (if self.phases[0] { 1 } else { 0 }) + (if self.phases[1] { 2 } else { 0 })
            + (if self.phases[2] { 4 } else { 0 }) + (if self.phases[3] { 8 } else { 0 });
        // Canonical Disk II head positions across one 8-quarter-track cycle:
        // single-coil states land on even positions, adjacent dual-coil states on odd positions.
        if phase_mask == 1 {
            Some(0)
        } else if phase_mask == 3 {
            Some(1)
        } else if phase_mask == 2 {
            Some(2)
        } else if phase_mask == 6 {
            Some(3)
        } else if phase_mask == 4 {
            Some(4)
        } else if phase_mask == 12 {
            Some(5)
        } else if phase_mask == 8 {
            Some(6)
        } else if phase_mask == 9 {
            Some(7)
        } else {
            None
        }
    }

    fn nearest_head_position(q: i32, target_mod: i32) -> (r: i32)
        requires
            0 <= q <= MAX_QTR_TRACK,
            0 <= target_mod < 8,
        ensures
            r == head_target(q as int, target_mod as int),
            0 <= r <= MAX_QTR_TRACK,
    {
        let base = q / 8 * 8;
        let c0 = base + target_mod;
        let c1 = c0 - 8;
        let c2 = c0 + 8;
        let mut target_qtr = c0;
        let mut best_diff = distance(c0, q);
        let d1 = distance(c1, q);
        if d1 < best_diff {
            best_diff = d1;
            target_qtr = c1;
        }
        let d2 = distance(c2, q);
        if d2 < best_diff {
            target_qtr = c2;
        }
        // Expanded to 40 tracks (0-39)
        if target_qtr < 0 { 0 } else if target_qtr > MAX_QTR_TRACK { MAX_QTR_TRACK } else { target_qtr }
    }

    fn step_motor(&mut self)
        requires
            old(self).wf(),
        ensures
            final(self).wf(),
            final(self)@ == old(self)@.step_motor(),
    {
        let target_mod = match self.phase_target() {
            Some(t) => t,
            None => { return; },
        };
        let clamped = Self::nearest_head_position(self.current_qtr_track, target_mod);
        self.current_qtr_track = clamped;
        let next_track = (clamped / 4) as usize;
        if next_track != self.current_track {
            self.current_track = next_track;
            self.reset_rotation_state();
        }
    }

    fn handle_io(&mut self, addr: u16)
        requires
            old(self).wf(),
        ensures
            final(self).wf(),
            final(self)@ == old(self)@.handle_io(addr),
    {
        let switch = addr % 16;
        // Any access to $C0E0-$C0EF re-triggers the 1-second motor-on timer
        self.motor_timer_cycles = MOTOR_TIMEOUT_CYCLES;
        if switch < 8 {
            let phase = (switch / 2) as usize;
            let on = switch % 2 == 1;
            if on != self.phases[phase] {
                self.phases[phase] = on;
                self.step_motor();
            }
        } else if switch == 8 {
            self.motor_on = false;
        } else if switch == 9 {
            // If motor was completely off, start shorter spin-up delay
            if !self.motor_on && self.motor_timer_cycles == 0 {
                self.spin_up_cycles = 51_150;  // 50ms @ 1.023 MHz
            }
            self.motor_on = true;
        } else if switch == 10 {
            self.drive_select = 1;
        } else if switch == 11 {
            self.drive_select = 2;
        } else if switch == 12 {
            if self.load_mode && self.write_mode {
                self.write_bit_phase = 0;
            }
            self.write_mode = false;
        } else if switch == 13 {
            self.write_mode = true;
        } else if switch == 14 {
            self.load_mode = false;
        } else {
            self.load_mode = true;
        }
    }

    pub fn read_io(&mut self, addr: u16) -> (r: u8)
        requires
            old(self).wf(),
        ensures
            final(self).wf(),
            (final(self)@, r) == old(self)@.read_io(addr),
    {
        // Soft switches update state on both read and write
        self.handle_io(addr);
        let switch = addr % 16;
        // Drive motor is active if the flip-flop is on OR the 1-second timer is running
        if (self.motor_on || self.motor_timer_cycles > 0) && switch == 12 {
            // $C0EC (Q6_OFF): Read Data
            if !self.is_disk_loaded {
                return 0x00;
            }
            // If Q7 is ON (load_mode), we are shifting data out,
            // do NOT destructively read the latch.
            if self.load_mode {
                let ready = self.write_ready;
                self.write_ready = false;
                return if ready { 0x80 } else { 0x00 };
            }
            let val = self.data_latch;
            // Reading data when Q6=0 and Q7=0 clears the MSB (destructive read)
            self.data_latch = self.data_latch & 0x7F;
            return val;
        }
        // Q7=0,Q6=1 write-protect sense path reads as writable media; other
        // switches read 0.
        0x00
    }

    pub fn write_io(&mut self, addr: u16, data: u8)
        requires
            old(self).wf(),
        ensures
            final(self).wf(),
            final(self)@ == old(self)@.write_io(addr, data),
    {
        self.handle_io(addr);
        // When Q7=1 (load_mode) and Q6=1 (write_mode), we are in Write Load state.
        // The data bus is loaded into the controller's data register.
        if self.load_mode && self.write_mode && addr % 16 == 13 {
            self.data_latch = data;
        }
    }

    pub fn reset(&mut self)
        requires
            old(self).wf(),
        ensures
            final(self).wf(),
            final(self)@ == old(self)@.reset(),
    {
        self.motor_on = false;
        self.current_track = 0;
        self.cycles_accumulator = 0;
        self.data_latch = 0;
        self.write_ready = false;
        self.phases = [false, false, false, false];
        self.current_qtr_track = 0;
        proof {
            assert(self@.phases =~= seq![false, false, false, false]);
        }
        self.reset_rotation_state();
    }
}

impl Disk2 {
    fn effective_read_bit_length(actual_length: usize, read_length: usize) -> (r: usize)
        requires
            actual_length <= TRACK_CAPACITY,
            read_length <= TRACK_CAPACITY,
        ensures
            r == effective_read_bits(actual_length as int, read_length as int),
            1 <= r <= 8 * TRACK_CAPACITY,
    {
        let effective_read_length = if read_length == 0 { actual_length } else { read_length };
        let bits = effective_read_length * 8;
        if bits >= 1 { bits } else { 1 }
    }

    fn source_bit_index_for_stream(read_stream_position: usize, actual_length: usize, effective_bits: usize) -> (r: usize)
        requires
            1 <= actual_length <= TRACK_CAPACITY,
            1 <= effective_bits <= 8 * TRACK_CAPACITY,
        ensures
            r == source_bit_index(read_stream_position as int, actual_length as int, effective_bits as int),
            r < 8 * actual_length,
    {
        let actual_bits = actual_length * 8;
        let pos = read_stream_position % effective_bits;
        proof {
            assert(pos * actual_bits < 2_835_349_505) by (nonlinear_arith)
                requires
                    pos < 53248,
                    actual_bits <= 53248,
            ;
        }
        let scaled = pos * actual_bits / effective_bits;
        scaled % actual_bits
    }

    fn advance_read_stream_position(&mut self, effective_bits: usize)
        requires
            old(self).wf(),
            1 <= effective_bits <= 8 * TRACK_CAPACITY,
        ensures
            final(self).wf(),
            final(self)@ == (DiskState {
                read_stream_position: ((old(self).read_stream_position + 1) % (effective_bits as int)) as usize,
                ..old(self)@
            }),
    {
        self.read_stream_position = (self.read_stream_position + 1) % effective_bits;
    }

    #[verifier::rlimit(40)]
    fn advance_read_rotation(&mut self, actual_length: usize, read_length: usize)
        requires
            old(self).wf(),
            actual_length <= TRACK_CAPACITY,
            read_length <= TRACK_CAPACITY,
        ensures
            final(self).wf(),
            final(self)@ == old(self)@.advance_read_rotation(actual_length as int, read_length as int),
    {
        if actual_length == 0 {
            return;
        }
        if self.prologue_sync_bytes_remaining > 0 {
            self.prologue_sync_bytes_remaining = self.prologue_sync_bytes_remaining - 1;
            self.byte_index = (self.byte_index + 1) % actual_length;
            return;
        }
        let effective_read_length = if read_length == 0 { actual_length } else { read_length };
        if effective_read_length <= actual_length {
            self.byte_index = (self.byte_index + 1) % actual_length;
            return;
        }
        let acc = self.read_rotation_accumulator + actual_length;
        if acc >= effective_read_length {
            self.read_rotation_accumulator = acc - effective_read_length;
            self.byte_index = (self.byte_index + 1) % actual_length;
        } else {
            self.read_rotation_accumulator = acc;
        }
    }

    fn publish_byte(&mut self, published: u8)
        requires
            old(self).wf(),
        ensures
            final(self).wf(),
            final(self)@ == old(self)@.publish_byte(published),
    {
        let valid = published & 0x80 != 0;
        if self.defer_read_latch_update {
            match self.pending_read_latch {
                Some(p) => { self.data_latch = p; },
                None => {},
            }
            self.pending_read_latch = if valid { Some(published) } else { None };
        } else if valid {
            self.data_latch = published;
        }
        if valid {
            self.note_published_byte(published);
        }
    }

    fn write_bit_step(&mut self)
        requires
            old(self).wf(),
        ensures
            final(self).wf(),
            final(self)@ == old(self)@.write_bit(),
    {
        let ct = self.current_track;
        let length = self.tracks[ct].length;
        if length == 0 {
            return;
        }
        let bit_pos: u8 = 7 - self.write_bit_phase;
        let mask: u8 = 1u8 << bit_pos;
        let bi = self.byte_index;
        let old_byte = self.tracks[ct].raw_bytes[bi];
        let new_byte = if (self.data_latch >> bit_pos) & 1 != 0 { old_byte | mask } else { old_byte & !mask };
        self.tracks[ct].raw_bytes.set(bi, new_byte);
        proof {
            let t = old(self)@.tracks[ct as int];
            let nt = TrackState { raw: t.raw.update(bi as int, new_byte), ..t };
            assert(self@.tracks =~= old(self)@.tracks.update(ct as int, nt));
        }
        self.is_dirty = true;
        self.write_bit_phase = self.write_bit_phase + 1;
        if self.write_bit_phase >= 8 {
            self.write_bit_phase = 0;
            self.write_ready = true;
            self.byte_index = (self.byte_index + 1) % length;
        }
    }
}

impl Disk2 {
    fn read_bit_step(&mut self)
        requires
            old(self).wf(),
        ensures
            final(self).wf(),
            final(self)@ == old(self)@.read_bit(),
    {
        let ct = self.current_track;
        let len = self.tracks[ct].length;
        if len == 0 {
            return;
        }
        let read_length = self.tracks[ct].read_length;
        let bit: u8 = if self.bitstream_read_mode {
            let effective_bits = Self::effective_read_bit_length(len, read_length);
            let src = Self::source_bit_index_for_stream(self.read_stream_position, len, effective_bits);
            let source_byte_index = src / 8;
            let source_bit_phase = src % 8;
            self.byte_index = source_byte_index;
            let b = (self.tracks[ct].raw_bytes[source_byte_index] >> ((7 - source_bit_phase) as u8)) & 1;
            self.advance_read_stream_position(effective_bits);
            b
        } else {
            (self.tracks[ct].raw_bytes[self.byte_index] >> (7 - self.read_bit_phase)) & 1
        };
        self.read_shift_register = (self.read_shift_register << 1u8) | bit;
        self.read_bit_phase = self.read_bit_phase + 1;
        if self.read_bit_phase >= 8 {
            self.read_bit_phase = 0;
            let published_byte = self.read_shift_register;
            self.publish_byte(published_byte);
            if !self.bitstream_read_mode {
                self.advance_read_rotation(len, read_length);
            }
        }
    }

    fn idle_step(&mut self)
        requires
            old(self).wf(),
        ensures
            final(self).wf(),
            final(self)@ == old(self)@.idle_step(),
    {
        let ct = self.current_track;
        let len = self.tracks[ct].length;
        if len > 0 {
            let read_length = self.tracks[ct].read_length;
            if self.bitstream_read_mode {
                let effective_bits = Self::effective_read_bit_length(len, read_length);
                self.advance_read_stream_position(effective_bits);
            } else {
                self.advance_read_rotation(len, read_length);
            }
        }
    }

    fn sequencer_mode(&self) -> (r: SequencerMode)
        ensures
            r == self@.sequencer_mode(),
    {
        if self.spin_up_cycles == 0 && self.load_mode && !self.write_mode {
            SequencerMode::Write
        } else if self.spin_up_cycles == 0 && !self.load_mode && !self.write_mode {
            SequencerMode::Read
        } else {
            SequencerMode::Idle
        }
    }

    fn sequencer_step(&mut self, mode: SequencerMode)
        requires
            old(self).wf(),
        ensures
            final(self).wf(),
            final(self)@ == old(self)@.sequencer_step(mode),
    {
        match mode {
            SequencerMode::Write => self.write_bit_step(),
            SequencerMode::Read => self.read_bit_step(),
            SequencerMode::Idle => self.idle_step(),
        }
    }

    /// Advances the drive by `cycles` CPU cycles (see `DiskState::tick`).
    pub fn tick(&mut self, cycles: u32)
        requires
            old(self).wf(),
            old(self).cycles_accumulator + cycles <= u32::MAX,
        ensures
            final(self).wf(),
            final(self)@ == old(self)@.tick(cycles),
    {
        // Decrement timers
        self.motor_timer_cycles = self.motor_timer_cycles.saturating_sub(cycles);
        self.spin_up_cycles = self.spin_up_cycles.saturating_sub(cycles);
        let motor_is_spinning = self.motor_on || self.motor_timer_cycles > 0;
        if motor_is_spinning && self.is_disk_loaded {
            let mode = self.sequencer_mode();
            // Write and read slots take 4 cycles (one bit); an idle slot is a
            // byte time, or a bit time in bitstream mode.
            let step_cycles: u32 = match mode {
                SequencerMode::Idle => if self.bitstream_read_mode { 4 } else { 32 },
                _ => 4,
            };
            let acc = self.cycles_accumulator + cycles;
            let steps = acc / step_cycles;
            self.cycles_accumulator = acc % step_cycles;
            let ghost start = self@;
            let mut i: u32 = 0;
            while i < steps
                invariant
                    i <= steps,
                    self.wf(),
                    self@ == start.repeat(mode, i as nat),
                decreases steps - i,
            {
                self.sequencer_step(mode);
                i = i + 1;
            }
        }
    }
}

/// The head moves at most half a track (4 quarter tracks) per change of the
/// coils, and stays on tracks 0..=39.
pub proof fn law_stepper_moves_at_most_half_a_track(s: DiskState)
    requires
        s.wf(),
    ensures
        s.step_motor().wf(),
        -4 <= s.step_motor().current_qtr_track - s.current_qtr_track <= 4,
{
    match s.stepper_target() {
        None => {},
        Some(t) => {
            let q = s.current_qtr_track as int;
            assert(0 <= t < 8);
            assert(0 <= q - (q / 8) * 8 < 8);
            let h = head_target(q, t);
            assert(-4 <= h - q <= 4);
            assert(0 <= h <= 156);
        },
    }
}

impl DiskState {
    /// The state with its cycle accumulator and timers replaced.
    pub open spec fn with_timing(self, acc: u32, motor_timer: u32, spin_up: u32) -> DiskState {
        DiskState { cycles_accumulator: acc, motor_timer_cycles: motor_timer, spin_up_cycles: spin_up, ..self }
    }
}

/// What a sequencer slot leaves alone: the cycle accumulator, the timers,
/// the motor, the head and the switches that choose the mode; and the slot
/// does the same whatever the accumulator and the timers hold.
pub open spec fn step_keeps_frame(s: DiskState, t: DiskState, acc: u32, motor_timer: u32, spin_up: u32, mode: SequencerMode) -> bool {
    &&& s.with_timing(acc, motor_timer, spin_up).sequencer_step(mode) == t.with_timing(acc, motor_timer, spin_up)
    &&& t.cycles_accumulator == s.cycles_accumulator
    &&& t.motor_timer_cycles == s.motor_timer_cycles
    &&& t.spin_up_cycles == s.spin_up_cycles
    &&& t.motor_on == s.motor_on
    &&& t.is_disk_loaded == s.is_disk_loaded
    &&& t.load_mode == s.load_mode
    &&& t.write_mode == s.write_mode
    &&& t.bitstream_read_mode == s.bitstream_read_mode
    &&& t.current_track == s.current_track
    &&& t.tracks.len() == s.tracks.len()
}

proof fn lemma_write_step_frame(s: DiskState, acc: u32, motor_timer: u32, spin_up: u32)
    requires
        s.current_track < s.tracks.len(),
    ensures
        step_keeps_frame(s, s.sequencer_step(SequencerMode::Write), acc, motor_timer, spin_up, SequencerMode::Write),
{
    let u = s.with_timing(acc, motor_timer, spin_up);
    assert(u.tracks == s.tracks && u.current_track == s.current_track);
    assert(u.write_bit() == s.write_bit().with_timing(acc, motor_timer, spin_up));
}

proof fn lemma_idle_step_frame(s: DiskState, acc: u32, motor_timer: u32, spin_up: u32)
    ensures
        step_keeps_frame(s, s.sequencer_step(SequencerMode::Idle), acc, motor_timer, spin_up, SequencerMode::Idle),
{
    let u = s.with_timing(acc, motor_timer, spin_up);
    assert(u.idle_step() == s.idle_step().with_timing(acc, motor_timer, spin_up));
}

proof fn lemma_publish_frame(s: DiskState, v: u8, acc: u32, motor_timer: u32, spin_up: u32)
    ensures
        s.with_timing(acc, motor_timer, spin_up).publish_byte(v) == s.publish_byte(v).with_timing(acc, motor_timer, spin_up),
        s.publish_byte(v).with_timing(acc, motor_timer, spin_up).current_track == s.current_track,
        s.publish_byte(v).tracks == s.tracks,
        s.publish_byte(v).cycles_accumulator == s.cycles_accumulator,
        s.publish_byte(v).motor_timer_cycles == s.motor_timer_cycles,
        s.publish_byte(v).spin_up_cycles == s.spin_up_cycles,
        s.publish_byte(v).motor_on == s.motor_on,
        s.publish_byte(v).is_disk_loaded == s.is_disk_loaded,
        s.publish_byte(v).load_mode == s.load_mode,
        s.publish_byte(v).write_mode == s.write_mode,
        s.publish_byte(v).bitstream_read_mode == s.bitstream_read_mode,
        s.publish_byte(v).current_track == s.current_track,
{
}

proof fn lemma_rotation_frame(s: DiskState, len: int, read_len: int, acc: u32, motor_timer: u32, spin_up: u32)
    ensures
        s.with_timing(acc, motor_timer, spin_up).advance_read_rotation(len, read_len)
            == s.advance_read_rotation(len, read_len).with_timing(acc, motor_timer, spin_up),
        s.advance_read_rotation(len, read_len).tracks == s.tracks,
        s.advance_read_rotation(len, read_len).cycles_accumulator == s.cycles_accumulator,
        s.advance_read_rotation(len, read_len).motor_timer_cycles == s.motor_timer_cycles,
        s.advance_read_rotation(len, read_len).spin_up_cycles == s.spin_up_cycles,
        s.advance_read_rotation(len, read_len).motor_on == s.motor_on,
        s.advance_read_rotation(len, read_len).is_disk_loaded == s.is_disk_loaded,
        s.advance_read_rotation(len, read_len).load_mode == s.load_mode,
        s.advance_read_rotation(len, read_len).write_mode == s.write_mode,
        s.advance_read_rotation(len, read_len).bitstream_read_mode == s.bitstream_read_mode,
        s.advance_read_rotation(len, read_len).current_track == s.current_track,
{
}

proof fn lemma_read_step_frame(s: DiskState, acc: u32, motor_timer: u32, spin_up: u32)
    ensures
        step_keeps_frame(s, s.sequencer_step(SequencerMode::Read), acc, motor_timer, spin_up, SequencerMode::Read),
{
    let u = s.with_timing(acc, motor_timer, spin_up);
    let t = s.tracks[s.current_track as int];
    if t.length != 0 {
        let len = t.length as int;
        let effective_bits = effective_read_bits(len, t.read_length as int);
        let src = source_bit_index(s.read_stream_position as int, len, effective_bits);
        let (bit, s1) = if s.bitstream_read_mode {
            (
                (t.raw[src / 8] >> ((7 - src % 8) as u8)) & 1,
                DiskState {
                    byte_index: (src / 8) as usize,
                    read_stream_position: ((s.read_stream_position + 1) % effective_bits) as usize,
                    ..s
                },
            )
        } else {
            ((t.raw[s.byte_index as int] >> ((7 - s.read_bit_phase) as u8)) & 1, s)
        };
        let shifted = ((s1.read_shift_register << 1u8) | bit) as u8;
        let s2 = DiskState { read_shift_register: shifted, read_bit_phase: 0, ..s1 };
        lemma_publish_frame(s2, shifted, acc, motor_timer, spin_up);
        lemma_rotation_frame(s2.publish_byte(shifted), len, t.read_length as int, acc, motor_timer, spin_up);
    }
    assert(u.read_bit() == s.read_bit().with_timing(acc, motor_timer, spin_up));
}

/// Every sequencer slot keeps the frame (see `step_keeps_frame`).
proof fn lemma_sequencer_step_frame(s: DiskState, mode: SequencerMode, acc: u32, motor_timer: u32, spin_up: u32)
    requires
        s.current_track < s.tracks.len(),
    ensures
        step_keeps_frame(s, s.sequencer_step(mode), acc, motor_timer, spin_up, mode),
{
    match mode {
        SequencerMode::Write => lemma_write_step_frame(s, acc, motor_timer, spin_up),
        SequencerMode::Read => lemma_read_step_frame(s, acc, motor_timer, spin_up),
        SequencerMode::Idle => lemma_idle_step_frame(s, acc, motor_timer, spin_up),
    }
}

/// `n` sequencer slots keep the frame too.
proof fn lemma_repeat_frame(s: DiskState, mode: SequencerMode, n: nat, acc: u32, motor_timer: u32, spin_up: u32)
    requires
        s.current_track < s.tracks.len(),
    ensures
        s.with_timing(acc, motor_timer, spin_up).repeat(mode, n) == s.repeat(mode, n).with_timing(acc, motor_timer, spin_up),
        s.repeat(mode, n).cycles_accumulator == s.cycles_accumulator,
        s.repeat(mode, n).motor_timer_cycles == s.motor_timer_cycles,
        s.repeat(mode, n).spin_up_cycles == s.spin_up_cycles,
        s.repeat(mode, n).motor_on == s.motor_on,
        s.repeat(mode, n).is_disk_loaded == s.is_disk_loaded,
        s.repeat(mode, n).load_mode == s.load_mode,
        s.repeat(mode, n).write_mode == s.write_mode,
        s.repeat(mode, n).bitstream_read_mode == s.bitstream_read_mode,
        s.repeat(mode, n).current_track == s.current_track,
        s.repeat(mode, n).tracks.len() == s.tracks.len(),
    decreases n,
{
    if n > 0 {
        let k = (n - 1) as nat;
        lemma_repeat_frame(s, mode, k, acc, motor_timer, spin_up);
        let r = s.repeat(mode, k);
        lemma_sequencer_step_frame(r, mode, acc, motor_timer, spin_up);
    }
}

/// `a` slots and then `b` more are `a + b` slots.
proof fn lemma_repeat_add(s: DiskState, mode: SequencerMode, a: nat, b: nat)
    ensures
        s.repeat(mode, a).repeat(mode, b) == s.repeat(mode, a + b),
    decreases b,
{
    if b > 0 {
        lemma_repeat_add(s, mode, a, (b - 1) as nat);
        assert(s.repeat(mode, (a + b) as nat) == s.repeat(mode, (a + b - 1) as nat).sequencer_step(mode));
    }
}

/// Dividing `x + b` by `d` in two goes: first `x`, then the remainder plus `b`.
proof fn lemma_split_division(x: int, b: int, d: int)
    requires
        x >= 0,
        b >= 0,
        d > 0,
    ensures
        (x + b) / d == x / d + (x % d + b) / d,
        (x + b) % d == (x % d + b) % d,
{
    let q1 = x / d;
    let r1 = x % d;
    let q2 = (r1 + b) / d;
    let r2 = (r1 + b) % d;
    vstd::arithmetic::div_mod::lemma_fundamental_div_mod(x, d);
    vstd::arithmetic::div_mod::lemma_fundamental_div_mod(r1 + b, d);
    assert(x + b == (q1 + q2) * d + r2) by (nonlinear_arith)
        requires
            x == d * q1 + r1,
            r1 + b == d * q2 + r2,
    ;
    vstd::arithmetic::div_mod::lemma_fundamental_div_mod_converse(x + b, d, q1 + q2, r2);
}

/// Splitting a span of cycles never changes what the drive does: with the
/// motor on, spun up and a disk in, ticking `a` cycles and then `b` cycles
/// leaves the drive exactly as ticking `a + b` cycles at once. (The first
/// tick leaves no more in the cycle accumulator than it found plus `a`, so when
/// the two calls fit the accumulator's range, so does the second.)
#[verifier::rlimit(100)]
pub proof fn law_tick_split(s: DiskState, a: u32, b: u32)
    requires
        s.current_track < s.tracks.len(),
        s.motor_on,
        s.spin_up_cycles == 0,
        s.is_disk_loaded,
        a + b <= u32::MAX,
    ensures
        s.tick(a).tick(b) == s.tick((a + b) as u32),
        s.tick(a).cycles_accumulator <= s.cycles_accumulator + a,
        s.tick(a).cycles_accumulator < 32,
{
    let mt = s.motor_timer_cycles;
    let mt1: u32 = if mt >= a { (mt - a) as u32 } else { 0 };
    let mt2: u32 = if mt1 >= b { (mt1 - b) as u32 } else { 0 };
    let mt12: u32 = if mt >= a + b { (mt - (a + b)) as u32 } else { 0 };
    assert(mt2 == mt12);
    let s1 = s.with_timing(s.cycles_accumulator, mt1, 0);
    let mode = s1.sequencer_mode();
    let slot = s1.slot_cycles();
    assert(slot == 4 || slot == 32);
    let acc1 = s.cycles_accumulator + a;
    let r1 = acc1 % slot;
    let n1 = (acc1 / slot) as nat;
    let x = s.with_timing(r1 as u32, mt1, 0);
    assert(s.tick(a) == x.repeat(mode, n1));
    let ta = x.repeat(mode, n1);
    lemma_repeat_frame(x, mode, n1, 0, 0, 0);
    let acc2 = r1 + b;
    let r2 = acc2 % slot;
    let n2 = (acc2 / slot) as nat;
    let total = s.cycles_accumulator + a + b;
    lemma_split_division(acc1, b as int, slot);
    let y = s.with_timing(r2 as u32, mt2, 0);
    assert(ta.with_timing(ta.cycles_accumulator, mt2, 0).sequencer_mode() == mode);
    assert(ta.with_timing(ta.cycles_accumulator, mt2, 0).slot_cycles() == slot);
    assert(s.tick(a).tick(b) == ta.with_timing(r2 as u32, mt2, 0).repeat(mode, n2));
    lemma_repeat_frame(x, mode, n1, r2 as u32, mt2, 0);
    assert(x.with_timing(r2 as u32, mt2, 0) == y);
    lemma_repeat_add(y, mode, n1, n2);
    assert(s.tick((a + b) as u32) == y.repeat(mode, n1 + n2));
}

/// The head is always over one of the 40 track buffers: a switch access
/// moves it at most to track 39 and keeps the buffers, and running the drive
/// keeps the head where it is and the 40 buffers in place.
pub proof fn law_head_stays_on_a_track_buffer(s: DiskState, addr: u16, data: u8, cycles: u32)
    requires
        s.wf(),
    ensures
        s.read_io(addr).0.current_track < s.read_io(addr).0.tracks.len() == DRIVE_TRACKS,
        s.read_io(addr).0.tracks == s.tracks,
        s.write_io(addr, data).current_track < s.write_io(addr, data).tracks.len() == DRIVE_TRACKS,
        s.write_io(addr, data).tracks == s.tracks,
        s.tick(cycles).current_track == s.current_track,
        s.tick(cycles).tracks.len() == DRIVE_TRACKS,
{
    let switch = addr % 16;
    let h = DiskState { motor_timer_cycles: MOTOR_TIMEOUT_CYCLES, ..s };
    if switch < 8 {
        let phase = switch / 2;
        let on = switch % 2 == 1;
        let moved = DiskState { phases: h.phases.update(phase as int, on), ..h };
        law_stepper_moves_at_most_half_a_track(moved);
    }
    let s1 = DiskState {
        motor_timer_cycles: if s.motor_timer_cycles >= cycles { (s.motor_timer_cycles - cycles) as u32 } else { 0 },
        spin_up_cycles: if s.spin_up_cycles >= cycles { (s.spin_up_cycles - cycles) as u32 } else { 0 },
        ..s
    };
    let acc = s1.cycles_accumulator + cycles;
    let slot = s1.slot_cycles();
    let base = DiskState { cycles_accumulator: (acc % slot) as u32, ..s1 };
    lemma_repeat_frame(base, s1.sequencer_mode(), (acc / slot) as nat, 0, 0, 0);
}

} // verus!

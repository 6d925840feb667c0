//! Tools of the boot and disk probes: looking at memory without bus side
//! effects, text screen dumps, typing key sequences into a running machine,
//! a joystick calibration schedule, and address-field surgery on nibblized
//! tracks.
use vstd::prelude::*;
use std::collections::VecDeque;
use vstd::string::StringSliceAdditionalSpecFns;
use crate::cpu::CPU;
use crate::machine::{Apple2Machine, machine_step};
use crate::memory::{MemoryState, MAX_CYCLE_BASE};
use crate::nibble::TrackData;

verus! {

/// The byte at `addr` as the CPU would see it with the language card off,
/// without touching a soft switch: RAM below $C000, ROM from $D000, and 0
/// in the I/O page.
pub open spec fn peek(mem: MemoryState, addr: u16) -> u8 {
    if addr < 0xC000 {
        mem.ram[addr as int]
    } else if addr >= 0xD000 {
        mem.rom[addr - 0xD000]
    } else {
        0
    }
}

pub fn peek_byte(machine: &Apple2Machine, addr: u16) -> (r: u8)
    requires
        machine.wf(),
    ensures
        r == peek(machine.mem@, addr),
{
    if addr < 0xC000 {
        machine.mem.ram[addr as usize]
    } else if addr >= 0xD000 {
        machine.mem.rom[(addr - 0xD000) as usize]
    } else {
        0
    }
}

/// Little-endian word at `addr` (see `peek`).
pub fn peek_word(machine: &Apple2Machine, addr: u16) -> (r: u16)
    requires
        machine.wf(),
    ensures
        r == peek(machine.mem@, addr) + 256 * peek(machine.mem@, addr.wrapping_add(1)),
{
    let lo = peek_byte(machine, addr) as u16;
    let hi = peek_byte(machine, addr.wrapping_add(1)) as u16;
    hi * 256 + lo
}

/// Why control went from `from` to `to`: a BRK into the BRK vector, a
/// `JMP abs`, a `JMP (ind)`, a jump to the reset vector, or something else.
pub open spec fn control_transfer_kind(mem: MemoryState, from: u16, to: u16) -> &'static str {
    let opcode = peek(mem, from);
    let brk_vector = peek(mem, 0xFFFE) + 256 * peek(mem, 0xFFFF);
    let reset_vector = peek(mem, 0xFFFC) + 256 * peek(mem, 0xFFFD);
    if opcode == 0x00 && to == brk_vector {
        "brk_vector"
    } else if opcode == 0x4C {
        "jmp_abs"
    } else if opcode == 0x6C {
        "jmp_ind"
    } else if to == reset_vector {
        "reset_vector"
    } else {
        "other"
    }
}

pub fn classify_control_transfer(machine: &Apple2Machine, from: u16, to: u16) -> (r: &'static str)
    requires
        machine.wf(),
    ensures
        r == control_transfer_kind(machine.mem@, from, to),
{
    let opcode = peek_byte(machine, from);
    let brk_vector = peek_word(machine, 0xFFFE);
    let reset_vector = peek_word(machine, 0xFFFC);
    if opcode == 0x00 && to == brk_vector {
        "brk_vector"
    } else if opcode == 0x4C {
        "jmp_abs"
    } else if opcode == 0x6C {
        "jmp_ind"
    } else if to == reset_vector {
        "reset_vector"
    } else {
        "other"
    }
}

/// First byte of text row `row` of the text page at `page_base` ($0400 or
/// $0800; the interleave is the same on both pages).
pub fn text_page_row_addr(page_base: usize, row: usize) -> (r: usize)
    requires
        page_base + (row % 8) * 128 + (row / 8) * 40 <= usize::MAX,
    ensures
        r == page_base + (row % 8) * 128 + (row / 8) * 40,
{
    page_base + (row % 8) * 128 + (row / 8) * 40
}

/// How a screen byte shows in a dump: its low seven bits as an ASCII
/// character when printable, `filler` otherwise.
pub open spec fn dump_char(b: u8, filler: char) -> char {
    let ch = b & 0x7F;
    if 0x20 <= ch <= 0x7E { ch as char } else { filler }
}

/// The 40 characters of text row `row` of the text page at `page_base`.
pub open spec fn page_line(ram: Seq<u8>, page_base: int, row: int, filler: char) -> Seq<char> {
    Seq::new(40, |col: int| dump_char(ram[page_base + (row % 8) * 128 + (row / 8) * 40 + col], filler))
}

/// A text page ($0400 or $0800) as 24 lines of 40 characters, unprintable
/// bytes shown as `filler`.
pub fn text_page_lines(machine: &Apple2Machine, page_base: usize, filler: char) -> (r: Vec<String>)
    requires
        machine.wf(),
        page_base == 0x0400 || page_base == 0x0800,
    ensures
        r@.len() == 24,
        forall|row: int| 0 <= row < 24 ==> #[trigger] r@[row]@ == page_line(machine.mem@.ram, page_base as int, row, filler),
{
    let mut lines: Vec<String> = Vec::new();
    for row in 0..24
        invariant
            machine.wf(),
            page_base == 0x0400 || page_base == 0x0800,
            lines@.len() == row,
            forall|k: int| 0 <= k < row ==> #[trigger] lines@[k]@ == page_line(machine.mem@.ram, page_base as int, k, filler),
    {
        let mut line = String::new();
        let addr: usize = page_base + (row % 8) * 128 + (row / 8) * 40;
        for col in 0..40
            invariant
                machine.wf(),
                addr == page_base + (row % 8) * 128 + (row / 8) * 40,
                page_base == 0x0400 || page_base == 0x0800,
                row < 24,
                line@ == page_line(machine.mem@.ram, page_base as int, row as int, filler).take(col as int),
        {
            let ch = machine.mem.ram[addr + col] & 0x7F;
            if 0x20 <= ch && ch <= 0x7E {
                line.push(ch as char);
            } else {
                line.push(filler);
            }
            proof {
                assert(line@ =~= page_line(machine.mem@.ram, page_base as int, row as int, filler).take(col + 1));
            }
        }
        proof {
            assert(line@ =~= page_line(machine.mem@.ram, page_base as int, row as int, filler));
        }
        lines.push(line);
    }
    lines
}

/// The text screen (page 1) as 24 lines of 40 characters, unprintable bytes
/// shown as spaces.
pub fn screen_lines(machine: &Apple2Machine) -> (r: Vec<String>)
    requires
        machine.wf(),
    ensures
        r@.len() == 24,
        forall|row: int| 0 <= row < 24 ==> #[trigger] r@[row]@ == page_line(machine.mem@.ram, 0x0400, row, ' '),
{
    text_page_lines(machine, 0x0400, ' ')
}

/// A typed byte: ASCII lower-case letters become upper case.
pub open spec fn upper_byte(b: u8) -> u8 {
    if 0x61 <= b <= 0x7A { (b - 32) as u8 } else { b }
}

/// Queues the bytes of a line for typing, upper-cased, then a return.
pub fn enqueue_line(queue: &mut VecDeque<u8>, line: &str)
    ensures
        final(queue)@ == old(queue)@ + Seq::new(line.spec_bytes().len(), |i: int| upper_byte(line.spec_bytes()[i]))
            + seq![0x0Du8],
{
    let bytes = line.as_bytes();
    let ghost start = queue@;
    for i in 0..bytes.len()
        invariant
            bytes@ == line.spec_bytes(),
            queue@ == start + Seq::new(i as nat, |k: int| upper_byte(bytes@[k])),
    {
        let b = bytes[i];
        queue.push_back(if 0x61 <= b && b <= 0x7A { b - 32 } else { b });
        proof {
            assert(queue@ =~= start + Seq::new((i + 1) as nat, |k: int| upper_byte(bytes@[k])));
        }
    }
    queue.push_back(0x0D);
    proof {
        assert(queue@ =~= start + Seq::new(line.spec_bytes().len(), |i: int| upper_byte(line.spec_bytes()[i])) + seq![0x0Du8]);
    }
}

/// Pending escape while reading a key string: none, after a backslash, or
/// after a caret.
pub enum Pending {
    Nothing,
    Escape,
    Control,
}

/// The key code of an escape `\k`: `\r` and `\n` are return, `\t` tab, and
/// any other character stands for itself (its low byte).
pub open spec fn escape_code(k: char) -> u8 {
    if k == 'r' || k == 'n' { 0x0D } else if k == 't' { 0x09 } else { (k as u32) as u8 }
}

/// The key code of `^k`: the control code of the upper-cased character.
pub open spec fn control_code(k: char) -> u8 {
    let c = k as u32;
    let upper = if 0x61 <= c <= 0x7A { (c - 32) as u32 } else { c };
    (upper as u8) & 0x1F
}

/// The key codes of a key string read so far, and what is pending.
pub open spec fn parse_keys(cs: Seq<char>) -> (Seq<u8>, Pending)
    decreases cs.len(),
{
    if cs.len() == 0 {
        (Seq::empty(), Pending::Nothing)
    } else {
        let (out, pending) = parse_keys(cs.drop_last());
        let c = cs.last();
        match pending {
            Pending::Escape => (out.push(escape_code(c)), Pending::Nothing),
            Pending::Control => (out.push(control_code(c)), Pending::Nothing),
            Pending::Nothing => {
                if c == '\\' {
                    (out, Pending::Escape)
                } else if c == '^' {
                    (out, Pending::Control)
                } else {
                    (out.push((c as u32) as u8), Pending::Nothing)
                }
            },
        }
    }
}

/// Expands `\r`, `\n`, `\t`, `\\` and `^X` (Ctrl-X) escapes in a key
/// string into raw key codes; other characters type their low byte, and an
/// escape cut off at the end types nothing.
pub fn parse_type_string(s: &str) -> (r: Vec<u8>)
    ensures
        r@ == parse_keys(s@).0,
{
    let mut out: Vec<u8> = Vec::new();
    let mut pending = Pending::Nothing;
    let ghost mut n: int = 0;
    broadcast use vstd::string::axiom_spec_iter;
    for c in it: s.chars()
        invariant
            n == it.index(),
            it.seq() == s@,
            (out@, pending) == parse_keys(s@.take(n)),
    {
        proof {
            assert(s@.take(n + 1).drop_last() =~= s@.take(n));
            assert(s@.take(n + 1).last() == c);
        }
        let code = c as u32;
        match pending {
            Pending::Escape => {
                let k: u8 = if c == 'r' || c == 'n' { 0x0D } else if c == 't' { 0x09 } else { code as u8 };
                out.push(k);
                pending = Pending::Nothing;
            },
            Pending::Control => {
                let upper: u32 = if 0x61 <= code && code <= 0x7A { code - 32 } else { code };
                out.push((upper as u8) & 0x1F);
                pending = Pending::Nothing;
            },
            Pending::Nothing => {
                if c == '\\' {
                    pending = Pending::Escape;
                } else if c == '^' {
                    pending = Pending::Control;
                } else {
                    out.push(code as u8);
                }
            },
        }
        proof {
            n = n + 1;
        }
    }
    proof {
        assert(s@.take(n) =~= s@);
    }
    out
}

/// Puts the next queued key on the keyboard once the program has taken the
/// previous one (the latch's strobe bit is clear).
pub open spec fn feed_key(mem: MemoryState, queue: Seq<u8>) -> (MemoryState, Seq<u8>) {
    if mem.keyboard_latch & 0x80 == 0 && queue.len() > 0 {
        (MemoryState { keyboard_latch: 0x80 | queue[0], ..mem }, queue.drop_first())
    } else {
        (mem, queue)
    }
}

/// The machine (CPU, memory, cycle count) and key queue after running
/// instructions until at least `target - ran` more cycles have passed,
/// feeding a queued key before each instruction.
pub open spec fn pumped(cpu: CPU, mem: MemoryState, total: u64, queue: Seq<u8>, ran: int, target: int)
    -> (CPU, MemoryState, u64, Seq<u8>)
    decreases (if target > ran { target - ran } else { 0 }),
{
    if ran >= target {
        (cpu, mem, total, queue)
    } else {
        let (m1, q1) = feed_key(mem, queue);
        let (c2, m2, t2, cycles) = machine_step(cpu, m1, total);
        if cycles == 0 {
            (c2, m2, t2, q1)
        } else {
            pumped(c2, m2, t2, q1, ran + cycles, target)
        }
    }
}

/// Types the next queued key once the program has taken the previous one.
fn feed_next_key(machine: &mut Apple2Machine, queue: &mut VecDeque<u8>)
    requires
        old(machine).wf(),
    ensures
        final(machine).wf(),
        final(machine).cpu == old(machine).cpu,
        final(machine).total_cycles == old(machine).total_cycles,
        (final(machine).mem@, final(queue)@) == feed_key(old(machine).mem@, old(queue)@),
{
    if (machine.mem.keyboard_latch & 0x80) == 0 {
        match queue.pop_front() {
            Some(ch) => {
                machine.mem.keyboard_latch = 0x80 | ch;
            },
            None => {},
        }
    }
}

/// Runs the machine for at least `target_cycles` cycles, typing queued keys
/// as the program reads them.
pub fn pump(machine: &mut Apple2Machine, queue: &mut VecDeque<u8>, target_cycles: u64)
    requires
        old(machine).wf(),
        old(machine).total_cycles + target_cycles <= MAX_CYCLE_BASE,
    ensures
        final(machine).wf(),
        (final(machine).cpu, final(machine).mem@, final(machine).total_cycles, final(queue)@)
            == pumped(old(machine).cpu, old(machine).mem@, old(machine).total_cycles, old(queue)@, 0, target_cycles as int),
{
    let mut ran: u64 = 0;
    let ghost start_total = machine.total_cycles;
    let ghost result = pumped(machine.cpu, machine.mem@, machine.total_cycles, queue@, 0, target_cycles as int);
    while ran < target_cycles
        invariant
            machine.wf(),
            machine.total_cycles == start_total + ran,
            start_total + target_cycles <= MAX_CYCLE_BASE,
            ran < target_cycles + 8,
            pumped(machine.cpu, machine.mem@, machine.total_cycles, queue@, ran as int, target_cycles as int) == result,
        decreases (if target_cycles > ran { target_cycles - ran } else { 0 }),
    {
        let ghost cpu0 = machine.cpu;
        let ghost mem0 = machine.mem@;
        let ghost total0 = machine.total_cycles;
        let ghost queue0 = queue@;
        feed_next_key(machine, queue);
        let ghost mem1 = machine.mem@;
        let ghost queue1 = queue@;
        let cycles = machine.step();
        proof {
            assert((mem1, queue1) == feed_key(mem0, queue0));
            assert((machine.cpu, machine.mem@, machine.total_cycles, cycles) == machine_step(cpu0, mem1, total0));
            assert(pumped(cpu0, mem0, total0, queue0, ran as int, target_cycles as int)
                == pumped(machine.cpu, machine.mem@, machine.total_cycles, queue1, ran + cycles, target_cycles as int));
        }
        ran = ran + cycles as u64;
    }
}

/// Cycles in one round of the joystick calibration schedule (about 3 s).
pub const CALIBRATION_ROUND_CYCLES: u64 = 3_061_500;

/// Cycles pushbutton 0 is held at the start of each round (about 0.5 s).
pub const CALIBRATION_PRESS_CYCLES: u64 = 510_000;

/// The joystick corner of a calibration round: top left, top right, bottom
/// right, bottom left, over and over.
pub open spec fn calibration_corner(round: int) -> (u8, u8) {
    let k = round % 4;
    if k == 0 { (0u8, 0u8) } else if k == 1 { (255u8, 0u8) } else if k == 2 { (255u8, 255u8) } else { (0u8, 255u8) }
}

/// Paddle 0, paddle 1 and pushbutton 0 `elapsed` cycles into the joystick
/// calibration: each round of 3061500 cycles holds the joystick in the next
/// corner and presses the button for its first 510000 cycles.
pub open spec fn calibration_input(elapsed: u64) -> (u8, u8, bool) {
    let (x, y) = calibration_corner((elapsed / 3061500) as int);
    (x, y, elapsed % 3061500 < 510000)
}

/// The joystick input `elapsed` cycles into the calibration.
pub fn calibration_input_at(elapsed: u64) -> (r: (u8, u8, bool))
    ensures
        r == calibration_input(elapsed),
{
    let phase = elapsed % CALIBRATION_ROUND_CYCLES;
    let step = (elapsed / CALIBRATION_ROUND_CYCLES) % 4;
    let (x, y): (u8, u8) = if step == 0 {
        (0, 0)
    } else if step == 1 {
        (255, 0)
    } else if step == 2 {
        (255, 255)
    } else {
        (0, 255)
    };
    (x, y, phase < CALIBRATION_PRESS_CYCLES)
}

/// The memory with the joystick of a calibration that starts at cycle
/// `start`, at cycle `cycles`: from `start` on, the paddles and pushbutton 0
/// take the input of the schedule (pushbutton 1 released); before it nothing
/// changes.
pub open spec fn calibrated(mem: MemoryState, start: u64, cycles: u64) -> MemoryState {
    if cycles < start {
        mem
    } else {
        let (x, y, pressed) = calibration_input((cycles - start) as u64);
        MemoryState { paddles: mem.paddles.update(0, x).update(1, y), pushbuttons: seq![pressed, false], ..mem }
    }
}

/// Drives the joystick of a calibration that starts at cycle `start`, at
/// cycle `cycles` (see `calibrated`).
pub fn apply_joystick_calibration(machine: &mut Apple2Machine, start: u64, cycles: u64)
    requires
        old(machine).wf(),
    ensures
        final(machine).wf(),
        final(machine).cpu == old(machine).cpu,
        final(machine).total_cycles == old(machine).total_cycles,
        final(machine).mem@ == calibrated(old(machine).mem@, start, cycles),
{
    if cycles >= start {
        let (x, y, pressed) = calibration_input_at(cycles - start);
        machine.mem.set_joystick_state(x, y, pressed, false);
    }
}

/// Like `pumped`, with the joystick calibration that starts at cycle `start`
/// applied after each instruction at the machine's cycle count.
pub open spec fn pumped_calibrated(
    cpu: CPU,
    mem: MemoryState,
    total: u64,
    queue: Seq<u8>,
    ran: int,
    target: int,
    start: u64,
) -> (CPU, MemoryState, u64, Seq<u8>)
    decreases (if target > ran { target - ran } else { 0 }),
{
    if ran >= target {
        (cpu, mem, total, queue)
    } else {
        let (m1, q1) = feed_key(mem, queue);
        let (c2, m2, t2, cycles) = machine_step(cpu, m1, total);
        let m3 = calibrated(m2, start, t2);
        if cycles == 0 {
            (c2, m3, t2, q1)
        } else {
            pumped_calibrated(c2, m3, t2, q1, ran + cycles, target, start)
        }
    }
}

/// Runs the machine for at least `target_cycles` cycles, typing queued keys
/// as the program reads them and, from cycle `start` of the machine's count
/// on, driving the joystick through the calibration schedule.
pub fn pump_with_calibration(machine: &mut Apple2Machine, queue: &mut VecDeque<u8>, target_cycles: u64, start: u64)
    requires
        old(machine).wf(),
        old(machine).total_cycles + target_cycles <= MAX_CYCLE_BASE,
    ensures
        final(machine).wf(),
        (final(machine).cpu, final(machine).mem@, final(machine).total_cycles, final(queue)@)
            == pumped_calibrated(old(machine).cpu, old(machine).mem@, old(machine).total_cycles, old(queue)@, 0, target_cycles as int, start),
{
    let mut ran: u64 = 0;
    let ghost start_total = machine.total_cycles;
    let ghost result = pumped_calibrated(machine.cpu, machine.mem@, machine.total_cycles, queue@, 0, target_cycles as int, start);
    while ran < target_cycles
        invariant
            machine.wf(),
            machine.total_cycles == start_total + ran,
            start_total + target_cycles <= MAX_CYCLE_BASE,
            ran < target_cycles + 8,
            pumped_calibrated(machine.cpu, machine.mem@, machine.total_cycles, queue@, ran as int, target_cycles as int, start) == result,
        decreases (if target_cycles > ran { target_cycles - ran } else { 0 }),
    {
        let ghost cpu0 = machine.cpu;
        let ghost mem0 = machine.mem@;
        let ghost total0 = machine.total_cycles;
        let ghost queue0 = queue@;
        feed_next_key(machine, queue);
        let ghost mem1 = machine.mem@;
        let ghost queue1 = queue@;
        let cycles = machine.step();
        let ghost mem2 = machine.mem@;
        let total = machine.total_cycles;
        apply_joystick_calibration(machine, start, total);
        proof {
            assert((mem1, queue1) == feed_key(mem0, queue0));
            assert((machine.cpu, mem2, machine.total_cycles, cycles) == machine_step(cpu0, mem1, total0));
            assert(machine.mem@ == calibrated(mem2, start, machine.total_cycles));
            assert(pumped_calibrated(cpu0, mem0, total0, queue0, ran as int, target_cycles as int, start)
                == pumped_calibrated(machine.cpu, machine.mem@, machine.total_cycles, queue1, ran + cycles, target_cycles as int, start));
        }
        ran = ran + cycles as u64;
    }
}

/// `D5 AA 96` starts at position `i` of a circular track of `len` bytes.
pub open spec fn address_prologue_at(raw: Seq<u8>, len: int, i: int) -> bool {
    raw[i] == 0xD5 && raw[(i + 1) % len] == 0xAA && raw[(i + 2) % len] == 0x96
}

/// Distance around a track of `len` bytes between positions `i` and `idx`.
pub open spec fn circular_distance(i: int, idx: int, len: int) -> int {
    let forward = if i >= idx { i - idx } else { len - idx + i };
    let backward = if idx >= i { idx - i } else { idx + len - i };
    if forward <= backward { forward } else { backward }
}

/// Smallest distance from `idx` to an address prologue starting before
/// position `n`, or `len` when there is none.
pub open spec fn nearest_prologue(raw: Seq<u8>, len: int, idx: int, n: int) -> int
    decreases n,
{
    if n <= 0 {
        len
    } else {
        let best = nearest_prologue(raw, len, idx, n - 1);
        if address_prologue_at(raw, len, n - 1) {
            let d = circular_distance(n - 1, idx, len);
            if d < best { d } else { best }
        } else {
            best
        }
    }
}

/// Distance around the track from `idx` to the nearest address prologue, or
/// the track length when there is none.
pub fn nearest_prologue_distance(track: &TrackData, idx: usize) -> (r: usize)
    requires
        track.wf(),
        idx <= track.length,
    ensures
        r == nearest_prologue(track.raw_bytes@, track.length as int, idx as int, track.length as int),
{
    let len = track.length;
    let mut best = len;
    for i in 0..len
        invariant
            track.wf(),
            len == track.length,
            idx <= len,
            best == nearest_prologue(track.raw_bytes@, len as int, idx as int, i as int),
            best <= len,
    {
        if track.raw_bytes[i] == 0xD5 && track.raw_bytes[(i + 1) % len] == 0xAA && track.raw_bytes[(i + 2) % len] == 0x96 {
            let forward = if i >= idx { i - idx } else { len - idx + i };
            let backward = if idx >= i { idx - i } else { idx + len - i };
            let d = if forward <= backward { forward } else { backward };
            if d < best {
                best = d;
            }
        }
    }
    best
}

/// 4-and-4 encoding: odd bits, then even bits, each interleaved with ones.
pub fn encode_4x4(val: u8) -> (r: (u8, u8))
    ensures
        r == ((val >> 1u8) | 0xAA, val | 0xAA),
{
    ((val >> 1) | 0xAA, val | 0xAA)
}

/// 4-and-4 decoding of a pair of address-field bytes.
pub fn decode_4x4(hi: u8, lo: u8) -> (r: u8)
    ensures
        r == ((hi << 1u8) | 1) & lo,
{
    ((hi << 1) | 1) & lo
}

/// Decoding a 4-and-4 pair gives back the encoded byte.
pub proof fn law_decode_4x4_of_encode_4x4(val: u8)
    ensures
        ((((val >> 1u8) | 0xAAu8) << 1u8) | 1u8) & (val | 0xAAu8) == val,
{
    assert(((((val >> 1u8) | 0xAAu8) << 1u8) | 1u8) & (val | 0xAAu8) == val) by (bit_vector);
}

/// The address field starting at `i` (a prologue there) rewritten for
/// `volume`: the volume and the checksum (over volume, track and sector as
/// read from the field) are re-encoded; anywhere else the track is unchanged.
pub open spec fn patch_field_at(raw: Seq<u8>, len: int, volume: u8, i: int) -> Seq<u8> {
    if address_prologue_at(raw, len, i) {
        let trk = ((raw[(i + 5) % len] << 1u8) | 1u8) & raw[(i + 6) % len];
        let sec = ((raw[(i + 7) % len] << 1u8) | 1u8) & raw[(i + 8) % len];
        let chk = volume ^ trk ^ sec;
        raw.update((i + 3) % len, (volume >> 1u8) | 0xAA).update((i + 4) % len, volume | 0xAA)
            .update((i + 9) % len, (chk >> 1u8) | 0xAA).update((i + 10) % len, chk | 0xAA)
    } else {
        raw
    }
}

/// The track after patching the address fields starting before position `n`,
/// in order.
pub open spec fn patched_fields(raw: Seq<u8>, len: int, volume: u8, n: int) -> Seq<u8>
    decreases n,
{
    if n <= 0 { raw } else { patch_field_at(patched_fields(raw, len, volume, n - 1), len, volume, n - 1) }
}

/// Rewrites the volume number (and checksum) of every address field on a
/// track, scanning the track once from the start.
pub fn patch_address_field_volume(track: &mut TrackData, volume: u8)
    requires
        old(track).wf(),
    ensures
        final(track).wf(),
        final(track).length == old(track).length,
        final(track).read_length == old(track).read_length,
        final(track).raw_bytes@ == patched_fields(old(track).raw_bytes@, old(track).length as int, volume, old(track).length as int),
{
    let len = track.length;
    for i in 0..len
        invariant
            track.wf(),
            track.length == len,
            track.read_length == old(track).read_length,
            track.raw_bytes@ == patched_fields(old(track).raw_bytes@, len as int, volume, i as int),
    {
        if track.raw_bytes[i] == 0xD5 && track.raw_bytes[(i + 1) % len] == 0xAA && track.raw_bytes[(i + 2) % len] == 0x96 {
            let trk = ((track.raw_bytes[(i + 5) % len] << 1u8) | 1) & track.raw_bytes[(i + 6) % len];
            let sec = ((track.raw_bytes[(i + 7) % len] << 1u8) | 1) & track.raw_bytes[(i + 8) % len];
            let chk = volume ^ trk ^ sec;
            let (v1, v2) = encode_4x4(volume);
            let (c1, c2) = encode_4x4(chk);
            track.raw_bytes.set((i + 3) % len, v1);
            track.raw_bytes.set((i + 4) % len, v2);
            track.raw_bytes.set((i + 9) % len, c1);
            track.raw_bytes.set((i + 10) % len, c2);
        }
    }
}

/// The address prologues of a track, in order of position: the position and
/// the bytes just before and just after the prologue, at most `limit` of them.
pub open spec fn prologues_from(raw: Seq<u8>, len: int, i: int, limit: int) -> Seq<(usize, u8, u8)>
    decreases len - i,
{
    if i >= len || i < 0 || limit <= 0 {
        Seq::empty()
    } else if address_prologue_at(raw, len, i) {
        seq![(i as usize, raw[(i + len - 1) % len], raw[(i + 3) % len])] + prologues_from(raw, len, i + 1, limit - 1)
    } else {
        prologues_from(raw, len, i + 1, limit)
    }
}

/// Lists the address prologues of a track (see `prologues_from`), at most
/// `limit` of them; the first is listed even when `limit` is 0.
pub fn track_prologues(track: &TrackData, limit: usize) -> (r: Vec<(usize, u8, u8)>)
    requires
        track.wf(),
    ensures
        r@ == prologues_from(track.raw_bytes@, track.length as int, 0, if limit == 0 { 1 } else { limit as int }),
{
    let limit: usize = if limit == 0 { 1 } else { limit };
    let len = track.length;
    let mut found: Vec<(usize, u8, u8)> = Vec::new();
    let mut i: usize = 0;
    while i < len && found.len() < limit
        invariant
            track.wf(),
            len == track.length,
            i <= len,
            found@.len() <= limit,
            found@ + prologues_from(track.raw_bytes@, len as int, i as int, limit - found@.len())
                == prologues_from(track.raw_bytes@, len as int, 0, limit as int),
        decreases len - i,
    {
        if track.raw_bytes[i] == 0xD5 && track.raw_bytes[(i + 1) % len] == 0xAA && track.raw_bytes[(i + 2) % len] == 0x96 {
            let entry = (i, track.raw_bytes[(i + len - 1) % len], track.raw_bytes[(i + 3) % len]);
            let ghost before = found@;
            found.push(entry);
            proof {
                assert(found@ + prologues_from(track.raw_bytes@, len as int, i + 1, limit - found@.len())
                    =~= before + prologues_from(track.raw_bytes@, len as int, i as int, limit - before.len()));
            }
        }
        i = i + 1;
    }
    proof {
        assert(prologues_from(track.raw_bytes@, len as int, i as int, limit - found@.len()) =~= Seq::<(usize, u8, u8)>::empty());
        assert(found@ =~= found@ + Seq::<(usize, u8, u8)>::empty());
    }
    found
}

} // verus!

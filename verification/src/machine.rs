//! The whole machine: the CPU on the Apple II bus, with a running cycle count.
use vstd::prelude::*;
use crate::cpu::{AddressingMode, CPU, StatusFlags, lemma_pushed_flags_unpack, spec_decode, law_indexed_read_page_cross_costs_a_cycle};
use crate::instructions::ReadOp;
use crate::instructions::Instr;
use crate::memory::{Apple2Memory, Memory, MemoryState, MAX_CYCLE_BASE, law_ram_read_after_write, law_bus_access_keeps_ram};

verus! {

pub struct Apple2Machine {
    pub cpu: CPU,
    pub mem: Box<Apple2Memory>,
    /// CPU cycles run since the machine was created.
    pub total_cycles: u64,
}

/// One machine step from CPU `cpu`, memory `mem` and cycle count `total`: the
/// memory counts the bus cycles of the instruction from `total`, the CPU runs
/// one instruction, the disk catches up with the cycles no bus access
/// accounted for, and the count advances by the instruction's cycles. The
/// result is the new CPU, memory and count, and the cycles used.
#[verifier::opaque]
pub open spec fn machine_step(cpu: CPU, mem: MemoryState, total: u64) -> (CPU, MemoryState, u64, u32) {
    let (c1, m1, cycles) = cpu.spec_step::<Apple2Memory>(mem.begin_step(total));
    let m2 = m1.finalize_step(cycles);
    (c1, MemoryState { cpu_step_audio_active: false, ..m2 }, (total + cycles) as u64, cycles)
}

impl Apple2Machine {
    pub open spec fn wf(self) -> bool {
        self.mem@.wf()
    }

    pub fn new() -> (r: Self)
        ensures
            r.wf(),
            r.cpu == CPU::spec_new(),
            r.mem@ == MemoryState::initial(),
            r.total_cycles == 0,
    {
        Self { cpu: CPU::new(), mem: Box::new(Apple2Memory::new()), total_cycles: 0 }
    }

    pub fn load_rom(&mut self, rom_data: &[u8])
        requires
            old(self).wf(),
        ensures
            final(self).wf(),
            final(self).cpu == old(self).cpu,
            final(self).total_cycles == old(self).total_cycles,
            final(self).mem@ == (MemoryState {
                rom: Seq::new(12288, |i: int| if i < rom_data@.len() { rom_data@[i] } else { old(self).mem@.rom[i] }),
                ..old(self).mem@
            }),
    {
        self.mem.load_rom(rom_data);
    }

    /// CPU reset: the CPU loads the reset vector through the bus.
    pub fn reset(&mut self)
        requires
            old(self).wf(),
        ensures
            final(self).wf(),
            final(self).total_cycles == old(self).total_cycles,
            (final(self).cpu, final(self).mem@) == old(self).cpu.spec_reset::<Apple2Memory>(old(self).mem@),
    {
        self.cpu.reset(&mut *self.mem);
    }

    /// Runs one instruction and returns the number of cycles it used.
    pub fn step(&mut self) -> (cycles: u32)
        requires
            old(self).wf(),
            old(self).total_cycles <= MAX_CYCLE_BASE,
        ensures
            final(self).wf(),
            (final(self).cpu, final(self).mem@, final(self).total_cycles, cycles)
                == machine_step(old(self).cpu, old(self).mem@, old(self).total_cycles),
            final(self).total_cycles == old(self).total_cycles + cycles,
            1 <= cycles <= 8,
    {
        proof {
            reveal(machine_step);
        }
        self.mem.begin_cpu_step(self.total_cycles);
        let cycles = self.cpu.step(&mut *self.mem);
        self.mem.finalize_cpu_step_cycles(cycles);
        self.mem.end_cpu_step();
        self.total_cycles = self.total_cycles + cycles as u64;
        cycles
    }

    /// Runs the disk drive alone for `cycles` cycles.
    pub fn tick_disk(&mut self, cycles: u32)
        requires
            old(self).wf(),
            old(self).mem.disk2.cycles_accumulator + cycles <= u32::MAX,
        ensures
            final(self).wf(),
            final(self).cpu == old(self).cpu,
            final(self).total_cycles == old(self).total_cycles,
            final(self).mem@ == (MemoryState { disk2: old(self).mem@.disk2.tick(cycles), ..old(self).mem@ }),
    {
        self.mem.disk2.tick(cycles);
    }

    /// Cold start: memory power-on reset, then a CPU reset.
    pub fn power_on(&mut self)
        requires
            old(self).wf(),
        ensures
            final(self).wf(),
            final(self).total_cycles == old(self).total_cycles,
            (final(self).cpu, final(self).mem@) == old(self).cpu.spec_reset::<Apple2Memory>(old(self).mem@.power_on()),
    {
        self.mem.power_on_reset();
        self.cpu.reset(&mut *self.mem);
    }
}

/// The stack keeps what is pushed: on the Apple II memory map a push then a
/// pop gives back the pushed byte and the stack pointer it started with.
pub proof fn law_stack_push_then_pop(c: CPU, m: MemoryState, data: u8)
    requires
        m.wf(),
    ensures
        ({
            let (c1, m1) = c.spec_stack_push::<Apple2Memory>(m, data);
            let (c2, m2, v) = c1.spec_stack_pop::<Apple2Memory>(m1);
            v == data && c2.sp == c.sp
        }),
{
    let addr = (0x100 + c.sp) as u16;
    let sp = c.sp;
    assert(sp.wrapping_sub(1).wrapping_add(1) == sp) by (bit_vector);
    law_ram_read_after_write(m, addr, data, addr);
}

/// A subroutine call returns where it was made: on the Apple II memory map,
/// executing `JSR` (with PC on its operand) and then `RTS` leaves PC just past
/// the `JSR`'s operand and the stack pointer as it was.
pub proof fn law_jsr_then_rts_returns(c: CPU, m: MemoryState)
    requires
        m.wf(),
    ensures
        ({
            let (c1, m1, _) = c.spec_execute::<Apple2Memory>(m, Instr::Jsr);
            let (c2, _, _) = c1.spec_execute::<Apple2Memory>(m1, Instr::Rts);
            c2.pc == c.pc.wrapping_add(2) && c2.sp == c.sp
        }),
{
    let (ca, ma, addr, _) = c.spec_operand_address::<Apple2Memory>(m, AddressingMode::Absolute);
    let m0 = m.read(c.pc).0;
    law_bus_access_keeps_ram(m, c.pc, 0);
    law_bus_access_keeps_ram(m0, c.pc.wrapping_add(1), 0);
    assert(ma.ram == m.ram);
    let ret = ca.pc.wrapping_sub(1);
    let hi = (ret / 256) as u8;
    let lo = (ret % 256) as u8;
    let sp = c.sp;
    let sp1 = sp.wrapping_sub(1);
    let sp2 = sp1.wrapping_sub(1);
    let a_hi = (0x100 + sp) as u16;
    let a_lo = (0x100 + sp1) as u16;
    let mb = ma.write(a_hi, hi);
    let mc = mb.write(a_lo, lo);
    law_bus_access_keeps_ram(ma, a_hi, hi);
    law_bus_access_keeps_ram(mb, a_lo, lo);
    assert(sp2.wrapping_add(1) == sp1 && sp1.wrapping_add(1) == sp && sp1 != sp) by (bit_vector)
        requires
            sp1 == sp.wrapping_sub(1),
            sp2 == sp1.wrapping_sub(1),
    ;
    let md = mc.read(a_lo).0;
    law_bus_access_keeps_ram(mc, a_lo, 0);
    assert(mc.read(a_lo).1 == lo);
    assert(md.read(a_hi).1 == hi);
    let pc = c.pc;
    assert(((((pc.wrapping_add(2)).wrapping_sub(1) / 256) as u8) * 256 + (((pc.wrapping_add(2)).wrapping_sub(1) % 256) as u8)) as u16 == pc.wrapping_add(2).wrapping_sub(1)) by (bit_vector);
    assert((pc.wrapping_add(2).wrapping_sub(1)).wrapping_add(1) == pc.wrapping_add(2)) by (bit_vector);
}

/// PHP then PLP gives the flags back: on the Apple II memory map PHP pushes
/// the status byte with B and the unused bit set; whatever runs in between,
/// as long as it leaves the stack pointer and that byte as they were, PLP
/// pulls C, Z, I, D, V and N as they were at the PHP, with B clear, the
/// unused bit set and the stack pointer where it started.
pub proof fn law_php_then_plp_restores_flags(c: CPU, m: MemoryState, later: CPU, later_mem: MemoryState)
    requires
        m.wf(),
        ({
            let (c1, m1, _) = c.spec_execute::<Apple2Memory>(m, Instr::Php);
            &&& later.sp == c1.sp
            &&& later_mem.ram[0x100 + c.sp] == m1.ram[0x100 + c.sp]
        }),
    ensures
        ({
            let (c1, m1, _) = c.spec_execute::<Apple2Memory>(m, Instr::Php);
            let (c2, _, _) = later.spec_execute::<Apple2Memory>(later_mem, Instr::Plp);
            &&& m1.ram[0x100 + c.sp] == c.status.spec_byte() | 0x30
            &&& c2.sp == c.sp
            &&& c2.status == (StatusFlags { b: false, u: true, ..c.status })
        }),
{
    let p = c.status.spec_byte() | 0x30;
    let addr = (0x100 + c.sp) as u16;
    let sp = c.sp;
    assert(sp.wrapping_sub(1).wrapping_add(1) == sp) by (bit_vector);
    law_bus_access_keeps_ram(m, addr, p);
    law_bus_access_keeps_ram(later_mem, addr, 0);
    lemma_pushed_flags_unpack(c.status);
}

/// What executing BRK leaves on the stack: the return address PC + 1 (high
/// byte first) and the status byte with B and the unused bit set, below it.
#[verifier::rlimit(40)]
proof fn lemma_brk_execute_pushes(c: CPU, m: MemoryState)
    requires
        m.ram.len() == 0xC000,
    ensures
        ({
            let (c1, m1, _) = c.spec_execute::<Apple2Memory>(m, Instr::Brk);
            let ret = c.pc.wrapping_add(1);
            &&& c1.sp == c.sp.wrapping_sub(3)
            &&& m1.ram[0x100 + c.sp] == (ret / 256) as u8
            &&& m1.ram[0x100 + c.sp.wrapping_sub(1)] == (ret % 256) as u8
            &&& m1.ram[0x100 + c.sp.wrapping_sub(2)] == c.status.spec_byte() | 0x30
        }),
{
    let sp = c.sp;
    let sp1 = sp.wrapping_sub(1);
    let sp2 = sp1.wrapping_sub(1);
    assert(sp.wrapping_sub(2) == sp2 && sp2.wrapping_sub(1) == sp.wrapping_sub(3) && sp != sp1 && sp != sp2 && sp1 != sp2)
        by (bit_vector)
        requires
            sp1 == sp.wrapping_sub(1),
            sp2 == sp1.wrapping_sub(1),
    ;
    let ret = c.pc.wrapping_add(1);
    let hi = (ret / 256) as u8;
    let lo = (ret % 256) as u8;
    let p = c.status.spec_byte() | 0x30;
    let a0 = (0x100 + sp) as u16;
    let a1 = (0x100 + sp1) as u16;
    let a2 = (0x100 + sp2) as u16;
    let ma = m.write(a0, hi);
    let mb = ma.write(a1, lo);
    let mc = mb.write(a2, p);
    law_bus_access_keeps_ram(m, a0, hi);
    law_bus_access_keeps_ram(ma, a1, lo);
    law_bus_access_keeps_ram(mb, a2, p);
    let md = mc.read(0xFFFE).0;
    law_bus_access_keeps_ram(mc, 0xFFFE, 0);
    law_bus_access_keeps_ram(md, 0xFFFF, 0);
    assert(mc.ram == m.ram.update(a0 as int, hi).update(a1 as int, lo).update(a2 as int, p));
    let (c1, m1, _) = c.spec_execute::<Apple2Memory>(m, Instr::Brk);
    assert(m1.ram == mc.ram);
}

/// What a step on a BRK opcode leaves on the stack: the return address
/// PC + 2 and the status byte with B and the unused bit set.
proof fn lemma_brk_pushes(c: CPU, m: MemoryState)
    requires
        m.wf(),
        !c.jammed,
        spec_decode(m.read(c.pc).1) == Instr::Brk,
    ensures
        ({
            let (c1, m1, _) = c.spec_step::<Apple2Memory>(m);
            let ret = c.pc.wrapping_add(2);
            &&& c1.sp == c.sp.wrapping_sub(3)
            &&& m1.ram[0x100 + c.sp] == (ret / 256) as u8
            &&& m1.ram[0x100 + c.sp.wrapping_sub(1)] == (ret % 256) as u8
            &&& m1.ram[0x100 + c.sp.wrapping_sub(2)] == c.status.spec_byte() | 0x30
        }),
{
    let (m0, op) = m.read(c.pc);
    law_bus_access_keeps_ram(m, c.pc, 0);
    let c0 = c.with_pc(c.pc.wrapping_add(1));
    lemma_brk_execute_pushes(c0, m0);
    let pc = c.pc;
    assert(pc.wrapping_add(1).wrapping_add(1) == pc.wrapping_add(2)) by (bit_vector);
}

/// An interrupt handler entered by BRK returns past the BRK's padding byte:
/// when the opcode at PC is BRK and the handler leaves the stack pointer and
/// the three bytes BRK pushed as they were, RTI goes back to PC + 2 with the
/// stack pointer and the C, Z, I, D, V and N flags from before the BRK (B
/// clear, the unused bit set).
pub proof fn law_brk_then_rti_returns(c: CPU, m: MemoryState, handler: CPU, hm: MemoryState)
    requires
        m.wf(),
        !c.jammed,
        spec_decode(m.read(c.pc).1) == Instr::Brk,
        ({
            let (c1, m1, _) = c.spec_step::<Apple2Memory>(m);
            &&& handler.sp == c1.sp
            &&& hm.ram[0x100 + c.sp] == m1.ram[0x100 + c.sp]
            &&& hm.ram[0x100 + c.sp.wrapping_sub(1)] == m1.ram[0x100 + c.sp.wrapping_sub(1)]
            &&& hm.ram[0x100 + c.sp.wrapping_sub(2)] == m1.ram[0x100 + c.sp.wrapping_sub(2)]
        }),
    ensures
        ({
            let (r, _, _) = handler.spec_execute::<Apple2Memory>(hm, Instr::Rti);
            &&& r.pc == c.pc.wrapping_add(2)
            &&& r.sp == c.sp
            &&& r.status == (StatusFlags { b: false, u: true, ..c.status })
        }),
{
    lemma_brk_pushes(c, m);
    let sp = c.sp;
    let s3 = sp.wrapping_sub(3);
    assert(s3.wrapping_add(1) == sp.wrapping_sub(2) && s3.wrapping_add(1).wrapping_add(1) == sp.wrapping_sub(1)
        && s3.wrapping_add(1).wrapping_add(1).wrapping_add(1) == sp) by (bit_vector)
        requires
            s3 == sp.wrapping_sub(3),
    ;
    let a0 = (0x100 + sp) as u16;
    let a1 = (0x100 + sp.wrapping_sub(1)) as u16;
    let a2 = (0x100 + sp.wrapping_sub(2)) as u16;
    let h1 = hm.read(a2).0;
    law_bus_access_keeps_ram(hm, a2, 0);
    let h2 = h1.read(a1).0;
    law_bus_access_keeps_ram(h1, a1, 0);
    lemma_pushed_flags_unpack(c.status);
    let ret = c.pc.wrapping_add(2);
    assert((((ret / 256) as u8) * 256 + ((ret % 256) as u8)) as u16 == ret) by (bit_vector);
}

/// Indexed reads from main RAM on the Apple II memory map: with the opcode
/// and operand below $C000, an absolute,X or absolute,Y read works on the RAM
/// byte at base + index (the base being the two operand bytes, low byte
/// first), moves PC past its three bytes, and takes one cycle more when the
/// index carries into another page.
pub proof fn law_indexed_read_from_ram(c: CPU, m: MemoryState, op: ReadOp, mode: AddressingMode, cycles: u32, penalty: bool)
    requires
        m.wf(),
        !c.jammed,
        c.pc + 2 < 0xC000,
        spec_decode(m.ram[c.pc as int]) == Instr::Read(op, mode, cycles, penalty),
        mode is AbsoluteX || mode is AbsoluteY,
        ({
            let base = (m.ram[c.pc + 2] * 256 + m.ram[c.pc + 1]) as u16;
            let index = if mode is AbsoluteX { c.x } else { c.y };
            base.wrapping_add(index as u16) < 0xC000
        }),
    ensures
        ({
            let base = (m.ram[c.pc + 2] * 256 + m.ram[c.pc + 1]) as u16;
            let index = if mode is AbsoluteX { c.x } else { c.y };
            let e = base.wrapping_add(index as u16);
            let (c1, _, r) = c.spec_step::<Apple2Memory>(m);
            &&& c1 == c.with_pc((c.pc + 3) as u16).spec_read_op(op, m.ram[e as int])
            &&& r == if base / 256 != e / 256 { (cycles + 1) as u32 } else { cycles }
        }),
{
    let pc = c.pc;
    law_bus_access_keeps_ram(m, pc, 0);
    let m0 = m.read(pc).0;
    assert(m.read(pc).1 == m.ram[pc as int]);
    law_indexed_read_page_cross_costs_a_cycle::<Apple2Memory>(c, m, op, mode, cycles, penalty);
    assert(pc.wrapping_add(1) == pc + 1 && pc.wrapping_add(1).wrapping_add(1) == pc + 2 && pc.wrapping_add(3) == pc + 3);
    law_bus_access_keeps_ram(m0, (pc + 1) as u16, 0);
    let m1 = m0.read((pc + 1) as u16).0;
    law_bus_access_keeps_ram(m1, (pc + 2) as u16, 0);
    let m2 = m1.read((pc + 2) as u16).0;
    let base = (m.ram[pc + 2] * 256 + m.ram[pc + 1]) as u16;
    let index = if mode is AbsoluteX { c.x } else { c.y };
    let e = base.wrapping_add(index as u16);
    assert(m2.read(e).1 == m.ram[e as int]);
}

/// Indexed reads through a zero-page pointer on the Apple II memory map:
/// with the opcode and operand below $C000, a (zero page),Y read works on the
/// RAM byte at pointer + Y (the pointer being the two zero-page bytes at the
/// operand and the next one, wrapping in page zero), moves PC past its two
/// bytes, and takes one cycle more when Y carries into another page.
pub proof fn law_indirect_indexed_read_from_ram(c: CPU, m: MemoryState, op: ReadOp, cycles: u32, penalty: bool)
    requires
        m.wf(),
        !c.jammed,
        c.pc + 1 < 0xC000,
        spec_decode(m.ram[c.pc as int]) == Instr::Read(op, AddressingMode::IndirectY, cycles, penalty),
        ({
            let zp = m.ram[c.pc + 1];
            let base = (m.ram[zp.wrapping_add(1) as int] * 256 + m.ram[zp as int]) as u16;
            base.wrapping_add(c.y as u16) < 0xC000
        }),
    ensures
        ({
            let zp = m.ram[c.pc + 1];
            let base = (m.ram[zp.wrapping_add(1) as int] * 256 + m.ram[zp as int]) as u16;
            let e = base.wrapping_add(c.y as u16);
            let (c1, _, r) = c.spec_step::<Apple2Memory>(m);
            &&& c1 == c.with_pc((c.pc + 2) as u16).spec_read_op(op, m.ram[e as int])
            &&& r == if base / 256 != e / 256 { (cycles + 1) as u32 } else { cycles }
        }),
{
    let pc = c.pc;
    law_bus_access_keeps_ram(m, pc, 0);
    let m0 = m.read(pc).0;
    law_indexed_read_page_cross_costs_a_cycle::<Apple2Memory>(c, m, op, AddressingMode::IndirectY, cycles, penalty);
    assert(pc.wrapping_add(1) == pc + 1 && pc.wrapping_add(2) == pc + 2);
    law_bus_access_keeps_ram(m0, (pc + 1) as u16, 0);
    let m1 = m0.read((pc + 1) as u16).0;
    let zp = m.ram[pc + 1];
    assert(m0.read((pc + 1) as u16).1 == zp);
    law_bus_access_keeps_ram(m1, zp as u16, 0);
    let m2 = m1.read(zp as u16).0;
    law_bus_access_keeps_ram(m2, zp.wrapping_add(1) as u16, 0);
    let m3 = m2.read(zp.wrapping_add(1) as u16).0;
    let base = (m.ram[zp.wrapping_add(1) as int] * 256 + m.ram[zp as int]) as u16;
    let e = base.wrapping_add(c.y as u16);
    assert(m3.read(e).1 == m.ram[e as int]);
}

} // verus!

//! The MOS 6502 register file and status flags.
use vstd::prelude::*;
use crate::instructions::{Instr, ReadOp, StoreOp, ModifyOp, ImpliedOp, UnstableOp, Flag};
use crate::memory::{Memory, spec_read_word};

verus! {

/// Status Flags for the 6502 CPU (P Register)
#[derive(Clone, Copy, Debug)]
pub struct StatusFlags {
    pub c: bool,  // Carry
    pub z: bool,  // Zero
    pub i: bool,  // Interrupt Disable
    pub d: bool,  // Decimal Mode
    pub b: bool,  // Break Command
    pub u: bool,  // Unused (always 1)
    pub v: bool,  // Overflow
    pub n: bool,  // Negative
}

/// Weight of one status bit when it is set.
pub open spec fn flag_weight(set: bool, weight: int) -> int {
    if set { weight } else { 0 }
}

impl StatusFlags {
    /// The flags right after power-on or reset: interrupts disabled and the
    /// unused bit set, everything else clear.
    pub open spec fn spec_reset_value() -> StatusFlags {
        StatusFlags { c: false, z: false, i: true, d: false, b: false, u: true, v: false, n: false }
    }

    /// The P register as a byte: C is bit 0, Z bit 1, I bit 2, D bit 3,
    /// B bit 4, the unused bit 5, V bit 6 and N bit 7.
    pub open spec fn spec_byte(self) -> u8 {
        (flag_weight(self.c, 1) + flag_weight(self.z, 2) + flag_weight(self.i, 4)
            + flag_weight(self.d, 8) + flag_weight(self.b, 16) + flag_weight(self.u, 32)
            + flag_weight(self.v, 64) + flag_weight(self.n, 128)) as u8
    }

    /// Flags unpacked from a byte; the unused bit always reads as set.
    pub open spec fn spec_from_byte(b: u8) -> StatusFlags {
        StatusFlags {
            c: b & 1 != 0,
            z: b & 2 != 0,
            i: b & 4 != 0,
            d: b & 8 != 0,
            b: b & 16 != 0,
            u: true,
            v: b & 64 != 0,
            n: b & 128 != 0,
        }
    }

    pub fn to_byte(&self) -> (r: u8)
        ensures
            r == self.spec_byte(),
    {
        (if self.c { 1u8 } else { 0 }) + (if self.z { 2u8 } else { 0 }) + (if self.i { 4u8 } else { 0 })
            + (if self.d { 8u8 } else { 0 }) + (if self.b { 16u8 } else { 0 }) + (if self.u { 32u8 } else { 0 })
            + (if self.v { 64u8 } else { 0 }) + (if self.n { 128u8 } else { 0 })
    }

    pub fn from_byte(&mut self, b: u8)
        ensures
            *final(self) == StatusFlags::spec_from_byte(b),
    {
        self.c = (b & 1) != 0;
        self.z = (b & 2) != 0;
        self.i = (b & 4) != 0;
        self.d = (b & 8) != 0;
        self.b = (b & 16) != 0;
        self.u = true;  // Always 1
        self.v = (b & 64) != 0;
        self.n = (b & 128) != 0;
    }
}

impl Default for StatusFlags {
    fn default() -> (r: Self)
        ensures
            r == StatusFlags::spec_reset_value(),
    {
        StatusFlags { c: false, z: false, i: true, d: false, b: false, u: true, v: false, n: false }
    }
}

/// Packing the flags into a byte and unpacking it again gives the same flags,
/// as long as the unused bit is set (it always unpacks as set).
pub proof fn lemma_flags_byte_roundtrip(s: StatusFlags)
    requires
        s.u,
    ensures
        StatusFlags::spec_from_byte(s.spec_byte()) == s,
{
    let (c, z, i, d, b, u, v, n) = (s.c, s.z, s.i, s.d, s.b, s.u, s.v, s.n);
    let x: u8 = s.spec_byte();
    assert(x == ((if c { 1u8 } else { 0u8 }) + (if z { 2u8 } else { 0u8 }) + (if i { 4u8 } else { 0u8 })
        + (if d { 8u8 } else { 0u8 }) + (if b { 16u8 } else { 0u8 }) + 32u8
        + (if v { 64u8 } else { 0u8 }) + (if n { 128u8 } else { 0u8 })) as u8);
    assert(x == ((if c { 1u8 } else { 0u8 }) + (if z { 2u8 } else { 0u8 }) + (if i { 4u8 } else { 0u8 })
        + (if d { 8u8 } else { 0u8 }) + (if b { 16u8 } else { 0u8 }) + 32u8
        + (if v { 64u8 } else { 0u8 }) + (if n { 128u8 } else { 0u8 })) as u8 ==>
        (x & 1 != 0) == c && (x & 2 != 0) == z && (x & 4 != 0) == i && (x & 8 != 0) == d
        && (x & 16 != 0) == b && (x & 64 != 0) == v && (x & 128 != 0) == n) by (bit_vector);
}

/// The byte that PHP and BRK push (B and the unused bit forced on) unpacks
/// to the same C, Z, I, D, V and N flags.
pub proof fn lemma_pushed_flags_unpack(s: StatusFlags)
    ensures
        StatusFlags::spec_from_byte(s.spec_byte() | 0x30) == (StatusFlags { b: true, u: true, ..s }),
{
    let (c, z, i, d, b, u, v, n) = (s.c, s.z, s.i, s.d, s.b, s.u, s.v, s.n);
    let x: u8 = s.spec_byte();
    assert(x == ((if c { 1u8 } else { 0u8 }) + (if z { 2u8 } else { 0u8 }) + (if i { 4u8 } else { 0u8 })
        + (if d { 8u8 } else { 0u8 }) + (if b { 16u8 } else { 0u8 }) + (if u { 32u8 } else { 0u8 })
        + (if v { 64u8 } else { 0u8 }) + (if n { 128u8 } else { 0u8 })) as u8);
    assert(x == ((if c { 1u8 } else { 0u8 }) + (if z { 2u8 } else { 0u8 }) + (if i { 4u8 } else { 0u8 })
        + (if d { 8u8 } else { 0u8 }) + (if b { 16u8 } else { 0u8 }) + (if u { 32u8 } else { 0u8 })
        + (if v { 64u8 } else { 0u8 }) + (if n { 128u8 } else { 0u8 })) as u8 ==>
        ((x | 0x30) & 1 != 0) == c && ((x | 0x30) & 2 != 0) == z && ((x | 0x30) & 4 != 0) == i
        && ((x | 0x30) & 8 != 0) == d && ((x | 0x30) & 16 != 0) && ((x | 0x30) & 64 != 0) == v
        && ((x | 0x30) & 128 != 0) == n) by (bit_vector);
}

/// Unpacking a byte and packing the flags again gives the byte back with the
/// unused bit (bit 5) forced on.
pub proof fn lemma_byte_flags_roundtrip(x: u8)
    ensures
        StatusFlags::spec_from_byte(x).spec_byte() == x | 0x20,
{
    assert(((if x & 1 != 0 { 1u8 } else { 0u8 }) + (if x & 2 != 0 { 2u8 } else { 0u8 })
        + (if x & 4 != 0 { 4u8 } else { 0u8 }) + (if x & 8 != 0 { 8u8 } else { 0u8 })
        + (if x & 16 != 0 { 16u8 } else { 0u8 }) + 32u8 + (if x & 64 != 0 { 64u8 } else { 0u8 })
        + (if x & 128 != 0 { 128u8 } else { 0u8 })) as u8 == x | 0x20) by (bit_vector);
}

} // verus!

verus! {

pub struct CPU {
    pub a: u8,  // Accumulator
    pub x: u8,  // X Register
    pub y: u8,  // Y Register
    pub pc: u16,  // Program Counter
    pub sp: u8,  // Stack Pointer
    pub status: StatusFlags,  // P Register (Processor Status)
    /// Set by the KIL/JAM opcodes; a jammed CPU does nothing until reset.
    pub jammed: bool,
}

#[derive(Clone, Copy, Debug)]
pub enum AddressingMode {
    Immediate,
    ZeroPage,
    ZeroPageX,
    ZeroPageY,
    Absolute,
    AbsoluteX,
    AbsoluteY,
    Indirect,
    IndirectX,
    IndirectY,
    NoneAddressing,
    Relative,
}

impl CPU {
    /// The CPU with its Z and N flags set from a result byte.
    pub open spec fn with_nz(self, r: u8) -> CPU {
        CPU { status: StatusFlags { z: r == 0, n: r >= 128, ..self.status }, ..self }
    }

    pub open spec fn with_pc(self, pc: u16) -> CPU {
        CPU { pc, ..self }
    }
}


/// The NMOS 6502 opcode table: what each of the 256 opcodes does, with its
/// addressing mode and base cycle count.
pub open spec fn spec_decode(opcode: u8) -> Instr {
    match opcode {
        0x00 => Instr::Brk,
        0x01 => Instr::Read(ReadOp::Ora, AddressingMode::IndirectX, 6, false),
        0x02 => Instr::Jam,
        0x03 => Instr::Modify(ModifyOp::Slo, AddressingMode::IndirectX, 8),
        0x04 => Instr::Read(ReadOp::Nop, AddressingMode::Immediate, 3, false),
        0x05 => Instr::Read(ReadOp::Ora, AddressingMode::ZeroPage, 3, false),
        0x06 => Instr::Modify(ModifyOp::Asl, AddressingMode::ZeroPage, 5),
        0x07 => Instr::Modify(ModifyOp::Slo, AddressingMode::ZeroPage, 5),
        0x08 => Instr::Php,
        0x09 => Instr::Read(ReadOp::Ora, AddressingMode::Immediate, 2, false),
        0x0A => Instr::ModifyAccumulator(ModifyOp::Asl),
        0x0B => Instr::Read(ReadOp::Anc, AddressingMode::Immediate, 2, false),
        0x0C => Instr::Read(ReadOp::Nop, AddressingMode::Absolute, 4, false),
        0x0D => Instr::Read(ReadOp::Ora, AddressingMode::Absolute, 4, false),
        0x0E => Instr::Modify(ModifyOp::Asl, AddressingMode::Absolute, 6),
        0x0F => Instr::Modify(ModifyOp::Slo, AddressingMode::Absolute, 6),
        0x10 => Instr::Branch(Flag::Negative, false),
        0x11 => Instr::Read(ReadOp::Ora, AddressingMode::IndirectY, 5, true),
        0x12 => Instr::Jam,
        0x13 => Instr::Modify(ModifyOp::Slo, AddressingMode::IndirectY, 8),
        0x14 => Instr::NopZeroPageX,
        0x15 => Instr::Read(ReadOp::Ora, AddressingMode::ZeroPageX, 4, false),
        0x16 => Instr::Modify(ModifyOp::Asl, AddressingMode::ZeroPageX, 6),
        0x17 => Instr::Modify(ModifyOp::Slo, AddressingMode::ZeroPageX, 6),
        0x18 => Instr::Implied(ImpliedOp::Clc),
        0x19 => Instr::Read(ReadOp::Ora, AddressingMode::AbsoluteY, 4, true),
        0x1A => Instr::Implied(ImpliedOp::Nop),
        0x1B => Instr::Modify(ModifyOp::Slo, AddressingMode::AbsoluteY, 7),
        0x1C => Instr::NopAbsoluteX,
        0x1D => Instr::Read(ReadOp::Ora, AddressingMode::AbsoluteX, 4, true),
        0x1E => Instr::Modify(ModifyOp::Asl, AddressingMode::AbsoluteX, 7),
        0x1F => Instr::Modify(ModifyOp::Slo, AddressingMode::AbsoluteX, 7),
        0x20 => Instr::Jsr,
        0x21 => Instr::Read(ReadOp::And, AddressingMode::IndirectX, 6, false),
        0x22 => Instr::Jam,
        0x23 => Instr::Modify(ModifyOp::Rla, AddressingMode::IndirectX, 8),
        0x24 => Instr::Read(ReadOp::Bit, AddressingMode::ZeroPage, 3, false),
        0x25 => Instr::Read(ReadOp::And, AddressingMode::ZeroPage, 3, false),
        0x26 => Instr::Modify(ModifyOp::Rol, AddressingMode::ZeroPage, 5),
        0x27 => Instr::Modify(ModifyOp::Rla, AddressingMode::ZeroPage, 5),
        0x28 => Instr::Plp,
        0x29 => Instr::Read(ReadOp::And, AddressingMode::Immediate, 2, false),
        0x2A => Instr::ModifyAccumulator(ModifyOp::Rol),
        0x2B => Instr::Read(ReadOp::Anc, AddressingMode::Immediate, 2, false),
        0x2C => Instr::Read(ReadOp::Bit, AddressingMode::Absolute, 4, false),
        0x2D => Instr::Read(ReadOp::And, AddressingMode::Absolute, 4, false),
        0x2E => Instr::Modify(ModifyOp::Rol, AddressingMode::Absolute, 6),
        0x2F => Instr::Modify(ModifyOp::Rla, AddressingMode::Absolute, 6),
        0x30 => Instr::Branch(Flag::Negative, true),
        0x31 => Instr::Read(ReadOp::And, AddressingMode::IndirectY, 5, true),
        0x32 => Instr::Jam,
        0x33 => Instr::Modify(ModifyOp::Rla, AddressingMode::IndirectY, 8),
        0x34 => Instr::NopZeroPageX,
        0x35 => Instr::Read(ReadOp::And, AddressingMode::ZeroPageX, 4, false),
        0x36 => Instr::Modify(ModifyOp::Rol, AddressingMode::ZeroPageX, 6),
        0x37 => Instr::Modify(ModifyOp::Rla, AddressingMode::ZeroPageX, 6),
        0x38 => Instr::Implied(ImpliedOp::Sec),
        0x39 => Instr::Read(ReadOp::And, AddressingMode::AbsoluteY, 4, true),
        0x3A => Instr::Implied(ImpliedOp::Nop),
        0x3B => Instr::Modify(ModifyOp::Rla, AddressingMode::AbsoluteY, 7),
        0x3C => Instr::NopAbsoluteX,
        0x3D => Instr::Read(ReadOp::And, AddressingMode::AbsoluteX, 4, true),
        0x3E => Instr::Modify(ModifyOp::Rol, AddressingMode::AbsoluteX, 7),
        0x3F => Instr::Modify(ModifyOp::Rla, AddressingMode::AbsoluteX, 7),
        0x40 => Instr::Rti,
        0x41 => Instr::Read(ReadOp::Eor, AddressingMode::IndirectX, 6, false),
        0x42 => Instr::Jam,
        0x43 => Instr::Modify(ModifyOp::Sre, AddressingMode::IndirectX, 8),
        0x44 => Instr::Read(ReadOp::Nop, AddressingMode::Immediate, 3, false),
        0x45 => Instr::Read(ReadOp::Eor, AddressingMode::ZeroPage, 3, false),
        0x46 => Instr::Modify(ModifyOp::Lsr, AddressingMode::ZeroPage, 5),
        0x47 => Instr::Modify(ModifyOp::Sre, AddressingMode::ZeroPage, 5),
        0x48 => Instr::Pha,
        0x49 => Instr::Read(ReadOp::Eor, AddressingMode::Immediate, 2, false),
        0x4A => Instr::ModifyAccumulator(ModifyOp::Lsr),
        0x4B => Instr::Read(ReadOp::Alr, AddressingMode::Immediate, 2, false),
        0x4C => Instr::Jump(AddressingMode::Absolute, 3),
        0x4D => Instr::Read(ReadOp::Eor, AddressingMode::Absolute, 4, false),
        0x4E => Instr::Modify(ModifyOp::Lsr, AddressingMode::Absolute, 6),
        0x4F => Instr::Modify(ModifyOp::Sre, AddressingMode::Absolute, 6),
        0x50 => Instr::Branch(Flag::Overflow, false),
        0x51 => Instr::Read(ReadOp::Eor, AddressingMode::IndirectY, 5, true),
        0x52 => Instr::Jam,
        0x53 => Instr::Modify(ModifyOp::Sre, AddressingMode::IndirectY, 8),
        0x54 => Instr::NopZeroPageX,
        0x55 => Instr::Read(ReadOp::Eor, AddressingMode::ZeroPageX, 4, false),
        0x56 => Instr::Modify(ModifyOp::Lsr, AddressingMode::ZeroPageX, 6),
        0x57 => Instr::Modify(ModifyOp::Sre, AddressingMode::ZeroPageX, 6),
        0x58 => Instr::Implied(ImpliedOp::Cli),
        0x59 => Instr::Read(ReadOp::Eor, AddressingMode::AbsoluteY, 4, true),
        0x5A => Instr::Implied(ImpliedOp::Nop),
        0x5B => Instr::Modify(ModifyOp::Sre, AddressingMode::AbsoluteY, 7),
        0x5C => Instr::NopAbsoluteX,
        0x5D => Instr::Read(ReadOp::Eor, AddressingMode::AbsoluteX, 4, true),
        0x5E => Instr::Modify(ModifyOp::Lsr, AddressingMode::AbsoluteX, 7),
        0x5F => Instr::Modify(ModifyOp::Sre, AddressingMode::AbsoluteX, 7),
        0x60 => Instr::Rts,
        0x61 => Instr::Read(ReadOp::Adc, AddressingMode::IndirectX, 6, false),
        0x62 => Instr::Jam,
        0x63 => Instr::Modify(ModifyOp::Rra, AddressingMode::IndirectX, 8),
        0x64 => Instr::Read(ReadOp::Nop, AddressingMode::Immediate, 3, false),
        0x65 => Instr::Read(ReadOp::Adc, AddressingMode::ZeroPage, 3, false),
        0x66 => Instr::Modify(ModifyOp::Ror, AddressingMode::ZeroPage, 5),
        0x67 => Instr::Modify(ModifyOp::Rra, AddressingMode::ZeroPage, 5),
        0x68 => Instr::Pla,
        0x69 => Instr::Read(ReadOp::Adc, AddressingMode::Immediate, 2, false),
        0x6A => Instr::ModifyAccumulator(ModifyOp::Ror),
        0x6B => Instr::Read(ReadOp::Arr, AddressingMode::Immediate, 2, false),
        0x6C => Instr::Jump(AddressingMode::Indirect, 5),
        0x6D => Instr::Read(ReadOp::Adc, AddressingMode::Absolute, 4, false),
        0x6E => Instr::Modify(ModifyOp::Ror, AddressingMode::Absolute, 6),
        0x6F => Instr::Modify(ModifyOp::Rra, AddressingMode::Absolute, 6),
        0x70 => Instr::Branch(Flag::Overflow, true),
        0x71 => Instr::Read(ReadOp::Adc, AddressingMode::IndirectY, 5, true),
        0x72 => Instr::Jam,
        0x73 => Instr::Modify(ModifyOp::Rra, AddressingMode::IndirectY, 8),
        0x74 => Instr::NopZeroPageX,
        0x75 => Instr::Read(ReadOp::Adc, AddressingMode::ZeroPageX, 4, false),
        0x76 => Instr::Modify(ModifyOp::Ror, AddressingMode::ZeroPageX, 6),
        0x77 => Instr::Modify(ModifyOp::Rra, AddressingMode::ZeroPageX, 6),
        0x78 => Instr::Implied(ImpliedOp::Sei),
        0x79 => Instr::Read(ReadOp::Adc, AddressingMode::AbsoluteY, 4, true),
        0x7A => Instr::Implied(ImpliedOp::Nop),
        0x7B => Instr::Modify(ModifyOp::Rra, AddressingMode::AbsoluteY, 7),
        0x7C => Instr::NopAbsoluteX,
        0x7D => Instr::Read(ReadOp::Adc, AddressingMode::AbsoluteX, 4, true),
        0x7E => Instr::Modify(ModifyOp::Ror, AddressingMode::AbsoluteX, 7),
        0x7F => Instr::Modify(ModifyOp::Rra, AddressingMode::AbsoluteX, 7),
        0x80 => Instr::Read(ReadOp::Nop, AddressingMode::Immediate, 3, false),
        0x81 => Instr::Store(StoreOp::Sta, AddressingMode::IndirectX, 6),
        0x82 => Instr::Read(ReadOp::Nop, AddressingMode::Immediate, 3, false),
        0x83 => Instr::Store(StoreOp::Sax, AddressingMode::IndirectX, 6),
        0x84 => Instr::Store(StoreOp::Sty, AddressingMode::ZeroPage, 3),
        0x85 => Instr::Store(StoreOp::Sta, AddressingMode::ZeroPage, 3),
        0x86 => Instr::Store(StoreOp::Stx, AddressingMode::ZeroPage, 3),
        0x87 => Instr::Store(StoreOp::Sax, AddressingMode::ZeroPage, 3),
        0x88 => Instr::Implied(ImpliedOp::Dey),
        0x89 => Instr::Read(ReadOp::Nop, AddressingMode::Immediate, 3, false),
        0x8A => Instr::Implied(ImpliedOp::Txa),
        0x8B => Instr::Read(ReadOp::Xaa, AddressingMode::Immediate, 2, false),
        0x8C => Instr::Store(StoreOp::Sty, AddressingMode::Absolute, 4),
        0x8D => Instr::Store(StoreOp::Sta, AddressingMode::Absolute, 4),
        0x8E => Instr::Store(StoreOp::Stx, AddressingMode::Absolute, 4),
        0x8F => Instr::Store(StoreOp::Sax, AddressingMode::Absolute, 4),
        0x90 => Instr::Branch(Flag::Carry, false),
        0x91 => Instr::Store(StoreOp::Sta, AddressingMode::IndirectY, 6),
        0x92 => Instr::Jam,
        0x93 => Instr::UnstableStore(UnstableOp::Ahx, AddressingMode::IndirectY, 6),
        0x94 => Instr::Store(StoreOp::Sty, AddressingMode::ZeroPageX, 4),
        0x95 => Instr::Store(StoreOp::Sta, AddressingMode::ZeroPageX, 4),
        0x96 => Instr::Store(StoreOp::Stx, AddressingMode::ZeroPageY, 4),
        0x97 => Instr::Store(StoreOp::Sax, AddressingMode::ZeroPageY, 4),
        0x98 => Instr::Implied(ImpliedOp::Tya),
        0x99 => Instr::Store(StoreOp::Sta, AddressingMode::AbsoluteY, 5),
        0x9A => Instr::Implied(ImpliedOp::Txs),
        0x9B => Instr::UnstableStore(UnstableOp::Tas, AddressingMode::AbsoluteY, 5),
        0x9C => Instr::UnstableStore(UnstableOp::Shy, AddressingMode::AbsoluteX, 5),
        0x9D => Instr::Store(StoreOp::Sta, AddressingMode::AbsoluteX, 5),
        0x9E => Instr::UnstableStore(UnstableOp::Shx, AddressingMode::AbsoluteY, 5),
        0x9F => Instr::UnstableStore(UnstableOp::Ahx, AddressingMode::AbsoluteY, 5),
        0xA0 => Instr::Read(ReadOp::Ldy, AddressingMode::Immediate, 2, false),
        0xA1 => Instr::Read(ReadOp::Lda, AddressingMode::IndirectX, 6, false),
        0xA2 => Instr::Read(ReadOp::Ldx, AddressingMode::Immediate, 2, false),
        0xA3 => Instr::Read(ReadOp::Lax, AddressingMode::IndirectX, 6, false),
        0xA4 => Instr::Read(ReadOp::Ldy, AddressingMode::ZeroPage, 3, false),
        0xA5 => Instr::Read(ReadOp::Lda, AddressingMode::ZeroPage, 3, false),
        0xA6 => Instr::Read(ReadOp::Ldx, AddressingMode::ZeroPage, 3, false),
        0xA7 => Instr::Read(ReadOp::Lax, AddressingMode::ZeroPage, 3, false),
        0xA8 => Instr::Implied(ImpliedOp::Tay),
        0xA9 => Instr::Read(ReadOp::Lda, AddressingMode::Immediate, 2, false),
        0xAA => Instr::Implied(ImpliedOp::Tax),
        0xAB => Instr::Read(ReadOp::LaxImmediate, AddressingMode::Immediate, 2, false),
        0xAC => Instr::Read(ReadOp::Ldy, AddressingMode::Absolute, 4, false),
        0xAD => Instr::Read(ReadOp::Lda, AddressingMode::Absolute, 4, false),
        0xAE => Instr::Read(ReadOp::Ldx, AddressingMode::Absolute, 4, false),
        0xAF => Instr::Read(ReadOp::Lax, AddressingMode::Absolute, 4, false),
        0xB0 => Instr::Branch(Flag::Carry, true),
        0xB1 => Instr::Read(ReadOp::Lda, AddressingMode::IndirectY, 5, true),
        0xB2 => Instr::Jam,
        0xB3 => Instr::Read(ReadOp::Lax, AddressingMode::IndirectY, 5, true),
        0xB4 => Instr::Read(ReadOp::Ldy, AddressingMode::ZeroPageX, 4, false),
        0xB5 => Instr::Read(ReadOp::Lda, AddressingMode::ZeroPageX, 4, false),
        0xB6 => Instr::Read(ReadOp::Ldx, AddressingMode::ZeroPageY, 4, false),
        0xB7 => Instr::Read(ReadOp::Lax, AddressingMode::ZeroPageY, 4, false),
        0xB8 => Instr::Implied(ImpliedOp::Clv),
        0xB9 => Instr::Read(ReadOp::Lda, AddressingMode::AbsoluteY, 4, true),
        0xBA => Instr::Implied(ImpliedOp::Tsx),
        0xBB => Instr::Read(ReadOp::Las, AddressingMode::AbsoluteY, 4, true),
        0xBC => Instr::Read(ReadOp::Ldy, AddressingMode::AbsoluteX, 4, true),
        0xBD => Instr::Read(ReadOp::Lda, AddressingMode::AbsoluteX, 4, true),
        0xBE => Instr::Read(ReadOp::Ldx, AddressingMode::AbsoluteY, 4, true),
        0xBF => Instr::Read(ReadOp::Lax, AddressingMode::AbsoluteY, 4, true),
        0xC0 => Instr::Read(ReadOp::Cpy, AddressingMode::Immediate, 2, false),
        0xC1 => Instr::Read(ReadOp::Cmp, AddressingMode::IndirectX, 6, false),
        0xC2 => Instr::Read(ReadOp::Nop, AddressingMode::Immediate, 3, false),
        0xC3 => Instr::Modify(ModifyOp::Dcp, AddressingMode::IndirectX, 8),
        0xC4 => Instr::Read(ReadOp::Cpy, AddressingMode::ZeroPage, 3, false),
        0xC5 => Instr::Read(ReadOp::Cmp, AddressingMode::ZeroPage, 3, false),
        0xC6 => Instr::Modify(ModifyOp::Dec, AddressingMode::ZeroPage, 5),
        0xC7 => Instr::Modify(ModifyOp::Dcp, AddressingMode::ZeroPage, 5),
        0xC8 => Instr::Implied(ImpliedOp::Iny),
        0xC9 => Instr::Read(ReadOp::Cmp, AddressingMode::Immediate, 2, false),
        0xCA => Instr::Implied(ImpliedOp::Dex),
        0xCB => Instr::Read(ReadOp::Axs, AddressingMode::Immediate, 2, false),
        0xCC => Instr::Read(ReadOp::Cpy, AddressingMode::Absolute, 4, false),
        0xCD => Instr::Read(ReadOp::Cmp, AddressingMode::Absolute, 4, false),
        0xCE => Instr::Modify(ModifyOp::Dec, AddressingMode::Absolute, 6),
        0xCF => Instr::Modify(ModifyOp::Dcp, AddressingMode::Absolute, 6),
        0xD0 => Instr::Branch(Flag::Zero, false),
        0xD1 => Instr::Read(ReadOp::Cmp, AddressingMode::IndirectY, 5, true),
        0xD2 => Instr::Jam,
        0xD3 => Instr::Modify(ModifyOp::Dcp, AddressingMode::IndirectY, 8),
        0xD4 => Instr::NopZeroPageX,
        0xD5 => Instr::Read(ReadOp::Cmp, AddressingMode::ZeroPageX, 4, false),
        0xD6 => Instr::Modify(ModifyOp::Dec, AddressingMode::ZeroPageX, 6),
        0xD7 => Instr::Modify(ModifyOp::Dcp, AddressingMode::ZeroPageX, 6),
        0xD8 => Instr::Implied(ImpliedOp::Cld),
        0xD9 => Instr::Read(ReadOp::Cmp, AddressingMode::AbsoluteY, 4, true),
        0xDA => Instr::Implied(ImpliedOp::Nop),
        0xDB => Instr::Modify(ModifyOp::Dcp, AddressingMode::AbsoluteY, 7),
        0xDC => Instr::NopAbsoluteX,
        0xDD => Instr::Read(ReadOp::Cmp, AddressingMode::AbsoluteX, 4, true),
        0xDE => Instr::Modify(ModifyOp::Dec, AddressingMode::AbsoluteX, 7),
        0xDF => Instr::Modify(ModifyOp::Dcp, AddressingMode::AbsoluteX, 7),
        0xE0 => Instr::Read(ReadOp::Cpx, AddressingMode::Immediate, 2, false),
        0xE1 => Instr::Read(ReadOp::Sbc, AddressingMode::IndirectX, 6, false),
        0xE2 => Instr::Read(ReadOp::Nop, AddressingMode::Immediate, 3, false),
        0xE3 => Instr::Modify(ModifyOp::Isc, AddressingMode::IndirectX, 8),
        0xE4 => Instr::Read(ReadOp::Cpx, AddressingMode::ZeroPage, 3, false),
        0xE5 => Instr::Read(ReadOp::Sbc, AddressingMode::ZeroPage, 3, false),
        0xE6 => Instr::Modify(ModifyOp::Inc, AddressingMode::ZeroPage, 5),
        0xE7 => Instr::Modify(ModifyOp::Isc, AddressingMode::ZeroPage, 5),
        0xE8 => Instr::Implied(ImpliedOp::Inx),
        0xE9 => Instr::Read(ReadOp::Sbc, AddressingMode::Immediate, 2, false),
        0xEA => Instr::Implied(ImpliedOp::Nop),
        0xEB => Instr::Read(ReadOp::Sbc, AddressingMode::Immediate, 2, false),
        0xEC => Instr::Read(ReadOp::Cpx, AddressingMode::Absolute, 4, false),
        0xED => Instr::Read(ReadOp::Sbc, AddressingMode::Absolute, 4, false),
        0xEE => Instr::Modify(ModifyOp::Inc, AddressingMode::Absolute, 6),
        0xEF => Instr::Modify(ModifyOp::Isc, AddressingMode::Absolute, 6),
        0xF0 => Instr::Branch(Flag::Zero, true),
        0xF1 => Instr::Read(ReadOp::Sbc, AddressingMode::IndirectY, 5, true),
        0xF2 => Instr::Jam,
        0xF3 => Instr::Modify(ModifyOp::Isc, AddressingMode::IndirectY, 8),
        0xF4 => Instr::NopZeroPageX,
        0xF5 => Instr::Read(ReadOp::Sbc, AddressingMode::ZeroPageX, 4, false),
        0xF6 => Instr::Modify(ModifyOp::Inc, AddressingMode::ZeroPageX, 6),
        0xF7 => Instr::Modify(ModifyOp::Isc, AddressingMode::ZeroPageX, 6),
        0xF8 => Instr::Implied(ImpliedOp::Sed),
        0xF9 => Instr::Read(ReadOp::Sbc, AddressingMode::AbsoluteY, 4, true),
        0xFA => Instr::Implied(ImpliedOp::Nop),
        0xFB => Instr::Modify(ModifyOp::Isc, AddressingMode::AbsoluteY, 7),
        0xFC => Instr::NopAbsoluteX,
        0xFD => Instr::Read(ReadOp::Sbc, AddressingMode::AbsoluteX, 4, true),
        0xFE => Instr::Modify(ModifyOp::Inc, AddressingMode::AbsoluteX, 7),
        _ => Instr::Modify(ModifyOp::Isc, AddressingMode::AbsoluteX, 7),
    }
}

/// The base cycle counts in an opcode table entry: at least 2, and at most
/// 6 for a read (a page crossing adds one), at most 8 for the others.
pub open spec fn instr_cycles_bounded(i: Instr) -> bool {
    match i {
        Instr::Read(_, _, cycles, _) => 2 <= cycles <= 6,
        Instr::Store(_, _, cycles) => 2 <= cycles <= 8,
        Instr::Modify(_, _, cycles) => 2 <= cycles <= 8,
        Instr::Jump(_, cycles) => 2 <= cycles <= 8,
        Instr::UnstableStore(_, _, cycles) => 2 <= cycles <= 8,
        _ => true,
    }
}

/// Looks an opcode up in the opcode table.
pub fn decode(opcode: u8) -> (r: Instr)
    ensures
        r == spec_decode(opcode),
        instr_cycles_bounded(r),
{
    match opcode {
        0x00 => Instr::Brk,
        0x01 => Instr::Read(ReadOp::Ora, AddressingMode::IndirectX, 6, false),
        0x02 => Instr::Jam,
        0x03 => Instr::Modify(ModifyOp::Slo, AddressingMode::IndirectX, 8),
        0x04 => Instr::Read(ReadOp::Nop, AddressingMode::Immediate, 3, false),
        0x05 => Instr::Read(ReadOp::Ora, AddressingMode::ZeroPage, 3, false),
        0x06 => Instr::Modify(ModifyOp::Asl, AddressingMode::ZeroPage, 5),
        0x07 => Instr::Modify(ModifyOp::Slo, AddressingMode::ZeroPage, 5),
        0x08 => Instr::Php,
        0x09 => Instr::Read(ReadOp::Ora, AddressingMode::Immediate, 2, false),
        0x0A => Instr::ModifyAccumulator(ModifyOp::Asl),
        0x0B => Instr::Read(ReadOp::Anc, AddressingMode::Immediate, 2, false),
        0x0C => Instr::Read(ReadOp::Nop, AddressingMode::Absolute, 4, false),
        0x0D => Instr::Read(ReadOp::Ora, AddressingMode::Absolute, 4, false),
        0x0E => Instr::Modify(ModifyOp::Asl, AddressingMode::Absolute, 6),
        0x0F => Instr::Modify(ModifyOp::Slo, AddressingMode::Absolute, 6),
        0x10 => Instr::Branch(Flag::Negative, false),
        0x11 => Instr::Read(ReadOp::Ora, AddressingMode::IndirectY, 5, true),
        0x12 => Instr::Jam,
        0x13 => Instr::Modify(ModifyOp::Slo, AddressingMode::IndirectY, 8),
        0x14 => Instr::NopZeroPageX,
        0x15 => Instr::Read(ReadOp::Ora, AddressingMode::ZeroPageX, 4, false),
        0x16 => Instr::Modify(ModifyOp::Asl, AddressingMode::ZeroPageX, 6),
        0x17 => Instr::Modify(ModifyOp::Slo, AddressingMode::ZeroPageX, 6),
        0x18 => Instr::Implied(ImpliedOp::Clc),
        0x19 => Instr::Read(ReadOp::Ora, AddressingMode::AbsoluteY, 4, true),
        0x1A => Instr::Implied(ImpliedOp::Nop),
        0x1B => Instr::Modify(ModifyOp::Slo, AddressingMode::AbsoluteY, 7),
        0x1C => Instr::NopAbsoluteX,
        0x1D => Instr::Read(ReadOp::Ora, AddressingMode::AbsoluteX, 4, true),
        0x1E => Instr::Modify(ModifyOp::Asl, AddressingMode::AbsoluteX, 7),
        0x1F => Instr::Modify(ModifyOp::Slo, AddressingMode::AbsoluteX, 7),
        0x20 => Instr::Jsr,
        0x21 => Instr::Read(ReadOp::And, AddressingMode::IndirectX, 6, false),
        0x22 => Instr::Jam,
        0x23 => Instr::Modify(ModifyOp::Rla, AddressingMode::IndirectX, 8),
        0x24 => Instr::Read(ReadOp::Bit, AddressingMode::ZeroPage, 3, false),
        0x25 => Instr::Read(ReadOp::And, AddressingMode::ZeroPage, 3, false),
        0x26 => Instr::Modify(ModifyOp::Rol, AddressingMode::ZeroPage, 5),
        0x27 => Instr::Modify(ModifyOp::Rla, AddressingMode::ZeroPage, 5),
        0x28 => Instr::Plp,
        0x29 => Instr::Read(ReadOp::And, AddressingMode::Immediate, 2, false),
        0x2A => Instr::ModifyAccumulator(ModifyOp::Rol),
        0x2B => Instr::Read(ReadOp::Anc, AddressingMode::Immediate, 2, false),
        0x2C => Instr::Read(ReadOp::Bit, AddressingMode::Absolute, 4, false),
        0x2D => Instr::Read(ReadOp::And, AddressingMode::Absolute, 4, false),
        0x2E => Instr::Modify(ModifyOp::Rol, AddressingMode::Absolute, 6),
        0x2F => Instr::Modify(ModifyOp::Rla, AddressingMode::Absolute, 6),
        0x30 => Instr::Branch(Flag::Negative, true),
        0x31 => Instr::Read(ReadOp::And, AddressingMode::IndirectY, 5, true),
        0x32 => Instr::Jam,
        0x33 => Instr::Modify(ModifyOp::Rla, AddressingMode::IndirectY, 8),
        0x34 => Instr::NopZeroPageX,
        0x35 => Instr::Read(ReadOp::And, AddressingMode::ZeroPageX, 4, false),
        0x36 => Instr::Modify(ModifyOp::Rol, AddressingMode::ZeroPageX, 6),
        0x37 => Instr::Modify(ModifyOp::Rla, AddressingMode::ZeroPageX, 6),
        0x38 => Instr::Implied(ImpliedOp::Sec),
        0x39 => Instr::Read(ReadOp::And, AddressingMode::AbsoluteY, 4, true),
        0x3A => Instr::Implied(ImpliedOp::Nop),
        0x3B => Instr::Modify(ModifyOp::Rla, AddressingMode::AbsoluteY, 7),
        0x3C => Instr::NopAbsoluteX,
        0x3D => Instr::Read(ReadOp::And, AddressingMode::AbsoluteX, 4, true),
        0x3E => Instr::Modify(ModifyOp::Rol, AddressingMode::AbsoluteX, 7),
        0x3F => Instr::Modify(ModifyOp::Rla, AddressingMode::AbsoluteX, 7),
        0x40 => Instr::Rti,
        0x41 => Instr::Read(ReadOp::Eor, AddressingMode::IndirectX, 6, false),
        0x42 => Instr::Jam,
        0x43 => Instr::Modify(ModifyOp::Sre, AddressingMode::IndirectX, 8),
        0x44 => Instr::Read(ReadOp::Nop, AddressingMode::Immediate, 3, false),
        0x45 => Instr::Read(ReadOp::Eor, AddressingMode::ZeroPage, 3, false),
        0x46 => Instr::Modify(ModifyOp::Lsr, AddressingMode::ZeroPage, 5),
        0x47 => Instr::Modify(ModifyOp::Sre, AddressingMode::ZeroPage, 5),
        0x48 => Instr::Pha,
        0x49 => Instr::Read(ReadOp::Eor, AddressingMode::Immediate, 2, false),
        0x4A => Instr::ModifyAccumulator(ModifyOp::Lsr),
        0x4B => Instr::Read(ReadOp::Alr, AddressingMode::Immediate, 2, false),
        0x4C => Instr::Jump(AddressingMode::Absolute, 3),
        0x4D => Instr::Read(ReadOp::Eor, AddressingMode::Absolute, 4, false),
        0x4E => Instr::Modify(ModifyOp::Lsr, AddressingMode::Absolute, 6),
        0x4F => Instr::Modify(ModifyOp::Sre, AddressingMode::Absolute, 6),
        0x50 => Instr::Branch(Flag::Overflow, false),
        0x51 => Instr::Read(ReadOp::Eor, AddressingMode::IndirectY, 5, true),
        0x52 => Instr::Jam,
        0x53 => Instr::Modify(ModifyOp::Sre, AddressingMode::IndirectY, 8),
        0x54 => Instr::NopZeroPageX,
        0x55 => Instr::Read(ReadOp::Eor, AddressingMode::ZeroPageX, 4, false),
        0x56 => Instr::Modify(ModifyOp::Lsr, AddressingMode::ZeroPageX, 6),
        0x57 => Instr::Modify(ModifyOp::Sre, AddressingMode::ZeroPageX, 6),
        0x58 => Instr::Implied(ImpliedOp::Cli),
        0x59 => Instr::Read(ReadOp::Eor, AddressingMode::AbsoluteY, 4, true),
        0x5A => Instr::Implied(ImpliedOp::Nop),
        0x5B => Instr::Modify(ModifyOp::Sre, AddressingMode::AbsoluteY, 7),
        0x5C => Instr::NopAbsoluteX,
        0x5D => Instr::Read(ReadOp::Eor, AddressingMode::AbsoluteX, 4, true),
        0x5E => Instr::Modify(ModifyOp::Lsr, AddressingMode::AbsoluteX, 7),
        0x5F => Instr::Modify(ModifyOp::Sre, AddressingMode::AbsoluteX, 7),
        0x60 => Instr::Rts,
        0x61 => Instr::Read(ReadOp::Adc, AddressingMode::IndirectX, 6, false),
        0x62 => Instr::Jam,
        0x63 => Instr::Modify(ModifyOp::Rra, AddressingMode::IndirectX, 8),
        0x64 => Instr::Read(ReadOp::Nop, AddressingMode::Immediate, 3, false),
        0x65 => Instr::Read(ReadOp::Adc, AddressingMode::ZeroPage, 3, false),
        0x66 => Instr::Modify(ModifyOp::Ror, AddressingMode::ZeroPage, 5),
        0x67 => Instr::Modify(ModifyOp::Rra, AddressingMode::ZeroPage, 5),
        0x68 => Instr::Pla,
        0x69 => Instr::Read(ReadOp::Adc, AddressingMode::Immediate, 2, false),
        0x6A => Instr::ModifyAccumulator(ModifyOp::Ror),
        0x6B => Instr::Read(ReadOp::Arr, AddressingMode::Immediate, 2, false),
        0x6C => Instr::Jump(AddressingMode::Indirect, 5),
        0x6D => Instr::Read(ReadOp::Adc, AddressingMode::Absolute, 4, false),
        0x6E => Instr::Modify(ModifyOp::Ror, AddressingMode::Absolute, 6),
        0x6F => Instr::Modify(ModifyOp::Rra, AddressingMode::Absolute, 6),
        0x70 => Instr::Branch(Flag::Overflow, true),
        0x71 => Instr::Read(ReadOp::Adc, AddressingMode::IndirectY, 5, true),
        0x72 => Instr::Jam,
        0x73 => Instr::Modify(ModifyOp::Rra, AddressingMode::IndirectY, 8),
        0x74 => Instr::NopZeroPageX,
        0x75 => Instr::Read(ReadOp::Adc, AddressingMode::ZeroPageX, 4, false),
        0x76 => Instr::Modify(ModifyOp::Ror, AddressingMode::ZeroPageX, 6),
        0x77 => Instr::Modify(ModifyOp::Rra, AddressingMode::ZeroPageX, 6),
        0x78 => Instr::Implied(ImpliedOp::Sei),
        0x79 => Instr::Read(ReadOp::Adc, AddressingMode::AbsoluteY, 4, true),
        0x7A => Instr::Implied(ImpliedOp::Nop),
        0x7B => Instr::Modify(ModifyOp::Rra, AddressingMode::AbsoluteY, 7),
        0x7C => Instr::NopAbsoluteX,
        0x7D => Instr::Read(ReadOp::Adc, AddressingMode::AbsoluteX, 4, true),
        0x7E => Instr::Modify(ModifyOp::Ror, AddressingMode::AbsoluteX, 7),
        0x7F => Instr::Modify(ModifyOp::Rra, AddressingMode::AbsoluteX, 7),
        0x80 => Instr::Read(ReadOp::Nop, AddressingMode::Immediate, 3, false),
        0x81 => Instr::Store(StoreOp::Sta, AddressingMode::IndirectX, 6),
        0x82 => Instr::Read(ReadOp::Nop, AddressingMode::Immediate, 3, false),
        0x83 => Instr::Store(StoreOp::Sax, AddressingMode::IndirectX, 6),
        0x84 => Instr::Store(StoreOp::Sty, AddressingMode::ZeroPage, 3),
        0x85 => Instr::Store(StoreOp::Sta, AddressingMode::ZeroPage, 3),
        0x86 => Instr::Store(StoreOp::Stx, AddressingMode::ZeroPage, 3),
        0x87 => Instr::Store(StoreOp::Sax, AddressingMode::ZeroPage, 3),
        0x88 => Instr::Implied(ImpliedOp::Dey),
        0x89 => Instr::Read(ReadOp::Nop, AddressingMode::Immediate, 3, false),
        0x8A => Instr::Implied(ImpliedOp::Txa),
        0x8B => Instr::Read(ReadOp::Xaa, AddressingMode::Immediate, 2, false),
        0x8C => Instr::Store(StoreOp::Sty, AddressingMode::Absolute, 4),
        0x8D => Instr::Store(StoreOp::Sta, AddressingMode::Absolute, 4),
        0x8E => Instr::Store(StoreOp::Stx, AddressingMode::Absolute, 4),
        0x8F => Instr::Store(StoreOp::Sax, AddressingMode::Absolute, 4),
        0x90 => Instr::Branch(Flag::Carry, false),
        0x91 => Instr::Store(StoreOp::Sta, AddressingMode::IndirectY, 6),
        0x92 => Instr::Jam,
        0x93 => Instr::UnstableStore(UnstableOp::Ahx, AddressingMode::IndirectY, 6),
        0x94 => Instr::Store(StoreOp::Sty, AddressingMode::ZeroPageX, 4),
        0x95 => Instr::Store(StoreOp::Sta, AddressingMode::ZeroPageX, 4),
        0x96 => Instr::Store(StoreOp::Stx, AddressingMode::ZeroPageY, 4),
        0x97 => Instr::Store(StoreOp::Sax, AddressingMode::ZeroPageY, 4),
        0x98 => Instr::Implied(ImpliedOp::Tya),
        0x99 => Instr::Store(StoreOp::Sta, AddressingMode::AbsoluteY, 5),
        0x9A => Instr::Implied(ImpliedOp::Txs),
        0x9B => Instr::UnstableStore(UnstableOp::Tas, AddressingMode::AbsoluteY, 5),
        0x9C => Instr::UnstableStore(UnstableOp::Shy, AddressingMode::AbsoluteX, 5),
        0x9D => Instr::Store(StoreOp::Sta, AddressingMode::AbsoluteX, 5),
        0x9E => Instr::UnstableStore(UnstableOp::Shx, AddressingMode::AbsoluteY, 5),
        0x9F => Instr::UnstableStore(UnstableOp::Ahx, AddressingMode::AbsoluteY, 5),
        0xA0 => Instr::Read(ReadOp::Ldy, AddressingMode::Immediate, 2, false),
        0xA1 => Instr::Read(ReadOp::Lda, AddressingMode::IndirectX, 6, false),
        0xA2 => Instr::Read(ReadOp::Ldx, AddressingMode::Immediate, 2, false),
        0xA3 => Instr::Read(ReadOp::Lax, AddressingMode::IndirectX, 6, false),
        0xA4 => Instr::Read(ReadOp::Ldy, AddressingMode::ZeroPage, 3, false),
        0xA5 => Instr::Read(ReadOp::Lda, AddressingMode::ZeroPage, 3, false),
        0xA6 => Instr::Read(ReadOp::Ldx, AddressingMode::ZeroPage, 3, false),
        0xA7 => Instr::Read(ReadOp::Lax, AddressingMode::ZeroPage, 3, false),
        0xA8 => Instr::Implied(ImpliedOp::Tay),
        0xA9 => Instr::Read(ReadOp::Lda, AddressingMode::Immediate, 2, false),
        0xAA => Instr::Implied(ImpliedOp::Tax),
        0xAB => Instr::Read(ReadOp::LaxImmediate, AddressingMode::Immediate, 2, false),
        0xAC => Instr::Read(ReadOp::Ldy, AddressingMode::Absolute, 4, false),
        0xAD => Instr::Read(ReadOp::Lda, AddressingMode::Absolute, 4, false),
        0xAE => Instr::Read(ReadOp::Ldx, AddressingMode::Absolute, 4, false),
        0xAF => Instr::Read(ReadOp::Lax, AddressingMode::Absolute, 4, false),
        0xB0 => Instr::Branch(Flag::Carry, true),
        0xB1 => Instr::Read(ReadOp::Lda, AddressingMode::IndirectY, 5, true),
        0xB2 => Instr::Jam,
        0xB3 => Instr::Read(ReadOp::Lax, AddressingMode::IndirectY, 5, true),
        0xB4 => Instr::Read(ReadOp::Ldy, AddressingMode::ZeroPageX, 4, false),
        0xB5 => Instr::Read(ReadOp::Lda, AddressingMode::ZeroPageX, 4, false),
        0xB6 => Instr::Read(ReadOp::Ldx, AddressingMode::ZeroPageY, 4, false),
        0xB7 => Instr::Read(ReadOp::Lax, AddressingMode::ZeroPageY, 4, false),
        0xB8 => Instr::Implied(ImpliedOp::Clv),
        0xB9 => Instr::Read(ReadOp::Lda, AddressingMode::AbsoluteY, 4, true),
        0xBA => Instr::Implied(ImpliedOp::Tsx),
        0xBB => Instr::Read(ReadOp::Las, AddressingMode::AbsoluteY, 4, true),
        0xBC => Instr::Read(ReadOp::Ldy, AddressingMode::AbsoluteX, 4, true),
        0xBD => Instr::Read(ReadOp::Lda, AddressingMode::AbsoluteX, 4, true),
        0xBE => Instr::Read(ReadOp::Ldx, AddressingMode::AbsoluteY, 4, true),
        0xBF => Instr::Read(ReadOp::Lax, AddressingMode::AbsoluteY, 4, true),
        0xC0 => Instr::Read(ReadOp::Cpy, AddressingMode::Immediate, 2, false),
        0xC1 => Instr::Read(ReadOp::Cmp, AddressingMode::IndirectX, 6, false),
        0xC2 => Instr::Read(ReadOp::Nop, AddressingMode::Immediate, 3, false),
        0xC3 => Instr::Modify(ModifyOp::Dcp, AddressingMode::IndirectX, 8),
        0xC4 => Instr::Read(ReadOp::Cpy, AddressingMode::ZeroPage, 3, false),
        0xC5 => Instr::Read(ReadOp::Cmp, AddressingMode::ZeroPage, 3, false),
        0xC6 => Instr::Modify(ModifyOp::Dec, AddressingMode::ZeroPage, 5),
        0xC7 => Instr::Modify(ModifyOp::Dcp, AddressingMode::ZeroPage, 5),
        0xC8 => Instr::Implied(ImpliedOp::Iny),
        0xC9 => Instr::Read(ReadOp::Cmp, AddressingMode::Immediate, 2, false),
        0xCA => Instr::Implied(ImpliedOp::Dex),
        0xCB => Instr::Read(ReadOp::Axs, AddressingMode::Immediate, 2, false),
        0xCC => Instr::Read(ReadOp::Cpy, AddressingMode::Absolute, 4, false),
        0xCD => Instr::Read(ReadOp::Cmp, AddressingMode::Absolute, 4, false),
        0xCE => Instr::Modify(ModifyOp::Dec, AddressingMode::Absolute, 6),
        0xCF => Instr::Modify(ModifyOp::Dcp, AddressingMode::Absolute, 6),
        0xD0 => Instr::Branch(Flag::Zero, false),
        0xD1 => Instr::Read(ReadOp::Cmp, AddressingMode::IndirectY, 5, true),
        0xD2 => Instr::Jam,
        0xD3 => Instr::Modify(ModifyOp::Dcp, AddressingMode::IndirectY, 8),
        0xD4 => Instr::NopZeroPageX,
        0xD5 => Instr::Read(ReadOp::Cmp, AddressingMode::ZeroPageX, 4, false),
        0xD6 => Instr::Modify(ModifyOp::Dec, AddressingMode::ZeroPageX, 6),
        0xD7 => Instr::Modify(ModifyOp::Dcp, AddressingMode::ZeroPageX, 6),
        0xD8 => Instr::Implied(ImpliedOp::Cld),
        0xD9 => Instr::Read(ReadOp::Cmp, AddressingMode::AbsoluteY, 4, true),
        0xDA => Instr::Implied(ImpliedOp::Nop),
        0xDB => Instr::Modify(ModifyOp::Dcp, AddressingMode::AbsoluteY, 7),
        0xDC => Instr::NopAbsoluteX,
        0xDD => Instr::Read(ReadOp::Cmp, AddressingMode::AbsoluteX, 4, true),
        0xDE => Instr::Modify(ModifyOp::Dec, AddressingMode::AbsoluteX, 7),
        0xDF => Instr::Modify(ModifyOp::Dcp, AddressingMode::AbsoluteX, 7),
        0xE0 => Instr::Read(ReadOp::Cpx, AddressingMode::Immediate, 2, false),
        0xE1 => Instr::Read(ReadOp::Sbc, AddressingMode::IndirectX, 6, false),
        0xE2 => Instr::Read(ReadOp::Nop, AddressingMode::Immediate, 3, false),
        0xE3 => Instr::Modify(ModifyOp::Isc, AddressingMode::IndirectX, 8),
        0xE4 => Instr::Read(ReadOp::Cpx, AddressingMode::ZeroPage, 3, false),
        0xE5 => Instr::Read(ReadOp::Sbc, AddressingMode::ZeroPage, 3, false),
        0xE6 => Instr::Modify(ModifyOp::Inc, AddressingMode::ZeroPage, 5),
        0xE7 => Instr::Modify(ModifyOp::Isc, AddressingMode::ZeroPage, 5),
        0xE8 => Instr::Implied(ImpliedOp::Inx),
        0xE9 => Instr::Read(ReadOp::Sbc, AddressingMode::Immediate, 2, false),
        0xEA => Instr::Implied(ImpliedOp::Nop),
        0xEB => Instr::Read(ReadOp::Sbc, AddressingMode::Immediate, 2, false),
        0xEC => Instr::Read(ReadOp::Cpx, AddressingMode::Absolute, 4, false),
        0xED => Instr::Read(ReadOp::Sbc, AddressingMode::Absolute, 4, false),
        0xEE => Instr::Modify(ModifyOp::Inc, AddressingMode::Absolute, 6),
        0xEF => Instr::Modify(ModifyOp::Isc, AddressingMode::Absolute, 6),
        0xF0 => Instr::Branch(Flag::Zero, true),
        0xF1 => Instr::Read(ReadOp::Sbc, AddressingMode::IndirectY, 5, true),
        0xF2 => Instr::Jam,
        0xF3 => Instr::Modify(ModifyOp::Isc, AddressingMode::IndirectY, 8),
        0xF4 => Instr::NopZeroPageX,
        0xF5 => Instr::Read(ReadOp::Sbc, AddressingMode::ZeroPageX, 4, false),
        0xF6 => Instr::Modify(ModifyOp::Inc, AddressingMode::ZeroPageX, 6),
        0xF7 => Instr::Modify(ModifyOp::Isc, AddressingMode::ZeroPageX, 6),
        0xF8 => Instr::Implied(ImpliedOp::Sed),
        0xF9 => Instr::Read(ReadOp::Sbc, AddressingMode::AbsoluteY, 4, true),
        0xFA => Instr::Implied(ImpliedOp::Nop),
        0xFB => Instr::Modify(ModifyOp::Isc, AddressingMode::AbsoluteY, 7),
        0xFC => Instr::NopAbsoluteX,
        0xFD => Instr::Read(ReadOp::Sbc, AddressingMode::AbsoluteX, 4, true),
        0xFE => Instr::Modify(ModifyOp::Inc, AddressingMode::AbsoluteX, 7),
        _ => Instr::Modify(ModifyOp::Isc, AddressingMode::AbsoluteX, 7),
    }
}

/// Every instruction takes between 1 and 8 cycles.
pub proof fn lemma_execute_cycles_bounded<M: Memory>(c: CPU, m: M::V, instr: Instr)
    requires
        instr_cycles_bounded(instr),
    ensures
        1 <= c.spec_execute::<M>(m, instr).2 <= 8,
{
}

impl CPU {
    /// The CPU at power-on: registers clear, SP at $FD, interrupts disabled.
    pub open spec fn spec_new() -> CPU {
        CPU { a: 0, x: 0, y: 0, pc: 0, sp: 0xFD, status: StatusFlags::spec_reset_value(), jammed: false }
    }

    /// Reset: registers cleared, SP at $FD, flags at their reset value, the
    /// jam released, and PC loaded from the reset vector at $FFFC/$FFFD.
    pub open spec fn spec_reset<M: Memory>(self, m: M::V) -> (CPU, M::V) {
        let (m1, vector) = spec_read_word::<M>(m, 0xFFFC);
        (CPU { pc: vector, ..CPU::spec_new() }, m1)
    }

    /// One instruction: a jammed CPU only burns a cycle; otherwise the opcode
    /// at PC is fetched and executed. The result is the number of cycles used.
    pub open spec fn spec_step<M: Memory>(self, m: M::V) -> (CPU, M::V, u32) {
        if self.jammed {
            (self, m, 1)
        } else {
            let (c1, m1, opcode) = self.spec_fetch_byte::<M>(m);
            c1.spec_execute::<M>(m1, spec_decode(opcode))
        }
    }

    pub fn new() -> (r: Self)
        ensures
            r == CPU::spec_new(),
    {
        Self { a: 0, x: 0, y: 0, pc: 0, sp: 0xFD, status: StatusFlags::default(), jammed: false }
    }

    pub fn reset<M: Memory>(&mut self, mem: &mut M)
        requires
            old(mem).inv(),
        ensures
            final(mem).inv(),
            (*final(self), final(mem)@) == old(self).spec_reset::<M>(old(mem)@),
    {
        self.a = 0;
        self.x = 0;
        self.y = 0;
        self.sp = 0xFD;
        self.status = StatusFlags::default();
        self.jammed = false;
        // Load Reset Vector from $FFFC / $FFFD
        self.pc = mem.read_word(0xFFFC);
    }

    /// Step one instruction
    pub fn step<M: Memory>(&mut self, mem: &mut M) -> (cycles: u32)
        requires
            old(mem).inv(),
        ensures
            final(mem).inv(),
            (*final(self), final(mem)@, cycles) == old(self).spec_step::<M>(old(mem)@),
            1 <= cycles <= 8,
    {
        if self.jammed {
            return 1;
        }
        let opcode = self.fetch_byte(mem);
        let instr = decode(opcode);
        proof {
            lemma_execute_cycles_bounded::<M>(*self, mem@, instr);
        }
        self.execute(mem, instr)
    }
}

/// A jammed CPU (after a KIL opcode) does nothing until reset: a step leaves
/// it and the memory as they are and takes one cycle.
pub proof fn law_jammed_cpu_idles<M: Memory>(c: CPU, m: M::V)
    requires
        c.jammed,
    ensures
        c.spec_step::<M>(m) == (c, m, 1u32),
{
}

/// Executing a KIL opcode jams the CPU with PC back on the opcode, in one cycle.
pub proof fn law_kil_jams<M: Memory>(c: CPU, m: M::V)
    requires
        !c.jammed,
        spec_decode(M::spec_read(m, c.pc).1) == Instr::Jam,
    ensures
        c.spec_step::<M>(m).0.jammed,
        c.spec_step::<M>(m).0.pc == c.pc,
        c.spec_step::<M>(m).2 == 1,
{
    let pc = c.pc;
    assert(pc.wrapping_add(1).wrapping_sub(1) == pc) by (bit_vector);
}

/// Reset releases a jam.
pub proof fn law_reset_releases_jam<M: Memory>(c: CPU, m: M::V)
    ensures
        !c.spec_reset::<M>(m).0.jammed,
{
}

/// Every opcode that reads through an indexed mode (absolute,X, absolute,Y
/// or (zero page),Y) pays for a page crossing.
#[verifier::rlimit(60)]
proof fn lemma_indexed_reads_pay_for_crossing(opcode: u8, op: ReadOp, mode: AddressingMode, cycles: u32, penalty: bool)
    requires
        spec_decode(opcode) == Instr::Read(op, mode, cycles, penalty),
        mode is AbsoluteX || mode is AbsoluteY || mode is IndirectY,
    ensures
        penalty,
{
}

/// Executing an indexed read: the operation works on the byte at base +
/// index, PC moves past the operand, and a page crossing costs a cycle.
proof fn lemma_execute_indexed_read<M: Memory>(c: CPU, m: M::V, op: ReadOp, mode: AddressingMode, cycles: u32)
    requires
        mode is AbsoluteX || mode is AbsoluteY || mode is IndirectY,
    ensures
        mode is AbsoluteX || mode is AbsoluteY ==> ({
            let (m1, base) = spec_read_word::<M>(m, c.pc);
            let index = if mode is AbsoluteX { c.x } else { c.y };
            let e = base.wrapping_add(index as u16);
            let (m2, v) = M::spec_read(m1, e);
            c.spec_execute::<M>(m, Instr::Read(op, mode, cycles, true)) == (
                c.with_pc(c.pc.wrapping_add(2)).spec_read_op(op, v),
                m2,
                if base / 256 != e / 256 { (cycles + 1) as u32 } else { cycles },
            )
        }),
        mode is IndirectY ==> ({
            let (m1, zp) = M::spec_read(m, c.pc);
            let (m2, lo) = M::spec_read(m1, zp as u16);
            let (m3, hi) = M::spec_read(m2, zp.wrapping_add(1) as u16);
            let base = (hi * 256 + lo) as u16;
            let e = base.wrapping_add(c.y as u16);
            let (m4, v) = M::spec_read(m3, e);
            c.spec_execute::<M>(m, Instr::Read(op, mode, cycles, true)) == (
                c.with_pc(c.pc.wrapping_add(1)).spec_read_op(op, v),
                m4,
                if base / 256 != e / 256 { (cycles + 1) as u32 } else { cycles },
            )
        }),
{
}

/// Every indexed read (absolute,X, absolute,Y and (zero page),Y forms) takes
/// one more cycle when the index carries the address into another page; the
/// operation works on the byte at base + index and PC moves past the operand.
pub proof fn law_indexed_read_page_cross_costs_a_cycle<M: Memory>(
    c: CPU,
    m: M::V,
    op: ReadOp,
    mode: AddressingMode,
    cycles: u32,
    penalty: bool,
)
    requires
        !c.jammed,
        spec_decode(M::spec_read(m, c.pc).1) == Instr::Read(op, mode, cycles, penalty),
        mode is AbsoluteX || mode is AbsoluteY || mode is IndirectY,
    ensures
        penalty,
        mode is AbsoluteX || mode is AbsoluteY ==> ({
            let (m0, _) = M::spec_read(m, c.pc);
            let (m1, base) = spec_read_word::<M>(m0, c.pc.wrapping_add(1));
            let index = if mode is AbsoluteX { c.x } else { c.y };
            let e = base.wrapping_add(index as u16);
            let (m2, v) = M::spec_read(m1, e);
            c.spec_step::<M>(m) == (
                c.with_pc(c.pc.wrapping_add(3)).spec_read_op(op, v),
                m2,
                if base / 256 != e / 256 { (cycles + 1) as u32 } else { cycles },
            )
        }),
        mode is IndirectY ==> ({
            let (m0, _) = M::spec_read(m, c.pc);
            let (m1, zp) = M::spec_read(m0, c.pc.wrapping_add(1));
            let (m2, lo) = M::spec_read(m1, zp as u16);
            let (m3, hi) = M::spec_read(m2, zp.wrapping_add(1) as u16);
            let base = (hi * 256 + lo) as u16;
            let e = base.wrapping_add(c.y as u16);
            let (m4, v) = M::spec_read(m3, e);
            c.spec_step::<M>(m) == (
                c.with_pc(c.pc.wrapping_add(2)).spec_read_op(op, v),
                m4,
                if base / 256 != e / 256 { (cycles + 1) as u32 } else { cycles },
            )
        }),
{
    let (m0, opcode) = M::spec_read(m, c.pc);
    lemma_indexed_reads_pay_for_crossing(opcode, op, mode, cycles, penalty);
    let c0 = c.with_pc(c.pc.wrapping_add(1));
    lemma_execute_indexed_read::<M>(c0, m0, op, mode, cycles);
    assert(c.spec_step::<M>(m) == c0.spec_execute::<M>(m0, Instr::Read(op, mode, cycles, true)));
    let pc = c.pc;
    assert(pc.wrapping_add(1).wrapping_add(2) == pc.wrapping_add(3)) by (bit_vector);
    assert(pc.wrapping_add(1).wrapping_add(1) == pc.wrapping_add(2)) by (bit_vector);
}

/// A bus whose stack page ($0100-$01FF) keeps what is written: a stack
/// address reads back the byte last written there, and neither a write to
/// another address nor a read changes what it reads.
pub open spec fn stack_keeps_bytes<M: Memory>() -> bool {
    &&& forall|s: M::V, a: u16, v: u8| 0x100 <= a <= 0x1FF ==> #[trigger] M::spec_read(M::spec_write(s, a, v), a).1 == v
    &&& forall|s: M::V, a: u16, b: u16, v: u8|
        0x100 <= a <= 0x1FF && a != b ==> #[trigger] M::spec_read(M::spec_write(s, b, v), a).1 == M::spec_read(s, a).1
    &&& forall|s: M::V, a: u16, b: u16| 0x100 <= a <= 0x1FF ==> #[trigger] M::spec_read(M::spec_read(s, b).0, a).1 == M::spec_read(s, a).1
}

/// PHP then PLP gives the flags back on any bus whose stack keeps its bytes:
/// PHP pushes the status byte with B and the unused bit set; whatever runs in
/// between, as long as it leaves the stack pointer as PHP left it and the
/// pushed byte reading as it did, PLP pulls C, Z, I, D, V and N as they were
/// at the PHP, with B clear, the unused bit set and the stack pointer where
/// it started.
pub proof fn law_php_then_plp_restores_flags_on_any_bus<M: Memory>(c: CPU, m: M::V, later: CPU, later_mem: M::V)
    requires
        stack_keeps_bytes::<M>(),
        ({
            let (c1, m1, _) = c.spec_execute::<M>(m, Instr::Php);
            &&& later.sp == c1.sp
            &&& M::spec_read(later_mem, (0x100 + c.sp) as u16).1 == M::spec_read(m1, (0x100 + c.sp) as u16).1
        }),
    ensures
        ({
            let (c1, m1, _) = c.spec_execute::<M>(m, Instr::Php);
            let (c2, _, _) = later.spec_execute::<M>(later_mem, Instr::Plp);
            &&& M::spec_read(m1, (0x100 + c.sp) as u16).1 == c.status.spec_byte() | 0x30
            &&& c2.sp == c.sp
            &&& c2.status == (StatusFlags { b: false, u: true, ..c.status })
        }),
{
    let sp = c.sp;
    let addr = (0x100 + sp) as u16;
    let p = c.status.spec_byte() | 0x30;
    assert(sp.wrapping_sub(1).wrapping_add(1) == sp) by (bit_vector);
    assert(M::spec_read(M::spec_write(m, addr, p), addr).1 == p);
    lemma_pushed_flags_unpack(c.status);
}

/// An interrupt handler entered by BRK returns past the BRK's padding byte,
/// on any bus whose stack keeps its bytes: when the opcode at PC is BRK and
/// the handler leaves the stack pointer as BRK left it and the three pushed
/// bytes reading as they did, RTI goes back to PC + 2 with the stack pointer
/// and the C, Z, I, D, V and N flags from before the BRK (B clear, the unused
/// bit set).
pub proof fn law_brk_then_rti_returns_on_any_bus<M: Memory>(c: CPU, m: M::V, handler: CPU, hm: M::V)
    requires
        stack_keeps_bytes::<M>(),
        !c.jammed,
        spec_decode(M::spec_read(m, c.pc).1) == Instr::Brk,
        ({
            let (c1, m1, _) = c.spec_step::<M>(m);
            &&& handler.sp == c1.sp
            &&& M::spec_read(hm, (0x100 + c.sp) as u16).1 == M::spec_read(m1, (0x100 + c.sp) as u16).1
            &&& M::spec_read(hm, (0x100 + c.sp.wrapping_sub(1)) as u16).1
                == M::spec_read(m1, (0x100 + c.sp.wrapping_sub(1)) as u16).1
            &&& M::spec_read(hm, (0x100 + c.sp.wrapping_sub(2)) as u16).1
                == M::spec_read(m1, (0x100 + c.sp.wrapping_sub(2)) as u16).1
        }),
    ensures
        ({
            let (r, _, _) = handler.spec_execute::<M>(hm, Instr::Rti);
            &&& r.pc == c.pc.wrapping_add(2)
            &&& r.sp == c.sp
            &&& r.status == (StatusFlags { b: false, u: true, ..c.status })
        }),
{
    let sp = c.sp;
    let sp1 = sp.wrapping_sub(1);
    let sp2 = sp1.wrapping_sub(1);
    let s3 = sp2.wrapping_sub(1);
    assert(sp.wrapping_sub(2) == sp2 && s3.wrapping_add(1) == sp2 && sp2.wrapping_add(1) == sp1
        && sp1.wrapping_add(1) == sp && sp != sp1 && sp != sp2 && sp1 != sp2) by (bit_vector)
        requires
            sp1 == sp.wrapping_sub(1),
            sp2 == sp1.wrapping_sub(1),
            s3 == sp2.wrapping_sub(1),
    ;
    let pc = c.pc;
    let pc1 = pc.wrapping_add(1);
    let ret = pc1.wrapping_add(1);
    assert(ret == pc.wrapping_add(2)) by (bit_vector)
        requires
            pc1 == pc.wrapping_add(1),
            ret == pc1.wrapping_add(1),
    ;
    let hi = (ret / 256) as u8;
    let lo = (ret % 256) as u8;
    let p = c.status.spec_byte() | 0x30;
    let a0 = (0x100 + sp) as u16;
    let a1 = (0x100 + sp1) as u16;
    let a2 = (0x100 + sp2) as u16;
    // The step: fetch the opcode, push three bytes, read the vector.
    let m0 = M::spec_read(m, pc).0;
    let ma = M::spec_write(m0, a0, hi);
    let mb = M::spec_write(ma, a1, lo);
    let mc = M::spec_write(mb, a2, p);
    let md = M::spec_read(mc, 0xFFFE).0;
    let m1 = M::spec_read(md, 0xFFFFu16).0;
    assert(0xFFFEu16.wrapping_add(1) == 0xFFFFu16) by (bit_vector);
    let (c1, mm, _) = c.spec_step::<M>(m);
    assert(mm == m1);
    assert(c1.sp == s3);
    assert(M::spec_read(m1, a0).1 == M::spec_read(md, a0).1);
    assert(M::spec_read(md, a0).1 == M::spec_read(mc, a0).1);
    assert(M::spec_read(mc, a0).1 == M::spec_read(mb, a0).1);
    assert(M::spec_read(mb, a0).1 == M::spec_read(ma, a0).1);
    assert(M::spec_read(ma, a0).1 == hi);
    assert(M::spec_read(m1, a1).1 == M::spec_read(md, a1).1);
    assert(M::spec_read(md, a1).1 == M::spec_read(mc, a1).1);
    assert(M::spec_read(mc, a1).1 == M::spec_read(mb, a1).1);
    assert(M::spec_read(mb, a1).1 == lo);
    assert(M::spec_read(m1, a2).1 == M::spec_read(md, a2).1);
    assert(M::spec_read(md, a2).1 == M::spec_read(mc, a2).1);
    assert(M::spec_read(mc, a2).1 == p);
    // RTI: the status at $0100 + SP + 1, then the return address.
    let h1 = M::spec_read(hm, a2).0;
    let h2 = M::spec_read(h1, a1).0;
    assert(M::spec_read(h1, a1).1 == M::spec_read(hm, a1).1);
    assert(M::spec_read(h2, a0).1 == M::spec_read(h1, a0).1);
    assert(M::spec_read(h1, a0).1 == M::spec_read(hm, a0).1);
    lemma_pushed_flags_unpack(c.status);
    assert((((ret / 256) as u8) * 256 + ((ret % 256) as u8)) as u16 == ret) by (bit_vector);
}

/// The immediate compares on any bus: CMP #, CPX # and CPY # (opcodes C9,
/// E0 and C0) take two cycles, move PC past the operand byte, leave the
/// registers alone and set carry exactly when A, X or Y is at least the
/// operand, Z exactly when they are equal, and N to bit 7 of their difference.
pub proof fn law_compare_immediate<M: Memory>(c: CPU, m: M::V)
    requires
        !c.jammed,
        M::spec_read(m, c.pc).1 == 0xC9 || M::spec_read(m, c.pc).1 == 0xE0 || M::spec_read(m, c.pc).1 == 0xC0,
    ensures
        ({
            let (m0, opcode) = M::spec_read(m, c.pc);
            let v = M::spec_read(m0, c.pc.wrapping_add(1)).1;
            let reg = if opcode == 0xC9 { c.a } else if opcode == 0xE0 { c.x } else { c.y };
            let (r, _, cycles) = c.spec_step::<M>(m);
            &&& cycles == 2
            &&& r.pc == c.pc.wrapping_add(2)
            &&& r.a == c.a && r.x == c.x && r.y == c.y && r.sp == c.sp
            &&& r.status.c <==> reg >= v
            &&& r.status.z <==> reg == v
            &&& r.status.n <==> (reg - v + 256) % 256 >= 128
        }),
{
    let (m0, opcode) = M::spec_read(m, c.pc);
    let c0 = c.with_pc(c.pc.wrapping_add(1));
    let v = M::spec_read(m0, c0.pc).1;
    let reg = if opcode == 0xC9 { c.a } else if opcode == 0xE0 { c.x } else { c.y };
    let op = if opcode == 0xC9 { ReadOp::Cmp } else if opcode == 0xE0 { ReadOp::Cpx } else { ReadOp::Cpy };
    assert(spec_decode(opcode) == Instr::Read(op, AddressingMode::Immediate, 2, false));
    crate::instructions::law_compare_flags(c0.with_pc(c0.pc.wrapping_add(1)), op, v);
    let pc = c.pc;
    assert(pc.wrapping_add(1).wrapping_add(1) == pc.wrapping_add(2)) by (bit_vector);
}

} // verus!

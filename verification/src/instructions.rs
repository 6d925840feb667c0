//! Instruction semantics of the NMOS 6502, documented and undocumented.
use vstd::prelude::*;
use crate::cpu::{AddressingMode, CPU, StatusFlags, flag_weight};
use crate::memory::{Memory, spec_read_word};

verus! {

/// Operations that read one operand byte and only change registers.
#[derive(Clone, Copy, Debug)]
pub enum ReadOp {
    Lda, Ldx, Ldy, Lax, LaxImmediate, Las,
    Ora, And, Eor, Adc, Sbc, Cmp, Cpx, Cpy, Bit, Nop,
    Anc, Alr, Arr, Axs, Xaa,
}

/// Operations that store a register (or a combination of registers).
#[derive(Clone, Copy, Debug)]
pub enum StoreOp {
    Sta, Stx, Sty, Sax,
}

/// Read-modify-write operations; the first four also exist on the accumulator.
#[derive(Clone, Copy, Debug)]
pub enum ModifyOp {
    Asl, Lsr, Rol, Ror, Inc, Dec,
    Slo, Rla, Sre, Rra, Dcp, Isc,
}

/// Single-byte register and flag instructions.
#[derive(Clone, Copy, Debug)]
pub enum ImpliedOp {
    Inx, Iny, Dex, Dey, Tax, Tay, Txa, Tya, Tsx, Txs,
    Clc, Sec, Cli, Sei, Clv, Cld, Sed, Nop,
}

/// Stores whose value is masked by the high byte of the base address plus one.
#[derive(Clone, Copy, Debug)]
pub enum UnstableOp {
    Ahx, Shx, Shy, Tas,
}

/// Status flag that a conditional branch tests.
#[derive(Clone, Copy, Debug)]
pub enum Flag {
    Carry, Zero, Negative, Overflow,
}

/// A decoded opcode.
#[derive(Clone, Copy, Debug)]
pub enum Instr {
    /// Operation, addressing mode, base cycles, whether a page crossing costs a cycle.
    Read(ReadOp, AddressingMode, u32, bool),
    Store(StoreOp, AddressingMode, u32),
    Modify(ModifyOp, AddressingMode, u32),
    ModifyAccumulator(ModifyOp),
    Implied(ImpliedOp),
    /// Branch taken when the flag equals the given value.
    Branch(Flag, bool),
    Jump(AddressingMode, u32),
    Jsr,
    Rts,
    Rti,
    Brk,
    Pha,
    Pla,
    Php,
    Plp,
    NopZeroPageX,
    NopAbsoluteX,
    UnstableStore(UnstableOp, AddressingMode, u32),
    Jam,
}

/// Two's-complement sign of a byte.
pub open spec fn negative(x: u8) -> bool {
    x >= 128
}

/// Signed overflow of an addition `a + b` whose low byte is `r`: both operands
/// have the same sign and the result's sign differs.
pub open spec fn add_overflows(a: u8, b: u8, r: u8) -> bool {
    negative(a) == negative(b) && negative(r) != negative(a)
}

/// NMOS decimal addition: the new accumulator and the C, Z, N and V flags.
#[verifier::opaque]
pub open spec fn spec_decimal_add(a: u8, value: u8, carry: bool) -> (u8, bool, bool, bool, bool) {
    let lo0 = a % 16 + value % 16 + flag_weight(carry, 1);
    let lo = if lo0 >= 10 { (lo0 + 6) % 16 + 16 } else { lo0 };
    let t = (a / 16) * 16 + (value / 16) * 16 + lo;
    let t8 = (t % 256) as u8;
    let adjusted = if t >= 0xA0 { t + 0x60 } else { t };
    let binary = (a + value + flag_weight(carry, 1)) % 256;
    ((adjusted % 256) as u8, adjusted >= 0x100, binary == 0, negative(t8), add_overflows(a, value, t8))
}

/// Executable NMOS decimal addition.
fn decimal_add(a: u8, value: u8, c: bool) -> (r: (u8, bool, bool, bool, bool))
    ensures
        r == spec_decimal_add(a, value, c),
{
    reveal(spec_decimal_add);
    let carry: u16 = if c { 1 } else { 0 };
    let binary: u16 = (a as u16 + value as u16 + carry) % 256;
    let lo0: u16 = (a % 16) as u16 + (value % 16) as u16 + carry;
    let lo: u16 = if lo0 >= 10 { (lo0 + 6) % 16 + 16 } else { lo0 };
    let hi_a: u16 = (a / 16) as u16;
    let hi_v: u16 = (value / 16) as u16;
    let t: u16 = hi_a * 16 + hi_v * 16 + lo;
    let t8: u8 = (t % 256) as u8;
    let adjusted: u16 = if t >= 0xA0 { t + 0x60 } else { t };
    let result: u8 = (adjusted % 256) as u8;
    let v: bool = (a >= 128) == (value >= 128) && (t8 >= 128) != (a >= 128);
    (result, adjusted >= 0x100, binary == 0, t8 >= 128, v)
}

impl CPU {
    pub open spec fn with_a(self, a: u8) -> CPU {
        CPU { a, ..self }
    }

    pub open spec fn with_x(self, x: u8) -> CPU {
        CPU { x, ..self }
    }

    pub open spec fn with_y(self, y: u8) -> CPU {
        CPU { y, ..self }
    }

    pub open spec fn with_carry(self, c: bool) -> CPU {
        CPU { status: StatusFlags { c, ..self.status }, ..self }
    }

    pub open spec fn with_overflow(self, v: bool) -> CPU {
        CPU { status: StatusFlags { v, ..self.status }, ..self }
    }

    /// Binary ADC: A + M + C, carry out of bit 7, signed overflow in V.
    #[verifier::opaque]
    pub open spec fn spec_adc_binary(self, value: u8) -> CPU {
        let sum = self.a + value + flag_weight(self.status.c, 1);
        let r = (sum % 256) as u8;
        self.with_a(r).with_carry(sum > 255).with_overflow(add_overflows(self.a, value, r)).with_nz(r)
    }

    /// Decimal ADC as the NMOS 6502 does it: each nibble is adjusted by 6 when
    /// it passes 9; Z comes from the binary sum, N and V from the intermediate
    /// value before the high-nibble adjustment.
    pub open spec fn spec_adc_decimal(self, value: u8) -> CPU {
        let (r, c, z, n, v) = spec_decimal_add(self.a, value, self.status.c);
        CPU { a: r, status: StatusFlags { c, z, n, v, ..self.status }, ..self }
    }

    pub open spec fn spec_adc(self, value: u8) -> CPU {
        if self.status.d { self.spec_adc_decimal(value) } else { self.spec_adc_binary(value) }
    }

    /// Decimal SBC as the NMOS 6502 does it: the accumulator gets the BCD
    /// difference, every flag comes from the binary subtraction. The low
    /// nibble is adjusted by 6 when it borrows, the high nibble by $60 when the
    /// whole difference goes negative. Intermediate values carry an offset
    /// (16 on the low nibble, 512 on the total) so that they stay non-negative.
    #[verifier::opaque]
    pub open spec fn spec_sbc_decimal(self, value: u8) -> CPU {
        let binary = self.spec_adc_binary((255 - value) as u8);
        let lo0 = self.a % 16 + 16 - value % 16 - (1 - flag_weight(self.status.c, 1));
        let lo = if lo0 < 16 { (lo0 + 10) % 16 } else { lo0 };
        let t = 512 + (self.a / 16) * 16 - (value / 16) * 16 + lo - 16;
        let adjusted = if t < 512 { t - 0x60 } else { t };
        binary.with_a((adjusted % 256) as u8)
    }

    /// SBC: binary mode adds the one's complement of the operand.
    pub open spec fn spec_sbc(self, value: u8) -> CPU {
        if self.status.d { self.spec_sbc_decimal(value) } else { self.spec_adc_binary((255 - value) as u8) }
    }

    /// CMP/CPX/CPY: carry when `reg >= value`, N and Z from `reg - value`.
    pub open spec fn spec_compare(self, reg: u8, value: u8) -> CPU {
        self.with_carry(reg >= value).with_nz(reg.wrapping_sub(value))
    }

    /// Register effect of an operation on an operand byte.
    pub open spec fn spec_read_op(self, op: ReadOp, v: u8) -> CPU {
        match op {
            ReadOp::Lda => self.with_a(v).with_nz(v),
            ReadOp::Ldx => self.with_x(v).with_nz(v),
            ReadOp::Ldy => self.with_y(v).with_nz(v),
            ReadOp::Lax => self.with_a(v).with_x(v).with_nz(v),
            ReadOp::LaxImmediate => self.with_a(self.a & v).with_x(self.a & v).with_nz(self.a & v),
            ReadOp::Las => CPU { a: v & self.sp, x: v & self.sp, sp: v & self.sp, ..self }.with_nz(v & self.sp),
            ReadOp::Ora => self.with_a(self.a | v).with_nz(self.a | v),
            ReadOp::And => self.with_a(self.a & v).with_nz(self.a & v),
            ReadOp::Eor => self.with_a(self.a ^ v).with_nz(self.a ^ v),
            ReadOp::Adc => self.spec_adc(v),
            ReadOp::Sbc => self.spec_sbc(v),
            ReadOp::Cmp => self.spec_compare(self.a, v),
            ReadOp::Cpx => self.spec_compare(self.x, v),
            ReadOp::Cpy => self.spec_compare(self.y, v),
            ReadOp::Bit => CPU {
                status: StatusFlags { z: self.a & v == 0, n: negative(v), v: v & 64 != 0, ..self.status },
                ..self
            },
            ReadOp::Nop => self,
            ReadOp::Anc => self.with_a(self.a & v).with_nz(self.a & v).with_carry(negative(self.a & v)),
            ReadOp::Alr => {
                let t = self.a & v;
                self.with_a(t / 2).with_carry(t % 2 == 1).with_nz(t / 2)
            },
            ReadOp::Arr => {
                let r = ((self.a & v) / 2 + flag_weight(self.status.c, 128)) as u8;
                self.with_a(r).with_nz(r).with_carry(r & 64 != 0).with_overflow((r & 64 != 0) != (r & 32 != 0))
            },
            ReadOp::Axs => {
                let t = self.a & self.x;
                let r = t.wrapping_sub(v);
                self.with_x(r).with_carry(t >= v).with_nz(r)
            },
            ReadOp::Xaa => {
                let r = (self.a | 0xEE) & self.x & v;
                self.with_a(r).with_nz(r)
            },
        }
    }

    /// Register effect and stored byte of a read-modify-write operation on `v`.
    pub open spec fn spec_modify_op(self, op: ModifyOp, v: u8) -> (CPU, u8) {
        let asl = ((v % 128) * 2) as u8;
        let lsr = v / 2;
        let rol = ((v % 128) * 2 + flag_weight(self.status.c, 1)) as u8;
        let ror = (v / 2 + flag_weight(self.status.c, 128)) as u8;
        let inc = v.wrapping_add(1);
        let dec = v.wrapping_sub(1);
        match op {
            ModifyOp::Asl => (self.with_carry(negative(v)).with_nz(asl), asl),
            ModifyOp::Lsr => (self.with_carry(v % 2 == 1).with_nz(lsr), lsr),
            ModifyOp::Rol => (self.with_carry(negative(v)).with_nz(rol), rol),
            ModifyOp::Ror => (self.with_carry(v % 2 == 1).with_nz(ror), ror),
            ModifyOp::Inc => (self.with_nz(inc), inc),
            ModifyOp::Dec => (self.with_nz(dec), dec),
            ModifyOp::Slo => (self.with_carry(negative(v)).with_a(self.a | asl).with_nz(self.a | asl), asl),
            ModifyOp::Rla => (self.with_carry(negative(v)).with_a(self.a & rol).with_nz(self.a & rol), rol),
            ModifyOp::Sre => (self.with_carry(v % 2 == 1).with_a(self.a ^ lsr).with_nz(self.a ^ lsr), lsr),
            ModifyOp::Rra => (self.with_carry(v % 2 == 1).spec_adc(ror), ror),
            ModifyOp::Dcp => (self.spec_compare(self.a, dec), dec),
            ModifyOp::Isc => (self.spec_sbc(inc), inc),
        }
    }

    pub open spec fn spec_implied(self, op: ImpliedOp) -> CPU {
        match op {
            ImpliedOp::Inx => self.with_x(self.x.wrapping_add(1)).with_nz(self.x.wrapping_add(1)),
            ImpliedOp::Iny => self.with_y(self.y.wrapping_add(1)).with_nz(self.y.wrapping_add(1)),
            ImpliedOp::Dex => self.with_x(self.x.wrapping_sub(1)).with_nz(self.x.wrapping_sub(1)),
            ImpliedOp::Dey => self.with_y(self.y.wrapping_sub(1)).with_nz(self.y.wrapping_sub(1)),
            ImpliedOp::Tax => self.with_x(self.a).with_nz(self.a),
            ImpliedOp::Tay => self.with_y(self.a).with_nz(self.a),
            ImpliedOp::Txa => self.with_a(self.x).with_nz(self.x),
            ImpliedOp::Tya => self.with_a(self.y).with_nz(self.y),
            ImpliedOp::Tsx => self.with_x(self.sp).with_nz(self.sp),
            ImpliedOp::Txs => CPU { sp: self.x, ..self },
            ImpliedOp::Clc => self.with_carry(false),
            ImpliedOp::Sec => self.with_carry(true),
            ImpliedOp::Cli => CPU { status: StatusFlags { i: false, ..self.status }, ..self },
            ImpliedOp::Sei => CPU { status: StatusFlags { i: true, ..self.status }, ..self },
            ImpliedOp::Clv => self.with_overflow(false),
            ImpliedOp::Cld => CPU { status: StatusFlags { d: false, ..self.status }, ..self },
            ImpliedOp::Sed => CPU { status: StatusFlags { d: true, ..self.status }, ..self },
            ImpliedOp::Nop => self,
        }
    }

    pub open spec fn spec_flag(self, f: Flag) -> bool {
        match f {
            Flag::Carry => self.status.c,
            Flag::Zero => self.status.z,
            Flag::Negative => self.status.n,
            Flag::Overflow => self.status.v,
        }
    }

    // --- Register-level execution ---

    pub fn update_zero_and_negative_flags(&mut self, result: u8)
        ensures
            *final(self) == old(self).with_nz(result),
    {
        self.status.z = result == 0;
        self.status.n = result >= 128;
    }

    fn adc_binary(&mut self, value: u8)
        ensures
            *final(self) == old(self).spec_adc_binary(value),
    {
        reveal(CPU::spec_adc_binary);
        let sum: u16 = self.a as u16 + value as u16 + (if self.status.c { 1 } else { 0 });
        let result: u8 = (sum % 256) as u8;
        self.status.c = sum > 255;
        self.status.v = (self.a >= 128) == (value >= 128) && (result >= 128) != (self.a >= 128);
        self.a = result;
        self.update_zero_and_negative_flags(result);
    }

    fn adc_decimal(&mut self, value: u8)
        ensures
            *final(self) == old(self).spec_adc_decimal(value),
    {
        let (r, c, z, n, v) = decimal_add(self.a, value, self.status.c);
        self.a = r;
        self.status.c = c;
        self.status.z = z;
        self.status.n = n;
        self.status.v = v;
    }

    pub fn adc_with_val(&mut self, value: u8)
        ensures
            *final(self) == old(self).spec_adc(value),
    {
        if self.status.d {
            self.adc_decimal(value);
        } else {
            self.adc_binary(value);
        }
    }

    fn sbc_decimal(&mut self, value: u8)
        ensures
            *final(self) == old(self).spec_sbc_decimal(value),
    {
        reveal(CPU::spec_sbc_decimal);
        let a: u8 = self.a;
        let borrow: u16 = if self.status.c { 0 } else { 1 };
        let lo0: u16 = (a % 16) as u16 + 16 - (value % 16) as u16 - borrow;
        let lo: u16 = if lo0 < 16 { (lo0 + 10) % 16 } else { lo0 };
        let t: u16 = 512 + (a / 16) as u16 * 16 - (value / 16) as u16 * 16 + lo - 16;
        let adjusted: u16 = if t < 512 { t - 0x60 } else { t };
        self.adc_binary(255 - value);
        self.a = (adjusted % 256) as u8;
    }

    pub fn sbc_with_val(&mut self, value: u8)
        ensures
            *final(self) == old(self).spec_sbc(value),
    {
        if self.status.d {
            self.sbc_decimal(value);
        } else {
            self.adc_binary(255 - value);
        }
    }

    pub fn compare(&mut self, reg: u8, value: u8)
        ensures
            *final(self) == old(self).spec_compare(reg, value),
    {
        self.status.c = reg >= value;
        self.update_zero_and_negative_flags(reg.wrapping_sub(value));
    }

    fn read_op_loads(&mut self, op: ReadOp, v: u8)
        requires
            op is Lda || op is Ldx || op is Ldy || op is Lax || op is LaxImmediate || op is Las,
        ensures
            *final(self) == old(self).spec_read_op(op, v),
    {
        match op {
            ReadOp::Lda => { self.a = v; self.update_zero_and_negative_flags(v); },
            ReadOp::Ldx => { self.x = v; self.update_zero_and_negative_flags(v); },
            ReadOp::Ldy => { self.y = v; self.update_zero_and_negative_flags(v); },
            ReadOp::Lax => { self.a = v; self.x = v; self.update_zero_and_negative_flags(v); },
            ReadOp::LaxImmediate => {
                let r = self.a & v;
                self.a = r;
                self.x = r;
                self.update_zero_and_negative_flags(r);
            },
            ReadOp::Las => {
                let r = v & self.sp;
                self.a = r;
                self.x = r;
                self.sp = r;
                self.update_zero_and_negative_flags(r);
            },
            _ => {},
        }
    }

    fn read_op_logic(&mut self, op: ReadOp, v: u8)
        requires
            op is Ora || op is And || op is Eor || op is Bit || op is Nop,
        ensures
            *final(self) == old(self).spec_read_op(op, v),
    {
        match op {
            ReadOp::Ora => { self.a = self.a | v; self.update_zero_and_negative_flags(self.a); },
            ReadOp::And => { self.a = self.a & v; self.update_zero_and_negative_flags(self.a); },
            ReadOp::Eor => { self.a = self.a ^ v; self.update_zero_and_negative_flags(self.a); },
            ReadOp::Bit => {
                self.status.z = (self.a & v) == 0;
                self.status.n = v >= 128;
                self.status.v = (v & 64) != 0;
            },
            ReadOp::Nop => {},
            _ => {},
        }
    }

    fn read_op_arith(&mut self, op: ReadOp, v: u8)
        requires
            op is Adc || op is Sbc || op is Cmp || op is Cpx || op is Cpy,
        ensures
            *final(self) == old(self).spec_read_op(op, v),
    {
        match op {
            ReadOp::Adc => self.adc_with_val(v),
            ReadOp::Sbc => self.sbc_with_val(v),
            ReadOp::Cmp => self.compare(self.a, v),
            ReadOp::Cpx => self.compare(self.x, v),
            ReadOp::Cpy => self.compare(self.y, v),
            _ => {},
        }
    }

    fn read_op_unofficial(&mut self, op: ReadOp, v: u8)
        requires
            op is Anc || op is Alr || op is Arr || op is Axs || op is Xaa,
        ensures
            *final(self) == old(self).spec_read_op(op, v),
    {
        match op {
            ReadOp::Anc => {
                self.a = self.a & v;
                self.update_zero_and_negative_flags(self.a);
                self.status.c = self.a >= 128;
            },
            ReadOp::Alr => {
                let t = self.a & v;
                self.status.c = t % 2 == 1;
                self.a = t / 2;
                self.update_zero_and_negative_flags(self.a);
            },
            ReadOp::Arr => {
                let t = self.a & v;
                let r: u8 = t / 2 + (if self.status.c { 128 } else { 0 });
                self.a = r;
                self.update_zero_and_negative_flags(r);
                self.status.c = (r & 64) != 0;
                self.status.v = ((r & 64) != 0) != ((r & 32) != 0);
            },
            ReadOp::Axs => {
                let t = self.a & self.x;
                self.status.c = t >= v;
                self.x = t.wrapping_sub(v);
                self.update_zero_and_negative_flags(self.x);
            },
            ReadOp::Xaa => {
                let r = (self.a | 0xEE) & self.x & v;
                self.a = r;
                self.update_zero_and_negative_flags(r);
            },
            _ => {},
        }
    }

    pub fn apply_read_op(&mut self, op: ReadOp, v: u8)
        ensures
            *final(self) == old(self).spec_read_op(op, v),
    {
        match op {
            ReadOp::Lda | ReadOp::Ldx | ReadOp::Ldy | ReadOp::Lax | ReadOp::LaxImmediate | ReadOp::Las => self.read_op_loads(op, v),
            ReadOp::Ora | ReadOp::And | ReadOp::Eor | ReadOp::Bit | ReadOp::Nop => self.read_op_logic(op, v),
            ReadOp::Adc | ReadOp::Sbc | ReadOp::Cmp | ReadOp::Cpx | ReadOp::Cpy => self.read_op_arith(op, v),
            ReadOp::Anc | ReadOp::Alr | ReadOp::Arr | ReadOp::Axs | ReadOp::Xaa => self.read_op_unofficial(op, v),
        }
    }

    fn modify_op_basic(&mut self, op: ModifyOp, v: u8) -> (r: u8)
        requires
            op is Asl || op is Lsr || op is Rol || op is Ror || op is Inc || op is Dec,
        ensures
            (*final(self), r) == old(self).spec_modify_op(op, v),
    {
        let carry_in: u8 = if self.status.c { 1 } else { 0 };
        match op {
            ModifyOp::Asl => {
                let r = (v % 128) * 2;
                self.status.c = v >= 128;
                self.update_zero_and_negative_flags(r);
                r
            },
            ModifyOp::Lsr => {
                let r = v / 2;
                self.status.c = v % 2 == 1;
                self.update_zero_and_negative_flags(r);
                r
            },
            ModifyOp::Rol => {
                let r = (v % 128) * 2 + carry_in;
                self.status.c = v >= 128;
                self.update_zero_and_negative_flags(r);
                r
            },
            ModifyOp::Ror => {
                let r = v / 2 + carry_in * 128;
                self.status.c = v % 2 == 1;
                self.update_zero_and_negative_flags(r);
                r
            },
            ModifyOp::Inc => {
                let r = v.wrapping_add(1);
                self.update_zero_and_negative_flags(r);
                r
            },
            ModifyOp::Dec => {
                let r = v.wrapping_sub(1);
                self.update_zero_and_negative_flags(r);
                r
            },
            _ => 0,
        }
    }

    fn modify_op_combined(&mut self, op: ModifyOp, v: u8) -> (r: u8)
        requires
            op is Slo || op is Rla || op is Sre || op is Rra || op is Dcp || op is Isc,
        ensures
            (*final(self), r) == old(self).spec_modify_op(op, v),
    {
        let carry_in: u8 = if self.status.c { 1 } else { 0 };
        match op {
            ModifyOp::Slo => {
                let r = (v % 128) * 2;
                self.status.c = v >= 128;
                self.a = self.a | r;
                self.update_zero_and_negative_flags(self.a);
                r
            },
            ModifyOp::Rla => {
                let r = (v % 128) * 2 + carry_in;
                self.status.c = v >= 128;
                self.a = self.a & r;
                self.update_zero_and_negative_flags(self.a);
                r
            },
            ModifyOp::Sre => {
                let r = v / 2;
                self.status.c = v % 2 == 1;
                self.a = self.a ^ r;
                self.update_zero_and_negative_flags(self.a);
                r
            },
            ModifyOp::Rra => {
                let r = v / 2 + carry_in * 128;
                self.status.c = v % 2 == 1;
                self.adc_with_val(r);
                r
            },
            ModifyOp::Dcp => {
                let r = v.wrapping_sub(1);
                self.compare(self.a, r);
                r
            },
            ModifyOp::Isc => {
                let r = v.wrapping_add(1);
                self.sbc_with_val(r);
                r
            },
            _ => 0,
        }
    }

    /// Applies a read-modify-write operation to `v` and returns the byte to store.
    pub fn modify_op(&mut self, op: ModifyOp, v: u8) -> (r: u8)
        ensures
            (*final(self), r) == old(self).spec_modify_op(op, v),
    {
        match op {
            ModifyOp::Asl | ModifyOp::Lsr | ModifyOp::Rol | ModifyOp::Ror | ModifyOp::Inc | ModifyOp::Dec => self.modify_op_basic(op, v),
            _ => self.modify_op_combined(op, v),
        }
    }

    fn implied_registers(&mut self, op: ImpliedOp)
        requires
            op is Inx || op is Iny || op is Dex || op is Dey || op is Tax || op is Tay || op is Txa || op is Tya || op is Tsx || op is Txs,
        ensures
            *final(self) == old(self).spec_implied(op),
    {
        match op {
            ImpliedOp::Inx => { self.x = self.x.wrapping_add(1); self.update_zero_and_negative_flags(self.x); },
            ImpliedOp::Iny => { self.y = self.y.wrapping_add(1); self.update_zero_and_negative_flags(self.y); },
            ImpliedOp::Dex => { self.x = self.x.wrapping_sub(1); self.update_zero_and_negative_flags(self.x); },
            ImpliedOp::Dey => { self.y = self.y.wrapping_sub(1); self.update_zero_and_negative_flags(self.y); },
            ImpliedOp::Tax => { self.x = self.a; self.update_zero_and_negative_flags(self.x); },
            ImpliedOp::Tay => { self.y = self.a; self.update_zero_and_negative_flags(self.y); },
            ImpliedOp::Txa => { self.a = self.x; self.update_zero_and_negative_flags(self.a); },
            ImpliedOp::Tya => { self.a = self.y; self.update_zero_and_negative_flags(self.a); },
            ImpliedOp::Tsx => { self.x = self.sp; self.update_zero_and_negative_flags(self.x); },
            ImpliedOp::Txs => { self.sp = self.x; },
            _ => {},
        }
    }

    fn implied_flags(&mut self, op: ImpliedOp)
        requires
            op is Clc || op is Sec || op is Cli || op is Sei || op is Clv || op is Cld || op is Sed || op is Nop,
        ensures
            *final(self) == old(self).spec_implied(op),
    {
        match op {
            ImpliedOp::Clc => { self.status.c = false; },
            ImpliedOp::Sec => { self.status.c = true; },
            ImpliedOp::Cli => { self.status.i = false; },
            ImpliedOp::Sei => { self.status.i = true; },
            ImpliedOp::Clv => { self.status.v = false; },
            ImpliedOp::Cld => { self.status.d = false; },
            ImpliedOp::Sed => { self.status.d = true; },
            ImpliedOp::Nop => {},
            _ => {},
        }
    }

    pub fn implied(&mut self, op: ImpliedOp)
        ensures
            *final(self) == old(self).spec_implied(op),
    {
        match op {
            ImpliedOp::Inx | ImpliedOp::Iny | ImpliedOp::Dex | ImpliedOp::Dey | ImpliedOp::Tax | ImpliedOp::Tay
            | ImpliedOp::Txa | ImpliedOp::Tya | ImpliedOp::Tsx | ImpliedOp::Txs => self.implied_registers(op),
            _ => self.implied_flags(op),
        }
    }

    pub fn flag(&self, f: Flag) -> (r: bool)
        ensures
            r == self.spec_flag(f),
    {
        match f {
            Flag::Carry => self.status.c,
            Flag::Zero => self.status.z,
            Flag::Negative => self.status.n,
            Flag::Overflow => self.status.v,
        }
    }
}


/// The 16-bit displacement a branch adds to the PC: the offset byte sign-extended.
pub open spec fn branch_displacement(off: u8) -> u16 {
    if off >= 128 { (off + 0xFF00) as u16 } else { off as u16 }
}

/// The value of the high byte of the base address plus one, used as a mask by
/// the unstable stores. Without a page crossing the base has the high byte of
/// the final address; with one, the final high byte is already that plus one.
pub open spec fn high_plus_one(addr: u16, crossed: bool) -> u8 {
    if crossed { (addr / 256) as u8 } else { ((addr / 256) as u8).wrapping_add(1) }
}

impl CPU {
    // --- Bus-level semantics ---

    /// Reads the byte at PC and advances PC.
    pub open spec fn spec_fetch_byte<M: Memory>(self, m: M::V) -> (CPU, M::V, u8) {
        let (m1, v) = M::spec_read(m, self.pc);
        (self.with_pc(self.pc.wrapping_add(1)), m1, v)
    }

    /// Reads the little-endian word at PC and advances PC by two.
    pub open spec fn spec_fetch_word<M: Memory>(self, m: M::V) -> (CPU, M::V, u16) {
        let (m1, w) = spec_read_word::<M>(m, self.pc);
        (self.with_pc(self.pc.wrapping_add(2)), m1, w)
    }

    /// Effective address of an operand and whether indexing crossed a page.
    pub open spec fn spec_operand_address<M: Memory>(self, m: M::V, mode: AddressingMode) -> (CPU, M::V, u16, bool) {
        match mode {
            AddressingMode::Immediate => (self.with_pc(self.pc.wrapping_add(1)), m, self.pc, false),
            AddressingMode::ZeroPage => {
                let (c1, m1, b) = self.spec_fetch_byte::<M>(m);
                (c1, m1, b as u16, false)
            },
            AddressingMode::ZeroPageX => {
                let (c1, m1, b) = self.spec_fetch_byte::<M>(m);
                (c1, m1, b.wrapping_add(self.x) as u16, false)
            },
            AddressingMode::ZeroPageY => {
                let (c1, m1, b) = self.spec_fetch_byte::<M>(m);
                (c1, m1, b.wrapping_add(self.y) as u16, false)
            },
            AddressingMode::Absolute => {
                let (c1, m1, w) = self.spec_fetch_word::<M>(m);
                (c1, m1, w, false)
            },
            AddressingMode::AbsoluteX => {
                let (c1, m1, base) = self.spec_fetch_word::<M>(m);
                let addr = base.wrapping_add(self.x as u16);
                (c1, m1, addr, base / 256 != addr / 256)
            },
            AddressingMode::AbsoluteY => {
                let (c1, m1, base) = self.spec_fetch_word::<M>(m);
                let addr = base.wrapping_add(self.y as u16);
                (c1, m1, addr, base / 256 != addr / 256)
            },
            AddressingMode::Indirect => {
                // The NMOS page-wrap bug: a pointer at $xxFF takes its high
                // byte from $xx00.
                let (c1, m1, ptr) = self.spec_fetch_word::<M>(m);
                let (m2, lo) = M::spec_read(m1, ptr);
                let hi_ptr = if ptr % 256 == 255 { (ptr - 255) as u16 } else { (ptr + 1) as u16 };
                let (m3, hi) = M::spec_read(m2, hi_ptr);
                (c1, m3, (hi * 256 + lo) as u16, false)
            },
            AddressingMode::IndirectX => {
                let (c1, m1, b) = self.spec_fetch_byte::<M>(m);
                let ptr = b.wrapping_add(self.x);
                let (m2, lo) = M::spec_read(m1, ptr as u16);
                let (m3, hi) = M::spec_read(m2, ptr.wrapping_add(1) as u16);
                (c1, m3, (hi * 256 + lo) as u16, false)
            },
            AddressingMode::IndirectY => {
                let (c1, m1, b) = self.spec_fetch_byte::<M>(m);
                let (m2, lo) = M::spec_read(m1, b as u16);
                let (m3, hi) = M::spec_read(m2, b.wrapping_add(1) as u16);
                let base = (hi * 256 + lo) as u16;
                let addr = base.wrapping_add(self.y as u16);
                (c1, m3, addr, base / 256 != addr / 256)
            },
            AddressingMode::NoneAddressing => (self, m, 0, false),
            AddressingMode::Relative => (self, m, 0, false),
        }
    }

    /// Stores a byte at $0100 + SP and decrements SP.
    pub open spec fn spec_stack_push<M: Memory>(self, m: M::V, data: u8) -> (CPU, M::V) {
        (CPU { sp: self.sp.wrapping_sub(1), ..self }, M::spec_write(m, (0x100 + self.sp) as u16, data))
    }

    /// Increments SP and reads the byte at $0100 + SP.
    pub open spec fn spec_stack_pop<M: Memory>(self, m: M::V) -> (CPU, M::V, u8) {
        let sp = self.sp.wrapping_add(1);
        let (m1, v) = M::spec_read(m, (0x100 + sp) as u16);
        (CPU { sp, ..self }, m1, v)
    }

    /// Flags restored by PLP and RTI: B reads as clear, the unused bit as set.
    pub open spec fn spec_pulled_status(p: u8) -> StatusFlags {
        StatusFlags { b: false, ..StatusFlags::spec_from_byte(p) }
    }

    pub open spec fn spec_execute_read<M: Memory>(self, m: M::V, op: ReadOp, mode: AddressingMode, cycles: u32, penalty: bool) -> (CPU, M::V, u32) {
        let (c1, m1, addr, crossed) = self.spec_operand_address::<M>(m, mode);
        let (m2, v) = M::spec_read(m1, addr);
        (c1.spec_read_op(op, v), m2, if penalty && crossed { (cycles + 1) as u32 } else { cycles })
    }

    pub open spec fn spec_store_value(self, op: StoreOp) -> u8 {
        match op {
            StoreOp::Sta => self.a,
            StoreOp::Stx => self.x,
            StoreOp::Sty => self.y,
            StoreOp::Sax => self.a & self.x,
        }
    }

    pub open spec fn spec_execute_store<M: Memory>(self, m: M::V, op: StoreOp, mode: AddressingMode, cycles: u32) -> (CPU, M::V, u32) {
        let (c1, m1, addr, _) = self.spec_operand_address::<M>(m, mode);
        (c1, M::spec_write(m1, addr, self.spec_store_value(op)), cycles)
    }

    pub open spec fn spec_execute_modify<M: Memory>(self, m: M::V, op: ModifyOp, mode: AddressingMode, cycles: u32) -> (CPU, M::V, u32) {
        let (c1, m1, addr, _) = self.spec_operand_address::<M>(m, mode);
        let (m2, v) = M::spec_read(m1, addr);
        let (c2, r) = c1.spec_modify_op(op, v);
        (c2, M::spec_write(m2, addr, r), cycles)
    }

    pub open spec fn spec_execute_branch<M: Memory>(self, m: M::V, f: Flag, want: bool) -> (CPU, M::V, u32) {
        let (c1, m1, off) = self.spec_fetch_byte::<M>(m);
        if c1.spec_flag(f) == want {
            let target = c1.pc.wrapping_add(branch_displacement(off));
            (c1.with_pc(target), m1, if target / 256 != c1.pc / 256 { 5 } else { 4 })
        } else {
            (c1, m1, 2)
        }
    }

    pub open spec fn spec_execute_unstable<M: Memory>(self, m: M::V, op: UnstableOp, mode: AddressingMode, cycles: u32) -> (CPU, M::V, u32) {
        let (c1, m1, addr, crossed) = self.spec_operand_address::<M>(m, mode);
        let c2 = if op is Tas { CPU { sp: c1.a & c1.x, ..c1 } } else { c1 };
        let src = match op {
            UnstableOp::Ahx => c2.a & c2.x,
            UnstableOp::Shx => c2.x,
            UnstableOp::Shy => c2.y,
            UnstableOp::Tas => c2.sp,
        };
        let value = src & high_plus_one(addr, crossed);
        let target = if crossed { (value * 256 + addr % 256) as u16 } else { addr };
        (c2, M::spec_write(m1, target, value), cycles)
    }

    pub open spec fn spec_execute<M: Memory>(self, m: M::V, instr: Instr) -> (CPU, M::V, u32) {
        match instr {
            Instr::Read(op, mode, cycles, penalty) => self.spec_execute_read::<M>(m, op, mode, cycles, penalty),
            Instr::Store(op, mode, cycles) => self.spec_execute_store::<M>(m, op, mode, cycles),
            Instr::Modify(op, mode, cycles) => self.spec_execute_modify::<M>(m, op, mode, cycles),
            Instr::ModifyAccumulator(op) => {
                let (c1, r) = self.spec_modify_op(op, self.a);
                (c1.with_a(r), m, 2)
            },
            Instr::Implied(op) => (self.spec_implied(op), m, 2),
            Instr::Branch(f, want) => self.spec_execute_branch::<M>(m, f, want),
            Instr::Jump(mode, cycles) => {
                let (c1, m1, addr, _) = self.spec_operand_address::<M>(m, mode);
                (c1.with_pc(addr), m1, cycles)
            },
            Instr::Jsr => {
                let (c1, m1, addr, _) = self.spec_operand_address::<M>(m, AddressingMode::Absolute);
                let ret = c1.pc.wrapping_sub(1);
                let (c2, m2) = c1.spec_stack_push::<M>(m1, (ret / 256) as u8);
                let (c3, m3) = c2.spec_stack_push::<M>(m2, (ret % 256) as u8);
                (c3.with_pc(addr), m3, 6)
            },
            Instr::Rts => {
                let (c1, m1, lo) = self.spec_stack_pop::<M>(m);
                let (c2, m2, hi) = c1.spec_stack_pop::<M>(m1);
                (c2.with_pc(((hi * 256 + lo) as u16).wrapping_add(1)), m2, 6)
            },
            Instr::Rti => {
                let (c1, m1, p) = self.spec_stack_pop::<M>(m);
                let (c2, m2, lo) = c1.spec_stack_pop::<M>(m1);
                let (c3, m3, hi) = c2.spec_stack_pop::<M>(m2);
                (CPU { status: CPU::spec_pulled_status(p), pc: (hi * 256 + lo) as u16, ..c3 }, m3, 6)
            },
            Instr::Brk => {
                let ret = self.pc.wrapping_add(1);
                let (c1, m1) = self.spec_stack_push::<M>(m, (ret / 256) as u8);
                let (c2, m2) = c1.spec_stack_push::<M>(m1, (ret % 256) as u8);
                let (c3, m3) = c2.spec_stack_push::<M>(m2, c2.status.spec_byte() | 0x30);
                let (m4, vector) = spec_read_word::<M>(m3, 0xFFFE);
                (CPU { status: StatusFlags { i: true, ..c3.status }, pc: vector, ..c3 }, m4, 7)
            },
            Instr::Pha => {
                let (c1, m1) = self.spec_stack_push::<M>(m, self.a);
                (c1, m1, 3)
            },
            Instr::Pla => {
                let (c1, m1, v) = self.spec_stack_pop::<M>(m);
                (c1.with_a(v).with_nz(v), m1, 4)
            },
            Instr::Php => {
                let (c1, m1) = self.spec_stack_push::<M>(m, self.status.spec_byte() | 0x30);
                (c1, m1, 3)
            },
            Instr::Plp => {
                let (c1, m1, p) = self.spec_stack_pop::<M>(m);
                (CPU { status: CPU::spec_pulled_status(p), ..c1 }, m1, 4)
            },
            Instr::NopZeroPageX => {
                let (c1, m1, b) = self.spec_fetch_byte::<M>(m);
                let (m2, _) = M::spec_read(m1, b as u16);
                let (m3, _) = M::spec_read(m2, b.wrapping_add(self.x) as u16);
                (c1, m3, 4)
            },
            Instr::NopAbsoluteX => {
                let (c1, m1, addr, crossed) = self.spec_operand_address::<M>(m, AddressingMode::AbsoluteX);
                let m2 = if crossed { M::spec_read(m1, addr.wrapping_sub(256)).0 } else { m1 };
                let (m3, _) = M::spec_read(m2, addr);
                (c1, m3, if crossed { 5 } else { 4 })
            },
            Instr::UnstableStore(op, mode, cycles) => self.spec_execute_unstable::<M>(m, op, mode, cycles),
            Instr::Jam => (CPU { jammed: true, pc: self.pc.wrapping_sub(1), ..self }, m, 1),
        }
    }

    /// Read a byte from memory and increment PC
    pub fn fetch_byte<M: Memory>(&mut self, mem: &mut M) -> (r: u8)
        requires
            old(mem).inv(),
        ensures
            final(mem).inv(),
            (*final(self), final(mem)@, r) == old(self).spec_fetch_byte::<M>(old(mem)@),
    {
        let result = mem.read(self.pc);
        self.pc = self.pc.wrapping_add(1);
        result
    }

    /// Read a word from memory and increment PC by 2
    pub fn fetch_word<M: Memory>(&mut self, mem: &mut M) -> (r: u16)
        requires
            old(mem).inv(),
        ensures
            final(mem).inv(),
            (*final(self), final(mem)@, r) == old(self).spec_fetch_word::<M>(old(mem)@),
    {
        let result = mem.read_word(self.pc);
        self.pc = self.pc.wrapping_add(2);
        result
    }

    /// Read two consecutive bytes of a pointer as a little-endian address.
    fn read_pointer<M: Memory>(mem: &mut M, lo_addr: u16, hi_addr: u16) -> (r: u16)
        requires
            old(mem).inv(),
        ensures
            final(mem).inv(),
            ({
                let (m1, lo) = M::spec_read(old(mem)@, lo_addr);
                let (m2, hi) = M::spec_read(m1, hi_addr);
                final(mem)@ == m2 && r == hi * 256 + lo
            }),
    {
        let lo = mem.read(lo_addr);
        let hi = mem.read(hi_addr);
        hi as u16 * 256 + lo as u16
    }

    /// Calculate the target address based on addressing mode
    pub fn get_operand_address<M: Memory>(&mut self, mem: &mut M, mode: AddressingMode) -> (r: (u16, bool))
        requires
            old(mem).inv(),
        ensures
            final(mem).inv(),
            (*final(self), final(mem)@, r.0, r.1) == old(self).spec_operand_address::<M>(old(mem)@, mode),
    {
        match mode {
            AddressingMode::Immediate => {
                let addr = self.pc;
                self.pc = self.pc.wrapping_add(1);
                (addr, false)
            },
            AddressingMode::ZeroPage => (self.fetch_byte(mem) as u16, false),
            AddressingMode::ZeroPageX => {
                let base = self.fetch_byte(mem);
                (base.wrapping_add(self.x) as u16, false)
            },
            AddressingMode::ZeroPageY => {
                let base = self.fetch_byte(mem);
                (base.wrapping_add(self.y) as u16, false)
            },
            AddressingMode::Absolute => (self.fetch_word(mem), false),
            AddressingMode::AbsoluteX => {
                let base = self.fetch_word(mem);
                let addr = base.wrapping_add(self.x as u16);
                (addr, base / 256 != addr / 256)
            },
            AddressingMode::AbsoluteY => {
                let base = self.fetch_word(mem);
                let addr = base.wrapping_add(self.y as u16);
                (addr, base / 256 != addr / 256)
            },
            AddressingMode::Indirect => {
                let ptr = self.fetch_word(mem);
                let hi_ptr = if ptr % 256 == 255 { ptr - 255 } else { ptr + 1 };
                (Self::read_pointer(mem, ptr, hi_ptr), false)
            },
            AddressingMode::IndirectX => {
                let base = self.fetch_byte(mem);
                let ptr = base.wrapping_add(self.x);
                (Self::read_pointer(mem, ptr as u16, ptr.wrapping_add(1) as u16), false)
            },
            AddressingMode::IndirectY => {
                let base = self.fetch_byte(mem);
                let deref_base = Self::read_pointer(mem, base as u16, base.wrapping_add(1) as u16);
                let addr = deref_base.wrapping_add(self.y as u16);
                (addr, deref_base / 256 != addr / 256)
            },
            AddressingMode::NoneAddressing => (0, false),
            AddressingMode::Relative => (0, false),
        }
    }

    pub fn stack_push<M: Memory>(&mut self, mem: &mut M, data: u8)
        requires
            old(mem).inv(),
        ensures
            final(mem).inv(),
            (*final(self), final(mem)@) == old(self).spec_stack_push::<M>(old(mem)@, data),
    {
        mem.write(0x0100 + self.sp as u16, data);
        self.sp = self.sp.wrapping_sub(1);
    }

    pub fn stack_pop<M: Memory>(&mut self, mem: &mut M) -> (r: u8)
        requires
            old(mem).inv(),
        ensures
            final(mem).inv(),
            (*final(self), final(mem)@, r) == old(self).spec_stack_pop::<M>(old(mem)@),
    {
        self.sp = self.sp.wrapping_add(1);
        mem.read(0x0100 + self.sp as u16)
    }
}


impl CPU {
    fn execute_read<M: Memory>(&mut self, mem: &mut M, op: ReadOp, mode: AddressingMode, cycles: u32, penalty: bool) -> (r: u32)
        requires
            old(mem).inv(),
            cycles < 100,
        ensures
            final(mem).inv(),
            (*final(self), final(mem)@, r) == old(self).spec_execute_read::<M>(old(mem)@, op, mode, cycles, penalty),
    {
        let (addr, crossed) = self.get_operand_address(mem, mode);
        let v = mem.read(addr);
        self.apply_read_op(op, v);
        if penalty && crossed { cycles + 1 } else { cycles }
    }

    fn store_value(&self, op: StoreOp) -> (r: u8)
        ensures
            r == self.spec_store_value(op),
    {
        match op {
            StoreOp::Sta => self.a,
            StoreOp::Stx => self.x,
            StoreOp::Sty => self.y,
            StoreOp::Sax => self.a & self.x,
        }
    }

    fn execute_store<M: Memory>(&mut self, mem: &mut M, op: StoreOp, mode: AddressingMode, cycles: u32) -> (r: u32)
        requires
            old(mem).inv(),
        ensures
            final(mem).inv(),
            (*final(self), final(mem)@, r) == old(self).spec_execute_store::<M>(old(mem)@, op, mode, cycles),
    {
        let value = self.store_value(op);
        let (addr, _) = self.get_operand_address(mem, mode);
        mem.write(addr, value);
        cycles
    }

    fn execute_modify<M: Memory>(&mut self, mem: &mut M, op: ModifyOp, mode: AddressingMode, cycles: u32) -> (r: u32)
        requires
            old(mem).inv(),
        ensures
            final(mem).inv(),
            (*final(self), final(mem)@, r) == old(self).spec_execute_modify::<M>(old(mem)@, op, mode, cycles),
    {
        let (addr, _) = self.get_operand_address(mem, mode);
        let v = mem.read(addr);
        let r = self.modify_op(op, v);
        mem.write(addr, r);
        cycles
    }

    /// Conditional branch: the offset is always fetched; a taken branch costs
    /// the taken-branch base of 3 plus 1, or 2 when the target lies on
    /// another page.
    fn execute_branch<M: Memory>(&mut self, mem: &mut M, f: Flag, want: bool) -> (r: u32)
        requires
            old(mem).inv(),
        ensures
            final(mem).inv(),
            (*final(self), final(mem)@, r) == old(self).spec_execute_branch::<M>(old(mem)@, f, want),
    {
        let off = self.fetch_byte(mem);
        if self.flag(f) == want {
            let old_pc = self.pc;
            let displacement: u16 = if off >= 128 { off as u16 + 0xFF00 } else { off as u16 };
            self.pc = self.pc.wrapping_add(displacement);
            if old_pc / 256 != self.pc / 256 { 5 } else { 4 }
        } else {
            2
        }
    }

    fn execute_unstable<M: Memory>(&mut self, mem: &mut M, op: UnstableOp, mode: AddressingMode, cycles: u32) -> (r: u32)
        requires
            old(mem).inv(),
        ensures
            final(mem).inv(),
            (*final(self), final(mem)@, r) == old(self).spec_execute_unstable::<M>(old(mem)@, op, mode, cycles),
    {
        let (addr, crossed) = self.get_operand_address(mem, mode);
        let high: u8 = if crossed { (addr / 256) as u8 } else { ((addr / 256) as u8).wrapping_add(1) };
        let src = match op {
            UnstableOp::Ahx => self.a & self.x,
            UnstableOp::Shx => self.x,
            UnstableOp::Shy => self.y,
            UnstableOp::Tas => {
                self.sp = self.a & self.x;
                self.sp
            },
        };
        let value = src & high;
        let target: u16 = if crossed { value as u16 * 256 + addr % 256 } else { addr };
        mem.write(target, value);
        cycles
    }

    fn execute_control<M: Memory>(&mut self, mem: &mut M, instr: Instr) -> (r: u32)
        requires
            old(mem).inv(),
            instr is Jump || instr is Jsr || instr is Rts || instr is Rti || instr is Brk,
        ensures
            final(mem).inv(),
            (*final(self), final(mem)@, r) == old(self).spec_execute::<M>(old(mem)@, instr),
    {
        match instr {
            Instr::Jump(mode, cycles) => {
                let (addr, _) = self.get_operand_address(mem, mode);
                self.pc = addr;
                cycles
            },
            Instr::Jsr => {
                let (addr, _) = self.get_operand_address(mem, AddressingMode::Absolute);
                let ret_pc = self.pc.wrapping_sub(1);
                self.stack_push(mem, (ret_pc / 256) as u8);
                self.stack_push(mem, (ret_pc % 256) as u8);
                self.pc = addr;
                6
            },
            Instr::Rts => {
                let lo = self.stack_pop(mem);
                let hi = self.stack_pop(mem);
                self.pc = (hi as u16 * 256 + lo as u16).wrapping_add(1);
                6
            },
            Instr::Rti => {
                let p = self.stack_pop(mem);
                self.status.from_byte(p);
                self.status.b = false;  // B is not a real flag inside the CPU
                let lo = self.stack_pop(mem);
                let hi = self.stack_pop(mem);
                self.pc = hi as u16 * 256 + lo as u16;
                6
            },
            _ => {
                // BRK: push PC + 1 (skipping the signature byte) and the
                // status with B and the unused bit set, then take the IRQ vector.
                let push_pc = self.pc.wrapping_add(1);
                self.stack_push(mem, (push_pc / 256) as u8);
                self.stack_push(mem, (push_pc % 256) as u8);
                let p = self.status.to_byte() | 0x30;
                self.stack_push(mem, p);
                self.status.i = true;
                self.pc = mem.read_word(0xFFFE);
                7
            },
        }
    }

    fn execute_stack<M: Memory>(&mut self, mem: &mut M, instr: Instr) -> (r: u32)
        requires
            old(mem).inv(),
            instr is Pha || instr is Pla || instr is Php || instr is Plp,
        ensures
            final(mem).inv(),
            (*final(self), final(mem)@, r) == old(self).spec_execute::<M>(old(mem)@, instr),
    {
        match instr {
            Instr::Pha => {
                self.stack_push(mem, self.a);
                3
            },
            Instr::Pla => {
                self.a = self.stack_pop(mem);
                self.update_zero_and_negative_flags(self.a);
                4
            },
            Instr::Php => {
                // NMOS 6502: PHP always pushes B and the unused bit set.
                let p = self.status.to_byte() | 0x30;
                self.stack_push(mem, p);
                3
            },
            _ => {
                let p = self.stack_pop(mem);
                self.status.from_byte(p);
                self.status.b = false;  // B is not a real flag inside the CPU
                4
            },
        }
    }

    fn execute_nop<M: Memory>(&mut self, mem: &mut M, instr: Instr) -> (r: u32)
        requires
            old(mem).inv(),
            instr is NopZeroPageX || instr is NopAbsoluteX,
        ensures
            final(mem).inv(),
            (*final(self), final(mem)@, r) == old(self).spec_execute::<M>(old(mem)@, instr),
    {
        match instr {
            Instr::NopZeroPageX => {
                // Dummy read of the unindexed zero-page address, then the indexed one.
                let b = self.fetch_byte(mem);
                mem.read(b as u16);
                mem.read(b.wrapping_add(self.x) as u16);
                4
            },
            _ => {
                // On a page crossing the 6502 first reads the address with the
                // uncorrected high byte.
                let (addr, crossed) = self.get_operand_address(mem, AddressingMode::AbsoluteX);
                if crossed {
                    mem.read(addr.wrapping_sub(256));
                }
                mem.read(addr);
                if crossed { 5 } else { 4 }
            },
        }
    }

    /// Executes a decoded instruction whose opcode has already been fetched.
    pub fn execute<M: Memory>(&mut self, mem: &mut M, instr: Instr) -> (r: u32)
        requires
            old(mem).inv(),
            instr is Read ==> instr->Read_2 < 100,
        ensures
            final(mem).inv(),
            (*final(self), final(mem)@, r) == old(self).spec_execute::<M>(old(mem)@, instr),
    {
        match instr {
            Instr::Read(op, mode, cycles, penalty) => self.execute_read(mem, op, mode, cycles, penalty),
            Instr::Store(op, mode, cycles) => self.execute_store(mem, op, mode, cycles),
            Instr::Modify(op, mode, cycles) => self.execute_modify(mem, op, mode, cycles),
            Instr::ModifyAccumulator(op) => {
                let r = self.modify_op(op, self.a);
                self.a = r;
                2
            },
            Instr::Implied(op) => {
                self.implied(op);
                2
            },
            Instr::Branch(f, want) => self.execute_branch(mem, f, want),
            Instr::Jump(..) | Instr::Jsr | Instr::Rts | Instr::Rti | Instr::Brk => self.execute_control(mem, instr),
            Instr::Pha | Instr::Pla | Instr::Php | Instr::Plp => self.execute_stack(mem, instr),
            Instr::NopZeroPageX | Instr::NopAbsoluteX => self.execute_nop(mem, instr),
            Instr::UnstableStore(op, mode, cycles) => self.execute_unstable(mem, op, mode, cycles),
            Instr::Jam => {
                self.jammed = true;
                self.pc = self.pc.wrapping_sub(1);
                1
            },
        }
    }
}


/// A byte whose two nibbles are both decimal digits.
pub open spec fn is_bcd(x: u8) -> bool {
    x % 16 <= 9 && x / 16 <= 9
}

/// The number 0..=99 a BCD byte stands for.
pub open spec fn bcd_value(x: u8) -> int {
    (x / 16) * 10 + x % 16
}

/// The BCD byte for a number 0..=99.
pub open spec fn to_bcd(n: int) -> u8 {
    ((n / 10) * 16 + n % 10) as u8
}

/// Binary ADC adds operand and carry modulo 256 and carries out of bit 7.
pub proof fn law_adc_binary(cpu: CPU, value: u8)
    requires
        !cpu.status.d,
    ensures
        cpu.spec_adc(value).a == (cpu.a + value + flag_weight(cpu.status.c, 1)) % 256,
        cpu.spec_adc(value).status.c == (cpu.a + value + flag_weight(cpu.status.c, 1) > 255),
{
    reveal(CPU::spec_adc_binary);
}

/// Binary SBC subtracts operand and borrow (the inverted carry) modulo 256;
/// carry set means no borrow.
pub proof fn law_sbc_binary(cpu: CPU, value: u8)
    requires
        !cpu.status.d,
    ensures
        cpu.spec_sbc(value).a == (cpu.a - value - (1 - flag_weight(cpu.status.c, 1)) + 256) % 256,
        cpu.spec_sbc(value).status.c == (cpu.a - value - (1 - flag_weight(cpu.status.c, 1)) >= 0),
{
    reveal(CPU::spec_adc_binary);
}

proof fn lemma_decimal_add_bcd(a: u8, v: u8, c: u8)
    by (bit_vector)
    requires
        c <= 1,
        a % 16 <= 9,
        a / 16 <= 9,
        v % 16 <= 9,
        v / 16 <= 9,
    ensures
        ({
            let lo0 = a % 16 + v % 16 + c;
            let lo = if lo0 >= 10 { (lo0 + 6) % 16 + 16 } else { lo0 };
            let t = (a / 16) * 16 + (v / 16) * 16 + lo;
            let adjusted = if t >= 0xA0 { t + 0x60 } else { t };
            let sum = (a / 16) * 10 + a % 16 + (v / 16) * 10 + v % 16 + c;
            let n = sum % 100;
            &&& adjusted % 256 == (n / 10) * 16 + n % 10
            &&& (adjusted >= 0x100) == (sum >= 100)
            &&& (adjusted % 256) % 16 <= 9
            &&& (adjusted % 256) / 16 <= 9
        }),
{
}

proof fn lemma_decimal_sub_bcd(a: u8, v: u8, c: u8)
    by (bit_vector)
    requires
        c <= 1,
        a % 16 <= 9,
        a / 16 <= 9,
        v % 16 <= 9,
        v / 16 <= 9,
    ensures
        ({
            let lo0 = a % 16 + 16 - v % 16 - (1 - c);
            let lo = if lo0 < 16 { (lo0 + 10) % 16 } else { lo0 };
            let t = 512 + (a / 16) * 16 - (v / 16) * 16 + lo - 16;
            let adjusted = if t < 512 { t - 0x60 } else { t };
            let diff = 100 + (a / 16) * 10 + a % 16 - (v / 16) * 10 - v % 16 - (1 - c);
            let n = diff % 100;
            &&& adjusted % 256 == (n / 10) * 16 + n % 10
            &&& (adjusted % 256) % 16 <= 9
            &&& (adjusted % 256) / 16 <= 9
        }),
{
}

/// Decimal ADC on BCD operands gives the BCD of the decimal sum modulo 100
/// and carries when the sum reaches 100.
pub proof fn law_adc_decimal(cpu: CPU, value: u8)
    requires
        cpu.status.d,
        is_bcd(cpu.a),
        is_bcd(value),
    ensures
        cpu.spec_adc(value).a == to_bcd((bcd_value(cpu.a) + bcd_value(value) + flag_weight(cpu.status.c, 1)) % 100),
        cpu.spec_adc(value).status.c == (bcd_value(cpu.a) + bcd_value(value) + flag_weight(cpu.status.c, 1) >= 100),
        is_bcd(cpu.spec_adc(value).a),
{
    reveal(spec_decimal_add);
    let c: u8 = if cpu.status.c { 1 } else { 0 };
    lemma_decimal_add_bcd(cpu.a, value, c);
}

/// Decimal SBC on BCD operands gives the BCD of the decimal difference modulo
/// 100; carry set means no borrow.
pub proof fn law_sbc_decimal(cpu: CPU, value: u8)
    requires
        cpu.status.d,
        is_bcd(cpu.a),
        is_bcd(value),
    ensures
        cpu.spec_sbc(value).a == to_bcd((bcd_value(cpu.a) - bcd_value(value) - (1 - flag_weight(cpu.status.c, 1)) + 100) % 100),
        cpu.spec_sbc(value).status.c == (bcd_value(cpu.a) - bcd_value(value) - (1 - flag_weight(cpu.status.c, 1)) >= 0),
        is_bcd(cpu.spec_sbc(value).a),
{
    reveal(CPU::spec_sbc_decimal);
    reveal(CPU::spec_adc_binary);
    let c: u8 = if cpu.status.c { 1 } else { 0 };
    lemma_decimal_sub_bcd(cpu.a, value, c);
}

/// CMP, CPX and CPY compare a register with an operand as unsigned bytes:
/// carry is set exactly when the register is at least the operand, Z exactly
/// when they are equal, N is bit 7 of register minus operand (modulo 256);
/// the registers and the other flags stay as they were.
pub proof fn law_compare_flags(cpu: CPU, op: ReadOp, v: u8)
    requires
        op is Cmp || op is Cpx || op is Cpy,
    ensures
        ({
            let reg = if op is Cmp { cpu.a } else if op is Cpx { cpu.x } else { cpu.y };
            let r = cpu.spec_read_op(op, v);
            &&& r.status.c <==> reg >= v
            &&& r.status.z <==> reg == v
            &&& r.status.n <==> (reg - v + 256) % 256 >= 128
            &&& r.a == cpu.a && r.x == cpu.x && r.y == cpu.y && r.sp == cpu.sp && r.pc == cpu.pc
            &&& r.status.i == cpu.status.i && r.status.d == cpu.status.d && r.status.v == cpu.status.v
            &&& r.status.b == cpu.status.b && r.status.u == cpu.status.u
        }),
{
    let reg = if op is Cmp { cpu.a } else if op is Cpx { cpu.x } else { cpu.y };
    assert(reg.wrapping_sub(v) == (reg - v + 256) % 256);
}

/// `compare` on equal bytes sets carry and Z (so BCS branches after an equal
/// compare), and the carry of comparing two bytes either way round tells
/// their order: exactly one of `a >= b` and `b > a` holds.
pub proof fn law_compare_orders(cpu: CPU, a: u8, b: u8)
    ensures
        cpu.spec_compare(a, a).status.c && cpu.spec_compare(a, a).status.z,
        cpu.spec_compare(a, b).status.c != (cpu.spec_compare(b, a).status.c && !cpu.spec_compare(b, a).status.z),
        cpu.spec_compare(a, b).status.c && cpu.spec_compare(b, a).status.c ==> a == b,
{
}

} // verus!

//! A small 6502 disassembler for the instructions the boot code and the
//! game loaders use: opcode table and operand formatting.
use vstd::prelude::*;

verus! {

/// How an instruction's operand is written.
#[derive(Clone, Copy, Debug, PartialEq, Eq, Structural)]
pub enum OperandMode {
    Implied,
    Accumulator,
    Immediate,
    ZeroPage,
    ZeroPageX,
    ZeroPageY,
    Absolute,
    AbsoluteX,
    AbsoluteY,
    IndirectX,
    IndirectY,
    Relative,
    Indirect,
}

impl OperandMode {
    pub open spec fn spec_name(&self) -> &'static str {
        match self {
            OperandMode::Implied => "impl",
            OperandMode::Accumulator => "A",
            OperandMode::Immediate => "#",
            OperandMode::ZeroPage => "zpg",
            OperandMode::ZeroPageX => "zpg,X",
            OperandMode::ZeroPageY => "zpg,Y",
            OperandMode::Absolute => "abs",
            OperandMode::AbsoluteX => "abs,X",
            OperandMode::AbsoluteY => "abs,Y",
            OperandMode::IndirectX => "(ind,X)",
            OperandMode::IndirectY => "(ind),Y",
            OperandMode::Relative => "rel",
            OperandMode::Indirect => "(ind)",
        }
    }

    /// The mode's name in listings ("impl", "A", "#", "zpg", "abs,X", ...).
    #[verifier::when_used_as_spec(spec_name)]
    pub fn name(&self) -> (r: &'static str)
        ensures
            r == self.spec_name(),
    {
        match self {
            OperandMode::Implied => "impl",
            OperandMode::Accumulator => "A",
            OperandMode::Immediate => "#",
            OperandMode::ZeroPage => "zpg",
            OperandMode::ZeroPageX => "zpg,X",
            OperandMode::ZeroPageY => "zpg,Y",
            OperandMode::Absolute => "abs",
            OperandMode::AbsoluteX => "abs,X",
            OperandMode::AbsoluteY => "abs,Y",
            OperandMode::IndirectX => "(ind,X)",
            OperandMode::IndirectY => "(ind),Y",
            OperandMode::Relative => "rel",
            OperandMode::Indirect => "(ind)",
        }
    }
}

/// The opcode table: mnemonic, operand mode and instruction length; opcodes
/// outside the table read as a one-byte "???".
#[verifier::opaque]
pub open spec fn spec_decode_6502(opcode: u8) -> (&'static str, OperandMode, usize) {
    match opcode {
        0x00 => ("BRK", OperandMode::Implied, 1),
        0x01 => ("ORA", OperandMode::IndirectX, 2),
        0x05 => ("ORA", OperandMode::ZeroPage, 2),
        0x06 => ("ASL", OperandMode::ZeroPage, 2),
        0x08 => ("PHP", OperandMode::Implied, 1),
        0x09 => ("ORA", OperandMode::Immediate, 2),
        0x0A => ("ASL", OperandMode::Accumulator, 1),
        0x0D => ("ORA", OperandMode::Absolute, 3),
        0x10 => ("BPL", OperandMode::Relative, 2),
        0x18 => ("CLC", OperandMode::Implied, 1),
        0x20 => ("JSR", OperandMode::Absolute, 3),
        0x24 => ("BIT", OperandMode::ZeroPage, 2),
        0x25 => ("AND", OperandMode::ZeroPage, 2),
        0x26 => ("ROL", OperandMode::ZeroPage, 2),
        0x28 => ("PLP", OperandMode::Implied, 1),
        0x29 => ("AND", OperandMode::Immediate, 2),
        0x2A => ("ROL", OperandMode::Accumulator, 1),
        0x2C => ("BIT", OperandMode::Absolute, 3),
        0x30 => ("BMI", OperandMode::Relative, 2),
        0x38 => ("SEC", OperandMode::Implied, 1),
        0x45 => ("EOR", OperandMode::ZeroPage, 2),
        0x46 => ("LSR", OperandMode::ZeroPage, 2),
        0x48 => ("PHA", OperandMode::Implied, 1),
        0x49 => ("EOR", OperandMode::Immediate, 2),
        0x4A => ("LSR", OperandMode::Accumulator, 1),
        0x4C => ("JMP", OperandMode::Absolute, 3),
        0x4E => ("LSR", OperandMode::Absolute, 3),
        0x50 => ("BVC", OperandMode::Relative, 2),
        0x60 => ("RTS", OperandMode::Implied, 1),
        0x65 => ("ADC", OperandMode::ZeroPage, 2),
        0x66 => ("ROR", OperandMode::ZeroPage, 2),
        0x68 => ("PLA", OperandMode::Implied, 1),
        0x69 => ("ADC", OperandMode::Immediate, 2),
        0x6C => ("JMP", OperandMode::Indirect, 3),
        0x70 => ("BVS", OperandMode::Relative, 2),
        0x78 => ("SEI", OperandMode::Implied, 1),
        0x81 => ("STA", OperandMode::IndirectX, 2),
        0x84 => ("STY", OperandMode::ZeroPage, 2),
        0x85 => ("STA", OperandMode::ZeroPage, 2),
        0x86 => ("STX", OperandMode::ZeroPage, 2),
        0x88 => ("DEY", OperandMode::Implied, 1),
        0x8A => ("TXA", OperandMode::Implied, 1),
        0x8C => ("STY", OperandMode::Absolute, 3),
        0x8D => ("STA", OperandMode::Absolute, 3),
        0x8E => ("STX", OperandMode::Absolute, 3),
        0x90 => ("BCC", OperandMode::Relative, 2),
        0x91 => ("STA", OperandMode::IndirectY, 2),
        0x94 => ("STY", OperandMode::ZeroPageX, 2),
        0x95 => ("STA", OperandMode::ZeroPageX, 2),
        0x98 => ("TYA", OperandMode::Implied, 1),
        0x99 => ("STA", OperandMode::AbsoluteY, 3),
        0x9A => ("TXS", OperandMode::Implied, 1),
        0x9D => ("STA", OperandMode::AbsoluteX, 3),
        0xA0 => ("LDY", OperandMode::Immediate, 2),
        0xA2 => ("LDX", OperandMode::Immediate, 2),
        0xA4 => ("LDY", OperandMode::ZeroPage, 2),
        0xA5 => ("LDA", OperandMode::ZeroPage, 2),
        0xA6 => ("LDX", OperandMode::ZeroPage, 2),
        0xA8 => ("TAY", OperandMode::Implied, 1),
        0xA9 => ("LDA", OperandMode::Immediate, 2),
        0xAA => ("TAX", OperandMode::Implied, 1),
        0xAC => ("LDY", OperandMode::Absolute, 3),
        0xAD => ("LDA", OperandMode::Absolute, 3),
        0xAE => ("LDX", OperandMode::Absolute, 3),
        0xB0 => ("BCS", OperandMode::Relative, 2),
        0xB1 => ("LDA", OperandMode::IndirectY, 2),
        0xB4 => ("LDY", OperandMode::ZeroPageX, 2),
        0xB5 => ("LDA", OperandMode::ZeroPageX, 2),
        0xB9 => ("LDA", OperandMode::AbsoluteY, 3),
        0xBD => ("LDA", OperandMode::AbsoluteX, 3),
        0xC0 => ("CPY", OperandMode::Immediate, 2),
        0xC4 => ("CPY", OperandMode::ZeroPage, 2),
        0xC5 => ("CMP", OperandMode::ZeroPage, 2),
        0xC6 => ("DEC", OperandMode::ZeroPage, 2),
        0xC8 => ("INY", OperandMode::Implied, 1),
        0xC9 => ("CMP", OperandMode::Immediate, 2),
        0xCA => ("DEX", OperandMode::Implied, 1),
        0xCC => ("CPY", OperandMode::Absolute, 3),
        0xCD => ("CMP", OperandMode::Absolute, 3),
        0xD0 => ("BNE", OperandMode::Relative, 2),
        0xD5 => ("CMP", OperandMode::ZeroPageX, 2),
        0xD8 => ("CLD", OperandMode::Implied, 1),
        0xE0 => ("CPX", OperandMode::Immediate, 2),
        0xE4 => ("CPX", OperandMode::ZeroPage, 2),
        0xE5 => ("SBC", OperandMode::ZeroPage, 2),
        0xE6 => ("INC", OperandMode::ZeroPage, 2),
        0xE8 => ("INX", OperandMode::Implied, 1),
        0xE9 => ("SBC", OperandMode::Immediate, 2),
        0xEA => ("NOP", OperandMode::Implied, 1),
        0xF0 => ("BEQ", OperandMode::Relative, 2),
        0xF5 => ("SBC", OperandMode::ZeroPageX, 2),
        0xF6 => ("INC", OperandMode::ZeroPageX, 2),
        _ => ("???", OperandMode::Implied, 1),
    }
}

/// Looks an opcode up in the disassembler's table.
pub fn decode_6502(opcode: u8) -> (r: (&'static str, OperandMode, usize))
    ensures
        r == spec_decode_6502(opcode),
        1 <= r.2 <= 3,
{
    reveal(spec_decode_6502);
    match opcode {
        0x00 => ("BRK", OperandMode::Implied, 1),
        0x01 => ("ORA", OperandMode::IndirectX, 2),
        0x05 => ("ORA", OperandMode::ZeroPage, 2),
        0x06 => ("ASL", OperandMode::ZeroPage, 2),
        0x08 => ("PHP", OperandMode::Implied, 1),
        0x09 => ("ORA", OperandMode::Immediate, 2),
        0x0A => ("ASL", OperandMode::Accumulator, 1),
        0x0D => ("ORA", OperandMode::Absolute, 3),
        0x10 => ("BPL", OperandMode::Relative, 2),
        0x18 => ("CLC", OperandMode::Implied, 1),
        0x20 => ("JSR", OperandMode::Absolute, 3),
        0x24 => ("BIT", OperandMode::ZeroPage, 2),
        0x25 => ("AND", OperandMode::ZeroPage, 2),
        0x26 => ("ROL", OperandMode::ZeroPage, 2),
        0x28 => ("PLP", OperandMode::Implied, 1),
        0x29 => ("AND", OperandMode::Immediate, 2),
        0x2A => ("ROL", OperandMode::Accumulator, 1),
        0x2C => ("BIT", OperandMode::Absolute, 3),
        0x30 => ("BMI", OperandMode::Relative, 2),
        0x38 => ("SEC", OperandMode::Implied, 1),
        0x45 => ("EOR", OperandMode::ZeroPage, 2),
        0x46 => ("LSR", OperandMode::ZeroPage, 2),
        0x48 => ("PHA", OperandMode::Implied, 1),
        0x49 => ("EOR", OperandMode::Immediate, 2),
        0x4A => ("LSR", OperandMode::Accumulator, 1),
        0x4C => ("JMP", OperandMode::Absolute, 3),
        0x4E => ("LSR", OperandMode::Absolute, 3),
        0x50 => ("BVC", OperandMode::Relative, 2),
        0x60 => ("RTS", OperandMode::Implied, 1),
        0x65 => ("ADC", OperandMode::ZeroPage, 2),
        0x66 => ("ROR", OperandMode::ZeroPage, 2),
        0x68 => ("PLA", OperandMode::Implied, 1),
        0x69 => ("ADC", OperandMode::Immediate, 2),
        0x6C => ("JMP", OperandMode::Indirect, 3),
        0x70 => ("BVS", OperandMode::Relative, 2),
        0x78 => ("SEI", OperandMode::Implied, 1),
        0x81 => ("STA", OperandMode::IndirectX, 2),
        0x84 => ("STY", OperandMode::ZeroPage, 2),
        0x85 => ("STA", OperandMode::ZeroPage, 2),
        0x86 => ("STX", OperandMode::ZeroPage, 2),
        0x88 => ("DEY", OperandMode::Implied, 1),
        0x8A => ("TXA", OperandMode::Implied, 1),
        0x8C => ("STY", OperandMode::Absolute, 3),
        0x8D => ("STA", OperandMode::Absolute, 3),
        0x8E => ("STX", OperandMode::Absolute, 3),
        0x90 => ("BCC", OperandMode::Relative, 2),
        0x91 => ("STA", OperandMode::IndirectY, 2),
        0x94 => ("STY", OperandMode::ZeroPageX, 2),
        0x95 => ("STA", OperandMode::ZeroPageX, 2),
        0x98 => ("TYA", OperandMode::Implied, 1),
        0x99 => ("STA", OperandMode::AbsoluteY, 3),
        0x9A => ("TXS", OperandMode::Implied, 1),
        0x9D => ("STA", OperandMode::AbsoluteX, 3),
        0xA0 => ("LDY", OperandMode::Immediate, 2),
        0xA2 => ("LDX", OperandMode::Immediate, 2),
        0xA4 => ("LDY", OperandMode::ZeroPage, 2),
        0xA5 => ("LDA", OperandMode::ZeroPage, 2),
        0xA6 => ("LDX", OperandMode::ZeroPage, 2),
        0xA8 => ("TAY", OperandMode::Implied, 1),
        0xA9 => ("LDA", OperandMode::Immediate, 2),
        0xAA => ("TAX", OperandMode::Implied, 1),
        0xAC => ("LDY", OperandMode::Absolute, 3),
        0xAD => ("LDA", OperandMode::Absolute, 3),
        0xAE => ("LDX", OperandMode::Absolute, 3),
        0xB0 => ("BCS", OperandMode::Relative, 2),
        0xB1 => ("LDA", OperandMode::IndirectY, 2),
        0xB4 => ("LDY", OperandMode::ZeroPageX, 2),
        0xB5 => ("LDA", OperandMode::ZeroPageX, 2),
        0xB9 => ("LDA", OperandMode::AbsoluteY, 3),
        0xBD => ("LDA", OperandMode::AbsoluteX, 3),
        0xC0 => ("CPY", OperandMode::Immediate, 2),
        0xC4 => ("CPY", OperandMode::ZeroPage, 2),
        0xC5 => ("CMP", OperandMode::ZeroPage, 2),
        0xC6 => ("DEC", OperandMode::ZeroPage, 2),
        0xC8 => ("INY", OperandMode::Implied, 1),
        0xC9 => ("CMP", OperandMode::Immediate, 2),
        0xCA => ("DEX", OperandMode::Implied, 1),
        0xCC => ("CPY", OperandMode::Absolute, 3),
        0xCD => ("CMP", OperandMode::Absolute, 3),
        0xD0 => ("BNE", OperandMode::Relative, 2),
        0xD5 => ("CMP", OperandMode::ZeroPageX, 2),
        0xD8 => ("CLD", OperandMode::Implied, 1),
        0xE0 => ("CPX", OperandMode::Immediate, 2),
        0xE4 => ("CPX", OperandMode::ZeroPage, 2),
        0xE5 => ("SBC", OperandMode::ZeroPage, 2),
        0xE6 => ("INC", OperandMode::ZeroPage, 2),
        0xE8 => ("INX", OperandMode::Implied, 1),
        0xE9 => ("SBC", OperandMode::Immediate, 2),
        0xEA => ("NOP", OperandMode::Implied, 1),
        0xF0 => ("BEQ", OperandMode::Relative, 2),
        0xF5 => ("SBC", OperandMode::ZeroPageX, 2),
        0xF6 => ("INC", OperandMode::ZeroPageX, 2),
        _ => ("???", OperandMode::Implied, 1),
    }
}

/// Appends a character to a string (`String::push`).
pub assume_specification[ String::push ](s: &mut String, ch: char)
    ensures
        final(s)@ == old(s)@.push(ch),
;

/// Upper-case hexadecimal digit of `n` (0-15).
#[verifier::opaque]
pub open spec fn hex_digit(n: int) -> char {
    seq!['0', '1', '2', '3', '4', '5', '6', '7', '8', '9', 'A', 'B', 'C', 'D', 'E', 'F'][n]
}

/// A byte as two hex digits.
pub open spec fn hex2(b: int) -> Seq<char> {
    seq![hex_digit(b / 16), hex_digit(b % 16)]
}

/// A 16-bit value as four hex digits.
pub open spec fn hex4(w: int) -> Seq<char> {
    hex2(w / 256) + hex2(w % 256)
}

/// Target of a relative branch at `pc`: the address after the two-byte
/// instruction plus the signed offset, within the 64KB address space.
pub open spec fn branch_target(pc: int, offset: u8) -> int {
    let signed = if offset < 128 { offset as int } else { offset - 256 };
    (pc + 2 + signed) % 65536
}

/// The operand as it is listed: `#$nn`, `$nn`, `$nn,X`, `$nnnn`, `$nnnn,Y`,
/// `($nn,X)`, `($nn),Y`, `($nnnn)`, the branch target for relative
/// branches, and nothing for implied and accumulator operands.
pub open spec fn operand_text(mode: OperandMode, op1: u8, op2: u8, pc: int) -> Seq<char> {
    let word = op1 + 256 * op2;
    match mode {
        OperandMode::Implied | OperandMode::Accumulator => Seq::empty(),
        OperandMode::Immediate => seq!['#', '$'] + hex2(op1 as int),
        OperandMode::ZeroPage => seq!['$'] + hex2(op1 as int),
        OperandMode::ZeroPageX => seq!['$'] + hex2(op1 as int) + seq![',', 'X'],
        OperandMode::ZeroPageY => seq!['$'] + hex2(op1 as int) + seq![',', 'Y'],
        OperandMode::Absolute => seq!['$'] + hex4(word),
        OperandMode::AbsoluteX => seq!['$'] + hex4(word) + seq![',', 'X'],
        OperandMode::AbsoluteY => seq!['$'] + hex4(word) + seq![',', 'Y'],
        OperandMode::IndirectX => seq!['(', '$'] + hex2(op1 as int) + seq![',', 'X', ')'],
        OperandMode::IndirectY => seq!['(', '$'] + hex2(op1 as int) + seq![')', ',', 'Y'],
        OperandMode::Relative => seq!['$'] + hex4(branch_target(pc, op1)),
        OperandMode::Indirect => seq!['(', '$'] + hex4(word) + seq![')'],
    }
}

fn hex_digit_char(n: u8) -> (r: char)
    requires
        n < 16,
    ensures
        r == hex_digit(n as int),
{
    reveal(hex_digit);
    match n {
        0 => '0', 1 => '1', 2 => '2', 3 => '3', 4 => '4', 5 => '5', 6 => '6', 7 => '7',
        8 => '8', 9 => '9', 10 => 'A', 11 => 'B', 12 => 'C', 13 => 'D', 14 => 'E', _ => 'F',
    }
}

fn push_hex2(s: &mut String, b: u8)
    ensures
        final(s)@ == old(s)@ + hex2(b as int),
{
    s.push(hex_digit_char(b / 16));
    s.push(hex_digit_char(b % 16));
    proof {
        assert(final(s)@ =~= old(s)@ + hex2(b as int));
    }
}

fn push_hex4(s: &mut String, w: u16)
    ensures
        final(s)@ == old(s)@ + hex4(w as int),
{
    push_hex2(s, (w / 256) as u8);
    push_hex2(s, (w % 256) as u8);
    proof {
        assert(final(s)@ =~= old(s)@ + hex4(w as int));
    }
}

fn push_chars(s: &mut String, chars: &[char])
    ensures
        final(s)@ == old(s)@ + chars@,
{
    let ghost start = s@;
    for i in 0..chars.len()
        invariant
            s@ == start + chars@.take(i as int),
    {
        s.push(chars[i]);
        proof {
            assert(s@ =~= start + chars@.take(i + 1));
        }
    }
    proof {
        assert(chars@.take(chars@.len() as int) =~= chars@);
    }
}

/// `$nn` (or `($nn`) and a suffix.
fn fmt_byte_operand(prefix_paren: bool, op1: u8, suffix: &[char]) -> (r: String)
    ensures
        r@ == (if prefix_paren { seq!['(', '$'] } else { seq!['$'] }) + hex2(op1 as int) + suffix@,
{
    let mut s = String::new();
    if prefix_paren {
        s.push('(');
    }
    s.push('$');
    push_hex2(&mut s, op1);
    push_chars(&mut s, suffix);
    proof {
        assert(s@ =~= (if prefix_paren { seq!['(', '$'] } else { seq!['$'] }) + hex2(op1 as int) + suffix@);
    }
    s
}

/// `$nnnn` (or `($nnnn`) and a suffix.
fn fmt_word_operand(prefix_paren: bool, word: u16, suffix: &[char]) -> (r: String)
    ensures
        r@ == (if prefix_paren { seq!['(', '$'] } else { seq!['$'] }) + hex4(word as int) + suffix@,
{
    let mut s = String::new();
    if prefix_paren {
        s.push('(');
    }
    s.push('$');
    push_hex4(&mut s, word);
    push_chars(&mut s, suffix);
    proof {
        assert(s@ =~= (if prefix_paren { seq!['(', '$'] } else { seq!['$'] }) + hex4(word as int) + suffix@);
    }
    s
}

/// Formats an instruction's operand (see `operand_text`); `pc` is the
/// address of the instruction.
pub fn format_operand(mode: OperandMode, op1: u8, op2: u8, pc: usize) -> (r: String)
    requires
        // the branch target is computed in 32-bit signed arithmetic
        mode is Relative ==> (pc as i32) + 2 <= i32::MAX && (pc as i32) + 2 + (if op1 < 128 { op1 as int } else { op1 - 256 }) <= i32::MAX,
    ensures
        r@ == operand_text(mode, op1, op2, pc as int),
{
    let word: u16 = op1 as u16 + 256 * op2 as u16;
    let ghost text = operand_text(mode, op1, op2, pc as int);
    let s = match mode {
        OperandMode::Implied | OperandMode::Accumulator => String::new(),
        OperandMode::Immediate => {
            let mut s = String::new();
            s.push('#');
            s.push('$');
            push_hex2(&mut s, op1);
            s
        },
        OperandMode::ZeroPage => fmt_byte_operand(false, op1, &[]),
        OperandMode::ZeroPageX => fmt_byte_operand(false, op1, &[',', 'X']),
        OperandMode::ZeroPageY => fmt_byte_operand(false, op1, &[',', 'Y']),
        OperandMode::Absolute => fmt_word_operand(false, word, &[]),
        OperandMode::AbsoluteX => fmt_word_operand(false, word, &[',', 'X']),
        OperandMode::AbsoluteY => fmt_word_operand(false, word, &[',', 'Y']),
        OperandMode::IndirectX => fmt_byte_operand(true, op1, &[',', 'X', ')']),
        OperandMode::IndirectY => fmt_byte_operand(true, op1, &[')', ',', 'Y']),
        OperandMode::Relative => {
            // The target wraps within the 64KB address space.
            let base: u16 = (pc % 65536) as u16;
            let target: u16 = if op1 < 128 {
                base.wrapping_add(2).wrapping_add(op1 as u16)
            } else {
                base.wrapping_add(2).wrapping_sub(256 - op1 as u16)
            };
            proof {
                assert(target == branch_target(pc as int, op1));
            }
            fmt_word_operand(false, target, &[])
        },
        OperandMode::Indirect => fmt_word_operand(true, word, &[')']),
    };
    proof {
        assert(s@ =~= text);
    }
    s
}

/// `n` in upper-case hex with at least `width` digits.
pub open spec fn hex_min(n: nat, width: nat) -> Seq<char>
    decreases n + width,
{
    if n < 16 && width <= 1 {
        seq![hex_digit(n as int)]
    } else {
        hex_min(n / 16, if width > 0 { (width - 1) as nat } else { 0 }).push(hex_digit((n % 16) as int))
    }
}

fn push_hex_min(s: &mut String, n: usize, width: usize)
    ensures
        final(s)@ == old(s)@ + hex_min(n as nat, width as nat),
    decreases n + width,
{
    if n >= 16 || width > 1 {
        push_hex_min(s, n / 16, if width > 0 { width - 1 } else { 0 });
    }
    s.push(hex_digit_char((n % 16) as u8));
    proof {
        assert(final(s)@ =~= old(s)@ + hex_min(n as nat, width as nat));
    }
}

/// The characters of a string literal.
fn push_str(s: &mut String, text: &str)
    ensures
        final(s)@ == old(s)@ + text@,
{
    let ghost start = s@;
    let ghost mut n: int = 0;
    broadcast use vstd::string::axiom_spec_iter;
    for c in it: text.chars()
        invariant
            n == it.index(),
            it.seq() == text@,
            s@ == start + text@.take(n),
    {
        proof {
            assert(text@.take(n + 1) =~= text@.take(n).push(c));
        }
        s.push(c);
        proof {
            n = n + 1;
        }
    }
    proof {
        assert(text@.take(n) =~= text@);
    }
}

/// `n` spaces.
pub open spec fn spaces(n: nat) -> Seq<char> {
    Seq::new(n, |i: int| ' ')
}

/// The operand byte at `i`, or 0 past the end of the code.
pub open spec fn code_byte(bytes: Seq<u8>, i: int) -> u8 {
    if 0 <= i < bytes.len() { bytes[i] } else { 0 }
}

/// The listing line of the instruction at offset `pc` of code loaded at
/// `base`: address, instruction bytes, mnemonic and operand (the mode's name
/// for one-byte instructions).
pub open spec fn listing_line(bytes: Seq<u8>, base: u16, pc: int) -> Seq<char> {
    let opcode = bytes[pc];
    let (mnemonic, mode, len) = spec_decode_6502(opcode);
    let op1 = code_byte(bytes, pc + 1);
    let op2 = code_byte(bytes, pc + 2);
    let addr = base + pc;
    let head = seq!['$'] + hex_min(addr as nat, 4) + seq![':', ' '];
    if len == 1 {
        head + hex2(opcode as int) + spaces(7) + mnemonic@ + seq![' '] + mode.spec_name()@
    } else if len == 2 {
        head + hex2(opcode as int) + seq![' '] + hex2(op1 as int) + spaces(4) + mnemonic@ + seq![' ']
            + operand_text(mode, op1, op2, addr)
    } else {
        head + hex2(opcode as int) + seq![' '] + hex2(op1 as int) + seq![' '] + hex2(op2 as int) + seq![' ']
            + mnemonic@ + seq![' '] + operand_text(mode, op1, op2, addr)
    }
}

/// The listing from offset `pc` on, one line per instruction.
pub open spec fn listing_from(bytes: Seq<u8>, base: u16, pc: int) -> Seq<Seq<char>>
    decreases (if pc < bytes.len() { bytes.len() - pc } else { 0 }),
{
    if pc < 0 || pc >= bytes.len() {
        Seq::empty()
    } else {
        let len = spec_decode_6502(bytes[pc]).2;
        if len == 0 {
            seq![listing_line(bytes, base, pc)]
        } else {
            seq![listing_line(bytes, base, pc)] + listing_from(bytes, base, pc + len)
        }
    }
}

fn push_spaces(s: &mut String, n: usize)
    ensures
        final(s)@ == old(s)@ + spaces(n as nat),
{
    let ghost start = s@;
    for i in 0..n
        invariant
            s@ == start + spaces(i as nat),
    {
        s.push(' ');
        proof {
            assert(s@ =~= start + spaces((i + 1) as nat));
        }
    }
}

/// The listing line of the instruction at `pc` and its length.
fn disasm_line(bytes: &[u8], base: u16, pc: usize) -> (r: (String, usize))
    requires
        pc < bytes@.len(),
        base + bytes@.len() + 129 <= i32::MAX,
    ensures
        r.0@ == listing_line(bytes@, base, pc as int),
        r.1 == spec_decode_6502(bytes@[pc as int]).2,
        1 <= r.1 <= 3,
{
    let opcode = bytes[pc];
    let (mnemonic, mode, len) = decode_6502(opcode);
    let op1 = if pc + 1 < bytes.len() { bytes[pc + 1] } else { 0 };
    let op2 = if pc + 2 < bytes.len() { bytes[pc + 2] } else { 0 };
    let addr = base as usize + pc;
    let mut line = String::new();
    line.push('$');
    push_hex_min(&mut line, addr, 4);
    line.push(':');
    line.push(' ');
    push_hex2(&mut line, opcode);
    let ghost head = seq!['$'] + hex_min(addr as nat, 4) + seq![':', ' '];
    proof {
        assert(line@ =~= head + hex2(opcode as int));
    }
    if len == 1 {
        push_spaces(&mut line, 7);
        push_str(&mut line, mnemonic);
        line.push(' ');
        push_str(&mut line, mode.name());
        proof {
            assert(line@ =~= head + hex2(opcode as int) + spaces(7) + mnemonic@ + seq![' '] + mode.spec_name()@);
        }
    } else {
        line.push(' ');
        push_hex2(&mut line, op1);
        if len == 2 {
            push_spaces(&mut line, 4);
        } else {
            line.push(' ');
            push_hex2(&mut line, op2);
            line.push(' ');
        }
        push_str(&mut line, mnemonic);
        line.push(' ');
        let operand = format_operand(mode, op1, op2, addr);
        push_str(&mut line, operand.as_str());
        proof {
            if len == 2 {
                assert(line@ =~= head + hex2(opcode as int) + seq![' '] + hex2(op1 as int) + spaces(4) + mnemonic@
                    + seq![' '] + operand_text(mode, op1, op2, addr as int));
            } else {
                assert(line@ =~= head + hex2(opcode as int) + seq![' '] + hex2(op1 as int) + seq![' '] + hex2(op2 as int)
                    + seq![' '] + mnemonic@ + seq![' '] + operand_text(mode, op1, op2, addr as int));
            }
        }
    }
    (line, len)
}

/// Lists code loaded at `base`, one line per instruction, each showing the
/// address, the instruction's bytes, its mnemonic and its operand.
pub fn disasm(bytes: &[u8], base: u16) -> (r: Vec<String>)
    requires
        base + bytes@.len() + 129 <= i32::MAX,
    ensures
        r@.map_values(|line: String| line@) == listing_from(bytes@, base, 0),
{
    let mut lines: Vec<String> = Vec::new();
    let mut pc: usize = 0;
    while pc < bytes.len()
        invariant
            base + bytes@.len() + 129 <= i32::MAX,
            pc <= bytes@.len() + 2,
            lines@.map_values(|line: String| line@) + listing_from(bytes@, base, pc as int) == listing_from(bytes@, base, 0),
        decreases (if pc < bytes@.len() { bytes@.len() - pc } else { 0 }),
    {
        let (line, len) = disasm_line(bytes, base, pc);
        let ghost before = lines@.map_values(|line: String| line@);
        lines.push(line);
        proof {
            assert(lines@.map_values(|line: String| line@) =~= before.push(listing_line(bytes@, base, pc as int)));
            assert(listing_from(bytes@, base, pc as int)
                =~= seq![listing_line(bytes@, base, pc as int)] + listing_from(bytes@, base, pc + len));
            assert(before + listing_from(bytes@, base, pc as int)
                =~= before.push(listing_line(bytes@, base, pc as int)) + listing_from(bytes@, base, pc + len));
        }
        pc = pc + len;
    }
    proof {
        assert(lines@.map_values(|line: String| line@) + listing_from(bytes@, base, pc as int)
            =~= lines@.map_values(|line: String| line@));
    }
    lines
}

} // verus!

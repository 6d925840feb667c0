use apple2_core::disasm::{decode_6502, format_operand, OperandMode};

#[test]
fn opcode_table_entries() {
    assert_eq!(decode_6502(0x20), ("JSR", OperandMode::Absolute, 3));
    assert_eq!(decode_6502(0xB1), ("LDA", OperandMode::IndirectY, 2));
    assert_eq!(decode_6502(0x0A), ("ASL", OperandMode::Accumulator, 1));
    assert_eq!(decode_6502(0xFF), ("???", OperandMode::Implied, 1));
    assert_eq!(OperandMode::IndirectX.name(), "(ind,X)");
}

#[test]
fn operands_are_formatted_in_hex() {
    assert_eq!(format_operand(OperandMode::Immediate, 0x0A, 0, 0), "#$0A");
    assert_eq!(format_operand(OperandMode::ZeroPageX, 0x3C, 0, 0), "$3C,X");
    assert_eq!(format_operand(OperandMode::Absolute, 0x34, 0x12, 0), "$1234");
    assert_eq!(format_operand(OperandMode::AbsoluteY, 0xFF, 0xC0, 0), "$C0FF,Y");
    assert_eq!(format_operand(OperandMode::IndirectX, 0x26, 0, 0), "($26,X)");
    assert_eq!(format_operand(OperandMode::IndirectY, 0x26, 0, 0), "($26),Y");
    assert_eq!(format_operand(OperandMode::Indirect, 0xF0, 0x03, 0), "($03F0)");
    assert_eq!(format_operand(OperandMode::Implied, 1, 2, 3), "");
}

#[test]
fn branch_targets_are_relative_to_the_next_instruction() {
    assert_eq!(format_operand(OperandMode::Relative, 0xFE, 0, 0xC65C), "$C65C");
    assert_eq!(format_operand(OperandMode::Relative, 0x10, 0, 0xC600), "$C612");
    assert_eq!(format_operand(OperandMode::Relative, 0x7F, 0, 0xFFF0), "$0071");
}

#[test]
fn listing_of_boot_code() {
    let code = [0xA9, 0x10, 0x20, 0x34, 0x12, 0x0A, 0xD0, 0xFE];
    let lines = apple2_core::disasm::disasm(&code, 0xC600);
    assert_eq!(
        lines,
        vec![
            "$C600: A9 10    LDA #$10".to_string(),
            "$C602: 20 34 12 JSR $1234".to_string(),
            "$C605: 0A       ASL A".to_string(),
            "$C606: D0 FE    BNE $C606".to_string(),
        ]
    );
}

#[test]
fn listing_pads_a_cut_off_instruction_with_zeros() {
    let lines = apple2_core::disasm::disasm(&[0x20], 0x0300);
    assert_eq!(lines, vec!["$0300: 20 00 00 JSR $0000".to_string()]);
    assert!(apple2_core::disasm::disasm(&[], 0).is_empty());
}

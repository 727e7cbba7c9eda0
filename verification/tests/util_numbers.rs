use dzemu::assembler::VariableSize;
use dzemu::inst::mcs6502;
use dzemu::util::{
    char_byte, extract_indirect_target, is_valid_label, lower, to_u16, u16_to_number,
    u8_to_number, upper,
};

#[test]
fn u8_number_conversion() {
    let c = 'C' as u8;
    let d = 'd' as u8;
    let x = 'x' as u8;
    let two = '2' as u8;

    assert_eq!(u8_to_number(c, 16), Some(12));
    assert_eq!(u8_to_number(d, 16), Some(13));
    assert_eq!(u8_to_number(two, 10), Some(2));
    assert_eq!(u8_to_number(two, 16), Some(0x2));
    assert_eq!(u8_to_number(x, 16), None);
    assert_eq!(u8_to_number(c, 10), None);
}

#[test]
fn u16_number_conversion() {
    let num1 = to_u16('A' as u8, '2' as u8);
    let num2 = to_u16('6' as u8, '5' as u8);
    let not_num = to_u16('G' as u8, '2' as u8);

    assert_eq!(u16_to_number(num1, 16), Some(0xA2));
    assert_eq!(u16_to_number(num2, 10), Some(65));
    assert_eq!(u16_to_number(num2, 16), Some(0x65));
    assert_eq!(u16_to_number(not_num, 10), None);
    assert_eq!(u16_to_number(not_num, 16), None);
    assert_eq!(u16_to_number(num1, 10), None);
}

#[test]
fn digits_of_other_bases_do_not_exist() {
    assert_eq!(u8_to_number('1' as u8, 2), None);
    assert_eq!(u8_to_number('1' as u8, 0), None);
    assert_eq!(u16_to_number(to_u16('1' as u8, '0' as u8), 8), None);
}

#[test]
fn digit_edges() {
    assert_eq!(u8_to_number('0' as u8, 10), Some(0));
    assert_eq!(u8_to_number('9' as u8, 10), Some(9));
    assert_eq!(u8_to_number('/' as u8, 10), None);
    assert_eq!(u8_to_number(':' as u8, 16), None);
    assert_eq!(u8_to_number('a' as u8, 16), Some(10));
    assert_eq!(u8_to_number('f' as u8, 16), Some(15));
    assert_eq!(u8_to_number('g' as u8, 16), None);
    assert_eq!(u8_to_number('A' as u8, 16), Some(10));
    assert_eq!(u8_to_number('F' as u8, 16), Some(15));
    assert_eq!(u8_to_number('@' as u8, 16), None);
    assert_eq!(u16_to_number(to_u16('F' as u8, 'f' as u8), 16), Some(0xFF));
    assert_eq!(u16_to_number(to_u16('9' as u8, '9' as u8), 10), Some(99));
}

#[test]
fn words_and_their_bytes() {
    assert_eq!(lower(0xBEEF), 0xEF);
    assert_eq!(upper(0xBEEF), 0xBE);
    assert_eq!(to_u16(0xBE, 0xEF), 0xBEEF);
    assert_eq!(to_u16(upper(0x1200), lower(0x0034)), 0x1234);
    assert_eq!(lower(0), 0);
    assert_eq!(upper(0xFFFF), 0xFF);
}

#[test]
fn char_byte_keeps_the_low_eight_bits() {
    assert_eq!(char_byte('A'), 0x41);
    assert_eq!(char_byte('\u{0130}'), 0x30);
    assert_eq!(char_byte('\u{00FF}'), 0xFF);
}

#[test]
fn variable_sizes() {
    assert_eq!(VariableSize::Byte.bytes(), 1);
    assert_eq!(VariableSize::Word.bytes(), 2);
}

#[test]
fn indirect_target_is_what_the_parentheses_hold() {
    let chars: Vec<char> = "($12),Y".chars().collect();
    assert_eq!(extract_indirect_target(&chars), vec!['$', '1', '2']);
    let chars: Vec<char> = "($12)".chars().collect();
    assert_eq!(extract_indirect_target(&chars), vec!['$', '1', '2']);
    let chars: Vec<char> = "(AB".chars().collect();
    assert_eq!(extract_indirect_target(&chars), vec!['A']);
    let chars: Vec<char> = "()".chars().collect();
    assert_eq!(extract_indirect_target(&chars), Vec::<char>::new());
    let chars: Vec<char> = "(".chars().collect();
    assert_eq!(extract_indirect_target(&chars), Vec::<char>::new());
    assert_eq!(extract_indirect_target(&[]), Vec::<char>::new());
}

#[test]
fn label_shapes() {
    assert!(is_valid_label("LOOP", false));
    assert!(is_valid_label("_loop1", false));
    assert!(is_valid_label("LOOP:", true));
    assert!(!is_valid_label("LOOP:", false));
    assert!(!is_valid_label("1LOOP", false));
    assert!(!is_valid_label("LO OP", false));
    assert!(!is_valid_label("Hello!", false));
    assert!(!is_valid_label("", false));
    assert!(is_valid_label("A", false));
    assert!(!is_valid_label(":", true));
    // The character before the last one is not looked at.
    assert!(is_valid_label("A!B", false));
    assert!(!is_valid_label("A!BC", false));
}

#[test]
fn instruction_names_are_no_labels() {
    assert!(mcs6502::is_valid_instruction("ADC"));
    assert!(mcs6502::is_valid_instruction("TXS"));
    assert!(mcs6502::is_valid_instruction("PRT"));
    assert!(mcs6502::is_valid_instruction("VAR"));
    assert!(!mcs6502::is_valid_instruction("adc"));
    assert!(!mcs6502::is_valid_instruction("ADCX"));
    assert!(!mcs6502::is_valid_instruction("AD"));
    assert!(!mcs6502::is_valid_instruction(""));
    assert!(!mcs6502::is_valid_label("LDA", false));
    assert!(mcs6502::is_valid_label("START", false));
    assert!(mcs6502::is_valid_label("START:", true));
}

#[test]
fn operands_of_two_and_four_digits() {
    let chars: Vec<char> = "#$5A".chars().collect();
    assert_eq!(mcs6502::extract_operand_u8(&chars, 1), Some(0x5A));
    let chars: Vec<char> = "#49".chars().collect();
    assert_eq!(mcs6502::extract_operand_u8(&chars, 1), Some(49));
    let chars: Vec<char> = "#4".chars().collect();
    assert_eq!(mcs6502::extract_operand_u8(&chars, 1), None);
    let chars: Vec<char> = "$G1".chars().collect();
    assert_eq!(mcs6502::extract_operand_u8(&chars, 0), None);
    let chars: Vec<char> = "$12A3".chars().collect();
    assert_eq!(mcs6502::extract_operand_u16(&chars, 0), Some(0x12A3));
    let chars: Vec<char> = "4321".chars().collect();
    assert_eq!(mcs6502::extract_operand_u16(&chars, 0), Some(4321));
    let chars: Vec<char> = "$FFFF".chars().collect();
    assert_eq!(mcs6502::extract_operand_u16(&chars, 0), Some(0xFFFF));
    let chars: Vec<char> = "9999".chars().collect();
    assert_eq!(mcs6502::extract_operand_u16(&chars, 0), Some(9999));
    let chars: Vec<char> = "$12".chars().collect();
    assert_eq!(mcs6502::extract_operand_u16(&chars, 0), Some(0x12));
    let chars: Vec<char> = "12".chars().collect();
    assert_eq!(mcs6502::extract_operand_u16(&chars, 0), Some(12));
    let chars: Vec<char> = "1".chars().collect();
    assert_eq!(mcs6502::extract_operand_u16(&chars, 0), None);
    let chars: Vec<char> = "$12A".chars().collect();
    assert_eq!(mcs6502::extract_operand_u16(&chars, 0), None);
    assert_eq!(mcs6502::extract_operand_u16(&chars, 200), None);
}

#[test]
fn names_of_opcodes() {
    assert_eq!(mcs6502::op_name(0x69), "ADC");
    assert_eq!(mcs6502::op_name(0x00), "BRK");
    assert_eq!(mcs6502::op_name(0xBA), "TSX");
    assert_eq!(mcs6502::op_name(0x9A), "TXS");
    assert_eq!(mcs6502::op_name(0xFF), "PRT");
    assert_eq!(mcs6502::op_name(0x02), "UNKNOWN");
}

#[test]
fn what_an_operand_may_name() {
    assert!(mcs6502::can_jump_to_label(0x4C));
    assert!(mcs6502::can_jump_to_label(0x20));
    assert!(!mcs6502::can_jump_to_label(0x6C));
    assert!(mcs6502::can_branch_to_label(0xD0));
    assert!(!mcs6502::can_branch_to_label(0x4C));
    assert!(mcs6502::can_use_variables(0xAD));
    assert!(mcs6502::can_use_variables(0x6C));
    assert!(mcs6502::can_use_variables(0x91));
    assert!(mcs6502::can_use_variables(0xFF));
    assert!(!mcs6502::can_use_variables(0x4C));
    assert!(!mcs6502::can_use_variables(0x20));
    assert!(!mcs6502::can_use_variables(0xA9));
    assert!(!mcs6502::can_use_variables(0xA5));
}

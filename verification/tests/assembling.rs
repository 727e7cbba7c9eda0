use dzemu::assembler::mcs6502::{AsmError, Assembler6502, Preprocessor};
use dzemu::assembler::mcs6502::split_on;
use dzemu::cpus::mcs6502::Mcs6502;
use dzemu::cpus::Cpu;
use dzemu::inst::mcs6502::{disassemble, ops, AddressMode};
use dzemu::mems::ram::Ram8b64kB;
use dzemu::mems::rom::Rom8b;
use dzemu::mems::Readable;
use dzemu::text::{split_words, starts_with, trim, trim_end};

fn lines(text: &[&str]) -> Vec<String> {
    text.iter().map(|line| line.to_string()).collect()
}

fn chars(text: &str) -> Vec<char> {
    text.chars().collect()
}

fn assemble(program: &[&str], debug: bool) -> Result<Vec<u8>, AsmError> {
    let mut assembler = Assembler6502::new();
    assembler.debug(debug);
    assembler.start()?;
    let code = assembler.preprocess(lines(program))?;
    for line in code.iter() {
        assert_eq!(assembler.assemble_line(line)?, None);
    }
    assembler.link()?;
    Ok(assembler.image())
}

#[test]
fn words_of_a_text() {
    assert_eq!(split_words(&chars("  LDA   #$01 \t ; x ")), vec![
        chars("LDA"),
        chars("#$01"),
        chars(";"),
        chars("x")
    ]);
    assert_eq!(split_words(&chars("")), Vec::<Vec<char>>::new());
    assert_eq!(split_words(&chars(" \n ")), Vec::<Vec<char>>::new());
    assert_eq!(split_words(&chars("A")), vec![chars("A")]);
}

#[test]
fn pieces_of_a_text() {
    assert_eq!(split_on(&chars("a b  c"), ' '), vec![chars("a"), chars("b"), chars(""), chars("c")]);
    assert_eq!(split_on(&chars(""), ' '), vec![chars("")]);
    assert_eq!(split_on(&chars(" a "), ' '), vec![chars(""), chars("a"), chars("")]);
}

#[test]
fn trimming_and_prefixes() {
    assert_eq!(trim(&chars("  a b \t\n")), chars("a b"));
    assert_eq!(trim(&chars("   ")), chars(""));
    assert_eq!(trim_end(&chars("  a  ")), chars("  a"));
    assert!(starts_with(&chars(".BYTE X"), ".BYTE "));
    assert!(!starts_with(&chars(".BYT"), ".BYTE "));
    assert!(starts_with(&chars("anything"), ""));
}

#[test]
fn a_loop_is_assembled_and_runs() {
    let image = assemble(
        &["START:", "  LDX #$05", "LOOP: DEX", "  BNE LOOP ; count down", "  JMP START"],
        false,
    )
    .unwrap();
    assert_eq!(
        image,
        vec![
            ops::JMP_ABSOLUTE,
            0x03,
            0x00,
            ops::LDX_IMMEDIATE,
            0x05,
            ops::DEX_IMPLIED,
            ops::BNE_RELATIVE,
            0xFF,
            ops::JMP_ABSOLUTE,
            0x03,
            0x00,
            ops::JMP_ABSOLUTE,
            0x0E,
            0x00,
        ]
    );

    let mut cpu = Mcs6502::new(Ram8b64kB::new());
    cpu.boot(&Rom8b::from_vec(image));
    // The jump to START, the load, and five times decrement and branch.
    assert_eq!(cpu.run(12), Ok(()));
    assert_eq!(cpu.idx_x, 0);
    assert_eq!(cpu.pc(), 8);
    assert_eq!(cpu.addr_mode, AddressMode::Relative);
}

#[test]
fn variables_are_declared_and_used() {
    let image = assemble(
        &["START: LDA COUNT", "STA TOTAL, X", ".BYTE COUNT $2A", ".WORD TOTAL 1017 $12A3"],
        true,
    )
    .unwrap();
    assert_eq!(
        image,
        vec![
            ops::JMP_ABSOLUTE,
            0x03,
            0x00,
            ops::LDA_ABSOLUTE,
            0x0B,
            0x00,
            ops::STA_ABSOLUTE_X,
            0x0E,
            0x00,
            ops::custom::VARIABLE,
            0x01,
            0x2A,
            ops::custom::VARIABLE,
            0x04,
            0xF9,
            0x03,
            0xA3,
            0x12,
            ops::JMP_ABSOLUTE,
            0x15,
            0x00,
        ]
    );
    let listing = disassemble(&Rom8b::from_vec(image));
    let texts: Vec<&str> = listing.iter().map(|(_, text)| text.as_str()).collect();
    assert_eq!(texts, vec![
        "JMP $0003",
        "LDA $000B",
        "STA $000E, X",
        "VAR #$01",
        "VAR #$04",
        "JMP $0015"
    ]);
}

#[test]
fn a_variable_without_values_is_zero() {
    let mut assembler = Assembler6502::new();
    assert_eq!(assembler.declare_variable(".BYTE ONE", dzemu::assembler::VariableSize::Byte), Ok(()));
    assert_eq!(assembler.declare_variable(".WORD TWO", dzemu::assembler::VariableSize::Word), Ok(()));
    assert_eq!(assembler.image(), vec![0, 0, 0]);
}

#[test]
fn what_cannot_be_assembled() {
    assert_eq!(assemble(&["LDA #$01"], false), Err(AsmError::StartNotDefined));
    assert_eq!(assemble(&["START:", "START:"], false), Err(AsmError::LabelRedefined));
    assert_eq!(assemble(&["START: NOP", "START: NOP"], false), Err(AsmError::LabelRedefined));
    assert_eq!(assemble(&["START:", "END:"], false), Err(AsmError::LabelRedefined));
    assert_eq!(assemble(&["START:", "XYZ #$01"], false), Err(AsmError::UnknownInstruction));
    assert_eq!(assemble(&["START:", "STA #$01"], false), Err(AsmError::UnknownInstruction));
    assert_eq!(assemble(&["START:", "LOOP: ; nothing"], false), Err(AsmError::NothingToAssemble));
    assert_eq!(assemble(&["START:", "JMP NOWHERE"], false), Err(AsmError::LabelNotDefined));
    assert_eq!(assemble(&["START:", "BNE NOWHERE"], false), Err(AsmError::LabelNotDefined));
    assert_eq!(assemble(&["START:", "LDA NOTHING"], false), Err(AsmError::VariableNotDefined));
    assert_eq!(assemble(&["START:", ".BYTE X $G1"], false), Err(AsmError::InvalidInitializer));
    assert_eq!(assemble(&["START:", ".BYTE 1X $01"], false), Err(AsmError::InvalidVariableName));
    // Without a name behind it the directive is read as an instruction.
    assert_eq!(assemble(&["START:", ".BYTE "], false), Err(AsmError::UnknownInstruction));
    let mut assembler = Assembler6502::new();
    assert_eq!(
        assembler.declare_variable(".BYTE", dzemu::assembler::VariableSize::Byte),
        Err(AsmError::InvalidVariableName)
    );
    assert_eq!(assemble(&["START:", "$NOMACRO 1"], false), Err(AsmError::UnknownMacro));
    assert_eq!(assemble(&["START:", "LDA (X"], false), Err(AsmError::UnknownInstruction));
}

#[test]
fn a_branch_reaches_127_bytes_and_no_further() {
    let mut near = vec!["START:", "BACK: NOP"];
    for _ in 0..125 {
        near.push("NOP");
    }
    near.push("BNE BACK");
    let image = assemble(&near, false).unwrap();
    // The branch stands 126 bytes behind its label.
    assert_eq!(image[3 + 126], ops::BNE_RELATIVE);
    assert_eq!(image[3 + 127], 0x82);

    let mut far = vec!["START:", "BACK: NOP"];
    for _ in 0..127 {
        far.push("NOP");
    }
    far.push("BNE BACK");
    assert_eq!(assemble(&far, false), Err(AsmError::BranchTooFar(3 + 128)));

    let mut ahead = vec!["START:", "BNE AHEAD"];
    for _ in 0..125 {
        ahead.push("NOP");
    }
    ahead.push("AHEAD: NOP");
    let image = assemble(&ahead, false).unwrap();
    assert_eq!(image[4], 127);

    let mut beyond = vec!["START:", "BNE AHEAD"];
    for _ in 0..126 {
        beyond.push("NOP");
    }
    beyond.push("AHEAD: NOP");
    assert_eq!(assemble(&beyond, false), Err(AsmError::BranchTooFar(3)));
}

#[test]
fn an_error_leaves_the_program_as_it_was() {
    let mut assembler = Assembler6502::new();
    assembler.start().unwrap();
    assembler.translate("START: NOP").unwrap();
    let image = assembler.image();
    assert_eq!(assembler.translate("LOOP: XYZ"), Err(AsmError::UnknownInstruction));
    assert_eq!(assembler.image(), image);
    // The label of the failed line was not defined.
    assert_eq!(assembler.translate("LOOP: NOP"), Ok(()));
    assert_eq!(assembler.translate("; only a comment"), Ok(()));
    assert_eq!(assembler.assemble_line("   "), Ok(None));
    assert_eq!(assembler.image().len(), image.len() + 1);
}

#[test]
fn lines_that_take_in_files() {
    let mut assembler = Assembler6502::new();
    assert_eq!(
        assembler.assemble_line("  .INCLUDE \"Lib/Text.ASM\""),
        Ok(Some("lib/text.asm".to_string()))
    );
    assert_eq!(assembler.assemble_line(".INCLUDE lib.asm"), Err(AsmError::InvalidInclude));
    assert_eq!(assembler.assemble_line(".INCLUDE \"\""), Err(AsmError::InvalidInclude));
    assert!(assembler.enter_file("lib/text.asm"));
    assert!(!assembler.enter_file("lib/text.asm"));
    assert!(assembler.enter_file("lib/other.asm"));
    assert_eq!(assembler.image(), Vec::<u8>::new());
}

#[test]
fn names_in_operands() {
    let assembler = Assembler6502::new();
    assert_eq!(assembler.strip_index("TABLE,X"), "TABLE");
    assert_eq!(assembler.strip_index("(VECTOR),Y"), "VECTOR");
    assert_eq!(assembler.strip_index("(TABLE,X)"), "TABLE");
    assert_eq!(assembler.strip_index("LOOP_1"), "LOOP_1");
    assert_eq!(assembler.strip_index(""), "");
    assert_eq!(assembler.strip_index("("), "");
}

#[test]
fn pushed_instructions() {
    let mut assembler = Assembler6502::new();
    assert_eq!(assembler.push_instruction(ops::NOP_IMPLIED, 0, AddressMode::Implied, ""), Ok(()));
    assert_eq!(
        assembler.push_instruction(ops::LDA_IMMEDIATE, 0x1234, AddressMode::Immediate, "#$34"),
        Ok(())
    );
    assert_eq!(
        assembler.push_instruction(ops::LDA_ABSOLUTE, 0x1234, AddressMode::Absolute, "$1234"),
        Ok(())
    );
    assert_eq!(
        assembler.push_instruction(ops::LDA_INDIRECT_X, 0, AddressMode::ILabelX, "(tab,x)"),
        Ok(())
    );
    assert_eq!(
        assembler.push_instruction(ops::NOP_IMPLIED, 0, AddressMode::Label, "LOOP"),
        Err(AsmError::LabelNotAllowed)
    );
    assert_eq!(
        assembler.push_instruction(ops::NOP_IMPLIED, 0, AddressMode::Undefined, ""),
        Err(AsmError::InvalidAddressMode)
    );
    assert_eq!(
        assembler.image(),
        vec![
            ops::NOP_IMPLIED,
            ops::LDA_IMMEDIATE,
            0x34,
            ops::LDA_ABSOLUTE,
            0x34,
            0x12,
            ops::LDA_INDIRECT_X,
            0x00
        ]
    );
}

#[test]
fn an_image_cannot_outgrow_the_address_space() {
    let mut assembler = Assembler6502::new();
    for _ in 0..0x10000 {
        assert_eq!(assembler.translate("NOP"), Ok(()));
    }
    assert_eq!(assembler.translate("NOP"), Err(AsmError::ImageTooLarge));
    assert_eq!(assembler.image().len(), 0x10000);
}

#[test]
fn macros_are_expanded() {
    let mut prep = Preprocessor::new();
    let code = lines(&[
        ".macro addtwo value other",
        "  clc",
        "  adc value",
        "  adc   other",
        "lda #$01",
        "$addtwo #$02 #$03",
        "$push #$04",
        "$pop $10",
        "$mov $20 #$05",
        "nop",
    ]);
    assert_eq!(
        prep.process(code),
        Ok(lines(&[
            "LDA #$01",
            "CLC",
            "ADC #$02",
            "ADC #$03",
            "LDA #$04",
            "PHA",
            "PLA",
            "STA $10",
            "LDA #$05",
            "STA $20",
            "NOP",
        ]))
    );
}

#[test]
fn a_macro_without_parameters_is_copied() {
    let mut prep = Preprocessor::new();
    assert_eq!(prep.register_macro(lines(&[".MACRO TWICE", "  inx  x", " inx"])), Ok(()));
    assert_eq!(prep.register_macro(lines(&[".MACRO"])), Ok(()));
    assert_eq!(prep.register_macro(lines(&["", " inx"])), Ok(()));
    assert_eq!(prep.register_macro(lines(&[".MACRO", " inx"])), Err(AsmError::MacroWithoutName));
    assert_eq!(prep.process(lines(&["$TWICE"])), Ok(lines(&["INX  X", "INX"])));
    // A macro registered again replaces the one before.
    assert_eq!(prep.register_macro(lines(&[".MACRO TWICE", " iny"])), Ok(()));
    assert_eq!(prep.process(lines(&["$twice 1 2"])), Ok(lines(&["INY"])));
}

#[test]
fn a_string_becomes_bytes() {
    let mut prep = Preprocessor::new();
    assert_eq!(
        prep.process(lines(&["$string msg \"Hi  there\" ; rest"])),
        Ok(lines(&[".BYTE MSG $48 $49 $20 $54 $48 $45 $52 $45 $00"]))
    );
    assert_eq!(prep.process(lines(&["$string m \"A\""])), Ok(lines(&[".BYTE M $41 $00"])));
    // White space inside the quotation marks parts words like any other.
    assert_eq!(prep.process(lines(&["$string m \"\t\""])), Ok(lines(&[".BYTE M $20 $00"])));
    assert_eq!(prep.process(lines(&["$string m hi"])), Err(AsmError::StringWithoutQuotes));
    assert_eq!(prep.process(lines(&["$string m \"hi"])), Err(AsmError::StringWithoutQuotes));
    assert_eq!(prep.process(lines(&["$string m"])), Err(AsmError::MacroArgumentCount));
}

#[test]
fn what_the_preprocessor_refuses() {
    let mut prep = Preprocessor::new();
    assert_eq!(prep.process(lines(&["$nothing"])), Err(AsmError::UnknownMacro));
    assert_eq!(prep.process(lines(&["$push "])), Err(AsmError::MacroArgumentCount));
    assert_eq!(prep.process(lines(&["$push 1 2"])), Err(AsmError::MacroArgumentCount));
    assert_eq!(prep.process(lines(&["$pop 1 2"])), Err(AsmError::MacroArgumentCount));
    assert_eq!(prep.process(lines(&["$mov 1"])), Err(AsmError::MacroArgumentCount));
    assert_eq!(
        prep.process(lines(&[".macro one a b", " lda a", "$one 1"])),
        Err(AsmError::MissingMacroArgument)
    );
    assert_eq!(prep.process(lines(&[".macro ", " lda a"])), Err(AsmError::MacroWithoutName));
}

#[test]
fn macros_are_expanded_four_levels_deep_at_most() {
    let mut prep = Preprocessor::new();
    let code = lines(&[
        ".macro one",
        " nop",
        ".macro two",
        " $one",
        ".macro three",
        " $two",
        "$three",
    ]);
    assert_eq!(prep.process(code), Ok(lines(&["NOP"])));

    let mut prep = Preprocessor::new();
    let code = lines(&[
        ".macro one",
        " nop",
        ".macro two",
        " $one",
        ".macro three",
        " $two",
        ".macro four",
        " $three",
        "$four",
    ]);
    // The fourth pass still expands a macro: nothing is left.
    assert_eq!(prep.process(code), Ok(Vec::<String>::new()));
    assert_eq!(prep.process(Vec::new()), Ok(Vec::<String>::new()));
}

#[test]
fn an_assembled_subroutine_runs() {
    let image = assemble(
        &[
            "start: lda #$05",
            "       jsr double",
            "       sta result",
            "       jmp done",
            "double: asl a ; twice the accumulator",
            "       rts",
            "done:  nop",
            ".byte result $00",
        ],
        true,
    )
    .unwrap();
    let result = image
        .iter()
        .position(|byte| *byte == ops::custom::VARIABLE)
        .unwrap()
        + 2;
    let mut cpu = Mcs6502::new(Ram8b64kB::new());
    cpu.boot(&Rom8b::from_vec(image));
    assert_eq!(cpu.run(8), Ok(()));
    assert_eq!(cpu.accu, 0x0A);
    assert_eq!(cpu.ram.read_u8(result), 0x0A);
    assert_eq!(cpu.sp, 0xFD);
}

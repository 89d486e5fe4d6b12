use rusty_suite::assembler::{decode_command, parse_program, Instruction, Opcode, ParseError};
use rusty_suite::text::chars_of;

fn describe(i: &Instruction) -> String {
    format!("{:?}", i)
}

#[test]
fn reads_a_program() {
    let text = "PUSH 1.5\n\npush 2\n  add  \nPrint extra words\nJNZ +3\nstore 10\nLoad 10\nDUP\nsub\nhalt\n";
    let parsed = parse_program(text);
    assert!(parsed.error.is_none());
    let got: Vec<String> = parsed.instructions.iter().map(describe).collect();
    assert_eq!(
        got,
        vec![
            "Push(\"1.5\")", "Push(\"2\")", "Add", "Print", "Jnz(3)", "Store(10)", "Load(10)",
            "Dup", "Sub", "Halt"
        ]
    );
}

#[test]
fn stops_at_an_unknown_command() {
    let parsed = parse_program("push 1\n\nfoo 2\npush 3\n");
    assert_eq!(parsed.instructions.len(), 1);
    match parsed.error {
        Some(ParseError::UnknownCommand { line, word }) => {
            assert_eq!(line, 2);
            assert_eq!(word, "FOO");
        }
        other => panic!("unexpected {:?}", other),
    }
}

#[test]
fn reports_a_missing_operand() {
    let parsed = parse_program("add\nstore\n");
    assert_eq!(parsed.instructions.len(), 1);
    match parsed.error {
        Some(ParseError::MissingOperand { line: 1, opcode: Opcode::Store }) => {}
        other => panic!("unexpected {:?}", other),
    }
    match parse_program("PUSH").error {
        Some(ParseError::MissingOperand { line: 0, opcode: Opcode::Push }) => {}
        other => panic!("unexpected {:?}", other),
    }
}

#[test]
fn reports_a_bad_number() {
    match parse_program("jnz -1").error {
        Some(ParseError::BadNumber { line: 0, opcode: Opcode::Jnz }) => {}
        other => panic!("unexpected {:?}", other),
    }
    match parse_program("load x").error {
        Some(ParseError::BadNumber { line: 0, opcode: Opcode::Load }) => {}
        other => panic!("unexpected {:?}", other),
    }
}

#[test]
fn command_words_are_upper_cased_by_unicode_rules() {
    // U+017F (long s) upper-cases to 'S'
    let parsed = parse_program("\u{17f}tore 4\n");
    assert!(parsed.error.is_none());
    assert_eq!(describe(&parsed.instructions[0]), "Store(4)");
}

#[test]
fn decodes_upper_case_keywords() {
    assert_eq!(describe(&decode_command("DUP", None, 0).unwrap()), "Dup");
    let operand = chars_of("12");
    assert_eq!(describe(&decode_command("LOAD", Some(&operand), 5).unwrap()), "Load(12)");
    match decode_command("load", Some(&operand), 5) {
        Err(ParseError::UnknownCommand { line: 5, word }) => assert_eq!(word, "load"),
        other => panic!("unexpected {:?}", other),
    }
}

#[test]
fn empty_text_is_an_empty_program() {
    let parsed = parse_program("");
    assert!(parsed.instructions.is_empty());
    assert!(parsed.error.is_none());
}

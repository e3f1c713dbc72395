use vm_translator::instruction::ArithmeticInstruction;
use vm_translator::instruction::ParseError;
use vm_translator::instruction::VMInstruction;
use vm_translator::parser::Parser;

fn lines(text: &[&str]) -> Vec<String> {
    text.iter().map(|s| s.to_string()).collect()
}

#[test]
fn valid_vm_instruction_filters_blank_and_comment_lines() {
    assert!(!Parser::valid_vm_instruction(""));
    assert!(!Parser::valid_vm_instruction("   "));
    assert!(!Parser::valid_vm_instruction("\t"));
    assert!(!Parser::valid_vm_instruction("// a comment"));
    assert!(Parser::valid_vm_instruction("push constant 1"));
    assert!(Parser::valid_vm_instruction("add"));
    // only whole-line comments are recognized: an indented comment line is
    // handed to the parser as content
    assert!(Parser::valid_vm_instruction("  // indented comment"));
}

#[test]
fn reader_skips_non_content_lines_in_order() {
    let mut p = Parser::new(
        "Test".to_string(),
        lines(&[
            "// header",
            "",
            "push constant 7",
            "   ",
            "add",
            "// trailing",
        ]),
    );
    assert!(p.has_more_commands());
    match p.next_command() {
        Ok(VMInstruction::Push(m)) => assert_eq!(m.index, 7),
        other => panic!("unexpected {:?}", other),
    }
    assert!(p.has_more_commands());
    assert!(matches!(
        p.next_command(),
        Ok(VMInstruction::Arithmetic(ArithmeticInstruction::Add))
    ));
    assert!(!p.has_more_commands());
    assert!(!p.has_more_commands());
}

#[test]
fn reader_trims_surrounding_whitespace_before_parsing() {
    let mut p = Parser::new("Test".to_string(), lines(&["   push constant 3\t"]));
    assert!(p.has_more_commands());
    match p.next_command() {
        Ok(VMInstruction::Push(m)) => assert_eq!(m.index, 3),
        other => panic!("unexpected {:?}", other),
    }
}

#[test]
fn reader_surfaces_parse_failures() {
    let mut p = Parser::new("Test".to_string(), lines(&["push foo 3"]));
    assert!(p.has_more_commands());
    assert!(matches!(p.next_command(), Err(ParseError::UnrecognizedSegment(_))));
}

#[test]
fn reader_scopes_statics_to_its_unit() {
    let mut p = Parser::new("Foo".to_string(), lines(&["push static 3"]));
    assert!(p.has_more_commands());
    match p.next_command() {
        Ok(VMInstruction::Push(m)) => match m.segment {
            vm_translator::instruction::MemorySegment::Static(unit) => assert_eq!(unit, "Foo"),
            other => panic!("unexpected segment {:?}", other),
        },
        other => panic!("unexpected {:?}", other),
    }
}

#[test]
fn exhausted_reader_stays_exhausted() {
    let mut p = Parser::new("Test".to_string(), lines(&["// only comments", "  "]));
    assert!(!p.has_more_commands());
    assert!(!p.has_more_commands());
}

use vm_translator::instruction::ArithmeticInstruction;
use vm_translator::instruction::MemoryAccess;
use vm_translator::instruction::MemorySegment;
use vm_translator::instruction::ParseError;
use vm_translator::instruction::VMInstruction;

fn parse(line: &str) -> Result<VMInstruction, ParseError> {
    VMInstruction::parse_from_line(line, "Test")
}

fn op_of(line: &str) -> ArithmeticInstruction {
    match parse(line) {
        Ok(VMInstruction::Arithmetic(op)) => op,
        other => panic!("expected an operator for {:?}, got {:?}", line, other),
    }
}

#[test]
fn nine_operators_round_trip() {
    assert!(matches!(op_of("add"), ArithmeticInstruction::Add));
    assert!(matches!(op_of("sub"), ArithmeticInstruction::Sub));
    assert!(matches!(op_of("neg"), ArithmeticInstruction::Neg));
    assert!(matches!(op_of("eq"), ArithmeticInstruction::Eq));
    assert!(matches!(op_of("gt"), ArithmeticInstruction::Gt));
    assert!(matches!(op_of("lt"), ArithmeticInstruction::Lt));
    assert!(matches!(op_of("and"), ArithmeticInstruction::And));
    assert!(matches!(op_of("or"), ArithmeticInstruction::Or));
    assert!(matches!(op_of("not"), ArithmeticInstruction::Not));
}

#[test]
fn unknown_single_token_is_unrecognized_operator() {
    match parse("frobnicate") {
        Err(ParseError::UnrecognizedOperator(line)) => assert_eq!(line, "frobnicate"),
        other => panic!("unexpected result {:?}", other),
    }
    assert!(matches!(parse("Add"), Err(ParseError::UnrecognizedOperator(_))));
    assert!(matches!(parse("push"), Err(ParseError::UnrecognizedOperator(_))));
}

fn push_parses(seg: &str) -> MemoryAccess {
    match parse(&format!("push {} 3", seg)) {
        Ok(VMInstruction::Push(m)) => m,
        other => panic!("push {} 3 failed: {:?}", seg, other),
    }
}

fn pop_parses(seg: &str) -> MemoryAccess {
    match parse(&format!("pop {} 3", seg)) {
        Ok(VMInstruction::Pop(m)) => m,
        other => panic!("pop {} 3 failed: {:?}", seg, other),
    }
}

#[test]
fn all_segments_push_and_pop() {
    for seg in ["argument", "local", "this", "that", "static", "pointer", "temp"] {
        let m = push_parses(seg);
        assert_eq!(m.index, 3);
        let m = pop_parses(seg);
        assert_eq!(m.index, 3);
    }
    let m = push_parses("constant");
    assert_eq!(m.index, 3);
}

#[test]
fn pop_constant_is_invalid() {
    match parse("pop constant 3") {
        Err(ParseError::InvalidSegmentForOperation(line)) => assert_eq!(line, "pop constant 3"),
        other => panic!("unexpected result {:?}", other),
    }
}

#[test]
fn static_access_carries_the_source_unit() {
    match VMInstruction::parse_from_line("push static 7", "Foo") {
        Ok(VMInstruction::Push(MemoryAccess { segment: MemorySegment::Static(unit), index })) => {
            assert_eq!(unit, "Foo");
            assert_eq!(index, 7);
        },
        other => panic!("unexpected result {:?}", other),
    }
}

#[test]
fn unknown_segment_is_unrecognized_segment() {
    match parse("push foo 3") {
        Err(ParseError::UnrecognizedSegment(line)) => assert_eq!(line, "push foo 3"),
        other => panic!("unexpected result {:?}", other),
    }
}

#[test]
fn non_numeric_index_is_malformed() {
    match parse("push local abc") {
        Err(ParseError::MalformedIndex(line)) => assert_eq!(line, "push local abc"),
        other => panic!("unexpected result {:?}", other),
    }
    assert!(matches!(parse("push local"), Err(ParseError::UnsupportedArity(_))));
    assert!(matches!(parse("push local -1"), Err(ParseError::MalformedIndex(_))));
    assert!(matches!(parse("push local 1x"), Err(ParseError::MalformedIndex(_))));
}

#[test]
fn index_bounds() {
    match parse("push constant 4294967295") {
        Ok(VMInstruction::Push(m)) => assert_eq!(m.index, u32::MAX),
        other => panic!("unexpected result {:?}", other),
    }
    assert!(matches!(
        parse("push constant 4294967296"),
        Err(ParseError::MalformedIndex(_))
    ));
}

#[test]
fn pointer_indices_parse_beyond_the_register_pair() {
    // the grammar accepts any index; code generation's contract restricts it
    match parse("push pointer 5") {
        Ok(VMInstruction::Push(m)) => assert_eq!(m.index, 5),
        other => panic!("unexpected result {:?}", other),
    }
}

#[test]
fn wrong_arity_is_unsupported() {
    assert!(matches!(parse("push local 1 2"), Err(ParseError::UnsupportedArity(_))));
    assert!(matches!(parse("add sub"), Err(ParseError::UnsupportedArity(_))));
    assert!(matches!(parse(""), Err(ParseError::UnsupportedArity(_))));
}

#[test]
fn three_token_unknown_operation() {
    assert!(matches!(parse("poke local 3"), Err(ParseError::UnrecognizedOperator(_))));
}

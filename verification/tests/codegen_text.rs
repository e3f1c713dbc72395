use vm_translator::codegen::CodeWriter;
use vm_translator::instruction::ArithmeticInstruction;
use vm_translator::codegen::LabelCounter;
use vm_translator::codegen::ToAssembly;
use vm_translator::instruction::VMInstruction;

fn lines_of(line: &str, unit: &str, labels: &mut LabelCounter) -> Vec<String> {
    let instruction = VMInstruction::parse_from_line(line, unit).expect(line);
    instruction.to_assembly(labels)
}

fn text(line: &str) -> Vec<String> {
    let mut labels = LabelCounter::new();
    lines_of(line, "Test", &mut labels)
}

fn owned(lines: &[&str]) -> Vec<String> {
    lines.iter().map(|s| s.to_string()).collect()
}

#[test]
fn push_constant_text() {
    assert_eq!(
        text("push constant 7"),
        owned(&["@7", "D=A", "@SP", "A=M", "M=D", "@SP", "M=M+1"])
    );
}

#[test]
fn push_local_text() {
    assert_eq!(
        text("push local 2"),
        owned(&[
            "@LCL", "D=M", "@2", "D=D+A", "A=D", "D=M", "@SP", "A=M", "M=D", "@SP", "M=M+1"
        ])
    );
}

#[test]
fn push_temp_text() {
    assert_eq!(
        text("push temp 4"),
        owned(&[
            "@R5", "D=A", "@4", "D=D+A", "A=D", "D=M", "@SP", "A=M", "M=D", "@SP", "M=M+1"
        ])
    );
}

#[test]
fn push_pointer_text() {
    assert_eq!(
        text("push pointer 0"),
        owned(&["@THIS", "D=M", "@SP", "A=M", "M=D", "@SP", "M=M+1"])
    );
    assert_eq!(
        text("push pointer 1"),
        owned(&["@THAT", "D=M", "@SP", "A=M", "M=D", "@SP", "M=M+1"])
    );
}

#[test]
fn pop_argument_text() {
    assert_eq!(
        text("pop argument 1"),
        owned(&[
            "@ARG", "D=M", "@1", "D=D+A", "@R13", "M=D", "@SP", "AM=M-1", "D=M", "@R13",
            "A=M", "M=D"
        ])
    );
}

#[test]
fn pop_pointer_text() {
    assert_eq!(
        text("pop pointer 1"),
        owned(&["@SP", "AM=M-1", "D=M", "@THAT", "M=D"])
    );
}

#[test]
fn static_text_is_scoped_to_the_unit() {
    let mut labels = LabelCounter::new();
    assert_eq!(
        lines_of("push static 3", "Foo", &mut labels),
        owned(&["@Foo.3", "D=M", "@SP", "A=M", "M=D", "@SP", "M=M+1"])
    );
    assert_eq!(
        lines_of("pop static 3", "Foo", &mut labels),
        owned(&["@SP", "AM=M-1", "D=M", "@Foo.3", "M=D"])
    );
}

#[test]
fn static_symbols_of_two_units_differ() {
    let mut labels = LabelCounter::new();
    let foo = lines_of("push static 3", "Foo", &mut labels);
    let bar = lines_of("push static 3", "Bar", &mut labels);
    assert_eq!(foo[0], "@Foo.3");
    assert_eq!(bar[0], "@Bar.3");
    assert_ne!(foo[0], bar[0]);
}

#[test]
fn add_text() {
    assert_eq!(
        text("add"),
        owned(&["@SP", "A=M-1", "D=M", "@SP", "A=M-1", "A=A-1", "M=M+D", "@SP", "M=M-1"])
    );
}

#[test]
fn neg_and_not_text() {
    assert_eq!(text("neg"), owned(&["@SP", "A=M-1", "M=-M"]));
    assert_eq!(text("not"), owned(&["@SP", "A=M-1", "M=!M"]));
}

#[test]
fn and_or_text() {
    assert_eq!(
        text("and"),
        owned(&["@SP", "A=M-1", "D=M", "A=A-1", "M=D&M", "@SP", "M=M-1"])
    );
    assert_eq!(
        text("or"),
        owned(&["@SP", "A=M-1", "D=M", "A=A-1", "M=D|M", "@SP", "M=M-1"])
    );
}

#[test]
fn eq_text_with_first_label() {
    assert_eq!(
        text("eq"),
        owned(&[
            "@SP",
            "A=M-1",
            "D=M",
            "A=A-1",
            "D=M-D",
            "@EQ_TRUE_0",
            "D;JEQ",
            "@SP",
            "A=M-1",
            "A=A-1",
            "M=0",
            "@EQ_END_0",
            "0;JMP",
            "(EQ_TRUE_0)",
            "@SP",
            "A=M-1",
            "A=A-1",
            "M=-1",
            "(EQ_END_0)",
            "@SP",
            "M=M-1"
        ])
    );
}

#[test]
fn repeated_comparisons_never_share_labels() {
    let mut writer = CodeWriter::new();
    let eq = VMInstruction::parse_from_line("eq", "Test").unwrap();
    writer.write_instruction(&eq);
    writer.write_instruction(&eq);
    let first: Vec<&String> = writer.lines[..21]
        .iter()
        .filter(|l| l.contains("EQ_"))
        .collect();
    let second: Vec<&String> = writer.lines[21..]
        .iter()
        .filter(|l| l.contains("EQ_"))
        .collect();
    assert_eq!(first.len(), 4);
    assert_eq!(second.len(), 4);
    for a in &first {
        for b in &second {
            assert_ne!(a, b);
        }
    }
}

#[test]
fn label_counter_advances_only_for_comparisons() {
    let mut writer = CodeWriter::new();
    let push = VMInstruction::parse_from_line("push constant 1", "Test").unwrap();
    writer.write_instruction(&push);
    assert_eq!(writer.labels.counter, 0);
    let gt = VMInstruction::parse_from_line("gt", "Test").unwrap();
    writer.write_instruction(&gt);
    assert_eq!(writer.labels.counter, 1);
    let lt = VMInstruction::parse_from_line("lt", "Test").unwrap();
    writer.write_instruction(&lt);
    assert_eq!(writer.labels.counter, 2);
    assert!(writer.lines.iter().any(|l| l == "(GT_TRUE_0)"));
    assert!(writer.lines.iter().any(|l| l == "(LT_TRUE_1)"));
}

#[test]
fn code_writer_appends_in_source_order() {
    let mut writer = CodeWriter::new();
    for line in ["push constant 7", "push constant 8", "add"] {
        let instruction = VMInstruction::parse_from_line(line, "Test").unwrap();
        writer.write_instruction(&instruction);
    }
    assert_eq!(writer.lines.len(), 7 + 7 + 9);
    assert_eq!(writer.lines[0], "@7");
    assert_eq!(writer.lines[7], "@8");
    assert_eq!(writer.lines[14], "@SP");
}

#[test]
fn arithmetic_values_render_directly() {
    let mut labels = LabelCounter::new();
    let lines = ArithmeticInstruction::Sub.to_assembly(&mut labels);
    assert_eq!(
        lines,
        owned(&["@SP", "A=M-1", "D=M", "@SP", "A=M-1", "A=A-1", "M=M-D", "@SP", "M=M-1"])
    );
    assert_eq!(labels.counter, 0);
    let lines = ArithmeticInstruction::Lt.to_assembly(&mut labels);
    assert_eq!(labels.counter, 1);
    assert_eq!(lines[5], "@LT_TRUE_0");
    assert_eq!(lines[13], "(LT_TRUE_0)");
}

#[test]
fn large_indices_render_in_decimal() {
    assert_eq!(text("push constant 32767")[0], "@32767");
    assert_eq!(text("push constant 0")[0], "@0");
}

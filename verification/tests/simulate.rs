use vm_translator::codegen::instr_asm;
use vm_translator::instruction::VMInstruction;
use vm_translator::machine::Machine;
use vm_translator::machine::StaticSlot;
use vm_translator::machine::simulate;

const TRUE_WORD: u16 = 0xFFFF;
const FALSE_WORD: u16 = 0;

fn machine() -> Machine {
    Machine { a: 0, d: 0, ram: vec![0u16; 1024] }
}

fn foo_statics() -> Vec<StaticSlot> {
    vec![StaticSlot { unit: "Foo".to_string(), index: 3, addr: 16 }]
}

fn exec(m: Machine, env: &Vec<StaticSlot>, line: &str, unit: &str) -> Machine {
    let instruction = VMInstruction::parse_from_line(line, unit).expect(line);
    let prog = instr_asm(&instruction, 0);
    simulate(&prog, env, m, 0, 100).expect(line)
}

/// Runs the lines on a machine whose stack starts empty at address 256.
fn run_lines(lines: &[&str]) -> Machine {
    let mut m = machine();
    m.ram[0] = 256;
    let env = foo_statics();
    for line in lines {
        m = exec(m, &env, line, "Foo");
    }
    m
}

fn depth(m: &Machine) -> u16 {
    m.ram[0]
}

#[test]
fn push_then_add_leaves_the_sum() {
    let m = run_lines(&["push constant 7", "push constant 8", "add"]);
    assert_eq!(depth(&m), 257);
    assert_eq!(m.ram[256], 15);
}

#[test]
fn binary_operators_shrink_the_stack_by_one() {
    for (op, expected) in [
        ("add", 10u16),
        ("sub", 4u16),
        ("and", 7u16 & 3u16),
        ("or", 7u16 | 3u16),
    ] {
        let m = run_lines(&["push constant 7", "push constant 3", op]);
        assert_eq!(depth(&m), 257, "{}", op);
        assert_eq!(m.ram[256], expected, "{}", op);
    }
}

#[test]
fn subtraction_wraps_below_zero() {
    let m = run_lines(&["push constant 3", "push constant 7", "sub"]);
    assert_eq!(depth(&m), 257);
    assert_eq!(m.ram[256], 0xFFFC);
}

#[test]
fn unary_operators_keep_the_depth() {
    let m = run_lines(&["push constant 5", "neg"]);
    assert_eq!(depth(&m), 257);
    assert_eq!(m.ram[256], 0xFFFB);
    let m = run_lines(&["push constant 5", "not"]);
    assert_eq!(depth(&m), 257);
    assert_eq!(m.ram[256], 0xFFFA);
}

#[test]
fn comparisons_on_operand_pairs() {
    let cases: [(&str, [(u16, u16); 3], [u16; 3]); 3] = [
        ("eq", [(5, 5), (7, 3), (3, 7)], [TRUE_WORD, FALSE_WORD, FALSE_WORD]),
        ("gt", [(5, 5), (7, 3), (3, 7)], [FALSE_WORD, TRUE_WORD, FALSE_WORD]),
        ("lt", [(5, 5), (7, 3), (3, 7)], [FALSE_WORD, FALSE_WORD, TRUE_WORD]),
    ];
    for (op, pairs, outcomes) in cases {
        for (k, (x, y)) in pairs.iter().enumerate() {
            let m = run_lines(&[
                &format!("push constant {}", x),
                &format!("push constant {}", y),
                op,
            ]);
            assert_eq!(depth(&m), 257, "{} {:?}", op, (x, y));
            assert_eq!(m.ram[256], outcomes[k], "{} {:?}", op, (x, y));
        }
    }
}

#[test]
fn comparison_shrinks_by_one_net_slot_on_both_paths() {
    for op in ["eq", "gt", "lt"] {
        for pair in [(9u16, 9u16), (9, 2), (2, 9)] {
            let m = run_lines(&[
                &format!("push constant {}", pair.0),
                &format!("push constant {}", pair.1),
                op,
            ]);
            assert_eq!(depth(&m), 257);
        }
    }
}

#[test]
fn push_from_each_segment_deepens_by_one() {
    let env = foo_statics();
    let mut m = machine();
    m.ram[0] = 300;
    m.ram[1] = 500;  // LCL
    m.ram[2] = 520;  // ARG
    m.ram[3] = 540;  // THIS
    m.ram[4] = 560;  // THAT
    m.ram[502] = 11;
    m.ram[521] = 22;
    m.ram[543] = 33;
    m.ram[560] = 44;
    m.ram[9] = 55;   // temp 4
    m.ram[16] = 66;  // Foo.3
    for (line, expected) in [
        ("push local 2", 11u16),
        ("push argument 1", 22),
        ("push this 3", 33),
        ("push that 0", 44),
        ("push temp 4", 55),
        ("push static 3", 66),
        ("push pointer 0", 540),
        ("push pointer 1", 560),
        ("push constant 77", 77),
    ] {
        let before = depth(&m);
        m = exec(m, &env, line, "Foo");
        assert_eq!(depth(&m), before + 1, "{}", line);
        assert_eq!(m.ram[depth(&m) as usize - 1], expected, "{}", line);
    }
}

#[test]
fn pop_into_each_segment_shrinks_by_one() {
    let env = foo_statics();
    let mut m = machine();
    m.ram[0] = 300;
    m.ram[1] = 500;
    m.ram[2] = 520;
    m.ram[3] = 540;
    m.ram[4] = 560;
    for (value, line, cell) in [
        (11u16, "pop local 2", 502usize),
        (22, "pop argument 1", 521),
        (33, "pop this 3", 543),
        (44, "pop that 0", 560),
        (55, "pop temp 4", 9),
        (66, "pop static 3", 16),
    ] {
        m = exec(m, &env, &format!("push constant {}", value), "Foo");
        let before = depth(&m);
        m = exec(m, &env, line, "Foo");
        assert_eq!(depth(&m), before - 1, "{}", line);
        assert_eq!(m.ram[cell], value, "{}", line);
    }
}

#[test]
fn pop_pointer_sets_the_base_registers() {
    let env = foo_statics();
    let mut m = machine();
    m.ram[0] = 300;
    m = exec(m, &env, "push constant 777", "Foo");
    m = exec(m, &env, "pop pointer 0", "Foo");
    assert_eq!(m.ram[3], 777);
    m = exec(m, &env, "push constant 888", "Foo");
    m = exec(m, &env, "pop pointer 1", "Foo");
    assert_eq!(m.ram[4], 888);
    assert_eq!(depth(&m), 300);
}

#[test]
fn static_cells_of_two_units_do_not_alias() {
    let env = vec![
        StaticSlot { unit: "Foo".to_string(), index: 3, addr: 16 },
        StaticSlot { unit: "Bar".to_string(), index: 3, addr: 17 },
    ];
    let mut m = machine();
    m.ram[0] = 300;
    m = exec(m, &env, "push constant 1", "Foo");
    m = exec(m, &env, "pop static 3", "Foo");
    m = exec(m, &env, "push constant 2", "Bar");
    m = exec(m, &env, "pop static 3", "Bar");
    m = exec(m, &env, "push static 3", "Foo");
    assert_eq!(m.ram[16], 1);
    assert_eq!(m.ram[17], 2);
    assert_eq!(m.ram[300], 1);
}

#[test]
fn signed_comparison_semantics() {
    // 0xFFFF is minus one in two's complement, so it is below one
    let m = run_lines(&["push constant 1", "push constant 0", "sub", "push constant 1", "lt"]);
    assert_eq!(m.ram[256], FALSE_WORD);
    let m = run_lines(&["push constant 0", "push constant 1", "sub", "push constant 1", "lt"]);
    assert_eq!(m.ram[256], TRUE_WORD);
}

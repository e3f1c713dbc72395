//! Typed model of the assembly lines the code generator emits, together with
//! their rendering into text.
//!
//! Every line of generated assembly is one value of [`AsmInstr`]: an
//! address-loading line `@target`, one of the fixed compute lines such as
//! `D=M`, a conditional or unconditional jump, or a label marker `(NAME)`.
//! The spec-level twin [`AsmV`] replaces strings by character sequences, so
//! that contracts and proofs can speak about the exact text of each line.

use vstd::prelude::*;
use vstd::string::StringExecFns;

verus! {

/// The three comparison operators whose generated code branches.
#[derive(Clone, Copy, Debug, PartialEq, Eq, Structural)]
pub enum Cmp {
    Eq,
    Gt,
    Lt,
}

/// The two label markers each comparison emits: the target of the taken
/// branch and the common continuation.
#[derive(Clone, Copy, Debug, PartialEq, Eq, Structural)]
pub enum LabelKind {
    TrueBranch,
    EndBranch,
}

/// The target of an `@` line.
#[derive(Clone, Debug)]
pub enum Target {
    /// `@SP`: the stack pointer register, address 0.
    Sp,
    /// `@LCL`: base register of the local segment, address 1.
    Lcl,
    /// `@ARG`: base register of the argument segment, address 2.
    Arg,
    /// `@THIS`: base register of the this segment, address 3.
    This,
    /// `@THAT`: base register of the that segment, address 4.
    That,
    /// `@R5`: first cell of the fixed temp region, address 5.
    R5,
    /// `@R13`: scratch register used while popping, address 13.
    R13,
    /// `@n`: a numeric literal.
    Lit(u32),
    /// `@unit.n`: the cell of a static variable, scoped to a source unit.
    Stat(String, u32),
    /// `@CMP_KIND_n`: a branch label of a comparison.
    Branch(Cmp, LabelKind, u64),
}

/// Spec twin of [`Target`]; the static symbol's unit name is a `Seq<char>`.
pub enum TargetV {
    Sp,
    Lcl,
    Arg,
    This,
    That,
    R5,
    R13,
    Lit(u32),
    Stat(Seq<char>, u32),
    Branch(Cmp, LabelKind, u64),
}

impl View for Target {
    type V = TargetV;

    open spec fn view(&self) -> TargetV {
        match self {
            Target::Sp => TargetV::Sp,
            Target::Lcl => TargetV::Lcl,
            Target::Arg => TargetV::Arg,
            Target::This => TargetV::This,
            Target::That => TargetV::That,
            Target::R5 => TargetV::R5,
            Target::R13 => TargetV::R13,
            Target::Lit(n) => TargetV::Lit(*n),
            Target::Stat(unit, n) => TargetV::Stat(unit@, *n),
            Target::Branch(c, k, id) => TargetV::Branch(*c, *k, *id),
        }
    }
}

/// One line of generated assembly.
#[derive(Clone, Debug)]
pub enum AsmInstr {
    /// `@target`
    At(Target),
    /// `A=M`
    AEqM,
    /// `A=D`
    AEqD,
    /// `A=M-1`
    AEqMMinus1,
    /// `A=A-1`
    AEqAMinus1,
    /// `AM=M-1`
    AmEqMMinus1,
    /// `D=A`
    DEqA,
    /// `D=M`
    DEqM,
    /// `D=D+A`
    DEqDPlusA,
    /// `D=M-D`
    DEqMMinusD,
    /// `M=D`
    MEqD,
    /// `M=M+D`
    MEqMPlusD,
    /// `M=M-D`
    MEqMMinusD,
    /// `M=M+1`
    MEqMPlus1,
    /// `M=M-1`
    MEqMMinus1,
    /// `M=-M`
    MEqNegM,
    /// `M=!M`
    MEqNotM,
    /// `M=D&M`
    MEqDAndM,
    /// `M=D|M`
    MEqDOrM,
    /// `M=0`
    MEqZero,
    /// `M=-1`
    MEqNegOne,
    /// `D;JEQ`, `D;JGT` or `D;JLT`
    JumpCmp(Cmp),
    /// `0;JMP`
    JumpAlways,
    /// `(CMP_KIND_n)`: a label marker, no machine effect.
    Mark(Cmp, LabelKind, u64),
}

/// Spec twin of [`AsmInstr`].
pub enum AsmV {
    At(TargetV),
    AEqM,
    AEqD,
    AEqMMinus1,
    AEqAMinus1,
    AmEqMMinus1,
    DEqA,
    DEqM,
    DEqDPlusA,
    DEqMMinusD,
    MEqD,
    MEqMPlusD,
    MEqMMinusD,
    MEqMPlus1,
    MEqMMinus1,
    MEqNegM,
    MEqNotM,
    MEqDAndM,
    MEqDOrM,
    MEqZero,
    MEqNegOne,
    JumpCmp(Cmp),
    JumpAlways,
    Mark(Cmp, LabelKind, u64),
}

impl View for AsmInstr {
    type V = AsmV;

    open spec fn view(&self) -> AsmV {
        match self {
            AsmInstr::At(t) => AsmV::At(t@),
            AsmInstr::AEqM => AsmV::AEqM,
            AsmInstr::AEqD => AsmV::AEqD,
            AsmInstr::AEqMMinus1 => AsmV::AEqMMinus1,
            AsmInstr::AEqAMinus1 => AsmV::AEqAMinus1,
            AsmInstr::AmEqMMinus1 => AsmV::AmEqMMinus1,
            AsmInstr::DEqA => AsmV::DEqA,
            AsmInstr::DEqM => AsmV::DEqM,
            AsmInstr::DEqDPlusA => AsmV::DEqDPlusA,
            AsmInstr::DEqMMinusD => AsmV::DEqMMinusD,
            AsmInstr::MEqD => AsmV::MEqD,
            AsmInstr::MEqMPlusD => AsmV::MEqMPlusD,
            AsmInstr::MEqMMinusD => AsmV::MEqMMinusD,
            AsmInstr::MEqMPlus1 => AsmV::MEqMPlus1,
            AsmInstr::MEqMMinus1 => AsmV::MEqMMinus1,
            AsmInstr::MEqNegM => AsmV::MEqNegM,
            AsmInstr::MEqNotM => AsmV::MEqNotM,
            AsmInstr::MEqDAndM => AsmV::MEqDAndM,
            AsmInstr::MEqDOrM => AsmV::MEqDOrM,
            AsmInstr::MEqZero => AsmV::MEqZero,
            AsmInstr::MEqNegOne => AsmV::MEqNegOne,
            AsmInstr::JumpCmp(c) => AsmV::JumpCmp(*c),
            AsmInstr::JumpAlways => AsmV::JumpAlways,
            AsmInstr::Mark(c, k, id) => AsmV::Mark(*c, *k, *id),
        }
    }
}

/// The view of a whole program.
pub open spec fn prog_view(p: Seq<AsmInstr>) -> Seq<AsmV> {
    Seq::new(p.len(), |i: int| p[i]@)
}

/// The digit character of a value below ten.
pub open spec fn digit_char(d: nat) -> char {
    if d == 0 {
        '0'
    } else if d == 1 {
        '1'
    } else if d == 2 {
        '2'
    } else if d == 3 {
        '3'
    } else if d == 4 {
        '4'
    } else if d == 5 {
        '5'
    } else if d == 6 {
        '6'
    } else if d == 7 {
        '7'
    } else if d == 8 {
        '8'
    } else {
        '9'
    }
}

/// The decimal rendering of a non-negative integer, most significant digit
/// first, with no leading zeros except for the value zero itself.
pub open spec fn dec_seq(n: nat) -> Seq<char>
    decreases n,
{
    if n < 10 {
        seq![digit_char(n)]
    } else {
        dec_seq(n / 10) + seq![digit_char(n % 10)]
    }
}

pub proof fn lemma_dec_seq_nonempty(n: nat)
    ensures
        dec_seq(n).len() >= 1,
    decreases n,
{
    if n >= 10 {
        lemma_dec_seq_nonempty(n / 10);
    }
}

/// Distinct values have distinct decimal renderings.
pub proof fn lemma_dec_seq_injective(a: nat, b: nat)
    requires
        dec_seq(a) == dec_seq(b),
    ensures
        a == b,
    decreases a,
{
    if a < 10 && b < 10 {
        assert(seq![digit_char(a)][0] == digit_char(a));
        assert(seq![digit_char(b)][0] == digit_char(b));
        assert(digit_char(a) == digit_char(b));
    } else if a < 10 && b >= 10 {
        lemma_dec_seq_nonempty(b / 10);
        assert(dec_seq(a).len() == 1);
        assert(dec_seq(b).len() >= 2);
    } else if a >= 10 && b < 10 {
        lemma_dec_seq_nonempty(a / 10);
        assert(dec_seq(b).len() == 1);
        assert(dec_seq(a).len() >= 2);
    } else {
        lemma_dec_seq_nonempty(a / 10);
        lemma_dec_seq_nonempty(b / 10);
        assert(dec_seq(a).last() == digit_char(a % 10));
        assert(dec_seq(b).last() == digit_char(b % 10));
        assert(a % 10 == b % 10);
        assert(dec_seq(a / 10) =~= dec_seq(a).drop_last());
        assert(dec_seq(b / 10) =~= dec_seq(b).drop_last());
        lemma_dec_seq_injective(a / 10, b / 10);
        assert(a / 10 == b / 10);
        vstd::arithmetic::div_mod::lemma_fundamental_div_mod(a as int, 10);
        vstd::arithmetic::div_mod::lemma_fundamental_div_mod(b as int, 10);
    }
}

/// The text of a comparison's name inside a branch label.
pub open spec fn cmp_text(c: Cmp) -> Seq<char> {
    match c {
        Cmp::Eq => seq!['E', 'Q'],
        Cmp::Gt => seq!['G', 'T'],
        Cmp::Lt => seq!['L', 'T'],
    }
}

/// The text of a label kind inside a branch label.
pub open spec fn kind_text(k: LabelKind) -> Seq<char> {
    match k {
        LabelKind::TrueBranch => seq!['T', 'R', 'U', 'E'],
        LabelKind::EndBranch => seq!['E', 'N', 'D'],
    }
}

/// The full text of a branch label, e.g. `EQ_TRUE_7`.
pub open spec fn branch_label(c: Cmp, k: LabelKind, id: u64) -> Seq<char> {
    cmp_text(c) + seq!['_'] + kind_text(k) + seq!['_'] + dec_seq(id as nat)
}

/// The full text of a static variable's symbol, e.g. `Foo.3`.
pub open spec fn static_label(unit: Seq<char>, index: u32) -> Seq<char> {
    unit + seq!['.'] + dec_seq(index as nat)
}

/// Branch labels collide only when comparison, kind and identifier all agree.
/// In particular two labels drawn with distinct identifiers never collide,
/// whatever comparisons they belong to.
pub proof fn lemma_branch_labels_distinct(
    c1: Cmp,
    k1: LabelKind,
    id1: u64,
    c2: Cmp,
    k2: LabelKind,
    id2: u64,
)
    requires
        c1 != c2 || k1 != k2 || id1 != id2,
    ensures
        branch_label(c1, k1, id1) != branch_label(c2, k2, id2),
{
    let l1 = branch_label(c1, k1, id1);
    let l2 = branch_label(c2, k2, id2);
    lemma_dec_seq_nonempty(id1 as nat);
    lemma_dec_seq_nonempty(id2 as nat);
    if c1 != c2 {
        assert(l1[0] == cmp_text(c1)[0]);
        assert(l2[0] == cmp_text(c2)[0]);
        assert(l1[0] != l2[0]);
    } else if k1 != k2 {
        assert(l1[3] == kind_text(k1)[0]);
        assert(l2[3] == kind_text(k2)[0]);
        assert(l1[3] != l2[3]);
    } else {
        if l1 == l2 {
            let p = (cmp_text(c1) + seq!['_'] + kind_text(k1) + seq!['_']).len();
            assert(l1.skip(p as int) =~= dec_seq(id1 as nat));
            assert(l2.skip(p as int) =~= dec_seq(id2 as nat));
            lemma_dec_seq_injective(id1 as nat, id2 as nat);
        }
    }
}

/// Rendered branch-label lines collide only when comparison, kind and
/// identifier all agree: two generation runs of comparison code under
/// distinct identifiers share neither a label marker line nor a label
/// loading line, whatever comparisons they generate.
pub proof fn lemma_label_lines_distinct(
    c1: Cmp,
    k1: LabelKind,
    id1: u64,
    c2: Cmp,
    k2: LabelKind,
    id2: u64,
)
    requires
        c1 != c2 || k1 != k2 || id1 != id2,
    ensures
        render_line(AsmV::Mark(c1, k1, id1)) != render_line(AsmV::Mark(c2, k2, id2)),
        render_line(AsmV::At(TargetV::Branch(c1, k1, id1))) != render_line(
            AsmV::At(TargetV::Branch(c2, k2, id2)),
        ),
{
    lemma_branch_labels_distinct(c1, k1, id1, c2, k2, id2);
    let l1 = branch_label(c1, k1, id1);
    let l2 = branch_label(c2, k2, id2);
    let m1 = seq!['('] + l1 + seq![')'];
    let m2 = seq!['('] + l2 + seq![')'];
    assert(render_line(AsmV::Mark(c1, k1, id1)) == m1);
    assert(render_line(AsmV::Mark(c2, k2, id2)) == m2);
    if m1 == m2 {
        assert(l1.len() == l2.len());
        assert(m1.subrange(1, 1 + l1.len() as int) =~= l1);
        assert(m2.subrange(1, 1 + l2.len() as int) =~= l2);
        assert(l1 == l2);
        assert(false);
    }
    let a1 = seq!['@'] + l1;
    let a2 = seq!['@'] + l2;
    assert(render_line(AsmV::At(TargetV::Branch(c1, k1, id1))) == a1);
    assert(render_line(AsmV::At(TargetV::Branch(c2, k2, id2))) == a2);
    if a1 == a2 {
        assert(a1.skip(1) =~= l1);
        assert(a2.skip(1) =~= l2);
        assert(l1 == l2);
        assert(false);
    }
}

/// Static symbols of two accesses collide only when both the source unit and
/// the index agree, provided unit names contain no dot, which separates the
/// unit name from the index in the symbol.
pub proof fn lemma_static_labels_distinct(u1: Seq<char>, i1: u32, u2: Seq<char>, i2: u32)
    requires
        u1 != u2 || i1 != i2,
        !u1.contains('.'),
        !u2.contains('.'),
    ensures
        static_label(u1, i1) != static_label(u2, i2),
{
    let l1 = static_label(u1, i1);
    let l2 = static_label(u2, i2);
    lemma_dec_seq_nonempty(i1 as nat);
    lemma_dec_seq_nonempty(i2 as nat);
    if u1.len() == u2.len() {
        if u1 != u2 {
            if l1 == l2 {
                assert forall|j: int| 0 <= j < u1.len() implies u1[j] == u2[j] by {
                    assert(l1[j] == u1[j]);
                    assert(l2[j] == u2[j]);
                }
                assert(u1 =~= u2);
            }
        } else {
            if l1 == l2 {
                assert(l1.skip(u1.len() as int + 1) =~= dec_seq(i1 as nat));
                assert(l2.skip(u2.len() as int + 1) =~= dec_seq(i2 as nat));
                lemma_dec_seq_injective(i1 as nat, i2 as nat);
            }
        }
    } else if u1.len() < u2.len() {
        assert(l1[u1.len() as int] == '.');
        assert(l2[u1.len() as int] == u2[u1.len() as int]);
        assert(u2[u1.len() as int] != '.');
    } else {
        assert(l2[u2.len() as int] == '.');
        assert(l1[u2.len() as int] == u1[u2.len() as int]);
        assert(u1[u2.len() as int] != '.');
    }
}

/// One decimal digit as a borrowed one-character string.
fn digit_str(d: u64) -> (r: &'static str)
    requires
        d < 10,
    ensures
        r@ == seq![digit_char(d as nat)],
{
    if d == 0 {
        let s = "0";
        proof {
            reveal_strlit("0");
            assert(s@ =~= seq![digit_char(0)]);
        }
        s
    } else if d == 1 {
        let s = "1";
        proof {
            reveal_strlit("1");
            assert(s@ =~= seq![digit_char(1)]);
        }
        s
    } else if d == 2 {
        let s = "2";
        proof {
            reveal_strlit("2");
            assert(s@ =~= seq![digit_char(2)]);
        }
        s
    } else if d == 3 {
        let s = "3";
        proof {
            reveal_strlit("3");
            assert(s@ =~= seq![digit_char(3)]);
        }
        s
    } else if d == 4 {
        let s = "4";
        proof {
            reveal_strlit("4");
            assert(s@ =~= seq![digit_char(4)]);
        }
        s
    } else if d == 5 {
        let s = "5";
        proof {
            reveal_strlit("5");
            assert(s@ =~= seq![digit_char(5)]);
        }
        s
    } else if d == 6 {
        let s = "6";
        proof {
            reveal_strlit("6");
            assert(s@ =~= seq![digit_char(6)]);
        }
        s
    } else if d == 7 {
        let s = "7";
        proof {
            reveal_strlit("7");
            assert(s@ =~= seq![digit_char(7)]);
        }
        s
    } else if d == 8 {
        let s = "8";
        proof {
            reveal_strlit("8");
            assert(s@ =~= seq![digit_char(8)]);
        }
        s
    } else {
        let s = "9";
        proof {
            reveal_strlit("9");
            assert(s@ =~= seq![digit_char(9)]);
        }
        s
    }
}

/// The text of an `@` line's target.
pub open spec fn target_text(t: TargetV) -> Seq<char> {
    match t {
        TargetV::Sp => seq!['S', 'P'],
        TargetV::Lcl => seq!['L', 'C', 'L'],
        TargetV::Arg => seq!['A', 'R', 'G'],
        TargetV::This => seq!['T', 'H', 'I', 'S'],
        TargetV::That => seq!['T', 'H', 'A', 'T'],
        TargetV::R5 => seq!['R', '5'],
        TargetV::R13 => seq!['R', '1', '3'],
        TargetV::Lit(n) => dec_seq(n as nat),
        TargetV::Stat(unit, i) => static_label(unit, i),
        TargetV::Branch(c, k, id) => branch_label(c, k, id),
    }
}

/// The exact text of one assembly line.
pub open spec fn render_line(a: AsmV) -> Seq<char> {
    match a {
        AsmV::At(t) => seq!['@'] + target_text(t),
        AsmV::AEqM => seq!['A', '=', 'M'],
        AsmV::AEqD => seq!['A', '=', 'D'],
        AsmV::AEqMMinus1 => seq!['A', '=', 'M', '-', '1'],
        AsmV::AEqAMinus1 => seq!['A', '=', 'A', '-', '1'],
        AsmV::AmEqMMinus1 => seq!['A', 'M', '=', 'M', '-', '1'],
        AsmV::DEqA => seq!['D', '=', 'A'],
        AsmV::DEqM => seq!['D', '=', 'M'],
        AsmV::DEqDPlusA => seq!['D', '=', 'D', '+', 'A'],
        AsmV::DEqMMinusD => seq!['D', '=', 'M', '-', 'D'],
        AsmV::MEqD => seq!['M', '=', 'D'],
        AsmV::MEqMPlusD => seq!['M', '=', 'M', '+', 'D'],
        AsmV::MEqMMinusD => seq!['M', '=', 'M', '-', 'D'],
        AsmV::MEqMPlus1 => seq!['M', '=', 'M', '+', '1'],
        AsmV::MEqMMinus1 => seq!['M', '=', 'M', '-', '1'],
        AsmV::MEqNegM => seq!['M', '=', '-', 'M'],
        AsmV::MEqNotM => seq!['M', '=', '!', 'M'],
        AsmV::MEqDAndM => seq!['M', '=', 'D', '&', 'M'],
        AsmV::MEqDOrM => seq!['M', '=', 'D', '|', 'M'],
        AsmV::MEqZero => seq!['M', '=', '0'],
        AsmV::MEqNegOne => seq!['M', '=', '-', '1'],
        AsmV::JumpCmp(c) => match c {
            Cmp::Eq => seq!['D', ';', 'J', 'E', 'Q'],
            Cmp::Gt => seq!['D', ';', 'J', 'G', 'T'],
            Cmp::Lt => seq!['D', ';', 'J', 'L', 'T'],
        },
        AsmV::JumpAlways => seq!['0', ';', 'J', 'M', 'P'],
        AsmV::Mark(c, k, id) => seq!['('] + branch_label(c, k, id) + seq![')'],
    }
}

/// The text of a branch label as an owned string.
pub fn branch_string(c: Cmp, k: LabelKind, id: u64) -> (r: String)
    ensures
        r@ == branch_label(c, k, id),
{
    let mut s = match c {
        Cmp::Eq => {
            let p = "EQ_";
            proof {
                reveal_strlit("EQ_");
                assert(p@ =~= seq!['E', 'Q', '_']);
            }
            p.to_owned()
        },
        Cmp::Gt => {
            let p = "GT_";
            proof {
                reveal_strlit("GT_");
                assert(p@ =~= seq!['G', 'T', '_']);
            }
            p.to_owned()
        },
        Cmp::Lt => {
            let p = "LT_";
            proof {
                reveal_strlit("LT_");
                assert(p@ =~= seq!['L', 'T', '_']);
            }
            p.to_owned()
        },
    };
    match k {
        LabelKind::TrueBranch => {
            let p = "TRUE_";
            proof {
                reveal_strlit("TRUE_");
                assert(p@ =~= seq!['T', 'R', 'U', 'E', '_']);
            }
            s.append(p);
        },
        LabelKind::EndBranch => {
            let p = "END_";
            proof {
                reveal_strlit("END_");
                assert(p@ =~= seq!['E', 'N', 'D', '_']);
            }
            s.append(p);
        },
    }
    let digits = dec_string(id);
    s.append(digits.as_str());
    proof {
        assert(s@ =~= branch_label(c, k, id));
    }
    s
}

/// The text of an `@` line's target as an owned string.
pub fn target_string(t: &Target) -> (r: String)
    ensures
        r@ == target_text(t@),
{
    match t {
        Target::Sp => {
            let p = "SP";
            proof {
                reveal_strlit("SP");
                assert(p@ =~= seq!['S', 'P']);
            }
            p.to_owned()
        },
        Target::Lcl => {
            let p = "LCL";
            proof {
                reveal_strlit("LCL");
                assert(p@ =~= seq!['L', 'C', 'L']);
            }
            p.to_owned()
        },
        Target::Arg => {
            let p = "ARG";
            proof {
                reveal_strlit("ARG");
                assert(p@ =~= seq!['A', 'R', 'G']);
            }
            p.to_owned()
        },
        Target::This => {
            let p = "THIS";
            proof {
                reveal_strlit("THIS");
                assert(p@ =~= seq!['T', 'H', 'I', 'S']);
            }
            p.to_owned()
        },
        Target::That => {
            let p = "THAT";
            proof {
                reveal_strlit("THAT");
                assert(p@ =~= seq!['T', 'H', 'A', 'T']);
            }
            p.to_owned()
        },
        Target::R5 => {
            let p = "R5";
            proof {
                reveal_strlit("R5");
                assert(p@ =~= seq!['R', '5']);
            }
            p.to_owned()
        },
        Target::R13 => {
            let p = "R13";
            proof {
                reveal_strlit("R13");
                assert(p@ =~= seq!['R', '1', '3']);
            }
            p.to_owned()
        },
        Target::Lit(n) => dec_string(*n as u64),
        Target::Stat(unit, i) => {
            let mut s = unit.clone();
            let dot = ".";
            proof {
                reveal_strlit(".");
                assert(dot@ =~= seq!['.']);
            }
            s.append(dot);
            let digits = dec_string(*i as u64);
            s.append(digits.as_str());
            proof {
                assert(s@ =~= static_label(unit@, *i));
            }
            s
        },
        Target::Branch(c, k, id) => branch_string(*c, *k, *id),
    }
}

/// The exact text of one assembly line as an owned string.
pub fn render(a: &AsmInstr) -> (r: String)
    ensures
        r@ == render_line(a@),
{
    match a {
        AsmInstr::At(t) => {
            let mut s = "@".to_owned();
            proof {
                reveal_strlit("@");
                assert("@"@ =~= seq!['@']);
            }
            let tt = target_string(t);
            s.append(tt.as_str());
            proof {
                assert(s@ =~= seq!['@'] + target_text(t@));
            }
            s
        },
        AsmInstr::AEqM => {
            let p = "A=M";
            proof {
                reveal_strlit("A=M");
                assert(p@ =~= seq!['A', '=', 'M']);
            }
            p.to_owned()
        },
        AsmInstr::AEqD => {
            let p = "A=D";
            proof {
                reveal_strlit("A=D");
                assert(p@ =~= seq!['A', '=', 'D']);
            }
            p.to_owned()
        },
        AsmInstr::AEqMMinus1 => {
            let p = "A=M-1";
            proof {
                reveal_strlit("A=M-1");
                assert(p@ =~= seq!['A', '=', 'M', '-', '1']);
            }
            p.to_owned()
        },
        AsmInstr::AEqAMinus1 => {
            let p = "A=A-1";
            proof {
                reveal_strlit("A=A-1");
                assert(p@ =~= seq!['A', '=', 'A', '-', '1']);
            }
            p.to_owned()
        },
        AsmInstr::AmEqMMinus1 => {
            let p = "AM=M-1";
            proof {
                reveal_strlit("AM=M-1");
                assert(p@ =~= seq!['A', 'M', '=', 'M', '-', '1']);
            }
            p.to_owned()
        },
        AsmInstr::DEqA => {
            let p = "D=A";
            proof {
                reveal_strlit("D=A");
                assert(p@ =~= seq!['D', '=', 'A']);
            }
            p.to_owned()
        },
        AsmInstr::DEqM => {
            let p = "D=M";
            proof {
                reveal_strlit("D=M");
                assert(p@ =~= seq!['D', '=', 'M']);
            }
            p.to_owned()
        },
        AsmInstr::DEqDPlusA => {
            let p = "D=D+A";
            proof {
                reveal_strlit("D=D+A");
                assert(p@ =~= seq!['D', '=', 'D', '+', 'A']);
            }
            p.to_owned()
        },
        AsmInstr::DEqMMinusD => {
            let p = "D=M-D";
            proof {
                reveal_strlit("D=M-D");
                assert(p@ =~= seq!['D', '=', 'M', '-', 'D']);
            }
            p.to_owned()
        },
        AsmInstr::MEqD => {
            let p = "M=D";
            proof {
                reveal_strlit("M=D");
                assert(p@ =~= seq!['M', '=', 'D']);
            }
            p.to_owned()
        },
        AsmInstr::MEqMPlusD => {
            let p = "M=M+D";
            proof {
                reveal_strlit("M=M+D");
                assert(p@ =~= seq!['M', '=', 'M', '+', 'D']);
            }
            p.to_owned()
        },
        AsmInstr::MEqMMinusD => {
            let p = "M=M-D";
            proof {
                reveal_strlit("M=M-D");
                assert(p@ =~= seq!['M', '=', 'M', '-', 'D']);
            }
            p.to_owned()
        },
        AsmInstr::MEqMPlus1 => {
            let p = "M=M+1";
            proof {
                reveal_strlit("M=M+1");
                assert(p@ =~= seq!['M', '=', 'M', '+', '1']);
            }
            p.to_owned()
        },
        AsmInstr::MEqMMinus1 => {
            let p = "M=M-1";
            proof {
                reveal_strlit("M=M-1");
                assert(p@ =~= seq!['M', '=', 'M', '-', '1']);
            }
            p.to_owned()
        },
        AsmInstr::MEqNegM => {
            let p = "M=-M";
            proof {
                reveal_strlit("M=-M");
                assert(p@ =~= seq!['M', '=', '-', 'M']);
            }
            p.to_owned()
        },
        AsmInstr::MEqNotM => {
            let p = "M=!M";
            proof {
                reveal_strlit("M=!M");
                assert(p@ =~= seq!['M', '=', '!', 'M']);
            }
            p.to_owned()
        },
        AsmInstr::MEqDAndM => {
            let p = "M=D&M";
            proof {
                reveal_strlit("M=D&M");
                assert(p@ =~= seq!['M', '=', 'D', '&', 'M']);
            }
            p.to_owned()
        },
        AsmInstr::MEqDOrM => {
            let p = "M=D|M";
            proof {
                reveal_strlit("M=D|M");
                assert(p@ =~= seq!['M', '=', 'D', '|', 'M']);
            }
            p.to_owned()
        },
        AsmInstr::MEqZero => {
            let p = "M=0";
            proof {
                reveal_strlit("M=0");
                assert(p@ =~= seq!['M', '=', '0']);
            }
            p.to_owned()
        },
        AsmInstr::MEqNegOne => {
            let p = "M=-1";
            proof {
                reveal_strlit("M=-1");
                assert(p@ =~= seq!['M', '=', '-', '1']);
            }
            p.to_owned()
        },
        AsmInstr::JumpCmp(c) => {
            match c {
                Cmp::Eq => {
                    let p = "D;JEQ";
                    proof {
                        reveal_strlit("D;JEQ");
                        assert(p@ =~= seq!['D', ';', 'J', 'E', 'Q']);
                    }
                    p.to_owned()
                },
                Cmp::Gt => {
                    let p = "D;JGT";
                    proof {
                        reveal_strlit("D;JGT");
                        assert(p@ =~= seq!['D', ';', 'J', 'G', 'T']);
                    }
                    p.to_owned()
                },
                Cmp::Lt => {
                    let p = "D;JLT";
                    proof {
                        reveal_strlit("D;JLT");
                        assert(p@ =~= seq!['D', ';', 'J', 'L', 'T']);
                    }
                    p.to_owned()
                },
            }
        },
        AsmInstr::JumpAlways => {
            let p = "0;JMP";
            proof {
                reveal_strlit("0;JMP");
                assert(p@ =~= seq!['0', ';', 'J', 'M', 'P']);
            }
            p.to_owned()
        },
        AsmInstr::Mark(c, k, id) => {
            let mut s = "(".to_owned();
            proof {
                reveal_strlit("(");
                assert("("@ =~= seq!['(']);
            }
            let lab = branch_string(*c, *k, *id);
            s.append(lab.as_str());
            let close = ")";
            proof {
                reveal_strlit(")");
                assert(close@ =~= seq![')']);
            }
            s.append(close);
            proof {
                assert(s@ =~= seq!['('] + branch_label(*c, *k, *id) + seq![')']);
            }
            s
        },
    }
}

/// The decimal rendering of a value as an owned string.
pub fn dec_string(n: u64) -> (r: String)
    ensures
        r@ == dec_seq(n as nat),
    decreases n,
{
    let d = digit_str(n % 10);
    if n < 10 {
        d.to_owned()
    } else {
        let mut s = dec_string(n / 10);
        s.append(d);
        s
    }
}

} // verus!

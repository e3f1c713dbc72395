//! Code generation: the exact assembly sequence each instruction denotes.
//!
//! [`asm_of`] is the specification: one typed assembly sequence per
//! instruction, parameterized by the label identifier the comparison
//! operators consume.  Comparisons draw that identifier from a
//! [`LabelCounter`] threaded through generation, so labels stay unique for a
//! whole translation run.

use vstd::prelude::*;
use crate::assembly::AsmInstr;
use crate::assembly::AsmV;
use crate::assembly::Cmp;
use crate::assembly::LabelKind;
use crate::assembly::Target;
use crate::assembly::TargetV;
use crate::assembly::prog_view;
use crate::assembly::render;
use crate::assembly::render_line;
use crate::instruction::AccessV;
use crate::instruction::ArithmeticInstruction;
use crate::instruction::InstrV;
use crate::instruction::MemoryAccess;
use crate::instruction::MemorySegment;
use crate::instruction::SegV;
use crate::instruction::VMInstruction;

verus! {

/// Whether an operand is inside the contract of code generation: a pointer
/// access must select one of the two base registers.
pub open spec fn wf_access(m: AccessV) -> bool {
    match m.segment {
        SegV::Pointer => m.index <= 1,
        _ => true,
    }
}

/// Whether code can be generated for an instruction: pointer accesses are
/// restricted to indices 0 and 1, and nothing pops into `constant`.
pub open spec fn wf_instr(i: InstrV) -> bool {
    match i {
        InstrV::Arithmetic(_) => true,
        InstrV::Push(m) => wf_access(m),
        InstrV::Pop(m) => wf_access(m) && !(m.segment is Constant),
    }
}

/// Whether an operator consumes a fresh label identifier.
pub open spec fn is_cmp_op(op: ArithmeticInstruction) -> bool {
    op == ArithmeticInstruction::Eq || op == ArithmeticInstruction::Gt || op
        == ArithmeticInstruction::Lt
}

/// Whether generating an instruction consumes a fresh label identifier.
pub open spec fn uses_label(i: InstrV) -> bool {
    match i {
        InstrV::Arithmetic(op) => is_cmp_op(op),
        _ => false,
    }
}

/// Lines that push `D` onto the stack.
pub open spec fn push_tail() -> Seq<AsmV> {
    seq![
        AsmV::At(TargetV::Sp),
        AsmV::AEqM,
        AsmV::MEqD,
        AsmV::At(TargetV::Sp),
        AsmV::MEqMPlus1,
    ]
}

/// Lines that leave the effective address of an indirect access in `D`.
pub open spec fn indirect_load(base: TargetV, index: u32) -> Seq<AsmV> {
    seq![AsmV::At(base), AsmV::DEqM, AsmV::At(TargetV::Lit(index)), AsmV::DEqDPlusA]
}

/// Lines that leave the effective address of a temp access in `D`.
pub open spec fn temp_load(index: u32) -> Seq<AsmV> {
    seq![AsmV::At(TargetV::R5), AsmV::DEqA, AsmV::At(TargetV::Lit(index)), AsmV::DEqDPlusA]
}

/// The code of a comparison operator: subtract, branch on the result's sign
/// or zero test, write all-ones or all-zeros, converge, shrink the stack.
pub open spec fn cmp_asm(c: Cmp, id: u64) -> Seq<AsmV> {
    seq![
        AsmV::At(TargetV::Sp),
        AsmV::AEqMMinus1,
        AsmV::DEqM,
        AsmV::AEqAMinus1,
        AsmV::DEqMMinusD,
        AsmV::At(TargetV::Branch(c, LabelKind::TrueBranch, id)),
        AsmV::JumpCmp(c),
        AsmV::At(TargetV::Sp),
        AsmV::AEqMMinus1,
        AsmV::AEqAMinus1,
        AsmV::MEqZero,
        AsmV::At(TargetV::Branch(c, LabelKind::EndBranch, id)),
        AsmV::JumpAlways,
        AsmV::Mark(c, LabelKind::TrueBranch, id),
        AsmV::At(TargetV::Sp),
        AsmV::AEqMMinus1,
        AsmV::AEqAMinus1,
        AsmV::MEqNegOne,
        AsmV::Mark(c, LabelKind::EndBranch, id),
        AsmV::At(TargetV::Sp),
        AsmV::MEqMMinus1,
    ]
}

/// The code of a binary operator that combines the two top words in place.
pub open spec fn binary_asm(combine: AsmV) -> Seq<AsmV> {
    seq![
        AsmV::At(TargetV::Sp),
        AsmV::AEqMMinus1,
        AsmV::DEqM,
        AsmV::At(TargetV::Sp),
        AsmV::AEqMMinus1,
        AsmV::AEqAMinus1,
        combine,
        AsmV::At(TargetV::Sp),
        AsmV::MEqMMinus1,
    ]
}

/// The code of a bitwise binary operator.
pub open spec fn bitwise_asm(combine: AsmV) -> Seq<AsmV> {
    seq![
        AsmV::At(TargetV::Sp),
        AsmV::AEqMMinus1,
        AsmV::DEqM,
        AsmV::AEqAMinus1,
        combine,
        AsmV::At(TargetV::Sp),
        AsmV::MEqMMinus1,
    ]
}

/// The code of a unary operator that rewrites the top word in place.
pub open spec fn unary_asm(rewrite: AsmV) -> Seq<AsmV> {
    seq![AsmV::At(TargetV::Sp), AsmV::AEqMMinus1, rewrite]
}

/// The code of an arithmetic or logical operator.
pub open spec fn arith_asm(op: ArithmeticInstruction, id: u64) -> Seq<AsmV> {
    match op {
        ArithmeticInstruction::Add => binary_asm(AsmV::MEqMPlusD),
        ArithmeticInstruction::Sub => binary_asm(AsmV::MEqMMinusD),
        ArithmeticInstruction::Neg => unary_asm(AsmV::MEqNegM),
        ArithmeticInstruction::Not => unary_asm(AsmV::MEqNotM),
        ArithmeticInstruction::And => bitwise_asm(AsmV::MEqDAndM),
        ArithmeticInstruction::Or => bitwise_asm(AsmV::MEqDOrM),
        ArithmeticInstruction::Eq => cmp_asm(Cmp::Eq, id),
        ArithmeticInstruction::Gt => cmp_asm(Cmp::Gt, id),
        ArithmeticInstruction::Lt => cmp_asm(Cmp::Lt, id),
    }
}

/// The code of a push.
pub open spec fn push_asm(m: AccessV) -> Seq<AsmV> {
    match m.segment {
        SegV::Argument => indirect_load(TargetV::Arg, m.index) + seq![AsmV::AEqD, AsmV::DEqM]
            + push_tail(),
        SegV::Local => indirect_load(TargetV::Lcl, m.index) + seq![AsmV::AEqD, AsmV::DEqM]
            + push_tail(),
        SegV::This => indirect_load(TargetV::This, m.index) + seq![AsmV::AEqD, AsmV::DEqM]
            + push_tail(),
        SegV::That => indirect_load(TargetV::That, m.index) + seq![AsmV::AEqD, AsmV::DEqM]
            + push_tail(),
        SegV::Temp => temp_load(m.index) + seq![AsmV::AEqD, AsmV::DEqM] + push_tail(),
        SegV::Constant => seq![AsmV::At(TargetV::Lit(m.index)), AsmV::DEqA] + push_tail(),
        SegV::Pointer => if m.index == 0 {
            seq![AsmV::At(TargetV::This), AsmV::DEqM] + push_tail()
        } else {
            seq![AsmV::At(TargetV::That), AsmV::DEqM] + push_tail()
        },
        SegV::Static(unit) => seq![AsmV::At(TargetV::Stat(unit, m.index)), AsmV::DEqM]
            + push_tail(),
    }
}

/// Lines that pop the stack top into the address staged in `R13`.
pub open spec fn pop_via_r13() -> Seq<AsmV> {
    seq![
        AsmV::At(TargetV::R13),
        AsmV::MEqD,
        AsmV::At(TargetV::Sp),
        AsmV::AmEqMMinus1,
        AsmV::DEqM,
        AsmV::At(TargetV::R13),
        AsmV::AEqM,
        AsmV::MEqD,
    ]
}

/// The code of a pop.  A pop into `constant` is outside the contract and
/// denotes the empty sequence.
pub open spec fn pop_asm(m: AccessV) -> Seq<AsmV> {
    match m.segment {
        SegV::Argument => indirect_load(TargetV::Arg, m.index) + pop_via_r13(),
        SegV::Local => indirect_load(TargetV::Lcl, m.index) + pop_via_r13(),
        SegV::This => indirect_load(TargetV::This, m.index) + pop_via_r13(),
        SegV::That => indirect_load(TargetV::That, m.index) + pop_via_r13(),
        SegV::Temp => temp_load(m.index) + pop_via_r13(),
        SegV::Pointer => if m.index == 0 {
            seq![
                AsmV::At(TargetV::Sp),
                AsmV::AmEqMMinus1,
                AsmV::DEqM,
                AsmV::At(TargetV::This),
                AsmV::MEqD,
            ]
        } else {
            seq![
                AsmV::At(TargetV::Sp),
                AsmV::AmEqMMinus1,
                AsmV::DEqM,
                AsmV::At(TargetV::That),
                AsmV::MEqD,
            ]
        },
        SegV::Static(unit) => seq![
            AsmV::At(TargetV::Sp),
            AsmV::AmEqMMinus1,
            AsmV::DEqM,
            AsmV::At(TargetV::Stat(unit, m.index)),
            AsmV::MEqD,
        ],
        SegV::Constant => Seq::empty(),
    }
}

/// The typed assembly sequence of one instruction under label identifier
/// `id`.
pub open spec fn asm_of(i: InstrV, id: u64) -> Seq<AsmV> {
    match i {
        InstrV::Arithmetic(op) => arith_asm(op, id),
        InstrV::Push(m) => push_asm(m),
        InstrV::Pop(m) => pop_asm(m),
    }
}

/// The rendered text lines of one instruction under label identifier `id`.
pub open spec fn lines_of(i: InstrV, id: u64) -> Seq<Seq<char>> {
    asm_of(i, id).map_values(|a: AsmV| render_line(a))
}

/// The typed assembly of an arithmetic or logical operator.
pub fn arith_instrs(op: ArithmeticInstruction, id: u64) -> (r: Vec<AsmInstr>)
    ensures
        prog_view(r@) == arith_asm(op, id),
{
    let r: Vec<AsmInstr> = match op {
        ArithmeticInstruction::Add => vec![
            AsmInstr::At(Target::Sp),
            AsmInstr::AEqMMinus1,
            AsmInstr::DEqM,
            AsmInstr::At(Target::Sp),
            AsmInstr::AEqMMinus1,
            AsmInstr::AEqAMinus1,
            AsmInstr::MEqMPlusD,
            AsmInstr::At(Target::Sp),
            AsmInstr::MEqMMinus1,
        ],
        ArithmeticInstruction::Sub => vec![
            AsmInstr::At(Target::Sp),
            AsmInstr::AEqMMinus1,
            AsmInstr::DEqM,
            AsmInstr::At(Target::Sp),
            AsmInstr::AEqMMinus1,
            AsmInstr::AEqAMinus1,
            AsmInstr::MEqMMinusD,
            AsmInstr::At(Target::Sp),
            AsmInstr::MEqMMinus1,
        ],
        ArithmeticInstruction::Neg => vec![
            AsmInstr::At(Target::Sp),
            AsmInstr::AEqMMinus1,
            AsmInstr::MEqNegM,
        ],
        ArithmeticInstruction::Not => vec![
            AsmInstr::At(Target::Sp),
            AsmInstr::AEqMMinus1,
            AsmInstr::MEqNotM,
        ],
        ArithmeticInstruction::And => vec![
            AsmInstr::At(Target::Sp),
            AsmInstr::AEqMMinus1,
            AsmInstr::DEqM,
            AsmInstr::AEqAMinus1,
            AsmInstr::MEqDAndM,
            AsmInstr::At(Target::Sp),
            AsmInstr::MEqMMinus1,
        ],
        ArithmeticInstruction::Or => vec![
            AsmInstr::At(Target::Sp),
            AsmInstr::AEqMMinus1,
            AsmInstr::DEqM,
            AsmInstr::AEqAMinus1,
            AsmInstr::MEqDOrM,
            AsmInstr::At(Target::Sp),
            AsmInstr::MEqMMinus1,
        ],
        ArithmeticInstruction::Eq => cmp_instrs(Cmp::Eq, id),
        ArithmeticInstruction::Gt => cmp_instrs(Cmp::Gt, id),
        ArithmeticInstruction::Lt => cmp_instrs(Cmp::Lt, id),
    };
    proof {
        assert(prog_view(r@) =~= arith_asm(op, id));
    }
    r
}

/// The typed assembly of one comparison operator.
fn cmp_instrs(c: Cmp, id: u64) -> (r: Vec<AsmInstr>)
    ensures
        prog_view(r@) == cmp_asm(c, id),
{
    let r: Vec<AsmInstr> = vec![
        AsmInstr::At(Target::Sp),
        AsmInstr::AEqMMinus1,
        AsmInstr::DEqM,
        AsmInstr::AEqAMinus1,
        AsmInstr::DEqMMinusD,
        AsmInstr::At(Target::Branch(c, LabelKind::TrueBranch, id)),
        AsmInstr::JumpCmp(c),
        AsmInstr::At(Target::Sp),
        AsmInstr::AEqMMinus1,
        AsmInstr::AEqAMinus1,
        AsmInstr::MEqZero,
        AsmInstr::At(Target::Branch(c, LabelKind::EndBranch, id)),
        AsmInstr::JumpAlways,
        AsmInstr::Mark(c, LabelKind::TrueBranch, id),
        AsmInstr::At(Target::Sp),
        AsmInstr::AEqMMinus1,
        AsmInstr::AEqAMinus1,
        AsmInstr::MEqNegOne,
        AsmInstr::Mark(c, LabelKind::EndBranch, id),
        AsmInstr::At(Target::Sp),
        AsmInstr::MEqMMinus1,
    ];
    proof {
        assert(prog_view(r@) =~= cmp_asm(c, id));
    }
    r
}

/// The typed assembly of a push.
fn push_instrs(m: &MemoryAccess) -> (r: Vec<AsmInstr>)
    requires
        wf_access(m@),
    ensures
        prog_view(r@) == push_asm(m@),
{
    let r: Vec<AsmInstr> = match &m.segment {
        MemorySegment::Argument => indirect_push(Target::Arg, m.index),
        MemorySegment::Local => indirect_push(Target::Lcl, m.index),
        MemorySegment::This => indirect_push(Target::This, m.index),
        MemorySegment::That => indirect_push(Target::That, m.index),
        MemorySegment::Temp => vec![
            AsmInstr::At(Target::R5),
            AsmInstr::DEqA,
            AsmInstr::At(Target::Lit(m.index)),
            AsmInstr::DEqDPlusA,
            AsmInstr::AEqD,
            AsmInstr::DEqM,
            AsmInstr::At(Target::Sp),
            AsmInstr::AEqM,
            AsmInstr::MEqD,
            AsmInstr::At(Target::Sp),
            AsmInstr::MEqMPlus1,
        ],
        MemorySegment::Constant => vec![
            AsmInstr::At(Target::Lit(m.index)),
            AsmInstr::DEqA,
            AsmInstr::At(Target::Sp),
            AsmInstr::AEqM,
            AsmInstr::MEqD,
            AsmInstr::At(Target::Sp),
            AsmInstr::MEqMPlus1,
        ],
        MemorySegment::Pointer => {
            let base = if m.index == 0 {
                Target::This
            } else {
                Target::That
            };
            vec![
                AsmInstr::At(base),
                AsmInstr::DEqM,
                AsmInstr::At(Target::Sp),
                AsmInstr::AEqM,
                AsmInstr::MEqD,
                AsmInstr::At(Target::Sp),
                AsmInstr::MEqMPlus1,
            ]
        },
        MemorySegment::Static(unit) => vec![
            AsmInstr::At(Target::Stat(unit.clone(), m.index)),
            AsmInstr::DEqM,
            AsmInstr::At(Target::Sp),
            AsmInstr::AEqM,
            AsmInstr::MEqD,
            AsmInstr::At(Target::Sp),
            AsmInstr::MEqMPlus1,
        ],
    };
    proof {
        assert(prog_view(r@) =~= push_asm(m@));
    }
    r
}

/// The typed assembly that pushes the cell an indirect segment addresses.
fn indirect_push(base: Target, index: u32) -> (r: Vec<AsmInstr>)
    ensures
        prog_view(r@) =~= indirect_load(base@, index) + seq![AsmV::AEqD, AsmV::DEqM]
            + push_tail(),
{
    let r: Vec<AsmInstr> = vec![
        AsmInstr::At(base),
        AsmInstr::DEqM,
        AsmInstr::At(Target::Lit(index)),
        AsmInstr::DEqDPlusA,
        AsmInstr::AEqD,
        AsmInstr::DEqM,
        AsmInstr::At(Target::Sp),
        AsmInstr::AEqM,
        AsmInstr::MEqD,
        AsmInstr::At(Target::Sp),
        AsmInstr::MEqMPlus1,
    ];
    proof {
        assert(prog_view(r@) =~= indirect_load(base@, index) + seq![AsmV::AEqD, AsmV::DEqM]
            + push_tail());
    }
    r
}

/// The typed assembly of a pop.
fn pop_instrs(m: &MemoryAccess) -> (r: Vec<AsmInstr>)
    requires
        wf_access(m@),
        !(m@.segment is Constant),
    ensures
        prog_view(r@) == pop_asm(m@),
{
    let r: Vec<AsmInstr> = match &m.segment {
        MemorySegment::Argument => indirect_pop(Target::Arg, m.index),
        MemorySegment::Local => indirect_pop(Target::Lcl, m.index),
        MemorySegment::This => indirect_pop(Target::This, m.index),
        MemorySegment::That => indirect_pop(Target::That, m.index),
        MemorySegment::Temp => vec![
            AsmInstr::At(Target::R5),
            AsmInstr::DEqA,
            AsmInstr::At(Target::Lit(m.index)),
            AsmInstr::DEqDPlusA,
            AsmInstr::At(Target::R13),
            AsmInstr::MEqD,
            AsmInstr::At(Target::Sp),
            AsmInstr::AmEqMMinus1,
            AsmInstr::DEqM,
            AsmInstr::At(Target::R13),
            AsmInstr::AEqM,
            AsmInstr::MEqD,
        ],
        MemorySegment::Pointer => {
            let base = if m.index == 0 {
                Target::This
            } else {
                Target::That
            };
            vec![
                AsmInstr::At(Target::Sp),
                AsmInstr::AmEqMMinus1,
                AsmInstr::DEqM,
                AsmInstr::At(base),
                AsmInstr::MEqD,
            ]
        },
        MemorySegment::Static(unit) => vec![
            AsmInstr::At(Target::Sp),
            AsmInstr::AmEqMMinus1,
            AsmInstr::DEqM,
            AsmInstr::At(Target::Stat(unit.clone(), m.index)),
            AsmInstr::MEqD,
        ],
        MemorySegment::Constant => {
            proof {
                assert(false);
            }
            Vec::new()
        },
    };
    proof {
        assert(prog_view(r@) =~= pop_asm(m@));
    }
    r
}

/// The typed assembly that pops the stack top into the cell an indirect
/// segment addresses.
fn indirect_pop(base: Target, index: u32) -> (r: Vec<AsmInstr>)
    ensures
        prog_view(r@) =~= indirect_load(base@, index) + pop_via_r13(),
{
    let r: Vec<AsmInstr> = vec![
        AsmInstr::At(base),
        AsmInstr::DEqM,
        AsmInstr::At(Target::Lit(index)),
        AsmInstr::DEqDPlusA,
        AsmInstr::At(Target::R13),
        AsmInstr::MEqD,
        AsmInstr::At(Target::Sp),
        AsmInstr::AmEqMMinus1,
        AsmInstr::DEqM,
        AsmInstr::At(Target::R13),
        AsmInstr::AEqM,
        AsmInstr::MEqD,
    ];
    proof {
        assert(prog_view(r@) =~= indirect_load(base@, index) + pop_via_r13());
    }
    r
}

/// The typed assembly sequence of one instruction.
pub fn instr_asm(i: &VMInstruction, id: u64) -> (r: Vec<AsmInstr>)
    requires
        wf_instr(i@),
    ensures
        prog_view(r@) == asm_of(i@, id),
{
    match i {
        VMInstruction::Arithmetic(op) => arith_instrs(*op, id),
        VMInstruction::Push(m) => push_instrs(m),
        VMInstruction::Pop(m) => pop_instrs(m),
    }
}

/// Renders a typed assembly sequence into text lines, in order.
pub fn render_all(instrs: &Vec<AsmInstr>) -> (r: Vec<String>)
    ensures
        r.deep_view() == prog_view(instrs@).map_values(|a: AsmV| render_line(a)),
{
    let n = instrs.len();
    let mut r: Vec<String> = Vec::new();
    let mut i: usize = 0;
    while i < n
        invariant
            0 <= i <= n,
            n == instrs@.len(),
            r@.len() == i,
            forall|k: int| 0 <= k < i ==> r@[k]@ == render_line(instrs@[k]@),
        decreases n - i,
    {
        let line = render(&instrs[i]);
        let ghost prior = r@;
        r.push(line);
        proof {
            assert(r@ =~= prior.push(line));
            assert(r@[i as int] == line);
            assert forall|k: int| 0 <= k < i implies r@[k] == prior[k] by {}
        }
        i += 1;
    }
    proof {
        assert(r.deep_view() =~= prog_view(instrs@).map_values(|a: AsmV| render_line(a)));
    }
    r
}

/// The source of fresh label identifiers for one translation run.
#[derive(Clone, Debug)]
pub struct LabelCounter {
    pub counter: u64,
}

impl LabelCounter {
    pub fn new() -> (r: Self)
        ensures
            r.counter == 0,
    {
        LabelCounter { counter: 0 }
    }

    /// Draws the next identifier; no identifier is ever handed out twice.
    pub fn fresh(&mut self) -> (r: u64)
        requires
            old(self).counter < u64::MAX,
        ensures
            r == old(self).counter,
            final(self).counter == old(self).counter + 1,
    {
        let r = self.counter;
        self.counter = self.counter + 1;
        r
    }
}

/// Rendering a value into the assembly lines that implement it.
pub trait ToAssembly {
    /// Whether code can be generated for this value.
    spec fn asm_wf(&self) -> bool;

    /// The typed assembly emitted for this value under label identifier
    /// `id`.
    spec fn asm_model(&self, id: u64) -> Seq<AsmV>;

    /// Whether generation draws a fresh label identifier.
    spec fn takes_label(&self) -> bool;

    /// The assembly text lines of this value, drawing a fresh label
    /// identifier from `labels` when the code branches.
    fn to_assembly(&self, labels: &mut LabelCounter) -> (r: Vec<String>)
        requires
            self.asm_wf(),
            old(labels).counter < u64::MAX,
        ensures
            r.deep_view() == self.asm_model(old(labels).counter).map_values(
                |a: AsmV| render_line(a),
            ),
            final(labels).counter == old(labels).counter + (if self.takes_label() {
                1u64
            } else {
                0u64
            }),
    ;
}

impl ToAssembly for VMInstruction {
    open spec fn asm_wf(&self) -> bool {
        wf_instr(self@)
    }

    open spec fn asm_model(&self, id: u64) -> Seq<AsmV> {
        asm_of(self@, id)
    }

    open spec fn takes_label(&self) -> bool {
        uses_label(self@)
    }

    fn to_assembly(&self, labels: &mut LabelCounter) -> (r: Vec<String>) {
        let id = labels.counter;
        let draws = match self {
            VMInstruction::Arithmetic(op) => match op {
                ArithmeticInstruction::Eq => true,
                ArithmeticInstruction::Gt => true,
                ArithmeticInstruction::Lt => true,
                _ => false,
            },
            _ => false,
        };
        if draws {
            let _ = labels.fresh();
        }
        let instrs = instr_asm(self, id);
        render_all(&instrs)
    }
}

impl ToAssembly for ArithmeticInstruction {
    open spec fn asm_wf(&self) -> bool {
        true
    }

    open spec fn asm_model(&self, id: u64) -> Seq<AsmV> {
        arith_asm(*self, id)
    }

    open spec fn takes_label(&self) -> bool {
        is_cmp_op(*self)
    }

    fn to_assembly(&self, labels: &mut LabelCounter) -> (r: Vec<String>) {
        let id = labels.counter;
        let draws = match self {
            ArithmeticInstruction::Eq => true,
            ArithmeticInstruction::Gt => true,
            ArithmeticInstruction::Lt => true,
            _ => false,
        };
        if draws {
            let _ = labels.fresh();
        }
        let instrs = arith_instrs(*self, id);
        render_all(&instrs)
    }
}

/// Collects the assembly text of a translation run, instruction by
/// instruction, with one label counter for the whole run.
#[derive(Clone, Debug)]
pub struct CodeWriter {
    pub lines: Vec<String>,
    pub labels: LabelCounter,
}

impl CodeWriter {
    pub fn new() -> (r: Self)
        ensures
            r.lines@.len() == 0,
            r.labels.counter == 0,
    {
        CodeWriter { lines: Vec::new(), labels: LabelCounter::new() }
    }

    /// Appends the assembly lines of one instruction to the output.  The
    /// label counter advances exactly when the instruction is a comparison,
    /// so branch labels never collide across a run.
    pub fn write_instruction(&mut self, instruction: &VMInstruction)
        requires
            wf_instr(instruction@),
            old(self).labels.counter < u64::MAX,
        ensures
            final(self).lines.deep_view() == old(self).lines.deep_view() + lines_of(
                instruction@,
                old(self).labels.counter,
            ),
            final(self).labels.counter == old(self).labels.counter + (if uses_label(
                instruction@,
            ) {
                1u64
            } else {
                0u64
            }),
    {
        let ghost old_deep = self.lines.deep_view();
        let mut fresh_lines = instruction.to_assembly(&mut self.labels);
        let ghost fresh_deep = fresh_lines.deep_view();
        self.lines.append(&mut fresh_lines);
        proof {
            assert(self.lines.deep_view() =~= old_deep + fresh_deep);
        }
    }
}

} // verus!

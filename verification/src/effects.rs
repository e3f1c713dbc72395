//! The stack-effect theorems of the code generator: executing the emitted
//! code of any instruction on the machine model leaves exactly the state the
//! instruction's meaning prescribes.
//!
//! In particular the stack pointer `RAM[0]` shrinks by one for the binary
//! operators, the comparisons and the pops, stays put for the unary
//! operators, and grows by one for the pushes.  Each theorem requires only
//! that the addresses the code touches lie inside RAM and clear of the
//! registers the code itself uses.

use vstd::prelude::*;
use vstd::arithmetic::div_mod::lemma_mod_multiples_vanish;
use vstd::arithmetic::div_mod::lemma_small_mod;
use crate::assembly::AsmV;
use crate::assembly::Cmp;
use crate::assembly::LabelKind;
use crate::assembly::TargetV;
use crate::instruction::ArithmeticInstruction;
use crate::codegen::arith_asm;
use crate::codegen::cmp_asm;
use crate::codegen::pop_asm;
use crate::codegen::push_asm;
use crate::instruction::AccessV;
use crate::instruction::SegV;
use crate::machine::lit16;
use crate::machine::stat_lookup;
use crate::machine::MachV;
use crate::machine::StaticSlot;
use crate::machine::find_mark;
use crate::machine::jump_taken;
use crate::machine::run;
use crate::machine::target_value;
use crate::machine::with_a;
use crate::machine::with_d;
use crate::machine::with_m;
use crate::machine::wrap_add;
use crate::machine::wrap_neg;
use crate::machine::wrap_not;
use crate::machine::wrap_sub;

verus! {

/// A wraparound difference that does not wrap is the plain difference.
pub proof fn lemma_wrap_sub_small(x: u16, y: u16)
    requires
        y <= x,
    ensures
        wrap_sub(x, y) == x - y,
{
    lemma_mod_multiples_vanish(1, x - y, 0x10000);
    lemma_small_mod((x - y) as nat, 0x10000);
}

/// A wraparound sum that does not wrap is the plain sum.
pub proof fn lemma_wrap_add_small(x: u16, y: u16)
    requires
        x + y < 0x10000,
    ensures
        wrap_add(x, y) == x + y,
{
    lemma_small_mod((x + y) as nat, 0x10000);
}

/// The wraparound difference is zero exactly on equal operands, so the
/// zero test of the subtraction decides equality outright.
pub proof fn lemma_wrap_sub_zero(x: u16, y: u16)
    ensures
        (wrap_sub(x, y) == 0) <==> (x == y),
{
    if x >= y {
        lemma_wrap_sub_small(x, y);
    } else {
        lemma_mod_multiples_vanish(1, x - y, 0x10000);
        lemma_small_mod((x + 0x10000 - y) as nat, 0x10000);
    }
}

/// The stack pointer: the next free slot above the stack's top element.
pub open spec fn stack_depth(s: MachV) -> int {
    s.ram[0] as int
}

proof fn lemma_run_at(
    p: Seq<AsmV>,
    env: Seq<StaticSlot>,
    s: MachV,
    pc: int,
    fuel: nat,
    t: TargetV,
    v: u16,
)
    requires
        0 <= pc < p.len(),
        fuel > 0,
        p[pc] == AsmV::At(t),
        target_value(p, env, t) == Some(v),
    ensures
        run(p, env, s, pc, fuel) == run(p, env, with_a(s, v), pc + 1, (fuel - 1) as nat),
{
}

proof fn lemma_run_aeqm(p: Seq<AsmV>, env: Seq<StaticSlot>, s: MachV, pc: int, fuel: nat)
    requires
        0 <= pc < p.len(),
        fuel > 0,
        p[pc] == AsmV::AEqM,
        (s.a as int) < s.ram.len(),
    ensures
        run(p, env, s, pc, fuel) == run(
            p,
            env,
            with_a(s, s.ram[s.a as int]),
            pc + 1,
            (fuel - 1) as nat,
        ),
{
}

proof fn lemma_run_aeqd(p: Seq<AsmV>, env: Seq<StaticSlot>, s: MachV, pc: int, fuel: nat)
    requires
        0 <= pc < p.len(),
        fuel > 0,
        p[pc] == AsmV::AEqD,
    ensures
        run(p, env, s, pc, fuel) == run(p, env, with_a(s, s.d), pc + 1, (fuel - 1) as nat),
{
}

proof fn lemma_run_aeqm_minus1(p: Seq<AsmV>, env: Seq<StaticSlot>, s: MachV, pc: int, fuel: nat)
    requires
        0 <= pc < p.len(),
        fuel > 0,
        p[pc] == AsmV::AEqMMinus1,
        (s.a as int) < s.ram.len(),
    ensures
        run(p, env, s, pc, fuel) == run(
            p,
            env,
            with_a(s, wrap_sub(s.ram[s.a as int], 1)),
            pc + 1,
            (fuel - 1) as nat,
        ),
{
}

proof fn lemma_run_aeqa_minus1(p: Seq<AsmV>, env: Seq<StaticSlot>, s: MachV, pc: int, fuel: nat)
    requires
        0 <= pc < p.len(),
        fuel > 0,
        p[pc] == AsmV::AEqAMinus1,
    ensures
        run(p, env, s, pc, fuel) == run(
            p,
            env,
            with_a(s, wrap_sub(s.a, 1)),
            pc + 1,
            (fuel - 1) as nat,
        ),
{
}

proof fn lemma_run_ameqm_minus1(p: Seq<AsmV>, env: Seq<StaticSlot>, s: MachV, pc: int, fuel: nat)
    requires
        0 <= pc < p.len(),
        fuel > 0,
        p[pc] == AsmV::AmEqMMinus1,
        (s.a as int) < s.ram.len(),
    ensures
        run(p, env, s, pc, fuel) == run(
            p,
            env,
            with_a(with_m(s, wrap_sub(s.ram[s.a as int], 1)), wrap_sub(s.ram[s.a as int], 1)),
            pc + 1,
            (fuel - 1) as nat,
        ),
{
}

proof fn lemma_run_deqa(p: Seq<AsmV>, env: Seq<StaticSlot>, s: MachV, pc: int, fuel: nat)
    requires
        0 <= pc < p.len(),
        fuel > 0,
        p[pc] == AsmV::DEqA,
    ensures
        run(p, env, s, pc, fuel) == run(p, env, with_d(s, s.a), pc + 1, (fuel - 1) as nat),
{
}

proof fn lemma_run_deqm(p: Seq<AsmV>, env: Seq<StaticSlot>, s: MachV, pc: int, fuel: nat)
    requires
        0 <= pc < p.len(),
        fuel > 0,
        p[pc] == AsmV::DEqM,
        (s.a as int) < s.ram.len(),
    ensures
        run(p, env, s, pc, fuel) == run(
            p,
            env,
            with_d(s, s.ram[s.a as int]),
            pc + 1,
            (fuel - 1) as nat,
        ),
{
}

proof fn lemma_run_deqd_plus_a(p: Seq<AsmV>, env: Seq<StaticSlot>, s: MachV, pc: int, fuel: nat)
    requires
        0 <= pc < p.len(),
        fuel > 0,
        p[pc] == AsmV::DEqDPlusA,
    ensures
        run(p, env, s, pc, fuel) == run(
            p,
            env,
            with_d(s, wrap_add(s.d, s.a)),
            pc + 1,
            (fuel - 1) as nat,
        ),
{
}

proof fn lemma_run_deqm_minus_d(p: Seq<AsmV>, env: Seq<StaticSlot>, s: MachV, pc: int, fuel: nat)
    requires
        0 <= pc < p.len(),
        fuel > 0,
        p[pc] == AsmV::DEqMMinusD,
        (s.a as int) < s.ram.len(),
    ensures
        run(p, env, s, pc, fuel) == run(
            p,
            env,
            with_d(s, wrap_sub(s.ram[s.a as int], s.d)),
            pc + 1,
            (fuel - 1) as nat,
        ),
{
}

proof fn lemma_run_meqd(p: Seq<AsmV>, env: Seq<StaticSlot>, s: MachV, pc: int, fuel: nat)
    requires
        0 <= pc < p.len(),
        fuel > 0,
        p[pc] == AsmV::MEqD,
        (s.a as int) < s.ram.len(),
    ensures
        run(p, env, s, pc, fuel) == run(p, env, with_m(s, s.d), pc + 1, (fuel - 1) as nat),
{
}

proof fn lemma_run_meqm_plus_d(p: Seq<AsmV>, env: Seq<StaticSlot>, s: MachV, pc: int, fuel: nat)
    requires
        0 <= pc < p.len(),
        fuel > 0,
        p[pc] == AsmV::MEqMPlusD,
        (s.a as int) < s.ram.len(),
    ensures
        run(p, env, s, pc, fuel) == run(
            p,
            env,
            with_m(s, wrap_add(s.ram[s.a as int], s.d)),
            pc + 1,
            (fuel - 1) as nat,
        ),
{
}

proof fn lemma_run_meqm_minus_d(p: Seq<AsmV>, env: Seq<StaticSlot>, s: MachV, pc: int, fuel: nat)
    requires
        0 <= pc < p.len(),
        fuel > 0,
        p[pc] == AsmV::MEqMMinusD,
        (s.a as int) < s.ram.len(),
    ensures
        run(p, env, s, pc, fuel) == run(
            p,
            env,
            with_m(s, wrap_sub(s.ram[s.a as int], s.d)),
            pc + 1,
            (fuel - 1) as nat,
        ),
{
}

proof fn lemma_run_meqm_plus1(p: Seq<AsmV>, env: Seq<StaticSlot>, s: MachV, pc: int, fuel: nat)
    requires
        0 <= pc < p.len(),
        fuel > 0,
        p[pc] == AsmV::MEqMPlus1,
        (s.a as int) < s.ram.len(),
    ensures
        run(p, env, s, pc, fuel) == run(
            p,
            env,
            with_m(s, wrap_add(s.ram[s.a as int], 1)),
            pc + 1,
            (fuel - 1) as nat,
        ),
{
}

proof fn lemma_run_meqm_minus1(p: Seq<AsmV>, env: Seq<StaticSlot>, s: MachV, pc: int, fuel: nat)
    requires
        0 <= pc < p.len(),
        fuel > 0,
        p[pc] == AsmV::MEqMMinus1,
        (s.a as int) < s.ram.len(),
    ensures
        run(p, env, s, pc, fuel) == run(
            p,
            env,
            with_m(s, wrap_sub(s.ram[s.a as int], 1)),
            pc + 1,
            (fuel - 1) as nat,
        ),
{
}

proof fn lemma_run_meq_neg(p: Seq<AsmV>, env: Seq<StaticSlot>, s: MachV, pc: int, fuel: nat)
    requires
        0 <= pc < p.len(),
        fuel > 0,
        p[pc] == AsmV::MEqNegM,
        (s.a as int) < s.ram.len(),
    ensures
        run(p, env, s, pc, fuel) == run(
            p,
            env,
            with_m(s, wrap_neg(s.ram[s.a as int])),
            pc + 1,
            (fuel - 1) as nat,
        ),
{
}

proof fn lemma_run_meq_not(p: Seq<AsmV>, env: Seq<StaticSlot>, s: MachV, pc: int, fuel: nat)
    requires
        0 <= pc < p.len(),
        fuel > 0,
        p[pc] == AsmV::MEqNotM,
        (s.a as int) < s.ram.len(),
    ensures
        run(p, env, s, pc, fuel) == run(
            p,
            env,
            with_m(s, wrap_not(s.ram[s.a as int])),
            pc + 1,
            (fuel - 1) as nat,
        ),
{
}

proof fn lemma_run_meqd_and(p: Seq<AsmV>, env: Seq<StaticSlot>, s: MachV, pc: int, fuel: nat)
    requires
        0 <= pc < p.len(),
        fuel > 0,
        p[pc] == AsmV::MEqDAndM,
        (s.a as int) < s.ram.len(),
    ensures
        run(p, env, s, pc, fuel) == run(
            p,
            env,
            with_m(s, s.d & s.ram[s.a as int]),
            pc + 1,
            (fuel - 1) as nat,
        ),
{
}

proof fn lemma_run_meqd_or(p: Seq<AsmV>, env: Seq<StaticSlot>, s: MachV, pc: int, fuel: nat)
    requires
        0 <= pc < p.len(),
        fuel > 0,
        p[pc] == AsmV::MEqDOrM,
        (s.a as int) < s.ram.len(),
    ensures
        run(p, env, s, pc, fuel) == run(
            p,
            env,
            with_m(s, s.d | s.ram[s.a as int]),
            pc + 1,
            (fuel - 1) as nat,
        ),
{
}

proof fn lemma_run_meq_zero(p: Seq<AsmV>, env: Seq<StaticSlot>, s: MachV, pc: int, fuel: nat)
    requires
        0 <= pc < p.len(),
        fuel > 0,
        p[pc] == AsmV::MEqZero,
        (s.a as int) < s.ram.len(),
    ensures
        run(p, env, s, pc, fuel) == run(p, env, with_m(s, 0u16), pc + 1, (fuel - 1) as nat),
{
}

proof fn lemma_run_meq_neg_one(p: Seq<AsmV>, env: Seq<StaticSlot>, s: MachV, pc: int, fuel: nat)
    requires
        0 <= pc < p.len(),
        fuel > 0,
        p[pc] == AsmV::MEqNegOne,
        (s.a as int) < s.ram.len(),
    ensures
        run(p, env, s, pc, fuel) == run(p, env, with_m(s, 0xFFFFu16), pc + 1, (fuel - 1) as nat),
{
}

proof fn lemma_run_jump_cmp(p: Seq<AsmV>, env: Seq<StaticSlot>, s: MachV, pc: int, fuel: nat, c: Cmp)
    requires
        0 <= pc < p.len(),
        fuel > 0,
        p[pc] == AsmV::JumpCmp(c),
    ensures
        run(p, env, s, pc, fuel) == run(
            p,
            env,
            s,
            if jump_taken(c, s.d) {
                s.a as int
            } else {
                pc + 1
            },
            (fuel - 1) as nat,
        ),
{
}

proof fn lemma_run_jump_always(p: Seq<AsmV>, env: Seq<StaticSlot>, s: MachV, pc: int, fuel: nat)
    requires
        0 <= pc < p.len(),
        fuel > 0,
        p[pc] == AsmV::JumpAlways,
    ensures
        run(p, env, s, pc, fuel) == run(p, env, s, s.a as int, (fuel - 1) as nat),
{
}

proof fn lemma_run_mark(
    p: Seq<AsmV>,
    env: Seq<StaticSlot>,
    s: MachV,
    pc: int,
    fuel: nat,
    c: Cmp,
    k: LabelKind,
    id: u64,
)
    requires
        0 <= pc < p.len(),
        fuel > 0,
        p[pc] == AsmV::Mark(c, k, id),
    ensures
        run(p, env, s, pc, fuel) == run(p, env, s, pc + 1, (fuel - 1) as nat),
{
}

/// Executing the code of `add` or `sub` pops the two top words, pushes
/// their wraparound sum or difference, and shrinks the stack by exactly one
/// slot.
pub proof fn lemma_binary_effect(
    op: ArithmeticInstruction,
    env: Seq<StaticSlot>,
    s: MachV,
    id: u64,
)
    requires
        op == ArithmeticInstruction::Add || op == ArithmeticInstruction::Sub,
        3 <= stack_depth(s),
        stack_depth(s) < s.ram.len(),
    ensures
        ({
            let sp = stack_depth(s);
            let x = s.ram[sp - 2];
            let y = s.ram[sp - 1];
            let v = if op == ArithmeticInstruction::Add {
                wrap_add(x, y)
            } else {
                wrap_sub(x, y)
            };
            run(arith_asm(op, id), env, s, 0, 9) == Some(
                MachV {
                    a: 0,
                    d: y,
                    ram: s.ram.update(sp - 2, v).update(0, (sp - 1) as u16),
                },
            )
        }),
{
    let p = arith_asm(op, id);
    let sp16 = s.ram[0];
    let sp = sp16 as int;
    let x = s.ram[sp - 2];
    let y = s.ram[sp - 1];
    let v = if op == ArithmeticInstruction::Add {
        wrap_add(x, y)
    } else {
        wrap_sub(x, y)
    };
    lemma_wrap_sub_small(sp16, 1);
    lemma_wrap_sub_small((sp - 1) as u16, 1);
    assert(target_value(p, env, TargetV::Sp) == Some(0u16));
    let s1 = with_a(s, 0u16);
    lemma_run_at(p, env, s, 0, 9, TargetV::Sp, 0u16);
    let s2 = with_a(s1, (sp - 1) as u16);
    lemma_run_aeqm_minus1(p, env, s1, 1, 8);
    let s3 = with_d(s2, y);
    lemma_run_deqm(p, env, s2, 2, 7);
    let s4 = with_a(s3, 0u16);
    lemma_run_at(p, env, s3, 3, 6, TargetV::Sp, 0u16);
    let s5 = with_a(s4, (sp - 1) as u16);
    lemma_run_aeqm_minus1(p, env, s4, 4, 5);
    let s6 = with_a(s5, (sp - 2) as u16);
    lemma_run_aeqa_minus1(p, env, s5, 5, 4);
    let s7 = with_m(s6, v);
    if op == ArithmeticInstruction::Add {
        lemma_run_meqm_plus_d(p, env, s6, 6, 3);
    } else {
        lemma_run_meqm_minus_d(p, env, s6, 6, 3);
    }
    let s8 = with_a(s7, 0u16);
    lemma_run_at(p, env, s7, 7, 2, TargetV::Sp, 0u16);
    assert(s8.ram[0] == sp16);
    let s9 = with_m(s8, (sp - 1) as u16);
    lemma_run_meqm_minus1(p, env, s8, 8, 1);
    assert(run(p, env, s9, 9, 0) == Some(s9));
}

/// Executing the code of `and` or `or` pops the two top words, pushes
/// their bitwise combination, and shrinks the stack by exactly one slot.
pub proof fn lemma_bitwise_effect(
    op: ArithmeticInstruction,
    env: Seq<StaticSlot>,
    s: MachV,
    id: u64,
)
    requires
        op == ArithmeticInstruction::And || op == ArithmeticInstruction::Or,
        3 <= stack_depth(s),
        stack_depth(s) < s.ram.len(),
    ensures
        ({
            let sp = stack_depth(s);
            let x = s.ram[sp - 2];
            let y = s.ram[sp - 1];
            let v: u16 = if op == ArithmeticInstruction::And {
                y & x
            } else {
                y | x
            };
            run(arith_asm(op, id), env, s, 0, 7) == Some(
                MachV {
                    a: 0,
                    d: y,
                    ram: s.ram.update(sp - 2, v).update(0, (sp - 1) as u16),
                },
            )
        }),
{
    let p = arith_asm(op, id);
    let sp16 = s.ram[0];
    let sp = sp16 as int;
    let x = s.ram[sp - 2];
    let y = s.ram[sp - 1];
    let v: u16 = if op == ArithmeticInstruction::And {
        y & x
    } else {
        y | x
    };
    lemma_wrap_sub_small(sp16, 1);
    lemma_wrap_sub_small((sp - 1) as u16, 1);
    assert(target_value(p, env, TargetV::Sp) == Some(0u16));
    let s1 = with_a(s, 0u16);
    lemma_run_at(p, env, s, 0, 7, TargetV::Sp, 0u16);
    let s2 = with_a(s1, (sp - 1) as u16);
    lemma_run_aeqm_minus1(p, env, s1, 1, 6);
    let s3 = with_d(s2, y);
    lemma_run_deqm(p, env, s2, 2, 5);
    let s4 = with_a(s3, (sp - 2) as u16);
    lemma_run_aeqa_minus1(p, env, s3, 3, 4);
    let s5 = with_m(s4, v);
    if op == ArithmeticInstruction::And {
        lemma_run_meqd_and(p, env, s4, 4, 3);
    } else {
        lemma_run_meqd_or(p, env, s4, 4, 3);
    }
    let s6 = with_a(s5, 0u16);
    lemma_run_at(p, env, s5, 5, 2, TargetV::Sp, 0u16);
    assert(s6.ram[0] == sp16);
    let s7 = with_m(s6, (sp - 1) as u16);
    lemma_run_meqm_minus1(p, env, s6, 6, 1);
    assert(run(p, env, s7, 7, 0) == Some(s7));
}

/// Executing the code of `neg` or `not` rewrites the top word in place and
/// leaves the stack depth unchanged.
pub proof fn lemma_unary_effect(
    op: ArithmeticInstruction,
    env: Seq<StaticSlot>,
    s: MachV,
    id: u64,
)
    requires
        op == ArithmeticInstruction::Neg || op == ArithmeticInstruction::Not,
        2 <= stack_depth(s),
        stack_depth(s) <= s.ram.len(),
    ensures
        ({
            let sp = stack_depth(s);
            let x = s.ram[sp - 1];
            let v = if op == ArithmeticInstruction::Neg {
                wrap_neg(x)
            } else {
                wrap_not(x)
            };
            run(arith_asm(op, id), env, s, 0, 3) == Some(
                MachV { a: (sp - 1) as u16, d: s.d, ram: s.ram.update(sp - 1, v) },
            )
        }),
{
    let p = arith_asm(op, id);
    let sp16 = s.ram[0];
    let sp = sp16 as int;
    let x = s.ram[sp - 1];
    let v = if op == ArithmeticInstruction::Neg {
        wrap_neg(x)
    } else {
        wrap_not(x)
    };
    lemma_wrap_sub_small(sp16, 1);
    assert(target_value(p, env, TargetV::Sp) == Some(0u16));
    let s1 = with_a(s, 0u16);
    lemma_run_at(p, env, s, 0, 3, TargetV::Sp, 0u16);
    let s2 = with_a(s1, (sp - 1) as u16);
    lemma_run_aeqm_minus1(p, env, s1, 1, 2);
    let s3 = with_m(s2, v);
    if op == ArithmeticInstruction::Neg {
        lemma_run_meq_neg(p, env, s2, 2, 1);
    } else {
        lemma_run_meq_not(p, env, s2, 2, 1);
    }
    assert(run(p, env, s3, 3, 0) == Some(s3));
}

/// Executing the code of `eq`, `gt` or `lt` pops the two top words,
/// compares them by the sign or zero test of their wraparound difference,
/// pushes all-ones for a true outcome and all-zeros for a false one, and
/// shrinks the stack by exactly one slot — through whichever of the two
/// branch paths was taken.
pub proof fn lemma_cmp_effect(c: Cmp, env: Seq<StaticSlot>, s: MachV, id: u64)
    requires
        3 <= stack_depth(s),
        stack_depth(s) < s.ram.len(),
    ensures
        ({
            let sp = stack_depth(s);
            let x = s.ram[sp - 2];
            let y = s.ram[sp - 1];
            let v: u16 = if jump_taken(c, wrap_sub(x, y)) {
                0xFFFF
            } else {
                0
            };
            run(cmp_asm(c, id), env, s, 0, 21) == Some(
                MachV {
                    a: 0,
                    d: wrap_sub(x, y),
                    ram: s.ram.update(sp - 2, v).update(0, (sp - 1) as u16),
                },
            )
        }),
{
    let p = cmp_asm(c, id);
    let sp16 = s.ram[0];
    let sp = sp16 as int;
    let x = s.ram[sp - 2];
    let y = s.ram[sp - 1];
    let diff = wrap_sub(x, y);
    lemma_wrap_sub_small(sp16, 1);
    lemma_wrap_sub_small((sp - 1) as u16, 1);
    assert(target_value(p, env, TargetV::Sp) == Some(0u16));
    assert(find_mark(p, c, LabelKind::TrueBranch, id, 0) == 13) by {
        reveal_with_fuel(find_mark, 15);
    }
    assert(find_mark(p, c, LabelKind::EndBranch, id, 0) == 18) by {
        reveal_with_fuel(find_mark, 20);
    }
    assert(target_value(p, env, TargetV::Branch(c, LabelKind::TrueBranch, id)) == Some(13u16));
    assert(target_value(p, env, TargetV::Branch(c, LabelKind::EndBranch, id)) == Some(18u16));
    let s1 = with_a(s, 0u16);
    lemma_run_at(p, env, s, 0, 21, TargetV::Sp, 0u16);
    let s2 = with_a(s1, (sp - 1) as u16);
    lemma_run_aeqm_minus1(p, env, s1, 1, 20);
    let s3 = with_d(s2, y);
    lemma_run_deqm(p, env, s2, 2, 19);
    let s4 = with_a(s3, (sp - 2) as u16);
    lemma_run_aeqa_minus1(p, env, s3, 3, 18);
    let s5 = with_d(s4, diff);
    lemma_run_deqm_minus_d(p, env, s4, 4, 17);
    let s6 = with_a(s5, 13u16);
    lemma_run_at(p, env, s5, 5, 16, TargetV::Branch(c, LabelKind::TrueBranch, id), 13u16);
    lemma_run_jump_cmp(p, env, s6, 6, 15, c);
    if jump_taken(c, diff) {
        // the taken branch: write all-ones at the converged cell
        lemma_run_mark(p, env, s6, 13, 14, c, LabelKind::TrueBranch, id);
        let s7 = with_a(s6, 0u16);
        lemma_run_at(p, env, s6, 14, 13, TargetV::Sp, 0u16);
        let s8 = with_a(s7, (sp - 1) as u16);
        lemma_run_aeqm_minus1(p, env, s7, 15, 12);
        let s9 = with_a(s8, (sp - 2) as u16);
        lemma_run_aeqa_minus1(p, env, s8, 16, 11);
        let s10 = with_m(s9, 0xFFFFu16);
        lemma_run_meq_neg_one(p, env, s9, 17, 10);
        lemma_run_mark(p, env, s10, 18, 9, c, LabelKind::EndBranch, id);
        let s11 = with_a(s10, 0u16);
        lemma_run_at(p, env, s10, 19, 8, TargetV::Sp, 0u16);
        assert(s11.ram[0] == sp16);
        let s12 = with_m(s11, (sp - 1) as u16);
        lemma_run_meqm_minus1(p, env, s11, 20, 7);
        assert(run(p, env, s12, 21, 6) == Some(s12));
    } else {
        // the fall-through branch: write all-zeros, then jump past the other
        let s7 = with_a(s6, 0u16);
        lemma_run_at(p, env, s6, 7, 14, TargetV::Sp, 0u16);
        let s8 = with_a(s7, (sp - 1) as u16);
        lemma_run_aeqm_minus1(p, env, s7, 8, 13);
        let s9 = with_a(s8, (sp - 2) as u16);
        lemma_run_aeqa_minus1(p, env, s8, 9, 12);
        let s10 = with_m(s9, 0u16);
        lemma_run_meq_zero(p, env, s9, 10, 11);
        let s11 = with_a(s10, 18u16);
        lemma_run_at(p, env, s10, 11, 10, TargetV::Branch(c, LabelKind::EndBranch, id), 18u16);
        lemma_run_jump_always(p, env, s11, 12, 9);
        lemma_run_mark(p, env, s11, 18, 8, c, LabelKind::EndBranch, id);
        let s12 = with_a(s11, 0u16);
        lemma_run_at(p, env, s11, 19, 7, TargetV::Sp, 0u16);
        assert(s12.ram[0] == sp16);
        let s13 = with_m(s12, (sp - 1) as u16);
        lemma_run_meqm_minus1(p, env, s12, 20, 6);
        assert(run(p, env, s13, 21, 5) == Some(s13));
    }
}

/// The register through which an indirect segment is based.
pub open spec fn base_reg(seg: SegV) -> int {
    match seg {
        SegV::Argument => 2,
        SegV::Local => 1,
        SegV::This => 3,
        SegV::That => 4,
        _ => 0,
    }
}

/// The `@` target that loads an indirect segment's base register.
pub open spec fn base_target(seg: SegV) -> TargetV {
    match seg {
        SegV::Argument => TargetV::Arg,
        SegV::Local => TargetV::Lcl,
        SegV::This => TargetV::This,
        SegV::That => TargetV::That,
        _ => TargetV::Sp,
    }
}

/// Whether a segment is one of the four indirect ones.
pub open spec fn is_indirect(seg: SegV) -> bool {
    seg is Argument || seg is Local || seg is This || seg is That
}

/// Executing the code of `push constant index` writes the literal into the
/// next free slot and deepens the stack by exactly one slot.
pub proof fn lemma_push_constant_effect(env: Seq<StaticSlot>, s: MachV, index: u32)
    requires
        1 <= stack_depth(s),
        stack_depth(s) < s.ram.len(),
    ensures
        ({
            let sp = stack_depth(s);
            run(push_asm(AccessV { segment: SegV::Constant, index }), env, s, 0, 7) == Some(
                MachV {
                    a: 0,
                    d: lit16(index),
                    ram: s.ram.update(sp, lit16(index)).update(0, wrap_add(s.ram[0], 1)),
                },
            )
        }),
{
    let p = push_asm(AccessV { segment: SegV::Constant, index });
    let sp16 = s.ram[0];
    let sp = sp16 as int;
    assert(target_value(p, env, TargetV::Sp) == Some(0u16));
    assert(target_value(p, env, TargetV::Lit(index)) == Some(lit16(index)));
    let s1 = with_a(s, lit16(index));
    lemma_run_at(p, env, s, 0, 7, TargetV::Lit(index), lit16(index));
    let s2 = with_d(s1, lit16(index));
    lemma_run_deqa(p, env, s1, 1, 6);
    let s3 = with_a(s2, 0u16);
    lemma_run_at(p, env, s2, 2, 5, TargetV::Sp, 0u16);
    let s4 = with_a(s3, sp16);
    lemma_run_aeqm(p, env, s3, 3, 4);
    let s5 = with_m(s4, lit16(index));
    lemma_run_meqd(p, env, s4, 4, 3);
    let s6 = with_a(s5, 0u16);
    lemma_run_at(p, env, s5, 5, 2, TargetV::Sp, 0u16);
    assert(s6.ram[0] == sp16);
    let s7 = with_m(s6, wrap_add(sp16, 1));
    lemma_run_meqm_plus1(p, env, s6, 6, 1);
    assert(run(p, env, s7, 7, 0) == Some(s7));
}

/// Executing the code of a push from an indirect segment copies the cell at
/// base + index into the next free slot and deepens the stack by exactly
/// one slot.
pub proof fn lemma_push_indirect_effect(seg: SegV, env: Seq<StaticSlot>, s: MachV, index: u32)
    requires
        is_indirect(seg),
        1 <= stack_depth(s),
        stack_depth(s) < s.ram.len(),
        4 < s.ram.len(),
        (wrap_add(s.ram[base_reg(seg)], lit16(index)) as int) < s.ram.len(),
    ensures
        ({
            let sp = stack_depth(s);
            let ea = wrap_add(s.ram[base_reg(seg)], lit16(index)) as int;
            let v = s.ram[ea];
            run(push_asm(AccessV { segment: seg, index }), env, s, 0, 11) == Some(
                MachV {
                    a: 0,
                    d: v,
                    ram: s.ram.update(sp, v).update(0, wrap_add(s.ram[0], 1)),
                },
            )
        }),
{
    let p = push_asm(AccessV { segment: seg, index });
    let bt = base_target(seg);
    let b16 = base_reg(seg) as u16;
    let bval = s.ram[base_reg(seg)];
    let ea16 = wrap_add(bval, lit16(index));
    let sp16 = s.ram[0];
    let sp = sp16 as int;
    let v = s.ram[ea16 as int];
    assert(p =~= seq![
        AsmV::At(bt),
        AsmV::DEqM,
        AsmV::At(TargetV::Lit(index)),
        AsmV::DEqDPlusA,
        AsmV::AEqD,
        AsmV::DEqM,
        AsmV::At(TargetV::Sp),
        AsmV::AEqM,
        AsmV::MEqD,
        AsmV::At(TargetV::Sp),
        AsmV::MEqMPlus1,
    ]);
    assert(target_value(p, env, TargetV::Sp) == Some(0u16));
    assert(target_value(p, env, TargetV::Lit(index)) == Some(lit16(index)));
    assert(target_value(p, env, bt) == Some(b16));
    let s1 = with_a(s, b16);
    lemma_run_at(p, env, s, 0, 11, bt, b16);
    let s2 = with_d(s1, bval);
    lemma_run_deqm(p, env, s1, 1, 10);
    let s3 = with_a(s2, lit16(index));
    lemma_run_at(p, env, s2, 2, 9, TargetV::Lit(index), lit16(index));
    let s4 = with_d(s3, ea16);
    lemma_run_deqd_plus_a(p, env, s3, 3, 8);
    let s5 = with_a(s4, ea16);
    lemma_run_aeqd(p, env, s4, 4, 7);
    let s6 = with_d(s5, v);
    lemma_run_deqm(p, env, s5, 5, 6);
    let s7 = with_a(s6, 0u16);
    lemma_run_at(p, env, s6, 6, 5, TargetV::Sp, 0u16);
    let s8 = with_a(s7, sp16);
    lemma_run_aeqm(p, env, s7, 7, 4);
    let s9 = with_m(s8, v);
    lemma_run_meqd(p, env, s8, 8, 3);
    let s10 = with_a(s9, 0u16);
    lemma_run_at(p, env, s9, 9, 2, TargetV::Sp, 0u16);
    assert(s10.ram[0] == sp16);
    let s11 = with_m(s10, wrap_add(sp16, 1));
    lemma_run_meqm_plus1(p, env, s10, 10, 1);
    assert(run(p, env, s11, 11, 0) == Some(s11));
}

/// Executing the code of `push temp index` copies the cell at the fixed
/// temp base plus the index into the next free slot and deepens the stack
/// by exactly one slot.
pub proof fn lemma_push_temp_effect(env: Seq<StaticSlot>, s: MachV, index: u32)
    requires
        1 <= stack_depth(s),
        stack_depth(s) < s.ram.len(),
        (wrap_add(5, lit16(index)) as int) < s.ram.len(),
    ensures
        ({
            let sp = stack_depth(s);
            let ea = wrap_add(5, lit16(index)) as int;
            let v = s.ram[ea];
            run(push_asm(AccessV { segment: SegV::Temp, index }), env, s, 0, 11) == Some(
                MachV {
                    a: 0,
                    d: v,
                    ram: s.ram.update(sp, v).update(0, wrap_add(s.ram[0], 1)),
                },
            )
        }),
{
    let p = push_asm(AccessV { segment: SegV::Temp, index });
    let ea16 = wrap_add(5, lit16(index));
    let sp16 = s.ram[0];
    let sp = sp16 as int;
    let v = s.ram[ea16 as int];
    assert(target_value(p, env, TargetV::Sp) == Some(0u16));
    assert(target_value(p, env, TargetV::Lit(index)) == Some(lit16(index)));
    assert(target_value(p, env, TargetV::R5) == Some(5u16));
    let s1 = with_a(s, 5u16);
    lemma_run_at(p, env, s, 0, 11, TargetV::R5, 5u16);
    let s2 = with_d(s1, 5u16);
    lemma_run_deqa(p, env, s1, 1, 10);
    let s3 = with_a(s2, lit16(index));
    lemma_run_at(p, env, s2, 2, 9, TargetV::Lit(index), lit16(index));
    let s4 = with_d(s3, ea16);
    lemma_run_deqd_plus_a(p, env, s3, 3, 8);
    let s5 = with_a(s4, ea16);
    lemma_run_aeqd(p, env, s4, 4, 7);
    let s6 = with_d(s5, v);
    lemma_run_deqm(p, env, s5, 5, 6);
    let s7 = with_a(s6, 0u16);
    lemma_run_at(p, env, s6, 6, 5, TargetV::Sp, 0u16);
    let s8 = with_a(s7, sp16);
    lemma_run_aeqm(p, env, s7, 7, 4);
    let s9 = with_m(s8, v);
    lemma_run_meqd(p, env, s8, 8, 3);
    let s10 = with_a(s9, 0u16);
    lemma_run_at(p, env, s9, 9, 2, TargetV::Sp, 0u16);
    assert(s10.ram[0] == sp16);
    let s11 = with_m(s10, wrap_add(sp16, 1));
    lemma_run_meqm_plus1(p, env, s10, 10, 1);
    assert(run(p, env, s11, 11, 0) == Some(s11));
}

/// Executing the code of `push pointer index` copies the selected base
/// register into the next free slot and deepens the stack by exactly one
/// slot.
pub proof fn lemma_push_pointer_effect(env: Seq<StaticSlot>, s: MachV, index: u32)
    requires
        index <= 1,
        1 <= stack_depth(s),
        stack_depth(s) < s.ram.len(),
        4 < s.ram.len(),
    ensures
        ({
            let sp = stack_depth(s);
            let reg: int = if index == 0 {
                3
            } else {
                4
            };
            let v = s.ram[reg];
            run(push_asm(AccessV { segment: SegV::Pointer, index }), env, s, 0, 7) == Some(
                MachV {
                    a: 0,
                    d: v,
                    ram: s.ram.update(sp, v).update(0, wrap_add(s.ram[0], 1)),
                },
            )
        }),
{
    let p = push_asm(AccessV { segment: SegV::Pointer, index });
    let bt = if index == 0 {
        TargetV::This
    } else {
        TargetV::That
    };
    let reg: int = if index == 0 {
        3
    } else {
        4
    };
    let sp16 = s.ram[0];
    let sp = sp16 as int;
    let v = s.ram[reg];
    assert(target_value(p, env, TargetV::Sp) == Some(0u16));
    assert(target_value(p, env, bt) == Some(reg as u16));
    let s1 = with_a(s, reg as u16);
    lemma_run_at(p, env, s, 0, 7, bt, reg as u16);
    let s2 = with_d(s1, v);
    lemma_run_deqm(p, env, s1, 1, 6);
    let s3 = with_a(s2, 0u16);
    lemma_run_at(p, env, s2, 2, 5, TargetV::Sp, 0u16);
    let s4 = with_a(s3, sp16);
    lemma_run_aeqm(p, env, s3, 3, 4);
    let s5 = with_m(s4, v);
    lemma_run_meqd(p, env, s4, 4, 3);
    let s6 = with_a(s5, 0u16);
    lemma_run_at(p, env, s5, 5, 2, TargetV::Sp, 0u16);
    assert(s6.ram[0] == sp16);
    let s7 = with_m(s6, wrap_add(sp16, 1));
    lemma_run_meqm_plus1(p, env, s6, 6, 1);
    assert(run(p, env, s7, 7, 0) == Some(s7));
}

/// Executing the code of `push static index` copies the static variable's
/// cell into the next free slot and deepens the stack by exactly one slot.
pub proof fn lemma_push_static_effect(
    env: Seq<StaticSlot>,
    s: MachV,
    unit: Seq<char>,
    index: u32,
    addr: u16,
)
    requires
        stat_lookup(env, unit, index) == Some(addr),
        (addr as int) < s.ram.len(),
        1 <= stack_depth(s),
        stack_depth(s) < s.ram.len(),
    ensures
        ({
            let sp = stack_depth(s);
            let v = s.ram[addr as int];
            run(push_asm(AccessV { segment: SegV::Static(unit), index }), env, s, 0, 7) == Some(
                MachV {
                    a: 0,
                    d: v,
                    ram: s.ram.update(sp, v).update(0, wrap_add(s.ram[0], 1)),
                },
            )
        }),
{
    let p = push_asm(AccessV { segment: SegV::Static(unit), index });
    let sp16 = s.ram[0];
    let sp = sp16 as int;
    let v = s.ram[addr as int];
    assert(target_value(p, env, TargetV::Sp) == Some(0u16));
    assert(target_value(p, env, TargetV::Stat(unit, index)) == Some(addr));
    let s1 = with_a(s, addr);
    lemma_run_at(p, env, s, 0, 7, TargetV::Stat(unit, index), addr);
    let s2 = with_d(s1, v);
    lemma_run_deqm(p, env, s1, 1, 6);
    let s3 = with_a(s2, 0u16);
    lemma_run_at(p, env, s2, 2, 5, TargetV::Sp, 0u16);
    let s4 = with_a(s3, sp16);
    lemma_run_aeqm(p, env, s3, 3, 4);
    let s5 = with_m(s4, v);
    lemma_run_meqd(p, env, s4, 4, 3);
    let s6 = with_a(s5, 0u16);
    lemma_run_at(p, env, s5, 5, 2, TargetV::Sp, 0u16);
    assert(s6.ram[0] == sp16);
    let s7 = with_m(s6, wrap_add(sp16, 1));
    lemma_run_meqm_plus1(p, env, s6, 6, 1);
    assert(run(p, env, s7, 7, 0) == Some(s7));
}

/// Executing the code of a pop into an indirect segment stages the
/// effective address in the scratch register, removes the top word, stores
/// it there, and shrinks the stack by exactly one slot.
pub proof fn lemma_pop_indirect_effect(seg: SegV, env: Seq<StaticSlot>, s: MachV, index: u32)
    requires
        is_indirect(seg),
        2 <= stack_depth(s),
        stack_depth(s) <= s.ram.len(),
        stack_depth(s) != 14,
        13 < s.ram.len(),
        (wrap_add(s.ram[base_reg(seg)], lit16(index)) as int) < s.ram.len(),
    ensures
        ({
            let sp = stack_depth(s);
            let ea16 = wrap_add(s.ram[base_reg(seg)], lit16(index));
            let y = s.ram[sp - 1];
            run(pop_asm(AccessV { segment: seg, index }), env, s, 0, 12) == Some(
                MachV {
                    a: ea16,
                    d: y,
                    ram: s.ram.update(13, ea16).update(0, (sp - 1) as u16).update(
                        ea16 as int,
                        y,
                    ),
                },
            )
        }),
{
    let p = pop_asm(AccessV { segment: seg, index });
    let bt = base_target(seg);
    let b16 = base_reg(seg) as u16;
    let bval = s.ram[base_reg(seg)];
    let ea16 = wrap_add(bval, lit16(index));
    let sp16 = s.ram[0];
    let sp = sp16 as int;
    let y = s.ram[sp - 1];
    lemma_wrap_sub_small(sp16, 1);
    assert(p =~= seq![
        AsmV::At(bt),
        AsmV::DEqM,
        AsmV::At(TargetV::Lit(index)),
        AsmV::DEqDPlusA,
        AsmV::At(TargetV::R13),
        AsmV::MEqD,
        AsmV::At(TargetV::Sp),
        AsmV::AmEqMMinus1,
        AsmV::DEqM,
        AsmV::At(TargetV::R13),
        AsmV::AEqM,
        AsmV::MEqD,
    ]);
    assert(target_value(p, env, TargetV::Sp) == Some(0u16));
    assert(target_value(p, env, TargetV::R13) == Some(13u16));
    assert(target_value(p, env, TargetV::Lit(index)) == Some(lit16(index)));
    assert(target_value(p, env, bt) == Some(b16));
    let s1 = with_a(s, b16);
    lemma_run_at(p, env, s, 0, 12, bt, b16);
    let s2 = with_d(s1, bval);
    lemma_run_deqm(p, env, s1, 1, 11);
    let s3 = with_a(s2, lit16(index));
    lemma_run_at(p, env, s2, 2, 10, TargetV::Lit(index), lit16(index));
    let s4 = with_d(s3, ea16);
    lemma_run_deqd_plus_a(p, env, s3, 3, 9);
    let s5 = with_a(s4, 13u16);
    lemma_run_at(p, env, s4, 4, 8, TargetV::R13, 13u16);
    let s6 = with_m(s5, ea16);
    lemma_run_meqd(p, env, s5, 5, 7);
    let s7 = with_a(s6, 0u16);
    lemma_run_at(p, env, s6, 6, 6, TargetV::Sp, 0u16);
    assert(s7.ram[0] == sp16);
    let s8 = with_a(with_m(s7, (sp - 1) as u16), (sp - 1) as u16);
    lemma_run_ameqm_minus1(p, env, s7, 7, 5);
    assert(s8.ram[sp - 1] == y);
    let s9 = with_d(s8, y);
    lemma_run_deqm(p, env, s8, 8, 4);
    let s10 = with_a(s9, 13u16);
    lemma_run_at(p, env, s9, 9, 3, TargetV::R13, 13u16);
    assert(s10.ram[13] == ea16);
    let s11 = with_a(s10, ea16);
    lemma_run_aeqm(p, env, s10, 10, 2);
    let s12 = with_m(s11, y);
    lemma_run_meqd(p, env, s11, 11, 1);
    assert(run(p, env, s12, 12, 0) == Some(s12));
}

/// Executing the code of `pop temp index` stages the fixed address in the
/// scratch register, removes the top word, stores it there, and shrinks the
/// stack by exactly one slot.
pub proof fn lemma_pop_temp_effect(env: Seq<StaticSlot>, s: MachV, index: u32)
    requires
        2 <= stack_depth(s),
        stack_depth(s) <= s.ram.len(),
        stack_depth(s) != 14,
        13 < s.ram.len(),
        (wrap_add(5, lit16(index)) as int) < s.ram.len(),
    ensures
        ({
            let sp = stack_depth(s);
            let ea16 = wrap_add(5, lit16(index));
            let y = s.ram[sp - 1];
            run(pop_asm(AccessV { segment: SegV::Temp, index }), env, s, 0, 12) == Some(
                MachV {
                    a: ea16,
                    d: y,
                    ram: s.ram.update(13, ea16).update(0, (sp - 1) as u16).update(
                        ea16 as int,
                        y,
                    ),
                },
            )
        }),
{
    let p = pop_asm(AccessV { segment: SegV::Temp, index });
    let ea16 = wrap_add(5, lit16(index));
    let sp16 = s.ram[0];
    let sp = sp16 as int;
    let y = s.ram[sp - 1];
    lemma_wrap_sub_small(sp16, 1);
    assert(target_value(p, env, TargetV::Sp) == Some(0u16));
    assert(target_value(p, env, TargetV::R13) == Some(13u16));
    assert(target_value(p, env, TargetV::Lit(index)) == Some(lit16(index)));
    assert(target_value(p, env, TargetV::R5) == Some(5u16));
    let s1 = with_a(s, 5u16);
    lemma_run_at(p, env, s, 0, 12, TargetV::R5, 5u16);
    let s2 = with_d(s1, 5u16);
    lemma_run_deqa(p, env, s1, 1, 11);
    let s3 = with_a(s2, lit16(index));
    lemma_run_at(p, env, s2, 2, 10, TargetV::Lit(index), lit16(index));
    let s4 = with_d(s3, ea16);
    lemma_run_deqd_plus_a(p, env, s3, 3, 9);
    let s5 = with_a(s4, 13u16);
    lemma_run_at(p, env, s4, 4, 8, TargetV::R13, 13u16);
    let s6 = with_m(s5, ea16);
    lemma_run_meqd(p, env, s5, 5, 7);
    let s7 = with_a(s6, 0u16);
    lemma_run_at(p, env, s6, 6, 6, TargetV::Sp, 0u16);
    assert(s7.ram[0] == sp16);
    let s8 = with_a(with_m(s7, (sp - 1) as u16), (sp - 1) as u16);
    lemma_run_ameqm_minus1(p, env, s7, 7, 5);
    assert(s8.ram[sp - 1] == y);
    let s9 = with_d(s8, y);
    lemma_run_deqm(p, env, s8, 8, 4);
    let s10 = with_a(s9, 13u16);
    lemma_run_at(p, env, s9, 9, 3, TargetV::R13, 13u16);
    assert(s10.ram[13] == ea16);
    let s11 = with_a(s10, ea16);
    lemma_run_aeqm(p, env, s10, 10, 2);
    let s12 = with_m(s11, y);
    lemma_run_meqd(p, env, s11, 11, 1);
    assert(run(p, env, s12, 12, 0) == Some(s12));
}

/// Executing the code of `pop pointer index` removes the top word, stores
/// it in the selected base register, and shrinks the stack by exactly one
/// slot.
pub proof fn lemma_pop_pointer_effect(env: Seq<StaticSlot>, s: MachV, index: u32)
    requires
        index <= 1,
        2 <= stack_depth(s),
        stack_depth(s) <= s.ram.len(),
        4 < s.ram.len(),
    ensures
        ({
            let sp = stack_depth(s);
            let reg: int = if index == 0 {
                3
            } else {
                4
            };
            let y = s.ram[sp - 1];
            run(pop_asm(AccessV { segment: SegV::Pointer, index }), env, s, 0, 5) == Some(
                MachV {
                    a: reg as u16,
                    d: y,
                    ram: s.ram.update(0, (sp - 1) as u16).update(reg, y),
                },
            )
        }),
{
    let p = pop_asm(AccessV { segment: SegV::Pointer, index });
    let bt = if index == 0 {
        TargetV::This
    } else {
        TargetV::That
    };
    let reg: int = if index == 0 {
        3
    } else {
        4
    };
    let sp16 = s.ram[0];
    let sp = sp16 as int;
    let y = s.ram[sp - 1];
    lemma_wrap_sub_small(sp16, 1);
    assert(target_value(p, env, TargetV::Sp) == Some(0u16));
    assert(target_value(p, env, bt) == Some(reg as u16));
    let s1 = with_a(s, 0u16);
    lemma_run_at(p, env, s, 0, 5, TargetV::Sp, 0u16);
    let s2 = with_a(with_m(s1, (sp - 1) as u16), (sp - 1) as u16);
    lemma_run_ameqm_minus1(p, env, s1, 1, 4);
    assert(s2.ram[sp - 1] == y);
    let s3 = with_d(s2, y);
    lemma_run_deqm(p, env, s2, 2, 3);
    let s4 = with_a(s3, reg as u16);
    lemma_run_at(p, env, s3, 3, 2, bt, reg as u16);
    let s5 = with_m(s4, y);
    lemma_run_meqd(p, env, s4, 4, 1);
    assert(run(p, env, s5, 5, 0) == Some(s5));
}

/// Executing the code of `pop static index` removes the top word, stores
/// it in the static variable's cell, and shrinks the stack by exactly one
/// slot.
pub proof fn lemma_pop_static_effect(
    env: Seq<StaticSlot>,
    s: MachV,
    unit: Seq<char>,
    index: u32,
    addr: u16,
)
    requires
        stat_lookup(env, unit, index) == Some(addr),
        (addr as int) < s.ram.len(),
        addr != 0,
        2 <= stack_depth(s),
        stack_depth(s) <= s.ram.len(),
    ensures
        ({
            let sp = stack_depth(s);
            let y = s.ram[sp - 1];
            run(pop_asm(AccessV { segment: SegV::Static(unit), index }), env, s, 0, 5) == Some(
                MachV {
                    a: addr,
                    d: y,
                    ram: s.ram.update(0, (sp - 1) as u16).update(addr as int, y),
                },
            )
        }),
{
    let p = pop_asm(AccessV { segment: SegV::Static(unit), index });
    let sp16 = s.ram[0];
    let sp = sp16 as int;
    let y = s.ram[sp - 1];
    lemma_wrap_sub_small(sp16, 1);
    assert(target_value(p, env, TargetV::Sp) == Some(0u16));
    assert(target_value(p, env, TargetV::Stat(unit, index)) == Some(addr));
    let s1 = with_a(s, 0u16);
    lemma_run_at(p, env, s, 0, 5, TargetV::Sp, 0u16);
    let s2 = with_a(with_m(s1, (sp - 1) as u16), (sp - 1) as u16);
    lemma_run_ameqm_minus1(p, env, s1, 1, 4);
    assert(s2.ram[sp - 1] == y);
    let s3 = with_d(s2, y);
    lemma_run_deqm(p, env, s2, 2, 3);
    let s4 = with_a(s3, addr);
    lemma_run_at(p, env, s3, 3, 2, TargetV::Stat(unit, index), addr);
    let s5 = with_m(s4, y);
    lemma_run_meqd(p, env, s4, 4, 1);
    assert(run(p, env, s5, 5, 0) == Some(s5));
}

/// The equality comparison decides true equality of the operands: the word
/// it pushes is all-ones exactly when the two popped words are equal.
pub proof fn lemma_eq_decides_equality(env: Seq<StaticSlot>, s: MachV, id: u64)
    requires
        3 <= stack_depth(s),
        stack_depth(s) < s.ram.len(),
    ensures
        ({
            let sp = stack_depth(s);
            let x = s.ram[sp - 2];
            let y = s.ram[sp - 1];
            let v: u16 = if x == y {
                0xFFFF
            } else {
                0
            };
            run(cmp_asm(Cmp::Eq, id), env, s, 0, 21) == Some(
                MachV {
                    a: 0,
                    d: wrap_sub(x, y),
                    ram: s.ram.update(sp - 2, v).update(0, (sp - 1) as u16),
                },
            )
        }),
{
    let sp = stack_depth(s);
    lemma_cmp_effect(Cmp::Eq, env, s, id);
    lemma_wrap_sub_zero(s.ram[sp - 2], s.ram[sp - 1]);
}

/// Stack-depth law for the nine operators: on a machine whose stack lies
/// inside RAM and above the stack-pointer cell, the generated code of a
/// binary, bitwise or comparison operator terminates with the stack exactly
/// one slot shallower, and that of a unary operator with the depth
/// unchanged.
#[verifier::rlimit(100)]
pub proof fn lemma_arith_stack_depth(
    op: ArithmeticInstruction,
    env: Seq<StaticSlot>,
    s: MachV,
    id: u64,
)
    requires
        3 <= stack_depth(s),
        stack_depth(s) < s.ram.len(),
    ensures
        ({
            let p = arith_asm(op, id);
            match run(p, env, s, 0, p.len() as nat) {
                Some(m2) => m2.ram.len() == s.ram.len() && stack_depth(m2) == (
                if op == ArithmeticInstruction::Neg || op == ArithmeticInstruction::Not {
                    stack_depth(s)
                } else {
                    stack_depth(s) - 1
                }),
                None => false,
            }
        }),
{
    match op {
        ArithmeticInstruction::Add => lemma_binary_effect(op, env, s, id),
        ArithmeticInstruction::Sub => lemma_binary_effect(op, env, s, id),
        ArithmeticInstruction::And => lemma_bitwise_effect(op, env, s, id),
        ArithmeticInstruction::Or => lemma_bitwise_effect(op, env, s, id),
        ArithmeticInstruction::Neg => lemma_unary_effect(op, env, s, id),
        ArithmeticInstruction::Not => lemma_unary_effect(op, env, s, id),
        ArithmeticInstruction::Eq => lemma_cmp_effect(Cmp::Eq, env, s, id),
        ArithmeticInstruction::Gt => lemma_cmp_effect(Cmp::Gt, env, s, id),
        ArithmeticInstruction::Lt => lemma_cmp_effect(Cmp::Lt, env, s, id),
    }
}

/// Whether a push operates inside the machine model: the stack has room
/// below the end of RAM, and the addressed cell lies inside RAM.
pub open spec fn push_ok(m: AccessV, env: Seq<StaticSlot>, s: MachV) -> bool {
    let sp = stack_depth(s);
    &&& 1 <= sp
    &&& sp < s.ram.len()
    &&& match m.segment {
        SegV::Constant => true,
        SegV::Argument | SegV::Local | SegV::This | SegV::That => 4 < s.ram.len() && (wrap_add(
            s.ram[base_reg(m.segment)],
            lit16(m.index),
        ) as int) < s.ram.len(),
        SegV::Temp => (wrap_add(5, lit16(m.index)) as int) < s.ram.len(),
        SegV::Pointer => m.index <= 1 && 4 < s.ram.len(),
        SegV::Static(u) => match stat_lookup(env, u, m.index) {
            Some(addr) => (addr as int) < s.ram.len(),
            None => false,
        },
    }
}

/// Whether a pop operates inside the machine model: the stack holds a top
/// word clear of the cells the code itself uses, and the addressed cell
/// lies inside RAM and is not the stack-pointer cell.
pub open spec fn pop_ok(m: AccessV, env: Seq<StaticSlot>, s: MachV) -> bool {
    let sp = stack_depth(s);
    &&& 2 <= sp
    &&& sp <= s.ram.len()
    &&& match m.segment {
        SegV::Constant => false,
        SegV::Argument | SegV::Local | SegV::This | SegV::That => {
            let ea = wrap_add(s.ram[base_reg(m.segment)], lit16(m.index));
            sp != 14 && 13 < s.ram.len() && (ea as int) < s.ram.len() && ea != 0
        },
        SegV::Temp => {
            let ea = wrap_add(5, lit16(m.index));
            sp != 14 && 13 < s.ram.len() && (ea as int) < s.ram.len() && ea != 0
        },
        SegV::Pointer => m.index <= 1 && 4 < s.ram.len(),
        SegV::Static(u) => match stat_lookup(env, u, m.index) {
            Some(addr) => (addr as int) < s.ram.len() && addr != 0,
            None => false,
        },
    }
}

/// Stack-depth law for pushes: the generated code of any push terminates
/// with the stack exactly one slot deeper.
#[verifier::rlimit(100)]
pub proof fn lemma_push_stack_depth(m: AccessV, env: Seq<StaticSlot>, s: MachV)
    requires
        push_ok(m, env, s),
        stack_depth(s) < 0xFFFF,
    ensures
        ({
            let p = push_asm(m);
            match run(p, env, s, 0, p.len() as nat) {
                Some(m2) => m2.ram.len() == s.ram.len() && stack_depth(m2) == stack_depth(s) + 1,
                None => false,
            }
        }),
{
    lemma_wrap_add_small(s.ram[0], 1);
    match m.segment {
        SegV::Constant => lemma_push_constant_effect(env, s, m.index),
        SegV::Argument => lemma_push_indirect_effect(m.segment, env, s, m.index),
        SegV::Local => lemma_push_indirect_effect(m.segment, env, s, m.index),
        SegV::This => lemma_push_indirect_effect(m.segment, env, s, m.index),
        SegV::That => lemma_push_indirect_effect(m.segment, env, s, m.index),
        SegV::Temp => lemma_push_temp_effect(env, s, m.index),
        SegV::Pointer => lemma_push_pointer_effect(env, s, m.index),
        SegV::Static(u) => {
            match stat_lookup(env, u, m.index) {
                Some(addr) => lemma_push_static_effect(env, s, u, m.index, addr),
                None => assert(false),
            }
        },
    }
}

/// Stack-depth law for pops: the generated code of any pop terminates with
/// the stack exactly one slot shallower.
#[verifier::rlimit(100)]
pub proof fn lemma_pop_stack_depth(m: AccessV, env: Seq<StaticSlot>, s: MachV)
    requires
        pop_ok(m, env, s),
    ensures
        ({
            let p = pop_asm(m);
            match run(p, env, s, 0, p.len() as nat) {
                Some(m2) => m2.ram.len() == s.ram.len() && stack_depth(m2) == stack_depth(s) - 1,
                None => false,
            }
        }),
{
    match m.segment {
        SegV::Constant => assert(false),
        SegV::Argument => lemma_pop_indirect_effect(m.segment, env, s, m.index),
        SegV::Local => lemma_pop_indirect_effect(m.segment, env, s, m.index),
        SegV::This => lemma_pop_indirect_effect(m.segment, env, s, m.index),
        SegV::That => lemma_pop_indirect_effect(m.segment, env, s, m.index),
        SegV::Temp => lemma_pop_temp_effect(env, s, m.index),
        SegV::Pointer => lemma_pop_pointer_effect(env, s, m.index),
        SegV::Static(u) => {
            match stat_lookup(env, u, m.index) {
                Some(addr) => lemma_pop_static_effect(env, s, u, m.index, addr),
                None => assert(false),
            }
        },
    }
}

} // verus!

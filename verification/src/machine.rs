//! A model of the target machine, precise enough to give the generated
//! assembly sequences a semantics.
//!
//! The machine holds an address register `A`, a data register `D` and a RAM
//! of 16-bit words; `RAM[0]` is the stack pointer, which always designates
//! the next free slot above the top stack element.  A program is a sequence
//! of [`AsmInstr`] lines; a branch target line loads the position of the
//! matching label marker, and a static symbol resolves through a caller
//! supplied layout of static cells, as the target assembler would resolve
//! it.  Execution is defined by the spec functions [`step`] and [`run`];
//! [`simulate`] is their executable mirror.
//!
//! All arithmetic is 16-bit two's-complement wraparound; comparisons go by
//! the sign or zero test of a wrapping subtraction.

use vstd::prelude::*;
use crate::assembly::AsmInstr;
use crate::assembly::AsmV;
use crate::assembly::Cmp;
use crate::assembly::LabelKind;
use crate::assembly::TargetV;
use crate::assembly::Target;
use crate::assembly::prog_view;

verus! {

/// Machine state, spec level.
pub struct MachV {
    pub a: u16,
    pub d: u16,
    pub ram: Seq<u16>,
}

/// Machine state: the two registers and the RAM.
#[derive(Clone, Debug)]
pub struct Machine {
    pub a: u16,
    pub d: u16,
    pub ram: Vec<u16>,
}

impl View for Machine {
    type V = MachV;

    open spec fn view(&self) -> MachV {
        MachV { a: self.a, d: self.d, ram: self.ram@ }
    }
}

/// The RAM address the assembler assigns to one static variable.
#[derive(Clone, Debug)]
pub struct StaticSlot {
    pub unit: String,
    pub index: u32,
    pub addr: u16,
}

/// 16-bit wraparound sum.
pub open spec fn wrap_add(x: u16, y: u16) -> u16 {
    ((x + y) % 0x10000) as u16
}

/// 16-bit wraparound difference.
pub open spec fn wrap_sub(x: u16, y: u16) -> u16 {
    ((x + 0x10000 - y) % 0x10000) as u16
}

/// 16-bit wraparound negation.
pub open spec fn wrap_neg(x: u16) -> u16 {
    ((0x10000 - x) % 0x10000) as u16
}

/// 16-bit bitwise complement.
pub open spec fn wrap_not(x: u16) -> u16 {
    (0xFFFF - x) as u16
}

/// The signed reading of a 16-bit word.
pub open spec fn signed(x: u16) -> int {
    if x >= 0x8000 {
        x - 0x10000
    } else {
        x as int
    }
}

/// Whether a conditional jump on `D` is taken.
pub open spec fn jump_taken(c: Cmp, d: u16) -> bool {
    match c {
        Cmp::Eq => d == 0,
        Cmp::Gt => signed(d) > 0,
        Cmp::Lt => signed(d) < 0,
    }
}

/// The word an `@n` literal loads: the value modulo the word size.
pub open spec fn lit16(n: u32) -> u16 {
    (n % 0x10000) as u16
}

/// The address of the first static cell matching a symbol, if any.
pub open spec fn stat_lookup(env: Seq<StaticSlot>, unit: Seq<char>, index: u32) -> Option<u16>
    decreases env.len(),
{
    if env.len() == 0 {
        None
    } else if env[0].unit@ == unit && env[0].index == index {
        Some(env[0].addr)
    } else {
        stat_lookup(env.skip(1), unit, index)
    }
}

/// The position of the first matching label marker, or `-1`.
pub open spec fn find_mark(prog: Seq<AsmV>, c: Cmp, k: LabelKind, id: u64, from: int) -> int
    decreases prog.len() - from,
{
    if from < 0 || from >= prog.len() {
        -1
    } else if prog[from] == AsmV::Mark(c, k, id) {
        from
    } else {
        find_mark(prog, c, k, id, from + 1)
    }
}

/// The value an `@` line loads into `A`.
pub open spec fn target_value(prog: Seq<AsmV>, env: Seq<StaticSlot>, t: TargetV) -> Option<u16> {
    match t {
        TargetV::Sp => Some(0u16),
        TargetV::Lcl => Some(1u16),
        TargetV::Arg => Some(2u16),
        TargetV::This => Some(3u16),
        TargetV::That => Some(4u16),
        TargetV::R5 => Some(5u16),
        TargetV::R13 => Some(13u16),
        TargetV::Lit(n) => Some(lit16(n)),
        TargetV::Stat(u, i) => stat_lookup(env, u, i),
        TargetV::Branch(c, k, id) => {
            let p = find_mark(prog, c, k, id, 0);
            if 0 <= p <= 0xFFFF {
                Some(p as u16)
            } else {
                None
            }
        },
    }
}

/// The word at `RAM[a]`, or `None` when the address is out of range.
pub open spec fn ram_read(s: MachV, a: u16) -> Option<u16> {
    if (a as int) < s.ram.len() {
        Some(s.ram[a as int])
    } else {
        None
    }
}

/// The state with `RAM[A]` replaced.
pub open spec fn with_m(s: MachV, v: u16) -> MachV {
    MachV { a: s.a, d: s.d, ram: s.ram.update(s.a as int, v) }
}

/// The state with `A` replaced.
pub open spec fn with_a(s: MachV, v: u16) -> MachV {
    MachV { a: v, d: s.d, ram: s.ram }
}

/// The state with `D` replaced.
pub open spec fn with_d(s: MachV, v: u16) -> MachV {
    MachV { a: s.a, d: v, ram: s.ram }
}

/// One execution step at `pc`: the next state and program position, or
/// `None` when the machine is stuck (position or address out of range, or an
/// unresolvable symbol).
pub open spec fn step(prog: Seq<AsmV>, env: Seq<StaticSlot>, s: MachV, pc: int) -> Option<
    (MachV, int),
> {
    if pc < 0 || pc >= prog.len() {
        None
    } else {
        match prog[pc] {
            AsmV::At(t) => match target_value(prog, env, t) {
                Some(a) => Some((with_a(s, a), pc + 1)),
                None => None,
            },
            AsmV::AEqM => match ram_read(s, s.a) {
                Some(v) => Some((with_a(s, v), pc + 1)),
                None => None,
            },
            AsmV::AEqD => Some((with_a(s, s.d), pc + 1)),
            AsmV::AEqMMinus1 => match ram_read(s, s.a) {
                Some(v) => Some((with_a(s, wrap_sub(v, 1)), pc + 1)),
                None => None,
            },
            AsmV::AEqAMinus1 => Some((with_a(s, wrap_sub(s.a, 1)), pc + 1)),
            AsmV::AmEqMMinus1 => match ram_read(s, s.a) {
                Some(v) => Some((with_a(with_m(s, wrap_sub(v, 1)), wrap_sub(v, 1)), pc + 1)),
                None => None,
            },
            AsmV::DEqA => Some((with_d(s, s.a), pc + 1)),
            AsmV::DEqM => match ram_read(s, s.a) {
                Some(v) => Some((with_d(s, v), pc + 1)),
                None => None,
            },
            AsmV::DEqDPlusA => Some((with_d(s, wrap_add(s.d, s.a)), pc + 1)),
            AsmV::DEqMMinusD => match ram_read(s, s.a) {
                Some(v) => Some((with_d(s, wrap_sub(v, s.d)), pc + 1)),
                None => None,
            },
            AsmV::MEqD => match ram_read(s, s.a) {
                Some(_) => Some((with_m(s, s.d), pc + 1)),
                None => None,
            },
            AsmV::MEqMPlusD => match ram_read(s, s.a) {
                Some(v) => Some((with_m(s, wrap_add(v, s.d)), pc + 1)),
                None => None,
            },
            AsmV::MEqMMinusD => match ram_read(s, s.a) {
                Some(v) => Some((with_m(s, wrap_sub(v, s.d)), pc + 1)),
                None => None,
            },
            AsmV::MEqMPlus1 => match ram_read(s, s.a) {
                Some(v) => Some((with_m(s, wrap_add(v, 1)), pc + 1)),
                None => None,
            },
            AsmV::MEqMMinus1 => match ram_read(s, s.a) {
                Some(v) => Some((with_m(s, wrap_sub(v, 1)), pc + 1)),
                None => None,
            },
            AsmV::MEqNegM => match ram_read(s, s.a) {
                Some(v) => Some((with_m(s, wrap_neg(v)), pc + 1)),
                None => None,
            },
            AsmV::MEqNotM => match ram_read(s, s.a) {
                Some(v) => Some((with_m(s, wrap_not(v)), pc + 1)),
                None => None,
            },
            AsmV::MEqDAndM => match ram_read(s, s.a) {
                Some(v) => Some((with_m(s, s.d & v), pc + 1)),
                None => None,
            },
            AsmV::MEqDOrM => match ram_read(s, s.a) {
                Some(v) => Some((with_m(s, s.d | v), pc + 1)),
                None => None,
            },
            AsmV::MEqZero => match ram_read(s, s.a) {
                Some(_) => Some((with_m(s, 0u16), pc + 1)),
                None => None,
            },
            AsmV::MEqNegOne => match ram_read(s, s.a) {
                Some(_) => Some((with_m(s, 0xFFFFu16), pc + 1)),
                None => None,
            },
            AsmV::JumpCmp(c) => Some(
                (s, if jump_taken(c, s.d) {
                    s.a as int
                } else {
                    pc + 1
                }),
            ),
            AsmV::JumpAlways => Some((s, s.a as int)),
            AsmV::Mark(_, _, _) => Some((s, pc + 1)),
        }
    }
}

/// Runs from `pc` until the position one past the program's last line is
/// reached (normal termination), the machine sticks, or the fuel is spent.
pub open spec fn run(
    prog: Seq<AsmV>,
    env: Seq<StaticSlot>,
    s: MachV,
    pc: int,
    fuel: nat,
) -> Option<MachV>
    decreases fuel,
{
    if pc == prog.len() {
        Some(s)
    } else if fuel == 0 {
        None
    } else {
        match step(prog, env, s, pc) {
            Some((s2, pc2)) => run(prog, env, s2, pc2, (fuel - 1) as nat),
            None => None,
        }
    }
}

/// Looks up the address assigned to a static symbol.
fn lookup_static(env: &Vec<StaticSlot>, unit: &String, index: u32) -> (r: Option<u16>)
    ensures
        r == stat_lookup(env@, unit@, index),
{
    proof {
        assert(env@.skip(0) =~= env@);
    }
    let n = env.len();
    let mut i: usize = 0;
    while i < n
        invariant
            0 <= i <= n,
            n == env@.len(),
            stat_lookup(env@, unit@, index) == stat_lookup(env@.skip(i as int), unit@, index),
        decreases n - i,
    {
        let slot = &env[i];
        if slot.unit == *unit && slot.index == index {
            proof {
                assert(env@.skip(i as int)[0] == env@[i as int]);
            }
            return Some(slot.addr);
        }
        proof {
            assert(env@.skip(i as int)[0] == env@[i as int]);
            assert(env@.skip(i as int).skip(1) =~= env@.skip(i as int + 1));
        }
        i += 1;
    }
    proof {
        assert(env@.skip(i as int).len() == 0);
    }
    None
}

/// Finds the position of the first matching label marker.
fn find_mark_at(prog: &Vec<AsmInstr>, c: Cmp, k: LabelKind, id: u64) -> (r: Option<usize>)
    ensures
        match r {
            Some(p) => find_mark(prog_view(prog@), c, k, id, 0) == p as int,
            None => find_mark(prog_view(prog@), c, k, id, 0) == -1,
        },
{
    let n = prog.len();
    let mut i: usize = 0;
    while i < n
        invariant
            0 <= i <= n,
            n == prog@.len(),
            find_mark(prog_view(prog@), c, k, id, 0) == find_mark(
                prog_view(prog@),
                c,
                k,
                id,
                i as int,
            ),
        decreases n - i,
    {
        let hit = match &prog[i] {
            AsmInstr::Mark(c2, k2, id2) => *c2 == c && *k2 == k && *id2 == id,
            _ => false,
        };
        proof {
            assert(prog_view(prog@)[i as int] == prog@[i as int]@);
        }
        if hit {
            return Some(i);
        }
        i += 1;
    }
    None
}

/// The value an `@` line loads into `A`.
fn target_value_at(prog: &Vec<AsmInstr>, env: &Vec<StaticSlot>, t: &Target) -> (r: Option<u16>)
    ensures
        r == target_value(prog_view(prog@), env@, t@),
{
    match t {
        Target::Sp => Some(0),
        Target::Lcl => Some(1),
        Target::Arg => Some(2),
        Target::This => Some(3),
        Target::That => Some(4),
        Target::R5 => Some(5),
        Target::R13 => Some(13),
        Target::Lit(n) => Some((*n % 0x10000) as u16),
        Target::Stat(u, i) => lookup_static(env, u, *i),
        Target::Branch(c, k, id) => {
            match find_mark_at(prog, *c, *k, *id) {
                Some(p) => {
                    if p <= 0xFFFF {
                        Some(p as u16)
                    } else {
                        None
                    }
                },
                None => None,
            }
        },
    }
}

/// One executable step; mirrors [`step`].
fn step_at(prog: &Vec<AsmInstr>, env: &Vec<StaticSlot>, m: Machine, pc: usize) -> (r: Option<
    (Machine, usize),
>)
    ensures
        match r {
            Some(p) => step(prog_view(prog@), env@, m@, pc as int) == Some((p.0@, p.1 as int)),
            None => step(prog_view(prog@), env@, m@, pc as int) is None,
        },
{
    if pc >= prog.len() {
        return None;
    }
    proof {
        assert(prog_view(prog@)[pc as int] == prog@[pc as int]@);
    }
    let a = m.a;
    let d = m.d;
    let in_range = (a as usize) < m.ram.len();
    match &prog[pc] {
        AsmInstr::At(t) => {
            match target_value_at(prog, env, t) {
                Some(v) => Some((Machine { a: v, ..m }, pc + 1)),
                None => None,
            }
        },
        AsmInstr::AEqM => {
            if in_range {
                let v = m.ram[a as usize];
                Some((Machine { a: v, ..m }, pc + 1))
            } else {
                None
            }
        },
        AsmInstr::AEqD => Some((Machine { a: d, ..m }, pc + 1)),
        AsmInstr::AEqMMinus1 => {
            if in_range {
                let v = m.ram[a as usize];
                Some((Machine { a: wrap_sub_at(v, 1), ..m }, pc + 1))
            } else {
                None
            }
        },
        AsmInstr::AEqAMinus1 => Some((Machine { a: wrap_sub_at(a, 1), ..m }, pc + 1)),
        AsmInstr::AmEqMMinus1 => {
            if in_range {
                let mut m2 = m;
                let v = m2.ram[a as usize];
                let w = wrap_sub_at(v, 1);
                m2.ram[a as usize] = w;
                m2.a = w;
                Some((m2, pc + 1))
            } else {
                None
            }
        },
        AsmInstr::DEqA => Some((Machine { d: a, ..m }, pc + 1)),
        AsmInstr::DEqM => {
            if in_range {
                let v = m.ram[a as usize];
                Some((Machine { d: v, ..m }, pc + 1))
            } else {
                None
            }
        },
        AsmInstr::DEqDPlusA => Some((Machine { d: wrap_add_at(d, a), ..m }, pc + 1)),
        AsmInstr::DEqMMinusD => {
            if in_range {
                let v = m.ram[a as usize];
                Some((Machine { d: wrap_sub_at(v, d), ..m }, pc + 1))
            } else {
                None
            }
        },
        AsmInstr::MEqD => {
            if in_range {
                let mut m2 = m;
                m2.ram[a as usize] = d;
                Some((m2, pc + 1))
            } else {
                None
            }
        },
        AsmInstr::MEqMPlusD => {
            if in_range {
                let mut m2 = m;
                let v = m2.ram[a as usize];
                m2.ram[a as usize] = wrap_add_at(v, d);
                Some((m2, pc + 1))
            } else {
                None
            }
        },
        AsmInstr::MEqMMinusD => {
            if in_range {
                let mut m2 = m;
                let v = m2.ram[a as usize];
                m2.ram[a as usize] = wrap_sub_at(v, d);
                Some((m2, pc + 1))
            } else {
                None
            }
        },
        AsmInstr::MEqMPlus1 => {
            if in_range {
                let mut m2 = m;
                let v = m2.ram[a as usize];
                m2.ram[a as usize] = wrap_add_at(v, 1);
                Some((m2, pc + 1))
            } else {
                None
            }
        },
        AsmInstr::MEqMMinus1 => {
            if in_range {
                let mut m2 = m;
                let v = m2.ram[a as usize];
                m2.ram[a as usize] = wrap_sub_at(v, 1);
                Some((m2, pc + 1))
            } else {
                None
            }
        },
        AsmInstr::MEqNegM => {
            if in_range {
                let mut m2 = m;
                let v = m2.ram[a as usize];
                m2.ram[a as usize] = wrap_neg_at(v);
                Some((m2, pc + 1))
            } else {
                None
            }
        },
        AsmInstr::MEqNotM => {
            if in_range {
                let mut m2 = m;
                let v = m2.ram[a as usize];
                m2.ram[a as usize] = 0xFFFF - v;
                Some((m2, pc + 1))
            } else {
                None
            }
        },
        AsmInstr::MEqDAndM => {
            if in_range {
                let mut m2 = m;
                let v = m2.ram[a as usize];
                m2.ram[a as usize] = d & v;
                Some((m2, pc + 1))
            } else {
                None
            }
        },
        AsmInstr::MEqDOrM => {
            if in_range {
                let mut m2 = m;
                let v = m2.ram[a as usize];
                m2.ram[a as usize] = d | v;
                Some((m2, pc + 1))
            } else {
                None
            }
        },
        AsmInstr::MEqZero => {
            if in_range {
                let mut m2 = m;
                m2.ram[a as usize] = 0;
                Some((m2, pc + 1))
            } else {
                None
            }
        },
        AsmInstr::MEqNegOne => {
            if in_range {
                let mut m2 = m;
                m2.ram[a as usize] = 0xFFFF;
                Some((m2, pc + 1))
            } else {
                None
            }
        },
        AsmInstr::JumpCmp(c) => {
            let taken = match c {
                Cmp::Eq => d == 0,
                Cmp::Gt => d != 0 && d < 0x8000,
                Cmp::Lt => d >= 0x8000,
            };
            if taken {
                Some((m, a as usize))
            } else {
                Some((m, pc + 1))
            }
        },
        AsmInstr::JumpAlways => Some((m, a as usize)),
        AsmInstr::Mark(_, _, _) => Some((m, pc + 1)),
    }
}

/// 16-bit wraparound sum, executable.
pub fn wrap_add_at(x: u16, y: u16) -> (r: u16)
    ensures
        r == wrap_add(x, y),
{
    (((x as u32) + (y as u32)) % 0x10000) as u16
}

/// 16-bit wraparound difference, executable.
pub fn wrap_sub_at(x: u16, y: u16) -> (r: u16)
    ensures
        r == wrap_sub(x, y),
{
    (((x as u32) + 0x10000 - (y as u32)) % 0x10000) as u16
}

/// 16-bit wraparound negation, executable.
pub fn wrap_neg_at(x: u16) -> (r: u16)
    ensures
        r == wrap_neg(x),
{
    ((0x10000 - (x as u32)) % 0x10000) as u16
}

/// Runs a program on a machine; mirrors [`run`].  The static layout `env`
/// assigns RAM addresses to the static symbols the program may name.
pub fn simulate(
    prog: &Vec<AsmInstr>,
    env: &Vec<StaticSlot>,
    m: Machine,
    pc: usize,
    fuel: u64,
) -> (r: Option<Machine>)
    ensures
        match r {
            Some(m2) => run(prog_view(prog@), env@, m@, pc as int, fuel as nat) == Some(m2@),
            None => run(prog_view(prog@), env@, m@, pc as int, fuel as nat) is None,
        },
    decreases fuel,
{
    if pc == prog.len() {
        Some(m)
    } else if fuel == 0 {
        None
    } else {
        match step_at(prog, env, m, pc) {
            Some(next) => {
                let (m2, pc2) = next;
                simulate(prog, env, m2, pc2, fuel - 1)
            },
            None => None,
        }
    }
}

} // verus!

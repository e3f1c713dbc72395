//! The instruction model: typed VM instructions and the parsing of one
//! source line into an instruction value.
//!
//! A line is split on whitespace.  A single token must be one of the nine
//! fixed operator names; three tokens must be `push`/`pop`, a recognized
//! segment keyword and an unsigned decimal index.  Every failure is reported
//! as a distinct [`ParseError`] carrying the offending line's text.

use vstd::prelude::*;
use vstd::string::StrSliceExecFns;

verus! {

/// Whitespace for the purpose of token splitting and line trimming.
pub open spec fn is_space(c: char) -> bool {
    c == ' ' || c == '\t' || c == '\n' || c == '\r' || c == '\u{0B}' || c == '\u{0C}'
}

/// Executable twin of [`is_space`].
pub fn is_space_char(c: char) -> (r: bool)
    ensures
        r == is_space(c),
{
    c == ' ' || c == '\t' || c == '\n' || c == '\r' || c == '\u{0B}' || c == '\u{0C}'
}

/// Length of the maximal non-whitespace run at the start of `s`.
pub open spec fn token_len(s: Seq<char>) -> int
    decreases s.len(),
{
    if s.len() == 0 || is_space(s[0]) {
        0
    } else {
        1 + token_len(s.skip(1))
    }
}

pub proof fn lemma_token_len_bounds(s: Seq<char>)
    ensures
        0 <= token_len(s) <= s.len(),
    decreases s.len(),
{
    if s.len() > 0 && !is_space(s[0]) {
        lemma_token_len_bounds(s.skip(1));
    }
}

/// The first token's length is the first whitespace position (or the length).
pub proof fn lemma_token_len_is(s: Seq<char>, k: int)
    requires
        0 <= k <= s.len(),
        forall|m: int| 0 <= m < k ==> !is_space(s[m]),
        k == s.len() || is_space(s[k]),
    ensures
        token_len(s) == k,
    decreases k,
{
    if k == 0 {
    } else {
        assert(!is_space(s[0]));
        lemma_token_len_is(s.skip(1), k - 1);
    }
}

/// The whitespace-separated tokens of a line, in order.
pub open spec fn tokenize_spec(s: Seq<char>) -> Seq<Seq<char>>
    decreases s.len(),
    via tokenize_spec_decreases
{
    if s.len() == 0 {
        Seq::empty()
    } else if is_space(s[0]) {
        tokenize_spec(s.skip(1))
    } else {
        seq![s.take(token_len(s))] + tokenize_spec(s.skip(token_len(s)))
    }
}

#[via_fn]
proof fn tokenize_spec_decreases(s: Seq<char>) {
    lemma_token_len_bounds(s);
    if s.len() > 0 && !is_space(s[0]) {
        lemma_token_len_bounds(s.skip(1));
        assert(token_len(s) >= 1);
    }
}

/// End of the token that starts at or after `j`: the first whitespace
/// position at or after `j`, or the end of the line.
fn token_end(line: &str, j: usize) -> (r: usize)
    requires
        j <= line@.len(),
    ensures
        j <= r <= line@.len(),
        forall|k: int| j <= k < r ==> !is_space(line@[k]),
        r < line@.len() ==> is_space(line@[r as int]),
    decreases line@.len() - j,
{
    let n = line.unicode_len();
    if j == n {
        j
    } else {
        let c = line.get_char(j);
        if is_space_char(c) {
            j
        } else {
            token_end(line, j + 1)
        }
    }
}

/// Splits a line into its whitespace-separated tokens.
pub fn tokenize(line: &str) -> (r: Vec<String>)
    ensures
        r.deep_view() == tokenize_spec(line@),
{
    let r = tokenize_from(line, 0);
    proof {
        assert(line@.skip(0) =~= line@);
    }
    r
}

fn tokenize_from(line: &str, i: usize) -> (r: Vec<String>)
    requires
        i <= line@.len(),
    ensures
        r.deep_view() == tokenize_spec(line@.skip(i as int)),
    decreases line@.len() - i,
{
    let n = line.unicode_len();
    if i == n {
        let v: Vec<String> = Vec::new();
        proof {
            assert(line@.skip(i as int) =~= Seq::<char>::empty());
            assert(v.deep_view() =~= tokenize_spec(line@.skip(i as int)));
        }
        v
    } else {
        let c = line.get_char(i);
        if is_space_char(c) {
            let r = tokenize_from(line, i + 1);
            proof {
                let s = line@.skip(i as int);
                assert(s[0] == line@[i as int]);
                assert(s.skip(1) =~= line@.skip(i as int + 1));
            }
            r
        } else {
            let j = token_end(line, i);
            proof {
                let s = line@.skip(i as int);
                assert(s[0] == line@[i as int]);
                assert forall|m: int| 0 <= m < j - i implies !is_space(s[m]) by {
                    assert(s[m] == line@[i + m]);
                }
                if j < line@.len() {
                    assert(s[j - i] == line@[j as int]);
                }
                lemma_token_len_is(s, j - i);
            }
            let tok = line.substring_char(i, j).to_owned();
            let mut rest = tokenize_from(line, j);
            let ghost rest_deep = rest.deep_view();
            let mut v: Vec<String> = Vec::new();
            v.push(tok);
            v.append(&mut rest);
            proof {
                let s = line@.skip(i as int);
                assert(s.take(j - i) =~= line@.subrange(i as int, j as int));
                assert(s.skip(j - i) =~= line@.skip(j as int));
                assert(v.deep_view() =~= seq![line@.subrange(i as int, j as int)] + rest_deep);
            }
            v
        }
    }
}

/// The nine operators that work on the top of the stack alone.
#[derive(Clone, Copy, Debug, PartialEq, Eq, Structural)]
pub enum ArithmeticInstruction {
    Add,
    Sub,
    Neg,
    Eq,
    Gt,
    Lt,
    And,
    Or,
    Not,
}

/// A memory segment named by a push or pop instruction.  The `static`
/// segment carries the name of the source unit the instruction came from, so
/// that code generation can form a globally unique symbol.
#[derive(Clone, Debug)]
pub enum MemorySegment {
    Argument,
    Local,
    Static(String),
    Constant,
    This,
    That,
    Pointer,
    Temp,
}

/// Spec twin of [`MemorySegment`].
pub enum SegV {
    Argument,
    Local,
    Static(Seq<char>),
    Constant,
    This,
    That,
    Pointer,
    Temp,
}

impl View for MemorySegment {
    type V = SegV;

    open spec fn view(&self) -> SegV {
        match self {
            MemorySegment::Argument => SegV::Argument,
            MemorySegment::Local => SegV::Local,
            MemorySegment::Static(unit) => SegV::Static(unit@),
            MemorySegment::Constant => SegV::Constant,
            MemorySegment::This => SegV::This,
            MemorySegment::That => SegV::That,
            MemorySegment::Pointer => SegV::Pointer,
            MemorySegment::Temp => SegV::Temp,
        }
    }
}

/// The operand of a push or pop: a segment and a non-negative index.
#[derive(Clone, Debug)]
pub struct MemoryAccess {
    pub segment: MemorySegment,
    pub index: u32,
}

/// Spec twin of [`MemoryAccess`].
pub struct AccessV {
    pub segment: SegV,
    pub index: u32,
}

impl View for MemoryAccess {
    type V = AccessV;

    open spec fn view(&self) -> AccessV {
        AccessV { segment: self.segment@, index: self.index }
    }
}

impl MemoryAccess {
    pub fn new(segment: MemorySegment, index: u32) -> (r: Self)
        ensures
            r.segment == segment,
            r.index == index,
    {
        Self { segment, index }
    }
}

/// One VM instruction.
#[derive(Clone, Debug)]
pub enum VMInstruction {
    Arithmetic(ArithmeticInstruction),
    Push(MemoryAccess),
    Pop(MemoryAccess),
}

/// Spec twin of [`VMInstruction`].
pub enum InstrV {
    Arithmetic(ArithmeticInstruction),
    Push(AccessV),
    Pop(AccessV),
}

impl View for VMInstruction {
    type V = InstrV;

    open spec fn view(&self) -> InstrV {
        match self {
            VMInstruction::Arithmetic(op) => InstrV::Arithmetic(*op),
            VMInstruction::Push(m) => InstrV::Push(m@),
            VMInstruction::Pop(m) => InstrV::Pop(m@),
        }
    }
}

/// A parse failure; every variant carries the offending line's text.
#[derive(Clone, Debug)]
pub enum ParseError {
    /// A single-token line that is none of the nine operator names, or a
    /// three-token line whose first token is neither `push` nor `pop`.
    UnrecognizedOperator(String),
    /// A segment keyword that is none of the eight recognized names.
    UnrecognizedSegment(String),
    /// An index that is empty, non-numeric or too large for 32 bits.
    MalformedIndex(String),
    /// A token count other than one or three.
    UnsupportedArity(String),
    /// A pop into the constant segment.
    InvalidSegmentForOperation(String),
}

/// Spec twin of [`ParseError`].
pub enum ParseErrV {
    UnrecognizedOperator(Seq<char>),
    UnrecognizedSegment(Seq<char>),
    MalformedIndex(Seq<char>),
    UnsupportedArity(Seq<char>),
    InvalidSegmentForOperation(Seq<char>),
}

impl View for ParseError {
    type V = ParseErrV;

    open spec fn view(&self) -> ParseErrV {
        match self {
            ParseError::UnrecognizedOperator(l) => ParseErrV::UnrecognizedOperator(l@),
            ParseError::UnrecognizedSegment(l) => ParseErrV::UnrecognizedSegment(l@),
            ParseError::MalformedIndex(l) => ParseErrV::MalformedIndex(l@),
            ParseError::UnsupportedArity(l) => ParseErrV::UnsupportedArity(l@),
            ParseError::InvalidSegmentForOperation(l) => ParseErrV::InvalidSegmentForOperation(l@),
        }
    }
}

/// The operator a single token names, if any.
pub open spec fn op_of(t: Seq<char>) -> Option<ArithmeticInstruction> {
    if t == seq!['a', 'd', 'd'] {
        Some(ArithmeticInstruction::Add)
    } else if t == seq!['s', 'u', 'b'] {
        Some(ArithmeticInstruction::Sub)
    } else if t == seq!['n', 'e', 'g'] {
        Some(ArithmeticInstruction::Neg)
    } else if t == seq!['e', 'q'] {
        Some(ArithmeticInstruction::Eq)
    } else if t == seq!['g', 't'] {
        Some(ArithmeticInstruction::Gt)
    } else if t == seq!['l', 't'] {
        Some(ArithmeticInstruction::Lt)
    } else if t == seq!['a', 'n', 'd'] {
        Some(ArithmeticInstruction::And)
    } else if t == seq!['o', 'r'] {
        Some(ArithmeticInstruction::Or)
    } else if t == seq!['n', 'o', 't'] {
        Some(ArithmeticInstruction::Not)
    } else {
        None
    }
}

/// The segment a keyword token names, if any; a `static` access carries the
/// source unit's name.
pub open spec fn seg_of(t: Seq<char>, unit: Seq<char>) -> Option<SegV> {
    if t == seq!['l', 'o', 'c', 'a', 'l'] {
        Some(SegV::Local)
    } else if t == seq!['a', 'r', 'g', 'u', 'm', 'e', 'n', 't'] {
        Some(SegV::Argument)
    } else if t == seq!['t', 'h', 'i', 's'] {
        Some(SegV::This)
    } else if t == seq!['t', 'h', 'a', 't'] {
        Some(SegV::That)
    } else if t == seq!['c', 'o', 'n', 's', 't', 'a', 'n', 't'] {
        Some(SegV::Constant)
    } else if t == seq!['s', 't', 'a', 't', 'i', 'c'] {
        Some(SegV::Static(unit))
    } else if t == seq!['p', 'o', 'i', 'n', 't', 'e', 'r'] {
        Some(SegV::Pointer)
    } else if t == seq!['t', 'e', 'm', 'p'] {
        Some(SegV::Temp)
    } else {
        None
    }
}

pub open spec fn is_digit(c: char) -> bool {
    48 <= (c as u32) && (c as u32) <= 57
}

pub open spec fn digit_val(c: char) -> int {
    (c as u32) - 48
}

pub open spec fn all_digits(t: Seq<char>) -> bool {
    forall|k: int| 0 <= k < t.len() ==> is_digit(t[k])
}

/// The value of a digit string, most significant digit first.
pub open spec fn dec_value(t: Seq<char>) -> int
    decreases t.len(),
{
    if t.len() == 0 {
        0
    } else {
        dec_value(t.drop_last()) * 10 + digit_val(t.last())
    }
}

/// A token is a well-formed index iff it is a non-empty digit string whose
/// value fits in 32 bits.
pub open spec fn valid_index(t: Seq<char>) -> bool {
    t.len() >= 1 && all_digits(t) && dec_value(t) < 0x1_0000_0000
}

pub proof fn lemma_dec_value_nonneg(t: Seq<char>)
    requires
        all_digits(t),
    ensures
        dec_value(t) >= 0,
    decreases t.len(),
{
    if t.len() > 0 {
        assert(all_digits(t.drop_last()));
        lemma_dec_value_nonneg(t.drop_last());
    }
}

/// For digit strings, the value of a prefix never exceeds the whole value.
pub proof fn lemma_dec_value_prefix(t: Seq<char>, k: int)
    requires
        all_digits(t),
        0 <= k <= t.len(),
    ensures
        dec_value(t.take(k)) <= dec_value(t),
    decreases t.len(),
{
    if k == t.len() {
        assert(t.take(k) =~= t);
    } else {
        assert(all_digits(t.drop_last()));
        lemma_dec_value_nonneg(t.drop_last());
        lemma_dec_value_prefix(t.drop_last(), k);
        assert(t.drop_last().take(k) =~= t.take(k));
    }
}

/// Parses a token as an unsigned decimal index.
pub fn parse_index(t: &String) -> (r: Option<u32>)
    ensures
        match r {
            Some(v) => valid_index(t@) && v as int == dec_value(t@),
            None => !valid_index(t@),
        },
{
    let s = t.as_str();
    let n = s.unicode_len();
    if n == 0 {
        return None;
    }
    let mut val: u32 = 0;
    let mut i: usize = 0;
    while i < n
        invariant
            0 <= i <= n,
            n == t@.len(),
            s@ == t@,
            forall|k: int| 0 <= k < i ==> is_digit(t@[k]),
            val as int == dec_value(t@.take(i as int)),
        decreases n - i,
    {
        let c = s.get_char(i);
        let u = c as u32;
        if u < 48 || u > 57 {
            proof {
                assert(!is_digit(t@[i as int]));
            }
            return None;
        }
        let d = u - 48;
        if val > (u32::MAX - d) / 10 {
            proof {
                vstd::arithmetic::div_mod::lemma_fundamental_div_mod(
                    (u32::MAX - d) as int,
                    10,
                );
                assert(val * 10 + d > u32::MAX);
                assert(t@.take(i as int + 1).drop_last() =~= t@.take(i as int));
                assert(t@.take(i as int + 1).last() == t@[i as int]);
                assert(dec_value(t@.take(i as int + 1)) == val * 10 + d);
                if all_digits(t@) {
                    lemma_dec_value_prefix(t@, i as int + 1);
                    assert(dec_value(t@) > u32::MAX);
                }
            }
            return None;
        }
        proof {
            assert(t@.take(i as int + 1).drop_last() =~= t@.take(i as int));
            assert(t@.take(i as int + 1).last() == t@[i as int]);
        }
        val = val * 10 + d;
        i += 1;
    }
    proof {
        assert(t@.take(n as int) =~= t@);
    }
    Some(val)
}

/// String equality against a keyword.
fn is_tok(t: &String, s: &str) -> (r: bool)
    ensures
        r == (t@ == s@),
{
    let s2 = s.to_owned();
    *t == s2
}

/// The operator a token names, if any.
fn match_op(t: &String) -> (r: Option<ArithmeticInstruction>)
    ensures
        r == op_of(t@),
{
    proof {
        reveal_strlit("add");
        reveal_strlit("sub");
        reveal_strlit("neg");
        reveal_strlit("eq");
        reveal_strlit("gt");
        reveal_strlit("lt");
        reveal_strlit("and");
        reveal_strlit("or");
        reveal_strlit("not");
        assert("add"@ =~= seq!['a', 'd', 'd']);
        assert("sub"@ =~= seq!['s', 'u', 'b']);
        assert("neg"@ =~= seq!['n', 'e', 'g']);
        assert("eq"@ =~= seq!['e', 'q']);
        assert("gt"@ =~= seq!['g', 't']);
        assert("lt"@ =~= seq!['l', 't']);
        assert("and"@ =~= seq!['a', 'n', 'd']);
        assert("or"@ =~= seq!['o', 'r']);
        assert("not"@ =~= seq!['n', 'o', 't']);
    }
    if is_tok(t, "add") {
        Some(ArithmeticInstruction::Add)
    } else if is_tok(t, "sub") {
        Some(ArithmeticInstruction::Sub)
    } else if is_tok(t, "neg") {
        Some(ArithmeticInstruction::Neg)
    } else if is_tok(t, "eq") {
        Some(ArithmeticInstruction::Eq)
    } else if is_tok(t, "gt") {
        Some(ArithmeticInstruction::Gt)
    } else if is_tok(t, "lt") {
        Some(ArithmeticInstruction::Lt)
    } else if is_tok(t, "and") {
        Some(ArithmeticInstruction::And)
    } else if is_tok(t, "or") {
        Some(ArithmeticInstruction::Or)
    } else if is_tok(t, "not") {
        Some(ArithmeticInstruction::Not)
    } else {
        None
    }
}

/// The segment a keyword token names, if any.
fn match_seg(t: &String, filename: &str) -> (r: Option<MemorySegment>)
    ensures
        match r {
            Some(seg) => seg_of(t@, filename@) == Some(seg@),
            None => seg_of(t@, filename@) is None,
        },
{
    proof {
        reveal_strlit("local");
        reveal_strlit("argument");
        reveal_strlit("this");
        reveal_strlit("that");
        reveal_strlit("constant");
        reveal_strlit("static");
        reveal_strlit("pointer");
        reveal_strlit("temp");
        assert("local"@ =~= seq!['l', 'o', 'c', 'a', 'l']);
        assert("argument"@ =~= seq!['a', 'r', 'g', 'u', 'm', 'e', 'n', 't']);
        assert("this"@ =~= seq!['t', 'h', 'i', 's']);
        assert("that"@ =~= seq!['t', 'h', 'a', 't']);
        assert("constant"@ =~= seq!['c', 'o', 'n', 's', 't', 'a', 'n', 't']);
        assert("static"@ =~= seq!['s', 't', 'a', 't', 'i', 'c']);
        assert("pointer"@ =~= seq!['p', 'o', 'i', 'n', 't', 'e', 'r']);
        assert("temp"@ =~= seq!['t', 'e', 'm', 'p']);
    }
    if is_tok(t, "local") {
        Some(MemorySegment::Local)
    } else if is_tok(t, "argument") {
        Some(MemorySegment::Argument)
    } else if is_tok(t, "this") {
        Some(MemorySegment::This)
    } else if is_tok(t, "that") {
        Some(MemorySegment::That)
    } else if is_tok(t, "constant") {
        Some(MemorySegment::Constant)
    } else if is_tok(t, "static") {
        Some(MemorySegment::Static(filename.to_owned()))
    } else if is_tok(t, "pointer") {
        Some(MemorySegment::Pointer)
    } else if is_tok(t, "temp") {
        Some(MemorySegment::Temp)
    } else {
        None
    }
}

/// The parse result of one line, over character sequences.
pub open spec fn parse_spec(line: Seq<char>, unit: Seq<char>) -> Result<InstrV, ParseErrV> {
    let toks = tokenize_spec(line);
    if toks.len() == 1 {
        match op_of(toks[0]) {
            Some(op) => Ok(InstrV::Arithmetic(op)),
            None => Err(ParseErrV::UnrecognizedOperator(line)),
        }
    } else if toks.len() == 3 {
        let is_push = toks[0] == seq!['p', 'u', 's', 'h'];
        let is_pop = toks[0] == seq!['p', 'o', 'p'];
        if !is_push && !is_pop {
            Err(ParseErrV::UnrecognizedOperator(line))
        } else {
            match seg_of(toks[1], unit) {
                None => Err(ParseErrV::UnrecognizedSegment(line)),
                Some(seg) => if !valid_index(toks[2]) {
                    Err(ParseErrV::MalformedIndex(line))
                } else if is_pop && seg is Constant {
                    Err(ParseErrV::InvalidSegmentForOperation(line))
                } else {
                    let m = AccessV { segment: seg, index: dec_value(toks[2]) as u32 };
                    if is_push {
                        Ok(InstrV::Push(m))
                    } else {
                        Ok(InstrV::Pop(m))
                    }
                },
            }
        }
    } else {
        Err(ParseErrV::UnsupportedArity(line))
    }
}

/// The view of a parse result.
pub open spec fn res_view(r: Result<VMInstruction, ParseError>) -> Result<InstrV, ParseErrV> {
    match r {
        Ok(i) => Ok(i@),
        Err(e) => Err(e@),
    }
}

impl VMInstruction {
    /// Parses one non-empty, non-comment source line into an instruction;
    /// `filename` names the source unit, which scopes `static` accesses.
    pub fn parse_from_line(line: &str, filename: &str) -> (r: Result<VMInstruction, ParseError>)
        ensures
            res_view(r) == parse_spec(line@, filename@),
    {
        let toks = tokenize(line);
        if toks.len() == 1 {
            match match_op(&toks[0]) {
                Some(op) => Ok(VMInstruction::Arithmetic(op)),
                None => Err(ParseError::UnrecognizedOperator(line.to_owned())),
            }
        } else if toks.len() == 3 {
            proof {
                reveal_strlit("push");
                reveal_strlit("pop");
                assert("push"@ =~= seq!['p', 'u', 's', 'h']);
                assert("pop"@ =~= seq!['p', 'o', 'p']);
            }
            let is_push = is_tok(&toks[0], "push");
            let is_pop = is_tok(&toks[0], "pop");
            if !is_push && !is_pop {
                return Err(ParseError::UnrecognizedOperator(line.to_owned()));
            }
            match match_seg(&toks[1], filename) {
                None => Err(ParseError::UnrecognizedSegment(line.to_owned())),
                Some(seg) => {
                    match parse_index(&toks[2]) {
                        None => Err(ParseError::MalformedIndex(line.to_owned())),
                        Some(index) => {
                            let seg_is_const = match &seg {
                                MemorySegment::Constant => true,
                                _ => false,
                            };
                            if is_pop && seg_is_const {
                                Err(ParseError::InvalidSegmentForOperation(line.to_owned()))
                            } else if is_push {
                                Ok(VMInstruction::Push(MemoryAccess::new(seg, index)))
                            } else {
                                Ok(VMInstruction::Pop(MemoryAccess::new(seg, index)))
                            }
                        },
                    }
                },
            }
        } else {
            Err(ParseError::UnsupportedArity(line.to_owned()))
        }
    }
}

} // verus!

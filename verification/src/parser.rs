//! The command reader: walks the lines of one source unit, skips blank and
//! whole-line comment lines, and parses the current content line.
//!
//! A line is non-content exactly when it is empty or whitespace-only, or
//! when it begins with two slashes in its first two columns.  Only such
//! whole-line comments are recognized; a trailing comment after a command is
//! not filtered.

use vstd::prelude::*;
use vstd::string::StrSliceExecFns;
use crate::instruction::ParseError;
use crate::instruction::VMInstruction;
use crate::instruction::is_space;
use crate::instruction::is_space_char;
use crate::instruction::parse_spec;
use crate::instruction::res_view;

verus! {

/// What remains of a line after removing leading whitespace.
pub open spec fn trim_front(s: Seq<char>) -> Seq<char>
    decreases s.len(),
{
    if s.len() > 0 && is_space(s[0]) {
        trim_front(s.skip(1))
    } else {
        s
    }
}

/// What remains of a line after removing trailing whitespace.
pub open spec fn trim_back(s: Seq<char>) -> Seq<char>
    decreases s.len(),
{
    if s.len() > 0 && is_space(s.last()) {
        trim_back(s.drop_last())
    } else {
        s
    }
}

/// What remains of a line after removing whitespace on both ends.
pub open spec fn trim_spec(s: Seq<char>) -> Seq<char> {
    trim_back(trim_front(s))
}

proof fn lemma_trim_front_is(s: Seq<char>, i: int)
    requires
        0 <= i <= s.len(),
        forall|k: int| 0 <= k < i ==> is_space(s[k]),
        i == s.len() || !is_space(s[i]),
    ensures
        trim_front(s) == s.skip(i),
    decreases i,
{
    if i == 0 {
        assert(s.skip(0) =~= s);
    } else {
        assert(is_space(s[0]));
        lemma_trim_front_is(s.skip(1), i - 1);
        assert(s.skip(1).skip(i - 1) =~= s.skip(i));
    }
}

proof fn lemma_trim_back_is(s: Seq<char>, j: int)
    requires
        0 <= j <= s.len(),
        forall|k: int| j <= k < s.len() ==> is_space(s[k]),
        j == 0 || !is_space(s[j - 1]),
    ensures
        trim_back(s) == s.take(j),
    decreases s.len(),
{
    if j == s.len() {
        if s.len() > 0 {
            assert(!is_space(s.last()));
        }
        assert(s.take(j) =~= s);
    } else {
        assert(is_space(s.last()));
        lemma_trim_back_is(s.drop_last(), j);
        assert(s.drop_last().take(j) =~= s.take(j));
    }
}

/// First position at or after `i` holding a non-whitespace character, or
/// the length.
fn skip_spaces(s: &str, i: usize) -> (r: usize)
    requires
        i <= s@.len(),
    ensures
        i <= r <= s@.len(),
        forall|k: int| i <= k < r ==> is_space(s@[k]),
        r < s@.len() ==> !is_space(s@[r as int]),
    decreases s@.len() - i,
{
    let n = s.unicode_len();
    if i == n {
        i
    } else if is_space_char(s.get_char(i)) {
        skip_spaces(s, i + 1)
    } else {
        i
    }
}

/// One past the last non-whitespace position strictly before `j`, given
/// that everything from `j` on is whitespace.
fn shrink_spaces(s: &str, j: usize) -> (r: usize)
    requires
        j <= s@.len(),
        forall|k: int| j <= k < s@.len() ==> is_space(s@[k]),
    ensures
        r <= j,
        forall|k: int| r <= k < s@.len() ==> is_space(s@[k]),
        r == 0 || !is_space(s@[r - 1]),
    decreases j,
{
    if j == 0 {
        0
    } else if is_space_char(s.get_char(j - 1)) {
        shrink_spaces(s, j - 1)
    } else {
        j
    }
}

/// The line with whitespace removed from both ends.
pub fn trim_slice<'a>(s: &'a str) -> (r: &'a str)
    ensures
        r@ == trim_spec(s@),
{
    let n = s.unicode_len();
    let a = skip_spaces(s, 0);
    if a == n {
        let r = s.substring_char(n, n);
        proof {
            lemma_trim_front_is(s@, a as int);
            assert(trim_front(s@) =~= Seq::<char>::empty());
            assert(r@ =~= trim_spec(s@));
        }
        r
    } else {
        let b = shrink_spaces(s, n);
        proof {
            assert(!is_space(s@[a as int]));
            assert(a < b);
        }
        let r = s.substring_char(a, b);
        proof {
            lemma_trim_front_is(s@, a as int);
            let t = s@.skip(a as int);
            assert forall|k: int| b - a <= k < t.len() implies is_space(t[k]) by {
                assert(t[k] == s@[a + k]);
            }
            assert(t[b - a - 1] == s@[b as int - 1]);
            lemma_trim_back_is(t, b - a);
            assert(t.take(b - a) =~= s@.subrange(a as int, b as int));
        }
        r
    }
}

/// Whether a line holds a command: not whitespace-only and not starting
/// with the comment marker.
pub open spec fn content_line(s: Seq<char>) -> bool {
    (exists|k: int| 0 <= k < s.len() && !is_space(s[k])) && !(s.len() >= 2 && s[0] == '/'
        && s[1] == '/')
}

/// Position of the first content line at or after `from`, or the length.
pub open spec fn next_content(ls: Seq<Seq<char>>, from: int) -> int
    decreases ls.len() - from,
{
    if from < 0 || from >= ls.len() {
        ls.len() as int
    } else if content_line(ls[from]) {
        from
    } else {
        next_content(ls, from + 1)
    }
}

/// Walks the lines of one source unit and yields its commands in order.
pub struct Parser {
    /// The source unit's name, which scopes its static variables.
    pub filename: String,
    /// The unit's text lines, in source order.
    pub lines: Vec<String>,
    /// Index of the next line to examine.
    pub pos: usize,
    /// The content line most recently found by `has_more_commands`.
    pub last_line: String,
}

impl Parser {
    /// Whether a line holds a command: neither whitespace-only nor a
    /// whole-line comment.
    pub fn valid_vm_instruction(line: &str) -> (r: bool)
        ensures
            r == content_line(line@),
    {
        let n = line.unicode_len();
        let a = skip_spaces(line, 0);
        if a == n {
            proof {
                assert(!content_line(line@));
            }
            return false;
        }
        proof {
            assert(exists|k: int| 0 <= k < line@.len() && !is_space(line@[k])) by {
                assert(!is_space(line@[a as int]));
            }
        }
        if n >= 2 {
            let c0 = line.get_char(0);
            let c1 = line.get_char(1);
            if c0 == '/' && c1 == '/' {
                return false;
            }
        }
        true
    }

    /// A reader over the lines of the source unit named `filename`.
    pub fn new(filename: String, lines: Vec<String>) -> (r: Self)
        ensures
            r.filename == filename,
            r.lines == lines,
            r.pos == 0,
            r.last_line@ == Seq::<char>::empty(),
    {
        Parser { filename, lines, pos: 0, last_line: String::new() }
    }

    /// Advances past blank and comment lines and reports whether a content
    /// line was found; on success the line is held for `next_command`.
    pub fn has_more_commands(&mut self) -> (r: bool)
        ensures
            final(self).filename == old(self).filename,
            final(self).lines == old(self).lines,
            r == (next_content(old(self).lines.deep_view(), old(self).pos as int) < old(
                self,
            ).lines.deep_view().len()),
            r ==> final(self).pos == next_content(
                old(self).lines.deep_view(),
                old(self).pos as int,
            ) + 1,
            r ==> final(self).last_line@ == old(self).lines.deep_view()[next_content(
                old(self).lines.deep_view(),
                old(self).pos as int,
            )],
            !r ==> final(self).pos == old(self).lines.deep_view().len() && final(self).last_line
                == old(self).last_line,
    {
        let n = self.lines.len();
        while self.pos < n
            invariant
                self.pos <= n || old(self).pos > n,
                n == self.lines@.len(),
                self.filename == old(self).filename,
                self.lines == old(self).lines,
                self.last_line == old(self).last_line,
                old(self).pos <= self.pos,
                next_content(old(self).lines.deep_view(), old(self).pos as int) == next_content(
                    self.lines.deep_view(),
                    self.pos as int,
                ),
            decreases n - self.pos,
        {
            let line_ok = Parser::valid_vm_instruction(self.lines[self.pos].as_str());
            proof {
                assert(self.lines.deep_view()[self.pos as int] == self.lines@[self.pos as int]@);
            }
            if line_ok {
                self.last_line = self.lines[self.pos].clone();
                self.pos = self.pos + 1;
                return true;
            }
            self.pos = self.pos + 1;
        }
        self.pos = n;
        false
    }

    /// Parses the line most recently found by `has_more_commands`.
    pub fn next_command(&self) -> (r: Result<VMInstruction, ParseError>)
        ensures
            res_view(r) == parse_spec(trim_spec(self.last_line@), self.filename@),
    {
        let trimmed = trim_slice(self.last_line.as_str());
        VMInstruction::parse_from_line(trimmed, self.filename.as_str())
    }
}

} // verus!

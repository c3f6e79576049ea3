use vstd::prelude::*;

use crate::cursor::Cursor;
use crate::diag::{ParseFailure, SpecFailure};

verus! {

broadcast use
    vstd::std_specs::vec::group_vec_axioms,
    vstd::seq::group_seq_axioms,
    vstd::slice::group_slice_axioms,
;

/// Whitespace characters elided between tokens.
pub open spec fn is_ws(c: char) -> bool {
    c == ' ' || c == '\t' || c == '\n' || c == '\r'
}

/// Characters that may continue a word: keywords must not be immediately
/// followed by one, and atoms of the expression grammar are runs of them.
pub open spec fn is_word_char(c: char) -> bool {
    ('a' <= c && c <= 'z') || ('A' <= c && c <= 'Z') || ('0' <= c && c <= '9') || c == '_'
}

/// Whether `c` is a whitespace character.
pub fn ws_char(c: char) -> (b: bool)
    ensures
        b == is_ws(c),
{
    c == ' ' || c == '\t' || c == '\n' || c == '\r'
}

/// Whether `c` may continue a word.
pub fn word_char(c: char) -> (b: bool)
    ensures
        b == is_word_char(c),
{
    ('a' <= c && c <= 'z') || ('A' <= c && c <= 'Z') || ('0' <= c && c <= '9') || c == '_'
}

/// How much input lies at or after `pos`: the termination measure of every
/// recursive grammar function.
pub open spec fn remaining(t: Seq<char>, pos: int) -> nat {
    if pos <= t.len() {
        (t.len() - pos) as nat
    } else {
        0
    }
}

/// The text has exactly `lit` at position `pos`.
pub open spec fn matches_at(t: Seq<char>, pos: int, lit: Seq<char>) -> bool {
    0 <= pos && pos + lit.len() <= t.len() && t.subrange(pos, pos + lit.len() as int) == lit
}

/// Position `end` does not fall inside a word: the end of the text, or a
/// character that cannot continue a word.
pub open spec fn word_boundary(t: Seq<char>, end: int) -> bool {
    end == t.len() || (0 <= end < t.len() && !is_word_char(t[end]))
}

/// The position of the first non-whitespace character at or after `pos`.
pub open spec fn spec_ws_end(t: Seq<char>, pos: int) -> int
    decreases remaining(t, pos),
{
    if 0 <= pos && pos < t.len() && is_ws(t[pos]) {
        spec_ws_end(t, pos + 1)
    } else {
        pos
    }
}

/// Skipping whitespace never moves backward and never leaves the text.
pub proof fn lemma_ws_end(t: Seq<char>, pos: int)
    ensures
        pos <= spec_ws_end(t, pos),
        pos <= t.len() ==> spec_ws_end(t, pos) <= t.len(),
    decreases remaining(t, pos),
{
    if 0 <= pos && pos < t.len() && is_ws(t[pos]) {
        lemma_ws_end(t, pos + 1);
    }
}

/// Skipping whitespace from `pos` stops exactly at `end` when everything
/// before `end` is whitespace and `end` is the text's end or non-whitespace.
pub proof fn lemma_ws_end_run(t: Seq<char>, pos: int, end: int)
    requires
        0 <= pos <= end <= t.len(),
        forall|i: int| pos <= i < end ==> is_ws(t[i]),
        end == t.len() || !is_ws(t[end]),
    ensures
        spec_ws_end(t, pos) == end,
    decreases end - pos,
{
    if pos < end {
        lemma_ws_end_run(t, pos + 1, end);
    }
}

/// `literal(lit)`: succeeds exactly when the text has `lit` at the cursor,
/// and then advances by its length; fails with `ExpectedLiteral(lit)` at the
/// cursor's own position otherwise.
pub open spec fn spec_literal(t: Seq<char>, pos: int, lit: Seq<char>) -> Result<int, SpecFailure> {
    if matches_at(t, pos, lit) {
        Ok(pos + lit.len() as int)
    } else {
        Err(SpecFailure::expected(lit, pos))
    }
}

/// `keyword(kw)`: as `literal(kw)`, but also demands a word boundary after
/// the keyword, so that a longer word with `kw` as a prefix is not accepted.
pub open spec fn spec_keyword(t: Seq<char>, pos: int, kw: Seq<char>) -> Result<int, SpecFailure> {
    if matches_at(t, pos, kw) && word_boundary(t, pos + kw.len()) {
        Ok(pos + kw.len() as int)
    } else {
        Err(SpecFailure::expected(kw, pos))
    }
}

/// How a concrete position-only outcome realises a mathematical one: same
/// text, same position on success, the same failure value on failure.
pub open spec fn pos_models<'a>(
    c: Cursor<'a>,
    r: Result<Cursor<'a>, ParseFailure>,
    m: Result<int, SpecFailure>,
) -> bool {
    match (r, m) {
        (Ok(c2), Ok(p)) => c2.text@ == c.text@ && c2.pos == p && c2.wf(),
        (Err(f), Err(sf)) => f@ == sf,
        _ => false,
    }
}

/// Whether the text has exactly `lit` at position `pos`.
pub fn starts_with(text: &[char], pos: usize, lit: &Vec<char>) -> (b: bool)
    requires
        pos <= text@.len(),
    ensures
        b == matches_at(text@, pos as int, lit@),
{
    let n = text.len();
    if n - pos < lit.len() {
        return false;
    }
    let mut i: usize = 0;
    while i < lit.len()
        invariant
            n == text@.len(),
            pos + lit@.len() <= n,
            0 <= i <= lit@.len(),
            forall|j: int| 0 <= j < i ==> text@[pos + j] == lit@[j],
        decreases lit@.len() - i,
    {
        if text[pos + i] != lit[i] {
            proof {
                assert(text@.subrange(pos as int, pos + lit@.len())[i as int] != lit@[i as int]);
            }
            return false;
        }
        i = i + 1;
    }
    proof {
        assert(text@.subrange(pos as int, pos + lit@.len()) =~= lit@);
    }
    true
}

/// Matches the exact characters of `lit` and advances past them.
pub fn literal<'a>(c: Cursor<'a>, lit: &Vec<char>) -> (r: Result<Cursor<'a>, ParseFailure>)
    requires
        c.wf(),
    ensures
        pos_models(c, r, spec_literal(c.text@, c.pos as int, lit@)),
{
    let total = c.text.len();
    if starts_with(c.text, c.pos, lit) {
        proof {
            assert(c.pos + lit@.len() <= total);
        }
        Ok(Cursor { text: c.text, pos: c.pos + lit.len() })
    } else {
        Err(ParseFailure::expected(lit.clone(), c.pos))
    }
}

/// Matches the keyword `kw` followed by a word boundary and advances past it.
pub fn keyword<'a>(c: Cursor<'a>, kw: &Vec<char>) -> (r: Result<Cursor<'a>, ParseFailure>)
    requires
        c.wf(),
    ensures
        pos_models(c, r, spec_keyword(c.text@, c.pos as int, kw@)),
{
    let total = c.text.len();
    if starts_with(c.text, c.pos, kw) {
        proof {
            assert(c.pos + kw@.len() <= total);
        }
        let end = c.pos + kw.len();
        if end == total || !word_char(c.text[end]) {
            return Ok(Cursor { text: c.text, pos: end });
        }
    }
    Err(ParseFailure::expected(kw.clone(), c.pos))
}

/// Consumes zero or more whitespace characters; always succeeds.
pub fn ws0<'a>(c: Cursor<'a>) -> (c2: Cursor<'a>)
    requires
        c.wf(),
    ensures
        c2.text@ == c.text@,
        c2.pos == spec_ws_end(c.text@, c.pos as int),
        c2.wf(),
{
    let mut pos = c.pos;
    while pos < c.text.len() && ws_char(c.text[pos])
        invariant
            c.wf(),
            c.pos <= pos <= c.text@.len(),
            spec_ws_end(c.text@, c.pos as int) == spec_ws_end(c.text@, pos as int),
        decreases c.text@.len() - pos,
    {
        pos = pos + 1;
    }
    Cursor { text: c.text, pos }
}

} // verus!

use vstd::prelude::*;

use crate::ast::Expr;
use crate::cursor::Cursor;
use crate::diag::{Label, ParseFailure, SpecCause, SpecFailure, SpecFrame};
use crate::toolkit::{is_word_char, remaining, word_char, ws_char};

verus! {

broadcast use
    vstd::std_specs::vec::group_vec_axioms,
    vstd::seq::group_seq_axioms,
    vstd::slice::group_slice_axioms,
;

/// The description carried by the failure when an expression was expected.
pub open spec fn expr_desc() -> Seq<char> {
    seq!['e', 'x', 'p', 'r', 'e', 's', 's', 'i', 'o', 'n']
}

/// The concrete characters of `expr_desc`.
pub fn expr_desc_chars() -> (v: Vec<char>)
    ensures
        v@ == expr_desc(),
{
    let v: Vec<char> = vec!['e', 'x', 'p', 'r', 'e', 's', 's', 'i', 'o', 'n'];
    proof {
        assert(v@ =~= expr_desc());
    }
    v
}

/// The position just past the run of word characters starting at `pos`.
pub open spec fn spec_atom_end(t: Seq<char>, pos: int) -> int
    decreases remaining(t, pos),
{
    if 0 <= pos && pos < t.len() && is_word_char(t[pos]) {
        spec_atom_end(t, pos + 1)
    } else {
        pos
    }
}

/// An atom never ends before it starts and never leaves the text.
pub proof fn lemma_atom_end(t: Seq<char>, pos: int)
    ensures
        pos <= spec_atom_end(t, pos),
        pos <= t.len() ==> spec_atom_end(t, pos) <= t.len(),
    decreases remaining(t, pos),
{
    if 0 <= pos && pos < t.len() && is_word_char(t[pos]) {
        lemma_atom_end(t, pos + 1);
    }
}

/// An atom starting at `pos` ends exactly at `end` when everything before
/// `end` is word characters and `end` is the text's end or something else.
pub proof fn lemma_atom_end_run(t: Seq<char>, pos: int, end: int)
    requires
        0 <= pos <= end <= t.len(),
        forall|i: int| pos <= i < end ==> is_word_char(t[i]),
        end == t.len() || !is_word_char(t[end]),
    ensures
        spec_atom_end(t, pos) == end,
    decreases end - pos,
{
    if pos < end {
        lemma_atom_end_run(t, pos + 1, end);
    }
}

/// The expression grammar's entry point, stated mathematically: an expression
/// is a nonempty run of word characters; its value is the text it covered.
/// At the end of the input the failure is `UnexpectedEndOfInput`; at any other
/// character that cannot start an expression it is `ExpectedLiteral` with the
/// description `expression`; either failure carries an `Expression` frame.
pub open spec fn spec_expr(t: Seq<char>, pos: int) -> Result<(int, Seq<char>), SpecFailure> {
    if !(0 <= pos && pos <= t.len()) {
        Err(SpecFailure::expected(expr_desc(), pos))
    } else if pos == t.len() {
        Err(
            SpecFailure {
                frames: seq![SpecFrame { label: Label::Expression, start: pos }],
                cause: SpecCause::UnexpectedEndOfInput,
                at: pos,
            },
        )
    } else if !is_word_char(t[pos]) {
        Err(
            SpecFailure {
                frames: seq![SpecFrame { label: Label::Expression, start: pos }],
                cause: SpecCause::ExpectedLiteral(expr_desc()),
                at: pos,
            },
        )
    } else {
        Ok((spec_atom_end(t, pos), t.subrange(pos, spec_atom_end(t, pos))))
    }
}

/// How a concrete expression outcome realises a mathematical one.
pub open spec fn expr_models<'a>(
    c: Cursor<'a>,
    r: Result<(Cursor<'a>, Expr), ParseFailure>,
    m: Result<(int, Seq<char>), SpecFailure>,
) -> bool {
    match (r, m) {
        (Ok((c2, e)), Ok((p, se))) => c2.text@ == c.text@ && c2.pos == p && c2.wf() && e@ == se,
        (Err(f), Err(sf)) => f@ == sf,
        _ => false,
    }
}

/// Parses one expression: a nonempty run of word characters.
pub fn parse_expr<'a>(c: Cursor<'a>) -> (r: Result<(Cursor<'a>, Expr), ParseFailure>)
    requires
        c.wf(),
    ensures
        expr_models(c, r, spec_expr(c.text@, c.pos as int)),
{
    let n = c.text.len();
    if c.pos == n {
        let f = ParseFailure::end_of_input(c.pos);
        return Err(f.with_frame(Label::Expression, c.pos));
    }
    if !word_char(c.text[c.pos]) {
        let f = ParseFailure::expected(expr_desc_chars(), c.pos);
        return Err(f.with_frame(Label::Expression, c.pos));
    }
    let mut end = c.pos;
    let mut text: Vec<char> = Vec::new();
    while end < n && word_char(c.text[end])
        invariant
            c.wf(),
            n == c.text@.len(),
            c.pos <= end <= n,
            spec_atom_end(c.text@, c.pos as int) == spec_atom_end(c.text@, end as int),
            text@ =~= c.text@.subrange(c.pos as int, end as int),
        decreases n - end,
    {
        text.push(c.text[end]);
        end = end + 1;
        proof {
            assert(text@ =~= c.text@.subrange(c.pos as int, end as int));
        }
    }
    proof {
        assert(spec_atom_end(c.text@, end as int) == end as int);
    }
    Ok((Cursor { text: c.text, pos: end }, Expr { text }))
}

} // verus!

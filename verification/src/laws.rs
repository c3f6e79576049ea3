use vstd::prelude::*;

use crate::ast::{model_seq, SStmt, Statement};
use crate::cursor::Cursor;
use crate::diag::{Label, ParseFailure, SpecCause, SpecFailure, SpecFrame};
use crate::driver::{program_models, spec_program, spec_top_items};
use crate::expr::lemma_atom_end_run;
use crate::stmt::{kw_continue, spec_continue_stmt, spec_statement, stmt_models, tok_semi};
use crate::toolkit::{is_word_char, is_ws, lemma_ws_end_run, matches_at};

verus! {

broadcast use vstd::seq::group_seq_axioms;

/// The text has `continue` at `pos`, then `w` whitespace characters, then
/// `;`, with anything at all after that.
pub open spec fn continue_then_semi(t: Seq<char>, pos: int, w: int) -> bool {
    &&& 0 <= pos
    &&& 0 <= w
    &&& pos + kw_continue().len() + w + 1 <= t.len()
    &&& t.subrange(pos, pos + kw_continue().len()) == kw_continue()
    &&& forall|i: int|
        pos + kw_continue().len() <= i < pos + kw_continue().len() + w ==> is_ws(t[i])
    &&& t[pos + kw_continue().len() + w] == ';'
}

/// The text is exactly `continue` followed by whitespace to its end: the
/// required `;` never comes.
pub open spec fn continue_unterminated(t: Seq<char>) -> bool {
    &&& t.len() >= kw_continue().len()
    &&& t.subrange(0, kw_continue().len() as int) == kw_continue()
    &&& forall|i: int| kw_continue().len() <= i < t.len() ==> is_ws(t[i])
}

/// Wherever the text reads `continue` , whitespace , `;`, the statement parse
/// from there succeeds, yields `Continue`, and ends exactly past the `;`.
pub proof fn law_continue_parses(t: Seq<char>, pos: int, w: int)
    requires
        continue_then_semi(t, pos, w),
    ensures
        spec_continue_stmt(t, pos) == Ok::<_, SpecFailure>(
            (pos + kw_continue().len() + w + 1, SStmt::Continue),
        ),
        spec_statement(t, pos) == Ok::<_, SpecFailure>(
            (pos + kw_continue().len() + w + 1, SStmt::Continue),
        ),
{
    let k = pos + kw_continue().len();
    assert(matches_at(t, pos, kw_continue()));
    assert(!is_word_char(t[k]));
    lemma_ws_end_run(t, k, k + w);
    assert(t.subrange(k + w, k + w + 1) =~= tok_semi());
    assert(matches_at(t, k + w, tok_semi()));
}

/// A whole text of the form `continue` , whitespace , `;` parses into exactly
/// one statement, `Continue`, with the whole text consumed.
pub proof fn law_continue_whole_text(t: Seq<char>, w: int)
    requires
        continue_then_semi(t, 0, w),
        t.len() == kw_continue().len() + w + 1,
    ensures
        spec_program(t) == Ok::<_, SpecFailure>((t.len() as int, seq![SStmt::Continue])),
{
    law_continue_parses(t, 0, w);
    assert(!is_ws(t[0]));
    lemma_ws_end_run(t, 0, 0);
    assert(Seq::<SStmt>::empty().push(SStmt::Continue) =~= seq![SStmt::Continue]);
    lemma_ws_end_run(t, t.len() as int, t.len() as int);
    assert(spec_top_items(t, t.len() as int, seq![SStmt::Continue]) == Ok::<_, SpecFailure>(
        (t.len() as int, seq![SStmt::Continue]),
    ));
}

/// For every input that is `continue` followed by whitespace and then the end
/// of the input, the parse fails; the failure's innermost frame is the
/// `continue_statement` production started at the keyword, and its cause is
/// that `;` was expected at the end of the input. The keyword commits: the
/// whole-text parse reports that same failure and produces nothing.
pub proof fn law_committed_keyword_fatal(t: Seq<char>)
    requires
        continue_unterminated(t),
    ensures
        spec_statement(t, 0) is Err,
        spec_program(t) is Err,
        spec_program(t)->Err_0 == spec_statement(t, 0)->Err_0,
        spec_statement(t, 0)->Err_0.frames.len() == 1,
        spec_statement(t, 0)->Err_0.innermost() == (SpecFrame {
            label: Label::ContinueStatement,
            start: 0,
        }),
        spec_statement(t, 0)->Err_0.cause == SpecCause::ExpectedLiteral(tok_semi()),
        spec_statement(t, 0)->Err_0.at == t.len(),
{
    let k = kw_continue().len() as int;
    assert(matches_at(t, 0, kw_continue()));
    if k < t.len() {
        assert(!is_word_char(t[k]));
    }
    lemma_ws_end_run(t, k, t.len() as int);
    assert(!matches_at(t, t.len() as int, tok_semi()));
    let f1 = spec_continue_stmt(t, 0)->Err_0;
    assert(f1.frames =~= seq![SpecFrame { label: Label::ContinueStatement, start: 0 }]);
    assert(f1.at == t.len());
    // The expression-statement alternative reads the keyword as an atom and
    // also misses its `;` at the end of the input, no further in than f1.
    assert(forall|i: int| 0 <= i < k ==> kw_continue()[i] == t.subrange(0, k)[i]);
    assert(forall|i: int| 0 <= i < k ==> is_word_char(t[i]));
    lemma_atom_end_run(t, 0, k);
    assert(!is_ws(t[0]));
    lemma_ws_end_run(t, 0, 0);
}

/// A keyword is only a keyword at a word boundary: when `continue` is
/// followed by a character that can continue a word (as in `continued`),
/// the `continue_statement` production fails, and no dispatch of the
/// alternatives can yield `Continue` for that input.
pub proof fn law_keyword_needs_boundary(t: Seq<char>, pos: int)
    requires
        pos + kw_continue().len() < t.len(),
        is_word_char(t[pos + kw_continue().len()]),
    ensures
        spec_continue_stmt(t, pos) is Err,
        spec_statement(t, pos) matches Ok((end, st)) ==> st != SStmt::Continue,
{
}

/// Parsing is a pure function of the input: any two outcomes that realise the
/// mathematical statement parse of the same cursor agree on the statement's
/// shape, the end position, and the failure, frame for frame.
pub proof fn law_statement_deterministic<'a>(
    c: Cursor<'a>,
    r1: Result<(Cursor<'a>, Statement), ParseFailure>,
    r2: Result<(Cursor<'a>, Statement), ParseFailure>,
)
    requires
        stmt_models(c, r1, spec_statement(c.text@, c.pos as int)),
        stmt_models(c, r2, spec_statement(c.text@, c.pos as int)),
    ensures
        r1 is Ok <==> r2 is Ok,
        r1 matches Ok((c1, s1)) ==> r2 matches Ok((c2, s2)) && c1.pos == c2.pos && s1.model()
            == s2.model(),
        r1 matches Err(f1) ==> r2 matches Err(f2) && f1@ == f2@,
{
}

/// Parsing a whole text is a pure function of the text: any two outcomes that
/// realise the mathematical whole-text parse agree on the models of every
/// statement produced, or on the failure, frame for frame.
pub proof fn law_program_deterministic(
    t: Seq<char>,
    r1: Result<Vec<Statement>, ParseFailure>,
    r2: Result<Vec<Statement>, ParseFailure>,
)
    requires
        program_models(t, r1, spec_program(t)),
        program_models(t, r2, spec_program(t)),
    ensures
        r1 is Ok <==> r2 is Ok,
        r1 matches Ok(v1) ==> r2 matches Ok(v2) && model_seq(v1@) == model_seq(v2@),
        r1 matches Err(f1) ==> r2 matches Err(f2) && f1@ == f2@,
{
}

} // verus!

use vstd::prelude::*;

use crate::ast::{lemma_model_seq_push, model_seq, SStmt, Statement};
use crate::cursor::Cursor;
use crate::diag::{ParseFailure, SpecFailure};
use crate::stmt::{
    lemma_statement_progress, spec_statement, statement, vacuous_failure,
};
use crate::toolkit::{lemma_ws_end, remaining, spec_ws_end, ws0};

verus! {

broadcast use
    vstd::std_specs::vec::group_vec_axioms,
    vstd::seq::group_seq_axioms,
    vstd::slice::group_slice_axioms,
;

/// The top-level statement sequence, stated mathematically: whitespace, then
/// either the end of the input (success) or one more statement, appended to
/// `acc`. As in the braced list, statements are never zero-width, so the
/// `vacuous_failure` branches can never be reached.
pub open spec fn spec_top_items(t: Seq<char>, pos: int, acc: Seq<SStmt>) -> Result<
    (int, Seq<SStmt>),
    SpecFailure,
>
    decreases remaining(t, pos),
{
    let p = spec_ws_end(t, pos);
    if p < pos || t.len() < p {
        Err(vacuous_failure(pos))
    } else if p == t.len() {
        Ok((p, acc))
    } else {
        match spec_statement(t, p) {
            Err(f) => Err(f),
            Ok((p2, st)) => {
                if p < p2 && p2 <= t.len() {
                    spec_top_items(t, p2, acc.push(st))
                } else {
                    Err(vacuous_failure(pos))
                }
            },
        }
    }
}

/// A whole-text parse, stated mathematically: the top-level statement
/// sequence from the start of the text.
pub open spec fn spec_program(t: Seq<char>) -> Result<(int, Seq<SStmt>), SpecFailure> {
    spec_top_items(t, 0, Seq::empty())
}

/// A successful top-level parse consumes the whole text.
pub proof fn lemma_top_items_end(t: Seq<char>, pos: int, acc: Seq<SStmt>)
    ensures
        spec_top_items(t, pos, acc) matches Ok((end, _)) ==> end == t.len(),
    decreases remaining(t, pos),
{
    lemma_ws_end(t, pos);
    let p = spec_ws_end(t, pos);
    if pos <= p <= t.len() && p < t.len() {
        if spec_statement(t, p) is Ok {
            let (p2, st) = spec_statement(t, p)->Ok_0;
            if p < p2 <= t.len() {
                lemma_top_items_end(t, p2, acc.push(st));
            }
        }
    }
}

/// How a concrete whole-text outcome realises the mathematical one.
pub open spec fn program_models(
    t: Seq<char>,
    r: Result<Vec<Statement>, ParseFailure>,
    m: Result<(int, Seq<SStmt>), SpecFailure>,
) -> bool {
    match (r, m) {
        (Ok(v), Ok((end, sm))) => model_seq(v@) == sm && end == t.len(),
        (Err(f), Err(sf)) => f@ == sf,
        _ => false,
    }
}

/// The driver from a given offset: parses statements separated by whitespace
/// until the end of the input and yields them in order, or propagates the
/// first failure.
pub fn parse_program_at(text: &[char], pos: usize) -> (r: Result<Vec<Statement>, ParseFailure>)
    requires
        pos <= text@.len(),
    ensures
        program_models(text@, r, spec_top_items(text@, pos as int, Seq::empty())),
{
    let mut acc: Vec<Statement> = Vec::new();
    let mut cur = Cursor::at(text, pos);
    proof {
        lemma_top_items_end(text@, pos as int, Seq::empty());
    }
    loop
        invariant
            cur.wf(),
            cur.text@ == text@,
            spec_top_items(text@, pos as int, Seq::empty()) == spec_top_items(
                text@,
                cur.pos as int,
                model_seq(acc@),
            ),
            spec_top_items(text@, pos as int, Seq::empty()) matches Ok((end, _)) ==> end
                == text@.len(),
        decreases remaining(text@, cur.pos as int),
    {
        let p = ws0(cur);
        proof {
            lemma_ws_end(text@, cur.pos as int);
        }
        let n = p.text.len();
        if p.pos == n {
            return Ok(acc);
        }
        match statement(p) {
            Err(f) => {
                return Err(f);
            },
            Ok((c2, st)) => {
                proof {
                    lemma_statement_progress(text@, p.pos as int);
                    lemma_model_seq_push(acc@, st);
                }
                acc.push(st);
                cur = c2;
            },
        }
    }
}

/// The driver over a whole text: parses statements from its start.
pub fn parse_program(text: &[char]) -> (r: Result<Vec<Statement>, ParseFailure>)
    ensures
        program_models(text@, r, spec_program(text@)),
{
    parse_program_at(text, 0)
}

} // verus!

use vstd::prelude::*;

use crate::ast::{lemma_model_seq_push, model_seq, Expr, SStmt, Statement};
use crate::cursor::Cursor;
use crate::diag::{better, spec_better, Label, ParseFailure, SpecCause, SpecFailure};
use crate::expr::{lemma_atom_end, parse_expr, spec_atom_end, spec_expr};
use crate::toolkit::{
    keyword, lemma_ws_end, literal, remaining, spec_keyword, spec_literal, spec_ws_end, ws0,
};

verus! {

broadcast use
    vstd::std_specs::vec::group_vec_axioms,
    vstd::seq::group_seq_axioms,
    vstd::slice::group_slice_axioms,
;

// --- keyword and token tables ---

pub open spec fn kw_continue() -> Seq<char> {
    seq!['c', 'o', 'n', 't', 'i', 'n', 'u', 'e']
}

pub open spec fn kw_break() -> Seq<char> {
    seq!['b', 'r', 'e', 'a', 'k']
}

pub open spec fn kw_return() -> Seq<char> {
    seq!['r', 'e', 't', 'u', 'r', 'n']
}

pub open spec fn kw_if() -> Seq<char> {
    seq!['i', 'f']
}

pub open spec fn kw_while() -> Seq<char> {
    seq!['w', 'h', 'i', 'l', 'e']
}

pub open spec fn kw_let() -> Seq<char> {
    seq!['l', 'e', 't']
}

pub open spec fn kw_else() -> Seq<char> {
    seq!['e', 'l', 's', 'e']
}

pub open spec fn tok_semi() -> Seq<char> {
    seq![';']
}

pub open spec fn tok_lbrace() -> Seq<char> {
    seq!['{']
}

pub open spec fn tok_eq() -> Seq<char> {
    seq!['=']
}

pub fn kw_continue_chars() -> (v: Vec<char>)
    ensures
        v@ == kw_continue(),
{
    let v: Vec<char> = vec!['c', 'o', 'n', 't', 'i', 'n', 'u', 'e'];
    proof {
        assert(v@ =~= kw_continue());
    }
    v
}

pub fn kw_break_chars() -> (v: Vec<char>)
    ensures
        v@ == kw_break(),
{
    let v: Vec<char> = vec!['b', 'r', 'e', 'a', 'k'];
    proof {
        assert(v@ =~= kw_break());
    }
    v
}

pub fn kw_return_chars() -> (v: Vec<char>)
    ensures
        v@ == kw_return(),
{
    let v: Vec<char> = vec!['r', 'e', 't', 'u', 'r', 'n'];
    proof {
        assert(v@ =~= kw_return());
    }
    v
}

pub fn kw_if_chars() -> (v: Vec<char>)
    ensures
        v@ == kw_if(),
{
    let v: Vec<char> = vec!['i', 'f'];
    proof {
        assert(v@ =~= kw_if());
    }
    v
}

pub fn kw_while_chars() -> (v: Vec<char>)
    ensures
        v@ == kw_while(),
{
    let v: Vec<char> = vec!['w', 'h', 'i', 'l', 'e'];
    proof {
        assert(v@ =~= kw_while());
    }
    v
}

pub fn kw_let_chars() -> (v: Vec<char>)
    ensures
        v@ == kw_let(),
{
    let v: Vec<char> = vec!['l', 'e', 't'];
    proof {
        assert(v@ =~= kw_let());
    }
    v
}

pub fn kw_else_chars() -> (v: Vec<char>)
    ensures
        v@ == kw_else(),
{
    let v: Vec<char> = vec!['e', 'l', 's', 'e'];
    proof {
        assert(v@ =~= kw_else());
    }
    v
}

pub fn tok_semi_chars() -> (v: Vec<char>)
    ensures
        v@ == tok_semi(),
{
    let v: Vec<char> = vec![';'];
    proof {
        assert(v@ =~= tok_semi());
    }
    v
}

pub fn tok_lbrace_chars() -> (v: Vec<char>)
    ensures
        v@ == tok_lbrace(),
{
    let v: Vec<char> = vec!['{'];
    proof {
        assert(v@ =~= tok_lbrace());
    }
    v
}

pub fn tok_eq_chars() -> (v: Vec<char>)
    ensures
        v@ == tok_eq(),
{
    let v: Vec<char> = vec!['='];
    proof {
        assert(v@ =~= tok_eq());
    }
    v
}

// --- the grammar, stated mathematically ---
//
// Statements are never zero-width (lemma_statement_progress), so the branches
// below that fail with `vacuous_failure` can never be reached; they exist only
// so that each recursive call moves strictly forward in the text.

/// The failure of an unreachable branch of the mathematical grammar.
pub open spec fn vacuous_failure(at: int) -> SpecFailure {
    SpecFailure { frames: Seq::empty(), cause: SpecCause::AllAlternativesFailed, at }
}

/// `continue_statement`: the keyword `continue`, whitespace, `;`.
pub open spec fn spec_continue_stmt(t: Seq<char>, pos: int) -> Result<(int, SStmt), SpecFailure> {
    match spec_keyword(t, pos, kw_continue()) {
        Err(f) => Err(f.with_frame(Label::ContinueStatement, pos)),
        Ok(p1) => match spec_literal(t, spec_ws_end(t, p1), tok_semi()) {
            Err(f) => Err(f.with_frame(Label::ContinueStatement, pos)),
            Ok(p2) => Ok((p2, SStmt::Continue)),
        },
    }
}

/// `break_statement`: the keyword `break`, whitespace, `;`.
pub open spec fn spec_break_stmt(t: Seq<char>, pos: int) -> Result<(int, SStmt), SpecFailure> {
    match spec_keyword(t, pos, kw_break()) {
        Err(f) => Err(f.with_frame(Label::BreakStatement, pos)),
        Ok(p1) => match spec_literal(t, spec_ws_end(t, p1), tok_semi()) {
            Err(f) => Err(f.with_frame(Label::BreakStatement, pos)),
            Ok(p2) => Ok((p2, SStmt::Break)),
        },
    }
}

/// `return_statement`: the keyword `return`, whitespace, an optional
/// expression, whitespace, `;`. If no expression parses, the `;` is looked
/// for right where the expression was tried.
pub open spec fn spec_return_stmt(t: Seq<char>, pos: int) -> Result<(int, SStmt), SpecFailure> {
    match spec_keyword(t, pos, kw_return()) {
        Err(f) => Err(f.with_frame(Label::ReturnStatement, pos)),
        Ok(p1) => {
            let p2 = spec_ws_end(t, p1);
            match spec_expr(t, p2) {
                Ok((p3, e)) => match spec_literal(t, spec_ws_end(t, p3), tok_semi()) {
                    Err(f) => Err(f.with_frame(Label::ReturnStatement, pos)),
                    Ok(p4) => Ok((p4, SStmt::Return(Some(e)))),
                },
                Err(_) => match spec_literal(t, p2, tok_semi()) {
                    Err(f) => Err(f.with_frame(Label::ReturnStatement, pos)),
                    Ok(p3) => Ok((p3, SStmt::Return(None))),
                },
            }
        },
    }
}

/// `let_statement`: the keyword `let`, a name, `=`, an expression, `;`,
/// with whitespace elided between the tokens.
pub open spec fn spec_let_stmt(t: Seq<char>, pos: int) -> Result<(int, SStmt), SpecFailure> {
    match spec_keyword(t, pos, kw_let()) {
        Err(f) => Err(f.with_frame(Label::LetStatement, pos)),
        Ok(p1) => match spec_expr(t, spec_ws_end(t, p1)) {
            Err(f) => Err(f.with_frame(Label::LetStatement, pos)),
            Ok((p2, name)) => match spec_literal(t, spec_ws_end(t, p2), tok_eq()) {
                Err(f) => Err(f.with_frame(Label::LetStatement, pos)),
                Ok(p3) => match spec_expr(t, spec_ws_end(t, p3)) {
                    Err(f) => Err(f.with_frame(Label::LetStatement, pos)),
                    Ok((p4, e)) => match spec_literal(t, spec_ws_end(t, p4), tok_semi()) {
                        Err(f) => Err(f.with_frame(Label::LetStatement, pos)),
                        Ok(p5) => Ok((p5, SStmt::Let(name, e))),
                    },
                },
            },
        },
    }
}

/// `expr_statement`: an expression followed by `;`. The widest production;
/// the dispatcher tries it last.
pub open spec fn spec_expr_stmt(t: Seq<char>, pos: int) -> Result<(int, SStmt), SpecFailure> {
    match spec_expr(t, pos) {
        Err(f) => Err(f.with_frame(Label::ExprStatement, pos)),
        Ok((p1, e)) => match spec_literal(t, spec_ws_end(t, p1), tok_semi()) {
            Err(f) => Err(f.with_frame(Label::ExprStatement, pos)),
            Ok(p2) => Ok((p2, SStmt::ExprStmt(e))),
        },
    }
}

/// A braced statement list: `{`, statements, `}`. Yields the statements and
/// the position just past the closing brace.
pub open spec fn spec_braced(t: Seq<char>, pos: int) -> Result<(int, Seq<SStmt>), SpecFailure>
    decreases remaining(t, pos), 0int,
{
    match spec_literal(t, pos, tok_lbrace()) {
        Err(f) => Err(f),
        Ok(p1) => spec_items(t, p1, Seq::empty()),
    }
}

/// `if_statement`: `if`, an expression, a braced block, and optionally
/// `else` with a second braced block. Once `else` has matched, a failing
/// block is fatal.
pub open spec fn spec_if_stmt(t: Seq<char>, pos: int) -> Result<(int, SStmt), SpecFailure>
    decreases remaining(t, pos), 1int,
{
    match spec_keyword(t, pos, kw_if()) {
        Err(f) => Err(f.with_frame(Label::IfStatement, pos)),
        Ok(p1) => match spec_expr(t, spec_ws_end(t, p1)) {
            Err(f) => Err(f.with_frame(Label::IfStatement, pos)),
            Ok((p2, cond)) => {
                let p3 = spec_ws_end(t, p2);
                if p3 < pos {
                    Err(vacuous_failure(pos))
                } else {
                    match spec_braced(t, p3) {
                        Err(f) => Err(f.with_frame(Label::IfStatement, pos)),
                        Ok((p4, body)) => match spec_keyword(t, spec_ws_end(t, p4), kw_else()) {
                            Err(_) => Ok((p4, SStmt::If(cond, body, None))),
                            Ok(p5) => {
                                let p6 = spec_ws_end(t, p5);
                                if p6 < pos {
                                    Err(vacuous_failure(pos))
                                } else {
                                    match spec_braced(t, p6) {
                                        Err(f) => Err(f.with_frame(Label::IfStatement, pos)),
                                        Ok((p7, els)) => Ok(
                                            (p7, SStmt::If(cond, body, Some(els))),
                                        ),
                                    }
                                }
                            },
                        },
                    }
                }
            },
        },
    }
}

/// `while_statement`: `while`, an expression, a braced block.
pub open spec fn spec_while_stmt(t: Seq<char>, pos: int) -> Result<(int, SStmt), SpecFailure>
    decreases remaining(t, pos), 1int,
{
    match spec_keyword(t, pos, kw_while()) {
        Err(f) => Err(f.with_frame(Label::WhileStatement, pos)),
        Ok(p1) => match spec_expr(t, spec_ws_end(t, p1)) {
            Err(f) => Err(f.with_frame(Label::WhileStatement, pos)),
            Ok((p2, cond)) => {
                let p3 = spec_ws_end(t, p2);
                if p3 < pos {
                    Err(vacuous_failure(pos))
                } else {
                    match spec_braced(t, p3) {
                        Err(f) => Err(f.with_frame(Label::WhileStatement, pos)),
                        Ok((p4, body)) => Ok((p4, SStmt::While(cond, body))),
                    }
                }
            },
        },
    }
}

/// `block_statement`: a braced statement list as a statement of its own.
pub open spec fn spec_block_stmt(t: Seq<char>, pos: int) -> Result<(int, SStmt), SpecFailure>
    decreases remaining(t, pos), 1int,
{
    match spec_braced(t, pos) {
        Err(f) => Err(f.with_frame(Label::BlockStatement, pos)),
        Ok((p1, items)) => Ok((p1, SStmt::Block(items))),
    }
}

/// The statement dispatcher: the productions are tried in order on the same
/// position and the first success wins. When all fail, the failure that
/// consumed the most input is reported (ties go to the earlier alternative);
/// if none consumed anything, the cause is `AllAlternativesFailed`.
pub open spec fn spec_statement(t: Seq<char>, pos: int) -> Result<(int, SStmt), SpecFailure>
    decreases remaining(t, pos), 2int,
{
    match spec_continue_stmt(t, pos) {
        Ok(r) => Ok(r),
        Err(f1) => match spec_break_stmt(t, pos) {
            Ok(r) => Ok(r),
            Err(f2) => match spec_return_stmt(t, pos) {
                Ok(r) => Ok(r),
                Err(f3) => match spec_if_stmt(t, pos) {
                    Ok(r) => Ok(r),
                    Err(f4) => match spec_while_stmt(t, pos) {
                        Ok(r) => Ok(r),
                        Err(f5) => match spec_let_stmt(t, pos) {
                            Ok(r) => Ok(r),
                            Err(f6) => match spec_block_stmt(t, pos) {
                                Ok(r) => Ok(r),
                                Err(f7) => match spec_expr_stmt(t, pos) {
                                    Ok(r) => Ok(r),
                                    Err(f8) => {
                                        let best = spec_better(
                                            f1,
                                            spec_better(
                                                f2,
                                                spec_better(
                                                    f3,
                                                    spec_better(
                                                        f4,
                                                        spec_better(
                                                            f5,
                                                            spec_better(f6, spec_better(f7, f8)),
                                                        ),
                                                    ),
                                                ),
                                            ),
                                        );
                                        if best.at > pos {
                                            Err(best)
                                        } else {
                                            Err(vacuous_failure(pos))
                                        }
                                    },
                                },
                            },
                        },
                    },
                },
            },
        },
    }
}

/// The statement list inside braces: whitespace, then either the closing
/// brace (success, past it), the end of the input (`UnterminatedBlock`), or
/// one more statement, appended to `acc`.
pub open spec fn spec_items(t: Seq<char>, pos: int, acc: Seq<SStmt>) -> Result<
    (int, Seq<SStmt>),
    SpecFailure,
>
    decreases remaining(t, pos), 3int,
{
    let p = spec_ws_end(t, pos);
    if p < pos || t.len() < p {
        Err(vacuous_failure(pos))
    } else if p == t.len() {
        Err(SpecFailure { frames: Seq::empty(), cause: SpecCause::UnterminatedBlock, at: p })
    } else if t[p] == '}' {
        Ok((p + 1, acc))
    } else {
        match spec_statement(t, p) {
            Err(f) => Err(f),
            Ok((p2, st)) => {
                if p < p2 && p2 <= t.len() {
                    spec_items(t, p2, acc.push(st))
                } else {
                    Err(vacuous_failure(pos))
                }
            },
        }
    }
}

// --- progress: a successful statement always moves strictly forward ---

/// A successful `continue_statement` ends past its start and inside the text.
pub proof fn lemma_continue_bounds(t: Seq<char>, pos: int)
    ensures
        spec_continue_stmt(t, pos) matches Ok((end, _)) ==> pos < end <= t.len(),
{
    if spec_keyword(t, pos, kw_continue()) is Ok {
        lemma_ws_end(t, pos + kw_continue().len());
    }
}

/// A successful `break_statement` ends past its start and inside the text.
pub proof fn lemma_break_bounds(t: Seq<char>, pos: int)
    ensures
        spec_break_stmt(t, pos) matches Ok((end, _)) ==> pos < end <= t.len(),
{
    if spec_keyword(t, pos, kw_break()) is Ok {
        lemma_ws_end(t, pos + kw_break().len());
    }
}

/// A successful `return_statement` ends past its start and inside the text.
pub proof fn lemma_return_bounds(t: Seq<char>, pos: int)
    ensures
        spec_return_stmt(t, pos) matches Ok((end, _)) ==> pos < end <= t.len(),
{
    if spec_keyword(t, pos, kw_return()) is Ok {
        let p1 = pos + kw_return().len();
        lemma_ws_end(t, p1);
        let p2 = spec_ws_end(t, p1);
        lemma_atom_end(t, p2);
        let p3 = spec_atom_end(t, p2);
        lemma_ws_end(t, p3);
    }
}

/// A successful `let_statement` ends past its start and inside the text.
pub proof fn lemma_let_bounds(t: Seq<char>, pos: int)
    ensures
        spec_let_stmt(t, pos) matches Ok((end, _)) ==> pos < end <= t.len(),
{
    if spec_keyword(t, pos, kw_let()) is Ok {
        let p1 = pos + kw_let().len();
        lemma_ws_end(t, p1);
        let q1 = spec_ws_end(t, p1);
        lemma_atom_end(t, q1);
        let p2 = spec_atom_end(t, q1);
        lemma_ws_end(t, p2);
        let q2 = spec_ws_end(t, p2);
        lemma_ws_end(t, q2 + 1);
        let q3 = spec_ws_end(t, q2 + 1);
        lemma_atom_end(t, q3);
        let p4 = spec_atom_end(t, q3);
        lemma_ws_end(t, p4);
    }
}

/// A successful `expr_statement` ends past its start and inside the text.
pub proof fn lemma_expr_stmt_bounds(t: Seq<char>, pos: int)
    ensures
        spec_expr_stmt(t, pos) matches Ok((end, _)) ==> pos < end <= t.len(),
{
    if spec_expr(t, pos) is Ok {
        lemma_atom_end(t, pos);
        lemma_ws_end(t, spec_atom_end(t, pos));
    }
}

/// A successful braced statement list ends past its start and inside the
/// text.
pub proof fn lemma_braced_bounds(t: Seq<char>, pos: int)
    ensures
        spec_braced(t, pos) matches Ok((end, _)) ==> pos < end <= t.len(),
    decreases remaining(t, pos), 0int,
{
    if spec_literal(t, pos, tok_lbrace()) is Ok {
        lemma_items_bounds(t, pos + 1, Seq::empty());
    }
}

/// A successful `if_statement` ends past its start and inside the text.
pub proof fn lemma_if_bounds(t: Seq<char>, pos: int)
    ensures
        spec_if_stmt(t, pos) matches Ok((end, _)) ==> pos < end <= t.len(),
    decreases remaining(t, pos), 1int,
{
    if spec_keyword(t, pos, kw_if()) is Ok {
        let p1 = pos + kw_if().len();
        lemma_ws_end(t, p1);
        let q1 = spec_ws_end(t, p1);
        if spec_expr(t, q1) is Ok {
            lemma_atom_end(t, q1);
            let p2 = spec_atom_end(t, q1);
            lemma_ws_end(t, p2);
            let p3 = spec_ws_end(t, p2);
            lemma_braced_bounds(t, p3);
            if spec_braced(t, p3) is Ok {
                let p4 = spec_braced(t, p3)->Ok_0.0;
                lemma_ws_end(t, p4);
                if spec_keyword(t, spec_ws_end(t, p4), kw_else()) is Ok {
                    let p5 = spec_keyword(t, spec_ws_end(t, p4), kw_else())->Ok_0;
                    lemma_ws_end(t, p5);
                    let p6 = spec_ws_end(t, p5);
                    lemma_braced_bounds(t, p6);
                }
            }
        }
    }
}

/// A successful `while_statement` ends past its start and inside the text.
pub proof fn lemma_while_bounds(t: Seq<char>, pos: int)
    ensures
        spec_while_stmt(t, pos) matches Ok((end, _)) ==> pos < end <= t.len(),
    decreases remaining(t, pos), 1int,
{
    if spec_keyword(t, pos, kw_while()) is Ok {
        let p1 = pos + kw_while().len();
        lemma_ws_end(t, p1);
        let q1 = spec_ws_end(t, p1);
        if spec_expr(t, q1) is Ok {
            lemma_atom_end(t, q1);
            let p2 = spec_atom_end(t, q1);
            lemma_ws_end(t, p2);
            let p3 = spec_ws_end(t, p2);
            lemma_braced_bounds(t, p3);
        }
    }
}

/// A successful `block_statement` ends past its start and inside the text.
pub proof fn lemma_block_bounds(t: Seq<char>, pos: int)
    ensures
        spec_block_stmt(t, pos) matches Ok((end, _)) ==> pos < end <= t.len(),
    decreases remaining(t, pos), 1int,
{
    lemma_braced_bounds(t, pos);
}

/// No statement production is zero-width: a statement that parses ends
/// strictly past its start and inside the text.
pub proof fn lemma_statement_progress(t: Seq<char>, pos: int)
    ensures
        spec_statement(t, pos) matches Ok((end, _)) ==> pos < end <= t.len(),
    decreases remaining(t, pos), 2int,
{
    lemma_continue_bounds(t, pos);
    lemma_break_bounds(t, pos);
    lemma_return_bounds(t, pos);
    lemma_if_bounds(t, pos);
    lemma_while_bounds(t, pos);
    lemma_let_bounds(t, pos);
    lemma_block_bounds(t, pos);
    lemma_expr_stmt_bounds(t, pos);
}

/// A successful braced statement list, entered after its opening brace,
/// ends past the entry position and inside the text.
pub proof fn lemma_items_bounds(t: Seq<char>, pos: int, acc: Seq<SStmt>)
    ensures
        spec_items(t, pos, acc) matches Ok((end, _)) ==> pos < end <= t.len(),
    decreases remaining(t, pos), 3int,
{
    lemma_ws_end(t, pos);
    let p = spec_ws_end(t, pos);
    if pos <= p <= t.len() && p < t.len() && t[p] != '}' {
        lemma_statement_progress(t, p);
        if spec_statement(t, p) is Ok {
            let (p2, st) = spec_statement(t, p)->Ok_0;
            if p < p2 <= t.len() {
                lemma_items_bounds(t, p2, acc.push(st));
            }
        }
    }
}

// --- the executable grammar, proved equal to the mathematical one ---

/// How a concrete statement outcome realises a mathematical one.
pub open spec fn stmt_models<'a>(
    c: Cursor<'a>,
    r: Result<(Cursor<'a>, Statement), ParseFailure>,
    m: Result<(int, SStmt), SpecFailure>,
) -> bool {
    match (r, m) {
        (Ok((c2, st)), Ok((p, sm))) => c2.text@ == c.text@ && c2.pos == p && c2.wf()
            && st.model() == sm,
        (Err(f), Err(sf)) => f@ == sf,
        _ => false,
    }
}

/// How a concrete statement-list outcome realises a mathematical one.
pub open spec fn items_models<'a>(
    c: Cursor<'a>,
    r: Result<(Cursor<'a>, Vec<Statement>), ParseFailure>,
    m: Result<(int, Seq<SStmt>), SpecFailure>,
) -> bool {
    match (r, m) {
        (Ok((c2, v)), Ok((p, sm))) => c2.text@ == c.text@ && c2.pos == p && c2.wf() && model_seq(
            v@,
        ) == sm,
        (Err(f), Err(sf)) => f@ == sf,
        _ => false,
    }
}

/// Parses `continue` , whitespace , `;` into `Statement::Continue`.
pub fn continue_statement<'a>(c: Cursor<'a>) -> (r: Result<(Cursor<'a>, Statement), ParseFailure>)
    requires
        c.wf(),
    ensures
        stmt_models(c, r, spec_continue_stmt(c.text@, c.pos as int)),
{
    let c1 = match keyword(c, &kw_continue_chars()) {
        Ok(c1) => c1,
        Err(f) => {
            return Err(f.with_frame(Label::ContinueStatement, c.pos));
        },
    };
    let c2 = ws0(c1);
    match literal(c2, &tok_semi_chars()) {
        Ok(c3) => Ok((c3, Statement::Continue)),
        Err(f) => Err(f.with_frame(Label::ContinueStatement, c.pos)),
    }
}

/// Parses `break` , whitespace , `;` into `Statement::Break`.
pub fn break_statement<'a>(c: Cursor<'a>) -> (r: Result<(Cursor<'a>, Statement), ParseFailure>)
    requires
        c.wf(),
    ensures
        stmt_models(c, r, spec_break_stmt(c.text@, c.pos as int)),
{
    let c1 = match keyword(c, &kw_break_chars()) {
        Ok(c1) => c1,
        Err(f) => {
            return Err(f.with_frame(Label::BreakStatement, c.pos));
        },
    };
    let c2 = ws0(c1);
    match literal(c2, &tok_semi_chars()) {
        Ok(c3) => Ok((c3, Statement::Break)),
        Err(f) => Err(f.with_frame(Label::BreakStatement, c.pos)),
    }
}

/// Parses `return` with an optional expression into `Statement::Return`.
pub fn return_statement<'a>(c: Cursor<'a>) -> (r: Result<(Cursor<'a>, Statement), ParseFailure>)
    requires
        c.wf(),
    ensures
        stmt_models(c, r, spec_return_stmt(c.text@, c.pos as int)),
{
    let c1 = match keyword(c, &kw_return_chars()) {
        Ok(c1) => c1,
        Err(f) => {
            return Err(f.with_frame(Label::ReturnStatement, c.pos));
        },
    };
    let c2 = ws0(c1);
    match parse_expr(c2) {
        Ok((c3, e)) => {
            let c4 = ws0(c3);
            match literal(c4, &tok_semi_chars()) {
                Ok(c5) => Ok((c5, Statement::Return(Some(e)))),
                Err(f) => Err(f.with_frame(Label::ReturnStatement, c.pos)),
            }
        },
        Err(_) => match literal(c2, &tok_semi_chars()) {
            Ok(c3) => Ok((c3, Statement::Return(None))),
            Err(f) => Err(f.with_frame(Label::ReturnStatement, c.pos)),
        },
    }
}

/// Parses `let` , name , `=` , expression , `;` into `Statement::Let`.
pub fn let_statement<'a>(c: Cursor<'a>) -> (r: Result<(Cursor<'a>, Statement), ParseFailure>)
    requires
        c.wf(),
    ensures
        stmt_models(c, r, spec_let_stmt(c.text@, c.pos as int)),
{
    let c1 = match keyword(c, &kw_let_chars()) {
        Ok(c1) => c1,
        Err(f) => {
            return Err(f.with_frame(Label::LetStatement, c.pos));
        },
    };
    let (c2, name) = match parse_expr(ws0(c1)) {
        Ok(x) => x,
        Err(f) => {
            return Err(f.with_frame(Label::LetStatement, c.pos));
        },
    };
    let c3 = match literal(ws0(c2), &tok_eq_chars()) {
        Ok(x) => x,
        Err(f) => {
            return Err(f.with_frame(Label::LetStatement, c.pos));
        },
    };
    let (c4, e) = match parse_expr(ws0(c3)) {
        Ok(x) => x,
        Err(f) => {
            return Err(f.with_frame(Label::LetStatement, c.pos));
        },
    };
    match literal(ws0(c4), &tok_semi_chars()) {
        Ok(c5) => Ok((c5, Statement::Let(name.text, e))),
        Err(f) => Err(f.with_frame(Label::LetStatement, c.pos)),
    }
}

/// Parses an expression followed by `;` into `Statement::ExprStmt`.
pub fn expr_statement<'a>(c: Cursor<'a>) -> (r: Result<(Cursor<'a>, Statement), ParseFailure>)
    requires
        c.wf(),
    ensures
        stmt_models(c, r, spec_expr_stmt(c.text@, c.pos as int)),
{
    let (c1, e) = match parse_expr(c) {
        Ok(x) => x,
        Err(f) => {
            return Err(f.with_frame(Label::ExprStatement, c.pos));
        },
    };
    match literal(ws0(c1), &tok_semi_chars()) {
        Ok(c2) => Ok((c2, Statement::ExprStmt(e))),
        Err(f) => Err(f.with_frame(Label::ExprStatement, c.pos)),
    }
}

/// Parses a braced statement list: `{`, statements, `}`.
pub fn braced<'a>(c: Cursor<'a>) -> (r: Result<(Cursor<'a>, Vec<Statement>), ParseFailure>)
    requires
        c.wf(),
    ensures
        items_models(c, r, spec_braced(c.text@, c.pos as int)),
    decreases remaining(c.text@, c.pos as int), 0int,
{
    let c1 = match literal(c, &tok_lbrace_chars()) {
        Ok(x) => x,
        Err(f) => {
            return Err(f);
        },
    };
    let mut acc: Vec<Statement> = Vec::new();
    let mut cur = c1;
    loop
        invariant
            c.wf(),
            cur.wf(),
            cur.text@ == c.text@,
            c.pos < cur.pos,
            spec_braced(c.text@, c.pos as int) == spec_items(
                c.text@,
                cur.pos as int,
                model_seq(acc@),
            ),
        decreases remaining(c.text@, cur.pos as int),
    {
        let p = ws0(cur);
        proof {
            lemma_ws_end(c.text@, cur.pos as int);
        }
        let n = p.text.len();
        if p.pos == n {
            return Err(ParseFailure::unterminated(p.pos));
        }
        if p.text[p.pos] == '}' {
            return Ok((Cursor { text: p.text, pos: p.pos + 1 }, acc));
        }
        match statement(p) {
            Err(f) => {
                return Err(f);
            },
            Ok((c2, st)) => {
                proof {
                    lemma_statement_progress(c.text@, p.pos as int);
                    lemma_model_seq_push(acc@, st);
                }
                acc.push(st);
                cur = c2;
            },
        }
    }
}

/// Parses `if` , expression , block , optionally `else` and a second block.
pub fn if_statement<'a>(c: Cursor<'a>) -> (r: Result<(Cursor<'a>, Statement), ParseFailure>)
    requires
        c.wf(),
    ensures
        stmt_models(c, r, spec_if_stmt(c.text@, c.pos as int)),
    decreases remaining(c.text@, c.pos as int), 1int,
{
    let c1 = match keyword(c, &kw_if_chars()) {
        Ok(x) => x,
        Err(f) => {
            return Err(f.with_frame(Label::IfStatement, c.pos));
        },
    };
    let c1w = ws0(c1);
    proof {
        lemma_ws_end(c.text@, c1.pos as int);
    }
    let (c2, cond) = match parse_expr(c1w) {
        Ok(x) => x,
        Err(f) => {
            return Err(f.with_frame(Label::IfStatement, c.pos));
        },
    };
    proof {
        lemma_atom_end(c.text@, c1w.pos as int);
    }
    let c3 = ws0(c2);
    proof {
        lemma_ws_end(c.text@, c2.pos as int);
    }
    match braced(c3) {
        Err(f) => Err(f.with_frame(Label::IfStatement, c.pos)),
        Ok((c4, body)) => {
            proof {
                lemma_braced_bounds(c.text@, c3.pos as int);
            }
            let c5 = ws0(c4);
            proof {
                lemma_ws_end(c.text@, c4.pos as int);
            }
            match keyword(c5, &kw_else_chars()) {
                Err(_) => Ok((c4, Statement::If(cond, body, None))),
                Ok(c6) => {
                    let c7 = ws0(c6);
                    proof {
                        lemma_ws_end(c.text@, c6.pos as int);
                    }
                    match braced(c7) {
                        Err(f) => Err(f.with_frame(Label::IfStatement, c.pos)),
                        Ok((c8, els)) => Ok((c8, Statement::If(cond, body, Some(els)))),
                    }
                },
            }
        },
    }
}

/// Parses `while` , expression , block into `Statement::While`.
pub fn while_statement<'a>(c: Cursor<'a>) -> (r: Result<(Cursor<'a>, Statement), ParseFailure>)
    requires
        c.wf(),
    ensures
        stmt_models(c, r, spec_while_stmt(c.text@, c.pos as int)),
    decreases remaining(c.text@, c.pos as int), 1int,
{
    let c1 = match keyword(c, &kw_while_chars()) {
        Ok(x) => x,
        Err(f) => {
            return Err(f.with_frame(Label::WhileStatement, c.pos));
        },
    };
    let c1w = ws0(c1);
    proof {
        lemma_ws_end(c.text@, c1.pos as int);
    }
    let (c2, cond) = match parse_expr(c1w) {
        Ok(x) => x,
        Err(f) => {
            return Err(f.with_frame(Label::WhileStatement, c.pos));
        },
    };
    proof {
        lemma_atom_end(c.text@, c1w.pos as int);
    }
    let c3 = ws0(c2);
    proof {
        lemma_ws_end(c.text@, c2.pos as int);
    }
    match braced(c3) {
        Err(f) => Err(f.with_frame(Label::WhileStatement, c.pos)),
        Ok((c4, body)) => Ok((c4, Statement::While(cond, body))),
    }
}

/// Parses a braced statement list as a statement of its own.
pub fn block_statement<'a>(c: Cursor<'a>) -> (r: Result<(Cursor<'a>, Statement), ParseFailure>)
    requires
        c.wf(),
    ensures
        stmt_models(c, r, spec_block_stmt(c.text@, c.pos as int)),
    decreases remaining(c.text@, c.pos as int), 1int,
{
    match braced(c) {
        Err(f) => Err(f.with_frame(Label::BlockStatement, c.pos)),
        Ok((c1, items)) => Ok((c1, Statement::Block(items))),
    }
}

/// The statement dispatcher: tries every production in order on the same
/// cursor and returns the first success; when all fail, reports the failure
/// that consumed the most input, ties going to the earlier alternative.
pub fn statement<'a>(c: Cursor<'a>) -> (r: Result<(Cursor<'a>, Statement), ParseFailure>)
    requires
        c.wf(),
    ensures
        stmt_models(c, r, spec_statement(c.text@, c.pos as int)),
    decreases remaining(c.text@, c.pos as int), 2int,
{
    let f1 = match continue_statement(c) {
        Ok(x) => {
            return Ok(x);
        },
        Err(f) => f,
    };
    let f2 = match break_statement(c) {
        Ok(x) => {
            return Ok(x);
        },
        Err(f) => f,
    };
    let f3 = match return_statement(c) {
        Ok(x) => {
            return Ok(x);
        },
        Err(f) => f,
    };
    let f4 = match if_statement(c) {
        Ok(x) => {
            return Ok(x);
        },
        Err(f) => f,
    };
    let f5 = match while_statement(c) {
        Ok(x) => {
            return Ok(x);
        },
        Err(f) => f,
    };
    let f6 = match let_statement(c) {
        Ok(x) => {
            return Ok(x);
        },
        Err(f) => f,
    };
    let f7 = match block_statement(c) {
        Ok(x) => {
            return Ok(x);
        },
        Err(f) => f,
    };
    let f8 = match expr_statement(c) {
        Ok(x) => {
            return Ok(x);
        },
        Err(f) => f,
    };
    let best = better(f1, better(f2, better(f3, better(f4, better(f5, better(f6, better(f7, f8)))))));
    if best.at > c.pos {
        Err(best)
    } else {
        Err(ParseFailure::no_alternative(c.pos))
    }
}

} // verus!

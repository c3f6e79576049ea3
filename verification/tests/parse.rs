use stmt_grammar::ast::{Expr, Statement};
use stmt_grammar::cursor::Cursor;
use stmt_grammar::driver::{parse_program, parse_program_at};
use stmt_grammar::stmt::{block_statement, continue_statement, statement};

fn chars(s: &str) -> Vec<char> {
    s.chars().collect()
}

fn expr(s: &str) -> Expr {
    Expr { text: chars(s) }
}

#[test]
fn continue_exact() {
    let text = chars("continue;");
    let c = Cursor::new(&text);
    match statement(c) {
        Ok((c2, st)) => {
            assert_eq!(st, Statement::Continue);
            assert_eq!(c2.pos, 9);
        }
        Err(f) => panic!("unexpected failure: {:?}", f),
    }
}

#[test]
fn continue_with_whitespace() {
    let text = chars("continue   ;");
    let c = Cursor::new(&text);
    match statement(c) {
        Ok((c2, st)) => {
            assert_eq!(st, Statement::Continue);
            assert_eq!(c2.pos, 12);
        }
        Err(f) => panic!("unexpected failure: {:?}", f),
    }
}

#[test]
fn continue_production_direct() {
    let text = chars("continue\t\n;");
    let c = Cursor::new(&text);
    match continue_statement(c) {
        Ok((c2, st)) => {
            assert_eq!(st, Statement::Continue);
            assert_eq!(c2.pos, text.len());
        }
        Err(f) => panic!("unexpected failure: {:?}", f),
    }
}

#[test]
fn block_collects_in_order() {
    let text = chars("{ continue; break; }");
    let c = Cursor::new(&text);
    match block_statement(c) {
        Ok((c2, st)) => {
            assert_eq!(st, Statement::Block(vec![Statement::Continue, Statement::Break]));
            assert_eq!(c2.pos, text.len());
        }
        Err(f) => panic!("unexpected failure: {:?}", f),
    }
}

#[test]
fn program_in_order() {
    let text = chars("continue; break;");
    let r = parse_program(&text);
    assert_eq!(r, Ok(vec![Statement::Continue, Statement::Break]));
}

#[test]
fn empty_program() {
    let text = chars("");
    assert_eq!(parse_program(&text), Ok(vec![]));
}

#[test]
fn whitespace_only_program() {
    let text = chars(" \t\n\r ");
    assert_eq!(parse_program(&text), Ok(vec![]));
}

#[test]
fn return_with_expression() {
    let text = chars("return x;");
    let r = parse_program(&text);
    assert_eq!(r, Ok(vec![Statement::Return(Some(expr("x")))]));
}

#[test]
fn return_without_expression() {
    let text = chars("return;");
    let r = parse_program(&text);
    assert_eq!(r, Ok(vec![Statement::Return(None)]));
}

#[test]
fn let_declaration() {
    let text = chars("let x = 42;");
    let r = parse_program(&text);
    assert_eq!(r, Ok(vec![Statement::Let(chars("x"), expr("42"))]));
}

#[test]
fn if_without_else() {
    let text = chars("if cond { continue; }");
    let r = parse_program(&text);
    assert_eq!(r, Ok(vec![Statement::If(expr("cond"), vec![Statement::Continue], None)]));
}

#[test]
fn if_with_else() {
    let text = chars("if c { break; } else { continue; }");
    let r = parse_program(&text);
    assert_eq!(
        r,
        Ok(vec![Statement::If(
            expr("c"),
            vec![Statement::Break],
            Some(vec![Statement::Continue]),
        )])
    );
}

#[test]
fn while_loop() {
    let text = chars("while x { x; }");
    let r = parse_program(&text);
    assert_eq!(
        r,
        Ok(vec![Statement::While(expr("x"), vec![Statement::ExprStmt(expr("x"))])])
    );
}

#[test]
fn expression_statement() {
    let text = chars("foo;");
    let r = parse_program(&text);
    assert_eq!(r, Ok(vec![Statement::ExprStmt(expr("foo"))]));
}

#[test]
fn nested_blocks() {
    let text = chars("{ { continue; } }");
    let r = parse_program(&text);
    assert_eq!(
        r,
        Ok(vec![Statement::Block(vec![Statement::Block(vec![Statement::Continue])])])
    );
}

#[test]
fn parse_from_offset() {
    let text = chars("xx continue;");
    let r = parse_program_at(&text, 2);
    assert_eq!(r, Ok(vec![Statement::Continue]));
}

#[test]
fn keyword_prefixes_stay_expressions() {
    let text = chars("ifx;");
    assert_eq!(parse_program(&text), Ok(vec![Statement::ExprStmt(expr("ifx"))]));
    let text = chars("breaker;");
    assert_eq!(parse_program(&text), Ok(vec![Statement::ExprStmt(expr("breaker"))]));
}

#[test]
fn empty_block() {
    let text = chars("{}");
    assert_eq!(parse_program(&text), Ok(vec![Statement::Block(vec![])]));
    let text = chars("{  }");
    assert_eq!(parse_program(&text), Ok(vec![Statement::Block(vec![])]));
}

#[test]
fn parsing_twice_is_identical() {
    let good = chars("if c { break; } else { while x { y; } }");
    assert_eq!(parse_program(&good), parse_program(&good));
    let bad = chars("continue");
    assert_eq!(parse_program(&bad), parse_program(&bad));
}

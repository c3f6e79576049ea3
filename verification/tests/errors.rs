use stmt_grammar::ast::Statement;
use stmt_grammar::cursor::Cursor;
use stmt_grammar::diag::{ErrorCause, Frame, Label};
use stmt_grammar::driver::parse_program;
use stmt_grammar::stmt::continue_statement;

fn chars(s: &str) -> Vec<char> {
    s.chars().collect()
}

#[test]
fn missing_semicolon_at_end_of_input() {
    let text = chars("continue");
    match parse_program(&text) {
        Ok(v) => panic!("parsed a partial statement: {:?}", v),
        Err(f) => {
            assert_eq!(f.frames[0], Frame { label: Label::ContinueStatement, start: 0 });
            assert_eq!(f.cause, ErrorCause::ExpectedLiteral(vec![';']));
            assert_eq!(f.at, 8);
        }
    }
}

#[test]
fn missing_semicolon_after_whitespace() {
    let text = chars("continue   ");
    match parse_program(&text) {
        Ok(v) => panic!("parsed a partial statement: {:?}", v),
        Err(f) => {
            assert_eq!(f.frames[0], Frame { label: Label::ContinueStatement, start: 0 });
            assert_eq!(f.cause, ErrorCause::ExpectedLiteral(vec![';']));
            assert_eq!(f.at, 11);
        }
    }
}

#[test]
fn keyword_requires_word_boundary() {
    let text = chars("continued = 1;");
    let c = Cursor::new(&text);
    assert!(continue_statement(c).is_err());
    match parse_program(&text) {
        Ok(v) => {
            assert!(!v.contains(&Statement::Continue), "continue out of continued: {:?}", v);
        }
        Err(f) => {
            // No statement form covers an assignment, so the whole parse
            // fails; it must not have been read as `continue` plus garbage.
            assert_eq!(f.cause, ErrorCause::ExpectedLiteral(vec![';']));
        }
    }
}

#[test]
fn unterminated_block() {
    let text = chars("{ continue;");
    match parse_program(&text) {
        Ok(v) => panic!("parsed an open block: {:?}", v),
        Err(f) => {
            assert_eq!(f.cause, ErrorCause::UnterminatedBlock);
            assert_eq!(f.at, 11);
        }
    }
}

#[test]
fn nothing_matches() {
    let text = chars("?");
    match parse_program(&text) {
        Ok(v) => panic!("parsed garbage: {:?}", v),
        Err(f) => {
            assert_eq!(f.cause, ErrorCause::AllAlternativesFailed);
            assert_eq!(f.at, 0);
        }
    }
}

#[test]
fn input_ends_inside_declaration() {
    let text = chars("let ");
    match parse_program(&text) {
        Ok(v) => panic!("parsed a partial declaration: {:?}", v),
        Err(f) => {
            assert_eq!(f.cause, ErrorCause::UnexpectedEndOfInput);
            assert_eq!(f.frames[0].label, Label::Expression);
        }
    }
}

#[test]
fn committed_else_is_fatal() {
    let text = chars("if x { break; } else");
    match parse_program(&text) {
        Ok(v) => panic!("parsed a dangling else: {:?}", v),
        Err(f) => {
            assert_eq!(f.cause, ErrorCause::ExpectedLiteral(vec!['{']));
            assert!(f.frames.iter().any(|fr| fr.label == Label::IfStatement));
        }
    }
}

#[test]
fn rendered_diagnostic_line() {
    let text = chars("continue");
    let f = parse_program(&text).unwrap_err();
    let line: String = f.rendered().into_iter().collect();
    assert_eq!(line, "continue_statement: expected ; at offset 8");
}

#[test]
fn rendered_nested_frames() {
    let text = chars("while x {");
    let f = parse_program(&text).unwrap_err();
    let line: String = f.rendered().into_iter().collect();
    assert_eq!(line, "while_statement: unterminated block at offset 9");
}

#[test]
fn rendered_breadcrumb_outermost_first() {
    let text = chars("if x { continue }");
    let f = parse_program(&text).unwrap_err();
    let line: String = f.rendered().into_iter().collect();
    assert_eq!(line, "if_statement: continue_statement: expected ; at offset 16");
}

#[test]
fn deepest_failure_wins() {
    let text = chars("while x {");
    match parse_program(&text) {
        Ok(v) => panic!("parsed an open loop: {:?}", v),
        Err(f) => {
            assert_eq!(f.cause, ErrorCause::UnterminatedBlock);
            assert!(f.frames.iter().any(|fr| fr.label == Label::WhileStatement));
            assert_eq!(f.at, 9);
        }
    }
}

use lox_core::ast::{Expr, LiteralValue, Stmt};
use lox_core::interpreter::{Interpreter, RuntimeError};
use lox_core::parser::Parser;
use lox_core::scanner::Scanner;
use lox_core::token::TokenType;

fn scan(src: &str) -> Scanner {
    let mut s = Scanner::new(src.as_bytes().to_vec());
    s.scan_tokens();
    s
}

fn parse(src: &str) -> Vec<Stmt> {
    let s = scan(src);
    let mut p = Parser::new(s.get_tokens().iter().map(|t| t.duplicate()).collect());
    p.parse_program()
}

fn run(src: &str) -> (Interpreter, Result<(), RuntimeError>) {
    let prog = parse(src);
    let mut it = Interpreter::new();
    let r = it.interpret(&prog);
    (it, r)
}

#[test]
fn scan_number_lexeme_is_consumed_text() {
    let s = scan("123.25");
    let toks = s.get_tokens();
    assert_eq!(toks.len(), 2);
    assert_eq!(toks[0].get_type(), TokenType::Number);
    assert_eq!(toks[0].get_lexeme(), &b"123.25".to_vec());
    assert_eq!(toks[1].get_type(), TokenType::Eof);
    assert!(s.get_errors().is_empty());
}

#[test]
fn scan_string_strips_delimiters() {
    let s = scan("\"abc\"");
    let toks = s.get_tokens();
    assert_eq!(toks.len(), 2);
    assert_eq!(toks[0].get_type(), TokenType::Str);
    assert_eq!(toks[0].get_lexeme(), &b"abc".to_vec());
    assert!(s.get_errors().is_empty());
}

#[test]
fn scan_unterminated_string_reports_and_continues() {
    let s = scan("\"abc");
    let toks = s.get_tokens();
    assert_eq!(toks.len(), 2);
    assert_eq!(toks[0].get_type(), TokenType::Str);
    assert_eq!(toks[0].get_lexeme(), &b"abc".to_vec());
    assert_eq!(s.get_errors().len(), 1);
}

#[test]
fn parse_precedence_and_grouping() {
    let s = scan("1 + 2 * (3 - 4)");
    let mut p = Parser::new(s.get_tokens().iter().map(|t| t.duplicate()).collect());
    let e = p.parse_expression();
    let expected = Expr::Binary {
        left: Box::new(Expr::Literal(LiteralValue::Number(1))),
        operator: TokenType::Plus,
        right: Box::new(Expr::Binary {
            left: Box::new(Expr::Literal(LiteralValue::Number(2))),
            operator: TokenType::Star,
            right: Box::new(Expr::Grouping(Box::new(Expr::Binary {
                left: Box::new(Expr::Literal(LiteralValue::Number(3))),
                operator: TokenType::Minus,
                right: Box::new(Expr::Literal(LiteralValue::Number(4))),
            }))),
        }),
    };
    assert_eq!(e, expected);

    let mut it = Interpreter::new();
    let v = it.evaluate_expression(&e).unwrap();
    assert_eq!(v, LiteralValue::Number(-1));
}

#[test]
fn shadowing_restores_outer_binding() {
    let (it, r) = run("var x = 80; { var x = 20; }");
    assert!(r.is_ok());
    assert_eq!(
        it.environment.get(&b"x".to_vec()),
        Some(LiteralValue::Number(80))
    );
}

#[test]
fn redeclaration_in_same_scope_fails() {
    let (_, r) = run("var x = 1; var x = 2;");
    assert_eq!(r, Err(RuntimeError::AlreadyDefined(b"x".to_vec())));
}

#[test]
fn redeclaration_in_inner_scope_succeeds() {
    let (_, r) = run("var x = 1; { var x = 2; }");
    assert!(r.is_ok());
}

#[test]
fn assignment_is_an_expression_with_scoped_lookup() {
    let (it, r) = run("var y = 5; var x = 80; { var x = 20; y = x + y; } x = x + y;");
    assert!(r.is_ok());
    assert_eq!(
        it.environment.get(&b"x".to_vec()),
        Some(LiteralValue::Number(105))
    );
    assert_eq!(
        it.environment.get(&b"y".to_vec()),
        Some(LiteralValue::Number(25))
    );
}

#[test]
fn if_with_non_block_branch_is_fatal() {
    let (_, r) = run("if (true) print 1;");
    assert_eq!(r, Err(RuntimeError::NonBlockBranch));
}

#[test]
fn if_with_block_branch_runs() {
    let (it, r) = run("var x = 0; if (true) { x = 7; } else { x = 8; }");
    assert!(r.is_ok());
    assert_eq!(
        it.environment.get(&b"x".to_vec()),
        Some(LiteralValue::Number(7))
    );
}

#[test]
fn equality_across_types_is_false_not_an_error() {
    let (it, r) = run("var a = 1 == \"1\"; var b = 1 != \"1\";");
    assert!(r.is_ok());
    assert_eq!(
        it.environment.get(&b"a".to_vec()),
        Some(LiteralValue::Bool(false))
    );
    assert_eq!(
        it.environment.get(&b"b".to_vec()),
        Some(LiteralValue::Bool(true))
    );
}

#[test]
fn print_appends_to_output() {
    let (it, r) = run("print 1 + 2; print \"hi\";");
    assert!(r.is_ok());
    assert_eq!(
        it.get_output(),
        &vec![LiteralValue::Number(3), LiteralValue::Str(b"hi".to_vec())]
    );
}

#[test]
fn undefined_variable_is_fatal() {
    let (_, r) = run("print q;");
    assert_eq!(r, Err(RuntimeError::UndefinedVariable(b"q".to_vec())));
}

#[test]
fn assignment_to_undeclared_name_is_fatal() {
    let (_, r) = run("q = 1;");
    assert_eq!(r, Err(RuntimeError::UndefinedVariable(b"q".to_vec())));
}

#[test]
fn division_by_zero_is_fatal() {
    let (_, r) = run("var a = 1 / 0;");
    assert_eq!(r, Err(RuntimeError::DivisionByZero));
}

#[test]
fn arithmetic_type_mismatch_is_fatal() {
    let (_, r) = run("var a = 1 + \"x\";");
    assert_eq!(r, Err(RuntimeError::TypeMismatch(TokenType::Plus)));
}

#[test]
fn truncating_division_and_unary() {
    let (it, r) = run("var a = -7 / 2; var b = !0;");
    assert!(r.is_ok());
    assert_eq!(
        it.environment.get(&b"a".to_vec()),
        Some(LiteralValue::Number(-3))
    );
    assert_eq!(
        it.environment.get(&b"b".to_vec()),
        Some(LiteralValue::Bool(true))
    );
}

#[test]
fn comments_and_keywords_scan() {
    let s = scan("// note\nvar while_x = nil;");
    let kinds: Vec<TokenType> = s.get_tokens().iter().map(|t| t.get_type()).collect();
    assert_eq!(
        kinds,
        vec![
            TokenType::Var,
            TokenType::Identifier,
            TokenType::Equal,
            TokenType::Nil,
            TokenType::Semicolon,
            TokenType::Eof
        ]
    );
    assert_eq!(s.get_tokens()[0].get_line(), 2);
}

#[test]
fn unexpected_character_is_reported_and_skipped() {
    let s = scan("var#x;");
    let kinds: Vec<TokenType> = s.get_tokens().iter().map(|t| t.get_type()).collect();
    assert_eq!(
        kinds,
        vec![
            TokenType::Var,
            TokenType::Identifier,
            TokenType::Semicolon,
            TokenType::Eof
        ]
    );
    assert_eq!(s.get_errors().len(), 1);
}

#[test]
fn parser_reports_missing_semicolon() {
    let s = scan("var x = 1");
    let mut p = Parser::new(s.get_tokens().iter().map(|t| t.duplicate()).collect());
    let prog = p.parse_program();
    assert_eq!(prog.len(), 1);
    assert_eq!(p.get_errors().len(), 1);
}

#[test]
fn advance_at_end_of_input_returns_previous_token() {
    let s = scan("1;");
    let mut p = Parser::new(s.get_tokens().iter().map(|t| t.duplicate()).collect());
    assert_eq!(p.advance().get_type(), TokenType::Number);
    assert_eq!(p.advance().get_type(), TokenType::Semicolon);
    assert!(p.is_eof());
    assert_eq!(p.advance().get_type(), TokenType::Semicolon);
    assert!(p.is_eof());
}

#[test]
fn failed_run_keeps_bindings_made_before_the_failure() {
    let (it, r) = run("var x = 1; var y = x + 2; print q;");
    assert_eq!(r, Err(RuntimeError::UndefinedVariable(b"q".to_vec())));
    assert_eq!(
        it.environment.get(&b"x".to_vec()),
        Some(LiteralValue::Number(1))
    );
    assert_eq!(
        it.environment.get(&b"y".to_vec()),
        Some(LiteralValue::Number(3))
    );
}

#[test]
fn failing_block_still_discards_its_scope() {
    let (it, r) = run("var x = 1; { var x = 2; q; }");
    assert_eq!(r, Err(RuntimeError::UndefinedVariable(b"q".to_vec())));
    assert_eq!(
        it.environment.get(&b"x".to_vec()),
        Some(LiteralValue::Number(1))
    );
}

#[test]
fn while_and_for_parse_but_do_not_evaluate() {
    let (it, r) = run("var x = 1; while (false) { x = 2; }");
    assert!(r.is_ok());
    assert_eq!(
        it.environment.get(&b"x".to_vec()),
        Some(LiteralValue::Number(1))
    );
}

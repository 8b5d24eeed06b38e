use gml_core::config::{Config, PrintingFlags};
use gml_core::expressions::Expr;
use gml_core::lexer::lex_token::{Token, TokenType};
use gml_core::statements::{Statement, StatementWrapper};

#[test]
fn token_getters() {
    let t = Token::new(TokenType::Number("42"), 3, 7);
    assert_eq!(*t.token_type(), TokenType::Number("42"));
    assert_eq!(*t.line_number(), 3);
    assert_eq!(t.column_number, 7);
}

#[test]
fn config_collects_file_paths() {
    let mut config = Config { files: Vec::new() };
    config.load_file_path(String::from("scripts/a.gml"));
    config.load_file_path(String::from("scripts/b.gml"));
    assert_eq!(
        config.files,
        vec![String::from("scripts/a.gml"), String::from("scripts/b.gml")]
    );
}

#[test]
fn printing_flags_are_distinct_bits() {
    assert_eq!(PrintingFlags::NoOutput.bits(), 0b001);
    assert_eq!(PrintingFlags::NormalOverwrite.bits(), 0b010);
    assert_eq!(PrintingFlags::PrintLogs.bits(), 0b100);
}

#[test]
fn statement_wrapper_holds_expression() {
    let expr = Box::new((Expr::Newline, Vec::new()));
    let wrapped = StatementWrapper::new(Statement::ExpresssionStatement { expression: expr }, true);
    assert!(wrapped.has_semicolon);
    assert!(wrapped.hold_expr());

    let plain = StatementWrapper::new(Statement::Break, false);
    assert!(!plain.has_semicolon);
    assert!(!plain.hold_expr());
}

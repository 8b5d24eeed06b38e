use gml_core::lexer::lex_token::{Token, TokenType};
use gml_core::scanner::Scanner;

fn lex(input: &str) -> Vec<Token> {
    let mut scanner = Scanner::new(input);
    let mut tokens: Vec<Token> = Vec::new();
    scanner.lex_input(&mut tokens);
    tokens
}

#[test]
fn symbols_scenario() {
    assert_eq!(
        lex("(){}[] !=="),
        vec![
            Token::new(TokenType::LeftParen, 0, 0),
            Token::new(TokenType::RightParen, 0, 1),
            Token::new(TokenType::LeftBrace, 0, 2),
            Token::new(TokenType::RightBrace, 0, 3),
            Token::new(TokenType::LeftBracket, 0, 4),
            Token::new(TokenType::RightBracket, 0, 5),
            Token::new(TokenType::BangEqual, 0, 7),
            Token::new(TokenType::Equal, 0, 9),
            Token::new(TokenType::EOF, 0, 10),
        ]
    );
}

#[test]
fn strings_scenario() {
    assert_eq!(
        lex("\"good\"\n\"bad\n\"good2\""),
        vec![
            Token::new(TokenType::String("\"good\""), 0, 0),
            Token::new(TokenType::String("\"bad"), 1, 0),
            Token::new(TokenType::String("\"good2\""), 2, 0),
            Token::new(TokenType::EOF, 2, 7),
        ]
    );
}

#[test]
fn numbers_scenario() {
    assert_eq!(
        lex("314159\n3.14159\n314159.\n.314159\n0x0A\n$FF"),
        vec![
            Token::new(TokenType::Number("314159"), 0, 0),
            Token::new(TokenType::Number("3.14159"), 1, 0),
            Token::new(TokenType::Number("314159."), 2, 0),
            Token::new(TokenType::Number(".314159"), 3, 0),
            Token::new(TokenType::Number("0x0A"), 4, 0),
            Token::new(TokenType::Number("$FF"), 5, 0),
            Token::new(TokenType::EOF, 5, 3),
        ]
    );
}

#[test]
fn indexers_scenario() {
    assert_eq!(
        lex("[ [? [# [| [@ ]"),
        vec![
            Token::new(TokenType::LeftBracket, 0, 0),
            Token::new(TokenType::MapIndexer, 0, 2),
            Token::new(TokenType::GridIndexer, 0, 5),
            Token::new(TokenType::ListIndexer, 0, 8),
            Token::new(TokenType::ArrayIndexer, 0, 11),
            Token::new(TokenType::RightBracket, 0, 14),
            Token::new(TokenType::EOF, 0, 15),
        ]
    );
}

#[test]
fn directives_scenario() {
    assert_eq!(
        lex("#region Name\n#macro X 0\n#endregion"),
        vec![
            Token::new(TokenType::RegionBegin, 0, 0),
            Token::new(TokenType::Identifier("Name"), 0, 8),
            Token::new(TokenType::Macro, 1, 0),
            Token::new(TokenType::Identifier("X"), 1, 7),
            Token::new(TokenType::Number("0"), 1, 9),
            Token::new(TokenType::RegionEnd, 2, 0),
            Token::new(TokenType::EOF, 2, 10),
        ]
    );
}

#[test]
fn comments_scenario() {
    assert_eq!(
        lex("// a\nvar x = 20; // b\n/* c */"),
        vec![
            Token::new(TokenType::Comment("// a"), 0, 0),
            Token::new(TokenType::Var, 1, 0),
            Token::new(TokenType::Identifier("x"), 1, 4),
            Token::new(TokenType::Equal, 1, 6),
            Token::new(TokenType::Number("20"), 1, 8),
            Token::new(TokenType::Semicolon, 1, 10),
            Token::new(TokenType::Comment("// b"), 1, 12),
            Token::new(TokenType::MultilineComment("/* c */"), 2, 0),
            Token::new(TokenType::EOF, 2, 7),
        ]
    );
}

#[test]
fn empty_input_gives_lone_eof() {
    assert_eq!(lex(""), vec![Token::new(TokenType::EOF, 0, 0)]);
}

#[test]
fn lone_hashtag_before_whitespace() {
    assert_eq!(
        lex("# "),
        vec![Token::new(TokenType::Hashtag, 0, 0), Token::new(TokenType::EOF, 0, 2)]
    );
}

#[test]
fn stray_hashtag_with_tail_emits_both() {
    assert_eq!(
        lex("#wow"),
        vec![
            Token::new(TokenType::Hashtag, 0, 0),
            Token::new(TokenType::Identifier("#wow"), 0, 1),
            Token::new(TokenType::EOF, 0, 4),
        ]
    );
}

#[test]
fn hex_prefix_without_digits() {
    assert_eq!(
        lex("0x"),
        vec![Token::new(TokenType::Number("0x"), 0, 0), Token::new(TokenType::EOF, 0, 2)]
    );
    assert_eq!(
        lex("0xZ"),
        vec![
            Token::new(TokenType::Number("0x"), 0, 0),
            Token::new(TokenType::Identifier("Z"), 0, 2),
            Token::new(TokenType::EOF, 0, 3),
        ]
    );
}

#[test]
fn dollar_without_digits() {
    assert_eq!(
        lex("$"),
        vec![Token::new(TokenType::Number("$"), 0, 0), Token::new(TokenType::EOF, 0, 1)]
    );
}

#[test]
fn unterminated_multiline_comment_covers_rest() {
    assert_eq!(
        lex("/* abc\ndef"),
        vec![
            Token::new(TokenType::MultilineComment("/* abc\ndef"), 0, 0),
            Token::new(TokenType::EOF, 1, 3),
        ]
    );
}

#[test]
fn multiline_comment_closes_at_first_terminator() {
    assert_eq!(
        lex("/*ab**/"),
        vec![
            Token::new(TokenType::MultilineComment("/*ab**/"), 0, 0),
            Token::new(TokenType::EOF, 0, 7),
        ]
    );
}

#[test]
fn unterminated_string_at_end_of_input() {
    assert_eq!(
        lex("\"abc"),
        vec![Token::new(TokenType::String("\"abc"), 0, 0), Token::new(TokenType::EOF, 0, 4)]
    );
}

#[test]
fn break_and_exit_are_not_reserved() {
    assert_eq!(
        lex("break exit"),
        vec![
            Token::new(TokenType::Identifier("break"), 0, 0),
            Token::new(TokenType::Identifier("exit"), 0, 6),
            Token::new(TokenType::EOF, 0, 10),
        ]
    );
}

#[test]
fn carriage_returns_are_dropped() {
    assert_eq!(
        lex("a\r\nb"),
        vec![
            Token::new(TokenType::Identifier("a"), 0, 0),
            Token::new(TokenType::Identifier("b"), 1, 0),
            Token::new(TokenType::EOF, 1, 1),
        ]
    );
}

#[test]
fn unknown_character_is_skipped() {
    assert_eq!(
        lex("a @ b"),
        vec![
            Token::new(TokenType::Identifier("a"), 0, 0),
            Token::new(TokenType::Identifier("b"), 0, 4),
            Token::new(TokenType::EOF, 0, 5),
        ]
    );
}

#[test]
fn tokens_after_multiline_comment_keep_column() {
    assert_eq!(
        lex("/* a\nbb */ var"),
        vec![
            Token::new(TokenType::MultilineComment("/* a\nbb */"), 0, 0),
            Token::new(TokenType::Var, 1, 6),
            Token::new(TokenType::EOF, 1, 9),
        ]
    );
}

#[test]
fn scanning_twice_gives_equal_streams() {
    let input = "var x = 0x1F; // done\n/* tail */";
    assert_eq!(lex(input), lex(input));
}

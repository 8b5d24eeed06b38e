//! The token model: the closed set of token kinds, a position-annotated token
//! record, and the mathematical view of both (payloads as sequences of
//! characters, positions as naturals).

use vstd::prelude::*;

verus! {

/// One lexeme kind of the GML surface syntax. Payload-bearing variants carry
/// the exact slice of the input that the token stands for, including the
/// surrounding syntactic characters (quotes of strings, `//` of comments,
/// `/*` and `*/` of closed multiline comments, `0x` or `$` of hex numbers).
#[derive(Debug, PartialEq)]
pub enum TokenType<'a> {
    LeftParen,
    RightParen,
    LeftBrace,
    RightBrace,
    LeftBracket,
    RightBracket,
    Comma,
    Dot,
    Minus,
    Plus,
    Colon,
    Semicolon,
    Slash,
    Backslash,
    Star,
    Mod,
    Hashtag,
    ListIndexer,
    MapIndexer,
    GridIndexer,
    ArrayIndexer,
    LogicalAnd,
    LogicalOr,
    LogicalXor,
    BinaryAnd,
    BinaryOr,
    BinaryXor,
    Bang,
    Hook,
    BangEqual,
    Equal,
    EqualEqual,
    Greater,
    GreaterEqual,
    Less,
    LessEqual,
    Macro,
    RegionBegin,
    RegionEnd,
    Var,
    If,
    Else,
    Return,
    For,
    Repeat,
    While,
    Do,
    Until,
    Switch,
    Case,
    DefaultCase,
    Break,
    True,
    False,
    AndAlias,
    OrAlias,
    NotAlias,
    ModAlias,
    Div,
    Identifier(&'a str),
    String(&'a str),
    Number(&'a str),
    Comment(&'a str),
    MultilineComment(&'a str),
    EOF,
}

/// The mathematical counterpart of `TokenType`: payloads are sequences of
/// characters rather than borrowed slices, so contracts can speak of them.
pub enum SpecTokenType {
    LeftParen,
    RightParen,
    LeftBrace,
    RightBrace,
    LeftBracket,
    RightBracket,
    Comma,
    Dot,
    Minus,
    Plus,
    Colon,
    Semicolon,
    Slash,
    Backslash,
    Star,
    Mod,
    Hashtag,
    ListIndexer,
    MapIndexer,
    GridIndexer,
    ArrayIndexer,
    LogicalAnd,
    LogicalOr,
    LogicalXor,
    BinaryAnd,
    BinaryOr,
    BinaryXor,
    Bang,
    Hook,
    BangEqual,
    Equal,
    EqualEqual,
    Greater,
    GreaterEqual,
    Less,
    LessEqual,
    Macro,
    RegionBegin,
    RegionEnd,
    Var,
    If,
    Else,
    Return,
    For,
    Repeat,
    While,
    Do,
    Until,
    Switch,
    Case,
    DefaultCase,
    Break,
    True,
    False,
    AndAlias,
    OrAlias,
    NotAlias,
    ModAlias,
    Div,
    Identifier(Seq<char>),
    String(Seq<char>),
    Number(Seq<char>),
    Comment(Seq<char>),
    MultilineComment(Seq<char>),
    EOF,
}

impl<'a> View for TokenType<'a> {
    type V = SpecTokenType;

    open spec fn view(&self) -> SpecTokenType {
        match *self {
            TokenType::LeftParen => SpecTokenType::LeftParen,
            TokenType::RightParen => SpecTokenType::RightParen,
            TokenType::LeftBrace => SpecTokenType::LeftBrace,
            TokenType::RightBrace => SpecTokenType::RightBrace,
            TokenType::LeftBracket => SpecTokenType::LeftBracket,
            TokenType::RightBracket => SpecTokenType::RightBracket,
            TokenType::Comma => SpecTokenType::Comma,
            TokenType::Dot => SpecTokenType::Dot,
            TokenType::Minus => SpecTokenType::Minus,
            TokenType::Plus => SpecTokenType::Plus,
            TokenType::Colon => SpecTokenType::Colon,
            TokenType::Semicolon => SpecTokenType::Semicolon,
            TokenType::Slash => SpecTokenType::Slash,
            TokenType::Backslash => SpecTokenType::Backslash,
            TokenType::Star => SpecTokenType::Star,
            TokenType::Mod => SpecTokenType::Mod,
            TokenType::Hashtag => SpecTokenType::Hashtag,
            TokenType::ListIndexer => SpecTokenType::ListIndexer,
            TokenType::MapIndexer => SpecTokenType::MapIndexer,
            TokenType::GridIndexer => SpecTokenType::GridIndexer,
            TokenType::ArrayIndexer => SpecTokenType::ArrayIndexer,
            TokenType::LogicalAnd => SpecTokenType::LogicalAnd,
            TokenType::LogicalOr => SpecTokenType::LogicalOr,
            TokenType::LogicalXor => SpecTokenType::LogicalXor,
            TokenType::BinaryAnd => SpecTokenType::BinaryAnd,
            TokenType::BinaryOr => SpecTokenType::BinaryOr,
            TokenType::BinaryXor => SpecTokenType::BinaryXor,
            TokenType::Bang => SpecTokenType::Bang,
            TokenType::Hook => SpecTokenType::Hook,
            TokenType::BangEqual => SpecTokenType::BangEqual,
            TokenType::Equal => SpecTokenType::Equal,
            TokenType::EqualEqual => SpecTokenType::EqualEqual,
            TokenType::Greater => SpecTokenType::Greater,
            TokenType::GreaterEqual => SpecTokenType::GreaterEqual,
            TokenType::Less => SpecTokenType::Less,
            TokenType::LessEqual => SpecTokenType::LessEqual,
            TokenType::Macro => SpecTokenType::Macro,
            TokenType::RegionBegin => SpecTokenType::RegionBegin,
            TokenType::RegionEnd => SpecTokenType::RegionEnd,
            TokenType::Var => SpecTokenType::Var,
            TokenType::If => SpecTokenType::If,
            TokenType::Else => SpecTokenType::Else,
            TokenType::Return => SpecTokenType::Return,
            TokenType::For => SpecTokenType::For,
            TokenType::Repeat => SpecTokenType::Repeat,
            TokenType::While => SpecTokenType::While,
            TokenType::Do => SpecTokenType::Do,
            TokenType::Until => SpecTokenType::Until,
            TokenType::Switch => SpecTokenType::Switch,
            TokenType::Case => SpecTokenType::Case,
            TokenType::DefaultCase => SpecTokenType::DefaultCase,
            TokenType::Break => SpecTokenType::Break,
            TokenType::True => SpecTokenType::True,
            TokenType::False => SpecTokenType::False,
            TokenType::AndAlias => SpecTokenType::AndAlias,
            TokenType::OrAlias => SpecTokenType::OrAlias,
            TokenType::NotAlias => SpecTokenType::NotAlias,
            TokenType::ModAlias => SpecTokenType::ModAlias,
            TokenType::Div => SpecTokenType::Div,
            TokenType::Identifier(s) => SpecTokenType::Identifier(s@),
            TokenType::String(s) => SpecTokenType::String(s@),
            TokenType::Number(s) => SpecTokenType::Number(s@),
            TokenType::Comment(s) => SpecTokenType::Comment(s@),
            TokenType::MultilineComment(s) => SpecTokenType::MultilineComment(s@),
            TokenType::EOF => SpecTokenType::EOF,
        }
    }
}

/// A token: a kind together with the zero-based line and column where its
/// lexeme starts in the input.
#[derive(Debug, PartialEq)]
pub struct Token<'a> {
    pub token_type: TokenType<'a>,
    pub line_number: u32,
    pub column_number: u32,
}

/// The mathematical counterpart of `Token`.
pub struct SpecToken {
    pub token_type: SpecTokenType,
    pub line_number: nat,
    pub column_number: nat,
}

impl<'a> View for Token<'a> {
    type V = SpecToken;

    open spec fn view(&self) -> SpecToken {
        SpecToken {
            token_type: self.token_type@,
            line_number: self.line_number as nat,
            column_number: self.column_number as nat,
        }
    }
}

/// The views of a sequence of tokens, in order.
pub open spec fn tokens_view<'a>(ts: Seq<Token<'a>>) -> Seq<SpecToken> {
    ts.map_values(|t: Token<'a>| t@)
}

pub broadcast proof fn lemma_tokens_view_push<'a>(ts: Seq<Token<'a>>, t: Token<'a>)
    ensures
        #[trigger] tokens_view(ts.push(t)) == tokens_view(ts).push(t@),
{
    assert(tokens_view(ts.push(t)) =~= tokens_view(ts).push(t@));
}

impl<'a> Token<'a> {
    pub fn new(token_type: TokenType<'a>, line_number: u32, column_number: u32) -> (t: Token<'a>)
        ensures
            t.token_type == token_type,
            t.line_number == line_number,
            t.column_number == column_number,
    {
        Token { token_type, line_number, column_number }
    }

    pub fn token_type<'s>(&'s self) -> (r: &'s TokenType<'a>)
        ensures
            *r == self.token_type,
    {
        &self.token_type
    }

    pub fn line_number(&self) -> (r: &u32)
        ensures
            *r == self.line_number,
    {
        &self.line_number
    }
}

} // verus!

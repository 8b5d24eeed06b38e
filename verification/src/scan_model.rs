//! The mathematical model of the scanner: a total spec function from the
//! input character sequence (and a starting position) to the token sequence
//! the scanner emits, together with the lemmas that state its global
//! properties (termination shape, a single final `EOF`, monotone positions,
//! payloads being exact substrings of the input, determinism).

use vstd::prelude::*;

use crate::lexer::lex_token::{SpecToken, SpecTokenType};

verus! {

/// Decimal digit `0`..`9`.
pub open spec fn is_decimal_digit(c: char) -> bool {
    ('0' as u32) <= (c as u32) && (c as u32) <= ('9' as u32)
}

/// Hexadecimal digit `0`..`9`, `a`..`f`, `A`..`F`.
pub open spec fn is_hex_digit(c: char) -> bool {
    is_decimal_digit(c) || (('a' as u32) <= (c as u32) && (c as u32) <= ('f' as u32)) || (('A'
        as u32) <= (c as u32) && (c as u32) <= ('F' as u32))
}

/// Character that may continue an identifier: ASCII alphanumeric or `_`.
pub open spec fn is_ident_char(c: char) -> bool {
    (('a' as u32) <= (c as u32) && (c as u32) <= ('z' as u32)) || (('A' as u32) <= (c as u32) && (c
        as u32) <= ('Z' as u32)) || is_decimal_digit(c) || c == '_'
}

/// Character that may start an identifier: ASCII letter or `_`.
pub open spec fn is_ident_start(c: char) -> bool {
    is_ident_char(c) && !is_decimal_digit(c)
}

pub open spec fn digit_pred() -> spec_fn(char) -> bool {
    |c: char| is_decimal_digit(c)
}

pub open spec fn hex_pred() -> spec_fn(char) -> bool {
    |c: char| is_hex_digit(c)
}

pub open spec fn ident_pred() -> spec_fn(char) -> bool {
    |c: char| is_ident_char(c)
}

/// Characters that stay inside a string literal: anything but the closing
/// quote and the end of the line.
pub open spec fn string_body_pred() -> spec_fn(char) -> bool {
    |c: char| c != '\n' && c != '"'
}

/// Characters that stay inside a line comment: anything but the end of line.
pub open spec fn line_comment_pred() -> spec_fn(char) -> bool {
    |c: char| c != '\n'
}

/// First index at or after `i` whose character fails `pred`, or the length of
/// the input if the run reaches the end.
pub open spec fn run_end(s: Seq<char>, i: int, pred: spec_fn(char) -> bool) -> int
    recommends
        0 <= i <= s.len(),
    decreases s.len() - i,
{
    if i >= s.len() {
        s.len() as int
    } else if pred(s[i]) {
        run_end(s, i + 1, pred)
    } else {
        i
    }
}

pub proof fn lemma_run_end(s: Seq<char>, i: int, pred: spec_fn(char) -> bool)
    requires
        0 <= i <= s.len(),
    ensures
        i <= run_end(s, i, pred) <= s.len(),
        forall|k: int| i <= k < run_end(s, i, pred) ==> pred(s[k]),
        run_end(s, i, pred) < s.len() ==> !pred(s[run_end(s, i, pred)]),
    decreases s.len() - i,
{
    if i < s.len() && pred(s[i]) {
        lemma_run_end(s, i + 1, pred);
    }
}

/// Walks a multiline comment body starting at `i` (just past the opening
/// `/*`). Returns the index just past the closing `*/` (or the input length
/// when the comment is unterminated), the line number after the walk, and the
/// index just past the most recent line break (`lcb` when no line break was
/// crossed).
pub open spec fn multiline_scan(s: Seq<char>, i: int, line: nat, lcb: int) -> (int, nat, int)
    recommends
        0 <= i <= s.len(),
    decreases s.len() - i,
{
    if i >= s.len() {
        (s.len() as int, line, lcb)
    } else if s[i] == '*' && i + 1 < s.len() && s[i + 1] == '/' {
        (i + 2, line, lcb)
    } else if s[i] == '\n' {
        multiline_scan(s, i + 1, (line + 1) as nat, i + 1)
    } else {
        multiline_scan(s, i + 1, line, lcb)
    }
}

pub proof fn lemma_multiline_scan(s: Seq<char>, i: int, line: nat, lcb: int)
    requires
        0 <= i <= s.len(),
        0 <= lcb <= i,
    ensures
        ({
            let r = multiline_scan(s, i, line, lcb);
            &&& i <= r.0 <= s.len()
            &&& line <= r.1 <= line + (r.0 - i)
            &&& lcb <= r.2 <= r.0
            &&& (r.1 == line ==> r.2 == lcb)
        }),
    decreases s.len() - i,
{
    if i >= s.len() {
    } else if s[i] == '*' && i + 1 < s.len() && s[i + 1] == '/' {
    } else if s[i] == '\n' {
        lemma_multiline_scan(s, i + 1, (line + 1) as nat, i + 1);
    } else {
        lemma_multiline_scan(s, i + 1, line, lcb);
    }
}

/// The reserved words of the language and the token each stands for.
pub open spec fn keyword_token(w: Seq<char>) -> Option<SpecTokenType> {
    if w == "var"@ {
        Some(SpecTokenType::Var)
    } else if w == "and"@ {
        Some(SpecTokenType::AndAlias)
    } else if w == "or"@ {
        Some(SpecTokenType::OrAlias)
    } else if w == "not"@ {
        Some(SpecTokenType::NotAlias)
    } else if w == "if"@ {
        Some(SpecTokenType::If)
    } else if w == "else"@ {
        Some(SpecTokenType::Else)
    } else if w == "return"@ {
        Some(SpecTokenType::Return)
    } else if w == "for"@ {
        Some(SpecTokenType::For)
    } else if w == "repeat"@ {
        Some(SpecTokenType::Repeat)
    } else if w == "while"@ {
        Some(SpecTokenType::While)
    } else if w == "do"@ {
        Some(SpecTokenType::Do)
    } else if w == "until"@ {
        Some(SpecTokenType::Until)
    } else if w == "switch"@ {
        Some(SpecTokenType::Switch)
    } else if w == "case"@ {
        Some(SpecTokenType::Case)
    } else if w == "default"@ {
        Some(SpecTokenType::DefaultCase)
    } else if w == "true"@ {
        Some(SpecTokenType::True)
    } else if w == "false"@ {
        Some(SpecTokenType::False)
    } else if w == "mod"@ {
        Some(SpecTokenType::ModAlias)
    } else if w == "div"@ {
        Some(SpecTokenType::Div)
    } else {
        None
    }
}

/// The compiler directives (`#`-slice included) and the token each stands for.
pub open spec fn directive_token(w: Seq<char>) -> Option<SpecTokenType> {
    if w == "#macro"@ {
        Some(SpecTokenType::Macro)
    } else if w == "#region"@ {
        Some(SpecTokenType::RegionBegin)
    } else if w == "#endregion"@ {
        Some(SpecTokenType::RegionEnd)
    } else {
        None
    }
}

/// What one dispatch step of the scanner does: the tokens it emits, the index
/// of the first character it leaves unconsumed, and the line and column
/// counters after the step.
pub struct ScanStep {
    pub toks: Seq<SpecToken>,
    pub next: int,
    pub line: nat,
    pub col: nat,
}

/// One token anchored at `(line, col)`, consuming the characters up to
/// (excluding) `e`; the column advances by the consumed width.
pub open spec fn token_step(t: SpecTokenType, i: int, line: nat, col: nat, e: int) -> ScanStep {
    ScanStep {
        toks: seq![SpecToken { token_type: t, line_number: line, column_number: col }],
        next: e,
        line: line,
        col: (col + (e - i)) as nat,
    }
}

/// No token; one character consumed.
pub open spec fn skip_step(next: int, line: nat, col: nat) -> ScanStep {
    ScanStep { toks: seq![], next: next, line: line, col: col }
}

/// A one-character token, or its two-character compound when the next
/// character is `second`.
pub open spec fn pair_step(
    s: Seq<char>,
    i: int,
    line: nat,
    col: nat,
    second: char,
    two: SpecTokenType,
    one: SpecTokenType,
) -> ScanStep {
    if i + 1 < s.len() && s[i + 1] == second {
        token_step(two, i, line, col, i + 2)
    } else {
        token_step(one, i, line, col, i + 1)
    }
}

/// Classifies the lexeme starting at `s[i]` and says what the scanner emits
/// for it. Mirrors the dispatch table of the scanner: single-character
/// punctuation; two-character compounds; data-structure indexers after `[`;
/// directives after `#`; string, number and comment forms; whitespace and
/// line breaks; identifiers and reserved words; and a skipped unknown
/// character.
#[verifier::opaque]
pub open spec fn scan_step(s: Seq<char>, i: int, line: nat, col: nat) -> ScanStep
    recommends
        0 <= i < s.len(),
{
    let c = s[i];
    if c == '(' {
        token_step(SpecTokenType::LeftParen, i, line, col, i + 1)
    } else if c == ')' {
        token_step(SpecTokenType::RightParen, i, line, col, i + 1)
    } else if c == '{' {
        token_step(SpecTokenType::LeftBrace, i, line, col, i + 1)
    } else if c == '}' {
        token_step(SpecTokenType::RightBrace, i, line, col, i + 1)
    } else if c == ',' {
        token_step(SpecTokenType::Comma, i, line, col, i + 1)
    } else if c == '-' {
        token_step(SpecTokenType::Minus, i, line, col, i + 1)
    } else if c == '+' {
        token_step(SpecTokenType::Plus, i, line, col, i + 1)
    } else if c == ';' {
        token_step(SpecTokenType::Semicolon, i, line, col, i + 1)
    } else if c == '*' {
        token_step(SpecTokenType::Star, i, line, col, i + 1)
    } else if c == ':' {
        token_step(SpecTokenType::Colon, i, line, col, i + 1)
    } else if c == '%' {
        token_step(SpecTokenType::Mod, i, line, col, i + 1)
    } else if c == ']' {
        token_step(SpecTokenType::RightBracket, i, line, col, i + 1)
    } else if c == '?' {
        token_step(SpecTokenType::Hook, i, line, col, i + 1)
    } else if c == '\\' {
        token_step(SpecTokenType::Backslash, i, line, col, i + 1)
    } else if c == '!' {
        pair_step(s, i, line, col, '=', SpecTokenType::BangEqual, SpecTokenType::Bang)
    } else if c == '=' {
        pair_step(s, i, line, col, '=', SpecTokenType::EqualEqual, SpecTokenType::Equal)
    } else if c == '<' {
        pair_step(s, i, line, col, '=', SpecTokenType::LessEqual, SpecTokenType::Less)
    } else if c == '>' {
        pair_step(s, i, line, col, '=', SpecTokenType::GreaterEqual, SpecTokenType::Greater)
    } else if c == '&' {
        pair_step(s, i, line, col, '&', SpecTokenType::LogicalAnd, SpecTokenType::BinaryAnd)
    } else if c == '|' {
        pair_step(s, i, line, col, '|', SpecTokenType::LogicalOr, SpecTokenType::BinaryOr)
    } else if c == '^' {
        pair_step(s, i, line, col, '^', SpecTokenType::LogicalXor, SpecTokenType::BinaryXor)
    } else if c == '[' {
        if i + 1 < s.len() && s[i + 1] == '@' {
            token_step(SpecTokenType::ArrayIndexer, i, line, col, i + 2)
        } else if i + 1 < s.len() && s[i + 1] == '?' {
            token_step(SpecTokenType::MapIndexer, i, line, col, i + 2)
        } else if i + 1 < s.len() && s[i + 1] == '|' {
            token_step(SpecTokenType::ListIndexer, i, line, col, i + 2)
        } else if i + 1 < s.len() && s[i + 1] == '#' {
            token_step(SpecTokenType::GridIndexer, i, line, col, i + 2)
        } else {
            token_step(SpecTokenType::LeftBracket, i, line, col, i + 1)
        }
    } else if c == '#' {
        let e = run_end(s, i + 1, ident_pred());
        let w = s.subrange(i, e);
        match directive_token(w) {
            Option::Some(t) => token_step(t, i, line, col, e),
            Option::None => if e > i + 1 {
                ScanStep {
                    toks: seq![
                        SpecToken {
                            token_type: SpecTokenType::Hashtag,
                            line_number: line,
                            column_number: col,
                        },
                        SpecToken {
                            token_type: SpecTokenType::Identifier(w),
                            line_number: line,
                            column_number: (col + 1) as nat,
                        },
                    ],
                    next: e,
                    line: line,
                    col: (col + (e - i)) as nat,
                }
            } else {
                token_step(SpecTokenType::Hashtag, i, line, col, i + 1)
            },
        }
    } else if c == '"' {
        let b = run_end(s, i + 1, string_body_pred());
        let e = if b < s.len() && s[b] == '"' {
            b + 1
        } else {
            b
        };
        token_step(SpecTokenType::String(s.subrange(i, e)), i, line, col, e)
    } else if c == '.' {
        if i + 1 < s.len() && is_decimal_digit(s[i + 1]) {
            let e = run_end(s, i + 1, digit_pred());
            token_step(SpecTokenType::Number(s.subrange(i, e)), i, line, col, e)
        } else {
            token_step(SpecTokenType::Dot, i, line, col, i + 1)
        }
    } else if is_decimal_digit(c) {
        if c == '0' && i + 1 < s.len() && s[i + 1] == 'x' {
            let e = run_end(s, i + 2, hex_pred());
            token_step(SpecTokenType::Number(s.subrange(i, e)), i, line, col, e)
        } else {
            let d = run_end(s, i + 1, digit_pred());
            let e = if d < s.len() && s[d] == '.' {
                run_end(s, d + 1, digit_pred())
            } else {
                d
            };
            token_step(SpecTokenType::Number(s.subrange(i, e)), i, line, col, e)
        }
    } else if c == '$' {
        let e = run_end(s, i + 1, hex_pred());
        token_step(SpecTokenType::Number(s.subrange(i, e)), i, line, col, e)
    } else if c == '/' {
        if i + 1 < s.len() && s[i + 1] == '/' {
            let e = run_end(s, i + 2, line_comment_pred());
            token_step(SpecTokenType::Comment(s.subrange(i, e)), i, line, col, e)
        } else if i + 1 < s.len() && s[i + 1] == '*' {
            let r = multiline_scan(s, i + 2, line, i);
            ScanStep {
                toks: seq![
                    SpecToken {
                        token_type: SpecTokenType::MultilineComment(s.subrange(i, r.0)),
                        line_number: line,
                        column_number: col,
                    },
                ],
                next: r.0,
                line: r.1,
                col: if r.1 == line {
                    (col + (r.0 - i)) as nat
                } else {
                    (r.0 - r.2) as nat
                },
            }
        } else {
            token_step(SpecTokenType::Slash, i, line, col, i + 1)
        }
    } else if c == ' ' || c == '\t' {
        skip_step(i + 1, line, (col + 1) as nat)
    } else if c == '\n' {
        skip_step(i + 1, (line + 1) as nat, 0)
    } else if c == '\r' {
        skip_step(i + 1, line, col)
    } else if is_ident_start(c) {
        let e = run_end(s, i + 1, ident_pred());
        let w = s.subrange(i, e);
        match keyword_token(w) {
            Option::Some(t) => token_step(t, i, line, col, e),
            Option::None => token_step(SpecTokenType::Identifier(w), i, line, col, e),
        }
    } else {
        skip_step(i + 1, line, (col + 1) as nat)
    }
}

/// Every dispatch step consumes at least one character, never runs past the
/// end, keeps the counters within the width it consumed, emits no `EOF`, and
/// anchors its tokens between the position before and after the step.
#[verifier::rlimit(100)]
pub proof fn lemma_scan_step_props(s: Seq<char>, i: int, line: nat, col: nat)
    requires
        0 <= i < s.len(),
    ensures
        ({
            let st = scan_step(s, i, line, col);
            &&& i < st.next <= s.len()
            &&& line <= st.line <= line + (st.next - i)
            &&& st.col <= col + (st.next - i)
            &&& (line < st.line || (line == st.line && col <= st.col))
            &&& st.toks.len() <= 2
            &&& (forall|k: int|
                0 <= k < st.toks.len() ==> st.toks[k].token_type != SpecTokenType::EOF)
            &&& (forall|k: int|
                0 <= k < st.toks.len() ==> starts_at_or_after(#[trigger] st.toks[k], line, col)
                    && starts_at_or_before(st.toks[k], st.line, st.col))
            &&& (forall|k: int| 0 < k < st.toks.len() ==> pos_le(st.toks[k - 1], #[trigger] st.toks[k]))
        }),
{
    reveal(scan_step);
    if i + 1 <= s.len() {
        lemma_run_end(s, i + 1, ident_pred());
        lemma_run_end(s, i + 1, digit_pred());
        lemma_run_end(s, i + 1, hex_pred());
        lemma_run_end(s, i + 1, string_body_pred());
    }
    if i + 2 <= s.len() {
        lemma_run_end(s, i + 2, hex_pred());
        lemma_run_end(s, i + 2, line_comment_pred());
        lemma_multiline_scan(s, i + 2, line, i);
    }
    let d = run_end(s, i + 1, digit_pred());
    if d < s.len() {
        lemma_run_end(s, d + 1, digit_pred());
    }
}

/// Whether token `t` starts at or after position `(line, col)`,
/// lexicographically by line then column.
pub open spec fn starts_at_or_after(t: SpecToken, line: nat, col: nat) -> bool {
    line < t.line_number || (line == t.line_number && col <= t.column_number)
}

/// Whether token `t` starts at or before position `(line, col)`,
/// lexicographically by line then column.
pub open spec fn starts_at_or_before(t: SpecToken, line: nat, col: nat) -> bool {
    t.line_number < line || (t.line_number == line && t.column_number <= col)
}

/// Whether `a`'s starting position is at or before `b`'s.
pub open spec fn pos_le(a: SpecToken, b: SpecToken) -> bool {
    starts_at_or_after(b, a.line_number, a.column_number)
}

/// The token sequence the scanner emits from position `i` on, starting with
/// the counters at `(line, col)`: the steps' tokens, ended by a single `EOF`
/// at the position the counters reach.
pub open spec fn scan_from(s: Seq<char>, i: int, line: nat, col: nat) -> Seq<SpecToken>
    decreases s.len() - i,
    when 0 <= i <= s.len()
    via scan_from_decreases
{
    if i >= s.len() {
        seq![SpecToken { token_type: SpecTokenType::EOF, line_number: line, column_number: col }]
    } else {
        let st = scan_step(s, i, line, col);
        st.toks + scan_from(s, st.next, st.line, st.col)
    }
}

#[via_fn]
proof fn scan_from_decreases(s: Seq<char>, i: int, line: nat, col: nat) {
    if 0 <= i < s.len() {
        lemma_scan_step_props(s, i, line, col);
    }
}

/// The full scan of an input: tokens from the start, counters at zero.
pub open spec fn scan_spec(s: Seq<char>) -> Seq<SpecToken> {
    scan_from(s, 0, 0, 0)
}

#[verifier::rlimit(100)]
proof fn lemma_scan_from_eof(s: Seq<char>, i: int, line: nat, col: nat)
    requires
        0 <= i <= s.len(),
    ensures
        ({
            let ts = scan_from(s, i, line, col);
            &&& ts.len() >= 1
            &&& ts.last().token_type == SpecTokenType::EOF
            &&& (forall|k: int|
                0 <= k < ts.len() - 1 ==> (#[trigger] ts[k]).token_type != SpecTokenType::EOF)
        }),
    decreases s.len() - i,
{
    if i < s.len() {
        lemma_scan_step_props(s, i, line, col);
        let st = scan_step(s, i, line, col);
        lemma_scan_from_eof(s, st.next, st.line, st.col);
    }
}

#[verifier::rlimit(100)]
proof fn lemma_scan_from_monotone(s: Seq<char>, i: int, line: nat, col: nat)
    requires
        0 <= i <= s.len(),
    ensures
        ({
            let ts = scan_from(s, i, line, col);
            &&& (forall|k: int|
                0 <= k < ts.len() ==> starts_at_or_after(#[trigger] ts[k], line, col))
            &&& (forall|k: int| 0 < k < ts.len() ==> pos_le(ts[k - 1], #[trigger] ts[k]))
        }),
    decreases s.len() - i,
{
    if i < s.len() {
        lemma_scan_step_props(s, i, line, col);
        let st = scan_step(s, i, line, col);
        lemma_scan_from_monotone(s, st.next, st.line, st.col);
        let ts = scan_from(s, i, line, col);
        let rest = scan_from(s, st.next, st.line, st.col);
        assert forall|k: int| 0 < k < ts.len() implies pos_le(ts[k - 1], #[trigger] ts[k]) by {
            if k < st.toks.len() {
            } else if k == st.toks.len() {
                assert(ts[k] == rest[0]);
                assert(starts_at_or_after(rest[0], st.line, st.col));
            } else {
                assert(ts[k] == rest[k - st.toks.len()]);
                assert(ts[k - 1] == rest[k - st.toks.len() - 1]);
            }
        }
    }
}

/// The payload slice carried by a token, if it carries one.
pub open spec fn payload_of(t: SpecTokenType) -> Option<Seq<char>> {
    match t {
        SpecTokenType::Identifier(p) => Some(p),
        SpecTokenType::String(p) => Some(p),
        SpecTokenType::Number(p) => Some(p),
        SpecTokenType::Comment(p) => Some(p),
        SpecTokenType::MultilineComment(p) => Some(p),
        _ => None,
    }
}

/// Whether `p` occurs contiguously inside `s`.
pub open spec fn is_substring_of(p: Seq<char>, s: Seq<char>) -> bool {
    exists|j: int| 0 <= j && j + p.len() <= s.len() && p == #[trigger] s.subrange(j, j + p.len())
}

/// Every payload a step emits is the exact slice of the input the step
/// consumed.
#[verifier::rlimit(100)]
proof fn lemma_scan_step_payloads(s: Seq<char>, i: int, line: nat, col: nat)
    requires
        0 <= i < s.len(),
    ensures
        ({
            let st = scan_step(s, i, line, col);
            forall|k: int|
                0 <= k < st.toks.len() && payload_of((#[trigger] st.toks[k]).token_type) is Some
                    ==> payload_of(st.toks[k].token_type)->Some_0 == s.subrange(i, st.next)
        }),
{
    reveal(scan_step);
    if i + 1 <= s.len() {
        lemma_run_end(s, i + 1, ident_pred());
        lemma_run_end(s, i + 1, digit_pred());
        lemma_run_end(s, i + 1, hex_pred());
        lemma_run_end(s, i + 1, string_body_pred());
    }
    if i + 2 <= s.len() {
        lemma_run_end(s, i + 2, hex_pred());
        lemma_run_end(s, i + 2, line_comment_pred());
        lemma_multiline_scan(s, i + 2, line, i);
    }
    let d = run_end(s, i + 1, digit_pred());
    if d < s.len() {
        lemma_run_end(s, d + 1, digit_pred());
    }
}

proof fn lemma_subrange_is_substring(s: Seq<char>, a: int, b: int)
    requires
        0 <= a <= b <= s.len(),
    ensures
        is_substring_of(s.subrange(a, b), s),
{
    let p = s.subrange(a, b);
    assert(p == s.subrange(a, a + p.len()));
}

#[verifier::rlimit(100)]
proof fn lemma_scan_from_payloads(s: Seq<char>, i: int, line: nat, col: nat)
    requires
        0 <= i <= s.len(),
    ensures
        ({
            let ts = scan_from(s, i, line, col);
            forall|k: int|
                0 <= k < ts.len() && payload_of((#[trigger] ts[k]).token_type) is Some
                    ==> is_substring_of(payload_of(ts[k].token_type)->Some_0, s)
        }),
    decreases s.len() - i,
{
    if i < s.len() {
        lemma_scan_step_props(s, i, line, col);
        lemma_scan_step_payloads(s, i, line, col);
        let st = scan_step(s, i, line, col);
        lemma_subrange_is_substring(s, i, st.next);
        lemma_scan_from_payloads(s, st.next, st.line, st.col);
        let ts = scan_from(s, i, line, col);
        assert forall|k: int|
            0 <= k < ts.len() && payload_of((#[trigger] ts[k]).token_type) is Some
            implies is_substring_of(payload_of(ts[k].token_type)->Some_0, s) by {
            if k >= st.toks.len() {
                assert(ts[k] == scan_from(s, st.next, st.line, st.col)[k - st.toks.len()]);
            }
        }
    }
}

/// Law: every scan terminates in exactly one `EOF`, and it is the final
/// token.
pub proof fn lemma_scan_exactly_one_eof(s: Seq<char>)
    ensures
        scan_spec(s).len() >= 1,
        scan_spec(s).last().token_type == SpecTokenType::EOF,
        forall|k: int|
            0 <= k < scan_spec(s).len() - 1 ==> (#[trigger] scan_spec(s)[k]).token_type
                != SpecTokenType::EOF,
{
    lemma_scan_from_eof(s, 0, 0, 0);
}

/// Law: tokens come out in input order; each token's `(line, column)` is at
/// or after the previous token's, lexicographically.
pub proof fn lemma_scan_positions_monotone(s: Seq<char>)
    ensures
        forall|k: int|
            0 < k < scan_spec(s).len() ==> pos_le(scan_spec(s)[k - 1], #[trigger] scan_spec(s)[k]),
{
    lemma_scan_from_monotone(s, 0, 0, 0);
}

/// Law: every payload a token carries is an exact contiguous substring of the
/// input, original spelling preserved.
pub proof fn lemma_scan_payloads_are_substrings(s: Seq<char>)
    ensures
        forall|k: int|
            0 <= k < scan_spec(s).len() && payload_of((#[trigger] scan_spec(s)[k]).token_type)
                is Some ==> is_substring_of(payload_of(scan_spec(s)[k].token_type)->Some_0, s),
{
    lemma_scan_from_payloads(s, 0, 0, 0);
}

/// Law: scanning is deterministic; equal inputs scan to equal token
/// sequences.
pub proof fn lemma_scan_deterministic(s: Seq<char>, t: Seq<char>)
    requires
        s == t,
    ensures
        scan_spec(s) == scan_spec(t),
{
}

} // verus!

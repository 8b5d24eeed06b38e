//! The scanner: a dispatch loop over the input characters that emits
//! position-annotated tokens. Its contract ties the emitted token sequence to
//! the mathematical model in `scan_model`.

use vstd::prelude::*;

use crate::lexer::lex_token::{tokens_view, Token, TokenType};
use crate::scan_model::{
    digit_pred, directive_token, hex_pred, ident_pred, is_decimal_digit, is_hex_digit,
    is_ident_char, is_ident_start, keyword_token, lemma_scan_step_props, line_comment_pred,
    multiline_scan, pair_step, run_end, scan_from, scan_step, string_body_pred,
};

verus! {

broadcast use crate::lexer::lex_token::lemma_tokens_view_push;

fn digit_char(c: char) -> (r: bool)
    ensures
        r == is_decimal_digit(c),
{
    let u = c as u32;
    ('0' as u32) <= u && u <= ('9' as u32)
}

fn hex_char(c: char) -> (r: bool)
    ensures
        r == is_hex_digit(c),
{
    let u = c as u32;
    (('0' as u32) <= u && u <= ('9' as u32)) || (('a' as u32) <= u && u <= ('f' as u32)) || (('A'
        as u32) <= u && u <= ('F' as u32))
}

fn ident_char(c: char) -> (r: bool)
    ensures
        r == is_ident_char(c),
{
    let u = c as u32;
    (('a' as u32) <= u && u <= ('z' as u32)) || (('A' as u32) <= u && u <= ('Z' as u32)) || (('0'
        as u32) <= u && u <= ('9' as u32)) || c == '_'
}

fn ident_start_char(c: char) -> (r: bool)
    ensures
        r == is_ident_start(c),
{
    let u = c as u32;
    (('a' as u32) <= u && u <= ('z' as u32)) || (('A' as u32) <= u && u <= ('Z' as u32)) || c == '_'
}

/// Greedily consumes decimal digits from `from` on; returns the index of the
/// first character that is not one.
fn scan_digit_run(s: &str, from: usize) -> (e: usize)
    requires
        from as int <= s@.len(),
    ensures
        e as int == run_end(s@, from as int, digit_pred()),
        from <= e,
        (e as int) <= s@.len(),
{
    let n = s.unicode_len();
    let mut j = from;
    while j < n
        invariant
            from <= j <= n,
            n == s@.len(),
            run_end(s@, from as int, digit_pred()) == run_end(s@, j as int, digit_pred()),
        ensures
            from <= j <= n,
            n == s@.len(),
            run_end(s@, from as int, digit_pred()) == run_end(s@, j as int, digit_pred()),
            j == n || !is_decimal_digit(s@[j as int]),
        decreases n - j,
    {
        let c = s.get_char(j);
        if !digit_char(c) {
            break;
        }
        j += 1;
    }
    j
}

/// Greedily consumes hexadecimal digits from `from` on.
fn scan_hex_run(s: &str, from: usize) -> (e: usize)
    requires
        from as int <= s@.len(),
    ensures
        e as int == run_end(s@, from as int, hex_pred()),
        from <= e,
        (e as int) <= s@.len(),
{
    let n = s.unicode_len();
    let mut j = from;
    while j < n
        invariant
            from <= j <= n,
            n == s@.len(),
            run_end(s@, from as int, hex_pred()) == run_end(s@, j as int, hex_pred()),
        ensures
            from <= j <= n,
            n == s@.len(),
            run_end(s@, from as int, hex_pred()) == run_end(s@, j as int, hex_pred()),
            j == n || !is_hex_digit(s@[j as int]),
        decreases n - j,
    {
        let c = s.get_char(j);
        if !hex_char(c) {
            break;
        }
        j += 1;
    }
    j
}

/// Greedily consumes identifier characters (ASCII alphanumerics and `_`) from
/// `from` on.
fn scan_ident_run(s: &str, from: usize) -> (e: usize)
    requires
        from as int <= s@.len(),
    ensures
        e as int == run_end(s@, from as int, ident_pred()),
        from <= e,
        (e as int) <= s@.len(),
{
    let n = s.unicode_len();
    let mut j = from;
    while j < n
        invariant
            from <= j <= n,
            n == s@.len(),
            run_end(s@, from as int, ident_pred()) == run_end(s@, j as int, ident_pred()),
        ensures
            from <= j <= n,
            n == s@.len(),
            run_end(s@, from as int, ident_pred()) == run_end(s@, j as int, ident_pred()),
            j == n || !is_ident_char(s@[j as int]),
        decreases n - j,
    {
        let c = s.get_char(j);
        if !ident_char(c) {
            break;
        }
        j += 1;
    }
    j
}

/// Consumes string-literal body characters: everything up to the closing
/// quote or the end of the line.
fn scan_string_run(s: &str, from: usize) -> (e: usize)
    requires
        from as int <= s@.len(),
    ensures
        e as int == run_end(s@, from as int, string_body_pred()),
        from <= e,
        (e as int) <= s@.len(),
        (e as int) < s@.len() ==> (s@[e as int] == '\n' || s@[e as int] == '"'),
{
    let n = s.unicode_len();
    let mut j = from;
    while j < n
        invariant
            from <= j <= n,
            n == s@.len(),
            run_end(s@, from as int, string_body_pred()) == run_end(
                s@,
                j as int,
                string_body_pred(),
            ),
        ensures
            from <= j <= n,
            n == s@.len(),
            run_end(s@, from as int, string_body_pred()) == run_end(
                s@,
                j as int,
                string_body_pred(),
            ),
            j == n || s@[j as int] == '\n' || s@[j as int] == '"',
        decreases n - j,
    {
        let c = s.get_char(j);
        if c == '\n' || c == '"' {
            break;
        }
        j += 1;
    }
    j
}

/// Consumes line-comment characters: everything up to the end of the line.
fn scan_line_comment_run(s: &str, from: usize) -> (e: usize)
    requires
        from as int <= s@.len(),
    ensures
        e as int == run_end(s@, from as int, line_comment_pred()),
        from <= e,
        (e as int) <= s@.len(),
{
    let n = s.unicode_len();
    let mut j = from;
    while j < n
        invariant
            from <= j <= n,
            n == s@.len(),
            run_end(s@, from as int, line_comment_pred()) == run_end(
                s@,
                j as int,
                line_comment_pred(),
            ),
        ensures
            from <= j <= n,
            n == s@.len(),
            run_end(s@, from as int, line_comment_pred()) == run_end(
                s@,
                j as int,
                line_comment_pred(),
            ),
            j == n || s@[j as int] == '\n',
        decreases n - j,
    {
        let c = s.get_char(j);
        if c == '\n' {
            break;
        }
        j += 1;
    }
    j
}

/// Walks a multiline comment body from `from` (just past the opening `/*`),
/// maintaining the line counter and the index just past the most recent line
/// break. Returns them together with the index just past the closing `*/` (or
/// the input length when the comment never closes).
fn scan_multiline_run(s: &str, from: usize, line: u32, lcb: usize) -> (r: (usize, u32, usize))
    requires
        from as int <= s@.len(),
        lcb <= from,
        line as int + (s@.len() - from) <= u32::MAX,
    ensures
        ({
            let m = multiline_scan(s@, from as int, line as nat, lcb as int);
            &&& r.0 as int == m.0
            &&& r.1 as nat == m.1
            &&& r.2 as int == m.2
            &&& from <= r.0
            &&& (r.0 as int) <= s@.len()
            &&& lcb <= r.2 <= r.0
            &&& line <= r.1
            &&& (r.1 == line ==> r.2 == lcb)
        }),
{
    proof {
        crate::scan_model::lemma_multiline_scan(s@, from as int, line as nat, lcb as int);
    }
    let n = s.unicode_len();
    let mut j = from;
    let mut ln = line;
    let mut b = lcb;
    while j < n
        invariant_except_break
            multiline_scan(s@, from as int, line as nat, lcb as int) == multiline_scan(
                s@,
                j as int,
                ln as nat,
                b as int,
            ),
        invariant
            from <= j <= n,
            n == s@.len(),
            lcb <= b <= j,
            line <= ln,
            ln as int <= line as int + (j - from),
            line as int + (n - from) <= u32::MAX,
        ensures
            n == s@.len(),
            (j as int, ln as nat, b as int) == multiline_scan(
                s@,
                from as int,
                line as nat,
                lcb as int,
            ),
        decreases n - j,
    {
        let c = s.get_char(j);
        if c == '*' && j + 1 < n {
            let c2 = s.get_char(j + 1);
            if c2 == '/' {
                proof {
                    assert(multiline_scan(s@, j as int, ln as nat, b as int) == (
                        j as int + 2,
                        ln as nat,
                        b as int,
                    ));
                }
                j += 2;
                break;
            }
        }
        if c == '\n' {
            ln += 1;
            b = j + 1;
        }
        j += 1;
    }
    (j, ln, b)
}

/// Whether the two slices hold the same characters.
fn str_eq(a: &str, b: &str) -> (r: bool)
    ensures
        r == (a@ == b@),
{
    let na = a.unicode_len();
    let nb = b.unicode_len();
    if na != nb {
        proof {
            assert(a@ != b@) by {
                if a@ == b@ {
                    assert(a@.len() == b@.len());
                }
            }
        }
        return false;
    }
    let mut k: usize = 0;
    while k < na
        invariant
            k <= na,
            na == a@.len(),
            nb == b@.len(),
            na == nb,
            forall|m: int| 0 <= m < k ==> a@[m] == b@[m],
        ensures
            na == a@.len(),
            nb == b@.len(),
            (k < na && a@[k as int] != b@[k as int]) || (k == na && forall|m: int|
                0 <= m < k ==> a@[m] == b@[m]),
        decreases na - k,
    {
        let ca = a.get_char(k);
        let cb = b.get_char(k);
        if ca != cb {
            break;
        }
        k += 1;
    }
    if k < na {
        proof {
            assert(a@ != b@);
        }
        false
    } else {
        proof {
            assert(a@ =~= b@);
        }
        true
    }
}

/// Whether the character at `j` exists and equals `expected` (the check the
/// scanner makes before consuming the second character of a compound lexeme).
fn peek_and_check_consume(s: &str, j: usize, expected: char) -> (r: bool)
    requires
        (j as int) <= s@.len(),
    ensures
        r == ((j as int) < s@.len() && s@[j as int] == expected),
{
    if j < s.unicode_len() {
        let c = s.get_char(j);
        c == expected
    } else {
        false
    }
}

/// The scanner: holds the input together with the logical line and column the
/// scan has reached. Positions are zero-based; the column counts characters
/// advanced on the current line.
pub struct Scanner<'a> {
    pub input: &'a str,
    pub line_number: u32,
    pub column_number: u32,
}

impl<'a> Scanner<'a> {
    pub fn new(input: &'a str) -> (sc: Scanner<'a>)
        ensures
            sc.input == input,
            sc.line_number == 0,
            sc.column_number == 0,
    {
        Scanner { input, line_number: 0, column_number: 0 }
    }

    /// Appends a token of width one at the current position.
    fn add_simple_token(&mut self, token_type: TokenType<'a>, tokens: &mut Vec<Token<'a>>)
        requires
            old(self).column_number < u32::MAX,
        ensures
            final(self).input == old(self).input,
            final(self).line_number == old(self).line_number,
            final(self).column_number == old(self).column_number + 1,
            final(tokens)@ == old(tokens)@.push(
                (Token {
                    token_type: token_type,
                    line_number: old(self).line_number,
                    column_number: old(self).column_number,
                }),
            ),
    {
        self.add_multiple_token(token_type, tokens, 1);
    }

    /// Appends a token of width `size` at the current position and advances
    /// the column past it.
    fn add_multiple_token(
        &mut self,
        token_type: TokenType<'a>,
        tokens: &mut Vec<Token<'a>>,
        size: u32,
    )
        requires
            old(self).column_number as int + size as int <= u32::MAX,
        ensures
            final(self).input == old(self).input,
            final(self).line_number == old(self).line_number,
            final(self).column_number == old(self).column_number + size,
            final(tokens)@ == old(tokens)@.push(
                (Token {
                    token_type: token_type,
                    line_number: old(self).line_number,
                    column_number: old(self).column_number,
                }),
            ),
    {
        tokens.push(Token::new(token_type, self.line_number, self.column_number));
        self.column_number = self.column_number + size;
    }

    /// Starts a new line: the line counter advances, the column resets.
    fn next_line(&mut self)
        requires
            old(self).line_number < u32::MAX,
        ensures
            final(self).input == old(self).input,
            final(self).line_number == old(self).line_number + 1,
            final(self).column_number == 0,
    {
        self.line_number = self.line_number + 1;
        self.column_number = 0;
    }

    /// Looks the word `input[start..current]` up in the reserved-word table.
    fn check_for_keyword(&self, start: usize, current: usize) -> (r: Option<TokenType<'a>>)
        requires
            start <= current,
            (current as int) <= self.input@.len(),
        ensures
            ({
                let k = keyword_token(self.input@.subrange(start as int, current as int));
                match r {
                    Option::Some(t) => k == Some(t@),
                    Option::None => k is None,
                }
            }),
    {
        let w = self.input.substring_char(start, current);
        if str_eq(w, "var") {
            Some(TokenType::Var)
        } else if str_eq(w, "and") {
            Some(TokenType::AndAlias)
        } else if str_eq(w, "or") {
            Some(TokenType::OrAlias)
        } else if str_eq(w, "not") {
            Some(TokenType::NotAlias)
        } else if str_eq(w, "if") {
            Some(TokenType::If)
        } else if str_eq(w, "else") {
            Some(TokenType::Else)
        } else if str_eq(w, "return") {
            Some(TokenType::Return)
        } else if str_eq(w, "for") {
            Some(TokenType::For)
        } else if str_eq(w, "repeat") {
            Some(TokenType::Repeat)
        } else if str_eq(w, "while") {
            Some(TokenType::While)
        } else if str_eq(w, "do") {
            Some(TokenType::Do)
        } else if str_eq(w, "until") {
            Some(TokenType::Until)
        } else if str_eq(w, "switch") {
            Some(TokenType::Switch)
        } else if str_eq(w, "case") {
            Some(TokenType::Case)
        } else if str_eq(w, "default") {
            Some(TokenType::DefaultCase)
        } else if str_eq(w, "true") {
            Some(TokenType::True)
        } else if str_eq(w, "false") {
            Some(TokenType::False)
        } else if str_eq(w, "mod") {
            Some(TokenType::ModAlias)
        } else if str_eq(w, "div") {
            Some(TokenType::Div)
        } else {
            None
        }
    }

    /// Looks the slice `input[start..current]` (its `#` included) up in the
    /// directive table.
    fn check_for_macro_directive(&self, start: usize, current: usize) -> (r: Option<
        TokenType<'a>,
    >)
        requires
            start <= current,
            (current as int) <= self.input@.len(),
        ensures
            ({
                let k = directive_token(self.input@.subrange(start as int, current as int));
                match r {
                    Option::Some(t) => k == Some(t@),
                    Option::None => k is None,
                }
            }),
    {
        let w = self.input.substring_char(start, current);
        if str_eq(w, "#macro") {
            Some(TokenType::Macro)
        } else if str_eq(w, "#region") {
            Some(TokenType::RegionBegin)
        } else if str_eq(w, "#endregion") {
            Some(TokenType::RegionEnd)
        } else {
            None
        }
    }

    /// Emits the two-character compound token when the character after `i`
    /// is `second`, else the one-character token.
    fn pair_token(
        &mut self,
        s: &'a str,
        i: usize,
        tokens: &mut Vec<Token<'a>>,
        second: char,
        two: TokenType<'a>,
        one: TokenType<'a>,
    ) -> (ni: usize)
        requires
            old(self).input == s,
            (i as int) < s@.len(),
            s@.len() <= usize::MAX,
            old(self).column_number as int + (s@.len() - i) <= u32::MAX,
        ensures
            final(self).input == s,
            ({
                let st = pair_step(
                    s@,
                    i as int,
                    old(self).line_number as nat,
                    old(self).column_number as nat,
                    second,
                    two@,
                    one@,
                );
                &&& tokens_view(final(tokens)@) == tokens_view(old(tokens)@) + st.toks
                &&& ni as int == st.next
                &&& final(self).line_number as nat == st.line
                &&& final(self).column_number as nat == st.col
            }),
    {
        let ghost olds = tokens@;
        let ghost st = pair_step(
            s@,
            i as int,
            self.line_number as nat,
            self.column_number as nat,
            second,
            two@,
            one@,
        );
        if peek_and_check_consume(s, i + 1, second) {
            self.add_multiple_token(two, tokens, 2);
            proof {
                assert(tokens_view(tokens@) =~= tokens_view(olds) + st.toks);
            }
            i + 2
        } else {
            self.add_simple_token(one, tokens);
            proof {
                assert(tokens_view(tokens@) =~= tokens_view(olds) + st.toks);
            }
            i + 1
        }
    }

    /// Scans the single lexeme that starts at `i`: appends the tokens it
    /// yields, advances the line and column counters past it, and returns the
    /// index of the first unconsumed character.
    #[verifier::rlimit(100)]
    fn scan_one(&mut self, s: &'a str, i: usize, tokens: &mut Vec<Token<'a>>) -> (ni: usize)
        requires
            old(self).input == s,
            (i as int) < s@.len(),
            old(self).column_number as int + (s@.len() - i) <= u32::MAX,
            old(self).line_number as int + (s@.len() - i) <= u32::MAX,
        ensures
            final(self).input == s,
            ({
                let st = scan_step(
                    s@,
                    i as int,
                    old(self).line_number as nat,
                    old(self).column_number as nat,
                );
                &&& tokens_view(final(tokens)@) == tokens_view(old(tokens)@) + st.toks
                &&& ni as int == st.next
                &&& final(self).line_number as nat == st.line
                &&& final(self).column_number as nat == st.col
            }),
    {
        proof {
            reveal(scan_step);
        }
        let ghost line0 = self.line_number as nat;
        let ghost col0 = self.column_number as nat;
        let ghost st = scan_step(s@, i as int, line0, col0);
        let ghost olds = tokens@;
        let n = s.unicode_len();
        let c = s.get_char(i);
        if c == '(' {
            self.add_simple_token(TokenType::LeftParen, tokens);
            proof {
                assert(tokens_view(tokens@) =~= tokens_view(olds) + st.toks);
            }
            return i + 1;
        }
        if c == ')' {
            self.add_simple_token(TokenType::RightParen, tokens);
            proof {
                assert(tokens_view(tokens@) =~= tokens_view(olds) + st.toks);
            }
            return i + 1;
        }
        if c == '{' {
            self.add_simple_token(TokenType::LeftBrace, tokens);
            proof {
                assert(tokens_view(tokens@) =~= tokens_view(olds) + st.toks);
            }
            return i + 1;
        }
        if c == '}' {
            self.add_simple_token(TokenType::RightBrace, tokens);
            proof {
                assert(tokens_view(tokens@) =~= tokens_view(olds) + st.toks);
            }
            return i + 1;
        }
        if c == ',' {
            self.add_simple_token(TokenType::Comma, tokens);
            proof {
                assert(tokens_view(tokens@) =~= tokens_view(olds) + st.toks);
            }
            return i + 1;
        }
        if c == '-' {
            self.add_simple_token(TokenType::Minus, tokens);
            proof {
                assert(tokens_view(tokens@) =~= tokens_view(olds) + st.toks);
            }
            return i + 1;
        }
        if c == '+' {
            self.add_simple_token(TokenType::Plus, tokens);
            proof {
                assert(tokens_view(tokens@) =~= tokens_view(olds) + st.toks);
            }
            return i + 1;
        }
        if c == ';' {
            self.add_simple_token(TokenType::Semicolon, tokens);
            proof {
                assert(tokens_view(tokens@) =~= tokens_view(olds) + st.toks);
            }
            return i + 1;
        }
        if c == '*' {
            self.add_simple_token(TokenType::Star, tokens);
            proof {
                assert(tokens_view(tokens@) =~= tokens_view(olds) + st.toks);
            }
            return i + 1;
        }
        if c == ':' {
            self.add_simple_token(TokenType::Colon, tokens);
            proof {
                assert(tokens_view(tokens@) =~= tokens_view(olds) + st.toks);
            }
            return i + 1;
        }
        if c == '%' {
            self.add_simple_token(TokenType::Mod, tokens);
            proof {
                assert(tokens_view(tokens@) =~= tokens_view(olds) + st.toks);
            }
            return i + 1;
        }
        if c == ']' {
            self.add_simple_token(TokenType::RightBracket, tokens);
            proof {
                assert(tokens_view(tokens@) =~= tokens_view(olds) + st.toks);
            }
            return i + 1;
        }
        if c == '?' {
            self.add_simple_token(TokenType::Hook, tokens);
            proof {
                assert(tokens_view(tokens@) =~= tokens_view(olds) + st.toks);
            }
            return i + 1;
        }
        if c == '\\' {
            self.add_simple_token(TokenType::Backslash, tokens);
            proof {
                assert(tokens_view(tokens@) =~= tokens_view(olds) + st.toks);
            }
            return i + 1;
        }
        if c == '!' {
            return self.pair_token(s, i, tokens, '=', TokenType::BangEqual, TokenType::Bang);
        }
        if c == '=' {
            return self.pair_token(s, i, tokens, '=', TokenType::EqualEqual, TokenType::Equal);
        }
        if c == '<' {
            return self.pair_token(s, i, tokens, '=', TokenType::LessEqual, TokenType::Less);
        }
        if c == '>' {
            return self.pair_token(s, i, tokens, '=', TokenType::GreaterEqual, TokenType::Greater);
        }
        if c == '&' {
            return self.pair_token(s, i, tokens, '&', TokenType::LogicalAnd, TokenType::BinaryAnd);
        }
        if c == '|' {
            return self.pair_token(s, i, tokens, '|', TokenType::LogicalOr, TokenType::BinaryOr);
        }
        if c == '^' {
            return self.pair_token(s, i, tokens, '^', TokenType::LogicalXor, TokenType::BinaryXor);
        }
        if c == '[' {
            if peek_and_check_consume(s, i + 1, '@') {
                self.add_multiple_token(TokenType::ArrayIndexer, tokens, 2);
                proof {
                    assert(tokens_view(tokens@) =~= tokens_view(olds) + st.toks);
                }
                return i + 2;
            }
            if peek_and_check_consume(s, i + 1, '?') {
                self.add_multiple_token(TokenType::MapIndexer, tokens, 2);
                proof {
                    assert(tokens_view(tokens@) =~= tokens_view(olds) + st.toks);
                }
                return i + 2;
            }
            if peek_and_check_consume(s, i + 1, '|') {
                self.add_multiple_token(TokenType::ListIndexer, tokens, 2);
                proof {
                    assert(tokens_view(tokens@) =~= tokens_view(olds) + st.toks);
                }
                return i + 2;
            }
            if peek_and_check_consume(s, i + 1, '#') {
                self.add_multiple_token(TokenType::GridIndexer, tokens, 2);
                proof {
                    assert(tokens_view(tokens@) =~= tokens_view(olds) + st.toks);
                }
                return i + 2;
            }
            self.add_simple_token(TokenType::LeftBracket, tokens);
            proof {
                assert(tokens_view(tokens@) =~= tokens_view(olds) + st.toks);
            }
            return i + 1;
        }
        if c == '#' {
            let e = scan_ident_run(s, i + 1);
            let dir = self.check_for_macro_directive(i, e);
            match dir {
                Some(t) => {
                    self.add_multiple_token(t, tokens, (e - i) as u32);
                    proof {
                        assert(tokens_view(tokens@) =~= tokens_view(olds) + st.toks);
                    }
                    return e;
                },
                None => {
                    self.add_simple_token(TokenType::Hashtag, tokens);
                    if e - i - 1 != 0 {
                        let sub = s.substring_char(i, e);
                        self.add_multiple_token(
                            TokenType::Identifier(sub),
                            tokens,
                            (e - i - 1) as u32,
                        );
                        proof {
                            assert(tokens_view(tokens@) =~= tokens_view(olds) + st.toks);
                        }
                        return e;
                    }
                    proof {
                        assert(tokens_view(tokens@) =~= tokens_view(olds) + st.toks);
                    }
                    return i + 1;
                },
            }
        }
        if c == '"' {
            let b = scan_string_run(s, i + 1);
            let mut e = b;
            if peek_and_check_consume(s, b, '"') {
                e = b + 1;
            }
            let sub = s.substring_char(i, e);
            self.add_multiple_token(TokenType::String(sub), tokens, (e - i) as u32);
            proof {
                assert(tokens_view(tokens@) =~= tokens_view(olds) + st.toks);
            }
            return e;
        }
        if c == '.' {
            if i + 1 < n {
                let c2 = s.get_char(i + 1);
                if digit_char(c2) {
                    let e = scan_digit_run(s, i + 1);
                    let sub = s.substring_char(i, e);
                    self.add_multiple_token(TokenType::Number(sub), tokens, (e - i) as u32);
                    proof {
                        assert(tokens_view(tokens@) =~= tokens_view(olds) + st.toks);
                    }
                    return e;
                }
            }
            self.add_simple_token(TokenType::Dot, tokens);
            proof {
                assert(tokens_view(tokens@) =~= tokens_view(olds) + st.toks);
            }
            return i + 1;
        }
        if digit_char(c) {
            if c == '0' && peek_and_check_consume(s, i + 1, 'x') {
                let e = scan_hex_run(s, i + 2);
                let sub = s.substring_char(i, e);
                self.add_multiple_token(TokenType::Number(sub), tokens, (e - i) as u32);
                proof {
                    assert(tokens_view(tokens@) =~= tokens_view(olds) + st.toks);
                }
                return e;
            }
            let d = scan_digit_run(s, i + 1);
            let mut e = d;
            if peek_and_check_consume(s, d, '.') {
                e = scan_digit_run(s, d + 1);
            }
            let sub = s.substring_char(i, e);
            self.add_multiple_token(TokenType::Number(sub), tokens, (e - i) as u32);
            proof {
                assert(tokens_view(tokens@) =~= tokens_view(olds) + st.toks);
            }
            return e;
        }
        if c == '$' {
            let e = scan_hex_run(s, i + 1);
            let sub = s.substring_char(i, e);
            self.add_multiple_token(TokenType::Number(sub), tokens, (e - i) as u32);
            proof {
                assert(tokens_view(tokens@) =~= tokens_view(olds) + st.toks);
            }
            return e;
        }
        if c == '/' {
            if peek_and_check_consume(s, i + 1, '/') {
                let e = scan_line_comment_run(s, i + 2);
                let sub = s.substring_char(i, e);
                self.add_multiple_token(TokenType::Comment(sub), tokens, (e - i) as u32);
                proof {
                    assert(tokens_view(tokens@) =~= tokens_view(olds) + st.toks);
                }
                return e;
            }
            if peek_and_check_consume(s, i + 1, '*') {
                let r = scan_multiline_run(s, i + 2, self.line_number, i);
                let e = r.0;
                let ln2 = r.1;
                let lcb2 = r.2;
                let sub = s.substring_char(i, e);
                tokens.push(Token::new(
                    TokenType::MultilineComment(sub),
                    self.line_number,
                    self.column_number,
                ));
                if ln2 == self.line_number {
                    self.column_number = self.column_number + ((e - i) as u32);
                } else {
                    self.line_number = ln2;
                    self.column_number = (e - lcb2) as u32;
                }
                proof {
                    assert(tokens_view(tokens@) =~= tokens_view(olds) + st.toks);
                }
                return e;
            }
            self.add_simple_token(TokenType::Slash, tokens);
            proof {
                assert(tokens_view(tokens@) =~= tokens_view(olds) + st.toks);
            }
            return i + 1;
        }
        if c == ' ' || c == '\t' {
            self.column_number = self.column_number + 1;
            proof {
                assert(tokens_view(tokens@) =~= tokens_view(olds) + st.toks);
            }
            return i + 1;
        }
        if c == '\n' {
            self.next_line();
            proof {
                assert(tokens_view(tokens@) =~= tokens_view(olds) + st.toks);
            }
            return i + 1;
        }
        if c == '\r' {
            proof {
                assert(tokens_view(tokens@) =~= tokens_view(olds) + st.toks);
            }
            return i + 1;
        }
        if ident_start_char(c) {
            let e = scan_ident_run(s, i + 1);
            let kw = self.check_for_keyword(i, e);
            match kw {
                Some(t) => {
                    self.add_multiple_token(t, tokens, (e - i) as u32);
                    proof {
                        assert(tokens_view(tokens@) =~= tokens_view(olds) + st.toks);
                    }
                    return e;
                },
                None => {
                    let sub = s.substring_char(i, e);
                    self.add_multiple_token(TokenType::Identifier(sub), tokens, (e - i) as u32);
                    proof {
                        assert(tokens_view(tokens@) =~= tokens_view(olds) + st.toks);
                    }
                    return e;
                },
            }
        }
        self.column_number = self.column_number + 1;
        proof {
            assert(tokens_view(tokens@) =~= tokens_view(olds) + st.toks);
        }
        i + 1
    }

    /// Scans the whole input: appends every token of the source text to
    /// `tokens`, ending with the single `EOF` token. The emitted sequence is
    /// exactly the one the model `scan_from` describes for the input and the
    /// scanner's starting position; on a freshly constructed scanner that is
    /// `scan_spec` of the input.
    pub fn lex_input(&mut self, tokens: &mut Vec<Token<'a>>)
        requires
            old(self).column_number as int + old(self).input@.len() < u32::MAX,
            old(self).line_number as int + old(self).input@.len() < u32::MAX,
        ensures
            final(self).input == old(self).input,
            tokens_view(final(tokens)@) == tokens_view(old(tokens)@) + scan_from(
                old(self).input@,
                0,
                old(self).line_number as nat,
                old(self).column_number as nat,
            ),
    {
        let s = self.input;
        let ghost l0 = self.line_number as nat;
        let ghost c0 = self.column_number as nat;
        let ghost m0 = tokens_view(tokens@);
        let n = s.unicode_len();
        let mut i: usize = 0;
        while i < n
            invariant
                n == s@.len(),
                i <= n,
                self.input == s,
                self.column_number as int <= c0 + i,
                self.line_number as int <= l0 + i,
                c0 + n < u32::MAX,
                l0 + n < u32::MAX,
                m0 + scan_from(s@, 0, l0, c0) == tokens_view(tokens@) + scan_from(
                    s@,
                    i as int,
                    self.line_number as nat,
                    self.column_number as nat,
                ),
            decreases n - i,
        {
            let ghost line_b = self.line_number as nat;
            let ghost col_b = self.column_number as nat;
            proof {
                lemma_scan_step_props(s@, i as int, line_b, col_b);
            }
            let ni = self.scan_one(s, i, tokens);
            proof {
                let st = scan_step(s@, i as int, line_b, col_b);
                assert(scan_from(s@, i as int, line_b, col_b) == st.toks + scan_from(
                    s@,
                    st.next,
                    st.line,
                    st.col,
                ));
                assert(m0 + scan_from(s@, 0, l0, c0) =~= tokens_view(tokens@) + scan_from(
                    s@,
                    ni as int,
                    self.line_number as nat,
                    self.column_number as nat,
                ));
            }
            i = ni;
        }
        self.add_simple_token(TokenType::EOF, tokens);
        proof {
            assert(tokens_view(tokens@) =~= m0 + scan_from(s@, 0, l0, c0));
        }
    }
}

} // verus!


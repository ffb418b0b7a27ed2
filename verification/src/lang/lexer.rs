//! The lexer of the source language: chars to tokens, one at a time.
use vstd::prelude::*;

use crate::text::{chars_to_string, is_whitespace, is_ws, push_char, slice_vec, str_to_chars, string_of, text_is};

verus! {

/// A token of the source language.
#[derive(Debug, Clone)]
pub enum Token {
    Ident(String),
    Str(Vec<u8>),
    Number(i64),
    Let,
    Struct,
    Impl,
    Trait,
    Loop,
    Match,
    Brk,
    True,
    False,
    Fn,
    Arrow,
    FatArrow,
    Assign,
    EqEq,
    NotEq,
    Lt,
    Le,
    Gt,
    Ge,
    Plus,
    Minus,
    Star,
    Slash,
    Percent,
    LParen,
    RParen,
    LBrace,
    RBrace,
    Comma,
    Colon,
    ColonColon,
    Dot,
    Bang,
    Tick,
    Underscore,
    Eof,
}

/// `Token` with its texts as sequences.
pub enum SpecToken {
    Ident(Seq<char>),
    Str(Seq<u8>),
    Number(i64),
    Let,
    Struct,
    Impl,
    Trait,
    Loop,
    Match,
    Brk,
    True,
    False,
    Fn,
    Arrow,
    FatArrow,
    Assign,
    EqEq,
    NotEq,
    Lt,
    Le,
    Gt,
    Ge,
    Plus,
    Minus,
    Star,
    Slash,
    Percent,
    LParen,
    RParen,
    LBrace,
    RBrace,
    Comma,
    Colon,
    ColonColon,
    Dot,
    Bang,
    Tick,
    Underscore,
    Eof,
}

impl View for Token {
    type V = SpecToken;

    open spec fn view(&self) -> SpecToken {
        match self {
            Token::Ident(s) => SpecToken::Ident(s@),
            Token::Str(b) => SpecToken::Str(b@),
            Token::Number(n) => SpecToken::Number(*n),
            Token::Let => SpecToken::Let,
            Token::Struct => SpecToken::Struct,
            Token::Impl => SpecToken::Impl,
            Token::Trait => SpecToken::Trait,
            Token::Loop => SpecToken::Loop,
            Token::Match => SpecToken::Match,
            Token::Brk => SpecToken::Brk,
            Token::True => SpecToken::True,
            Token::False => SpecToken::False,
            Token::Fn => SpecToken::Fn,
            Token::Arrow => SpecToken::Arrow,
            Token::FatArrow => SpecToken::FatArrow,
            Token::Assign => SpecToken::Assign,
            Token::EqEq => SpecToken::EqEq,
            Token::NotEq => SpecToken::NotEq,
            Token::Lt => SpecToken::Lt,
            Token::Le => SpecToken::Le,
            Token::Gt => SpecToken::Gt,
            Token::Ge => SpecToken::Ge,
            Token::Plus => SpecToken::Plus,
            Token::Minus => SpecToken::Minus,
            Token::Star => SpecToken::Star,
            Token::Slash => SpecToken::Slash,
            Token::Percent => SpecToken::Percent,
            Token::LParen => SpecToken::LParen,
            Token::RParen => SpecToken::RParen,
            Token::LBrace => SpecToken::LBrace,
            Token::RBrace => SpecToken::RBrace,
            Token::Comma => SpecToken::Comma,
            Token::Colon => SpecToken::Colon,
            Token::ColonColon => SpecToken::ColonColon,
            Token::Dot => SpecToken::Dot,
            Token::Bang => SpecToken::Bang,
            Token::Tick => SpecToken::Tick,
            Token::Underscore => SpecToken::Underscore,
            Token::Eof => SpecToken::Eof,
        }
    }
}

/// The lexer: the source chars and the position of the next char to read.
#[derive(Clone)]
pub struct Lexer {
    input: Vec<char>,
    pos: usize,
}

pub open spec fn ident_start(c: char) -> bool {
    ('a' <= c <= 'z') || ('A' <= c <= 'Z') || c == '_'
}

pub open spec fn ident_continue(c: char) -> bool {
    ident_start(c) || ('0' <= c <= '9')
}

pub open spec fn ascii_digit(c: char) -> bool {
    '0' <= c <= '9'
}

/// First index at or after `i` whose char fails `ident_continue`.
pub open spec fn ident_end(s: Seq<char>, i: int) -> int
    decreases s.len() - i,
{
    if 0 <= i < s.len() && ident_continue(s[i]) {
        ident_end(s, i + 1)
    } else {
        i
    }
}

/// First index at or after `i` whose char is no ASCII digit.
pub open spec fn digits_end(s: Seq<char>, i: int) -> int
    decreases s.len() - i,
{
    if 0 <= i < s.len() && ascii_digit(s[i]) {
        digits_end(s, i + 1)
    } else {
        i
    }
}

/// First index at or after `i` that holds `'\n'` (or the length).
pub open spec fn line_end(s: Seq<char>, i: int) -> int
    decreases s.len() - i,
{
    if 0 <= i < s.len() && s[i] != '\n' {
        line_end(s, i + 1)
    } else {
        i
    }
}

pub open spec fn ws_end(s: Seq<char>, i: int) -> int
    decreases s.len() - i,
{
    if 0 <= i < s.len() && is_ws(s[i]) {
        ws_end(s, i + 1)
    } else {
        i
    }
}

pub proof fn lemma_ws_end(s: Seq<char>, i: int)
    requires
        0 <= i,
    ensures
        i <= ws_end(s, i),
        i <= s.len() ==> ws_end(s, i) <= s.len(),
    decreases s.len() - i,
{
    if 0 <= i < s.len() && is_ws(s[i]) {
        lemma_ws_end(s, i + 1);
    }
}

pub proof fn lemma_line_end(s: Seq<char>, i: int)
    requires
        0 <= i,
    ensures
        i <= line_end(s, i),
        i <= s.len() ==> line_end(s, i) <= s.len(),
    decreases s.len() - i,
{
    if 0 <= i < s.len() && s[i] != '\n' {
        lemma_line_end(s, i + 1);
    }
}

pub proof fn lemma_ident_end(s: Seq<char>, i: int)
    requires
        0 <= i <= s.len(),
    ensures
        i <= ident_end(s, i) <= s.len(),
        forall|k: int| i <= k < ident_end(s, i) ==> ident_continue(#[trigger] s[k]),
    decreases s.len() - i,
{
    if 0 <= i < s.len() && ident_continue(s[i]) {
        lemma_ident_end(s, i + 1);
    }
}

pub proof fn lemma_digits_end(s: Seq<char>, i: int)
    requires
        0 <= i <= s.len(),
    ensures
        i <= digits_end(s, i) <= s.len(),
        forall|k: int| i <= k < digits_end(s, i) ==> ascii_digit(#[trigger] s[k]),
    decreases s.len() - i,
{
    if 0 <= i < s.len() && ascii_digit(s[i]) {
        lemma_digits_end(s, i + 1);
    }
}

/// Skips whitespace and `//` comments from `i` on.
pub open spec fn skip_trivia(s: Seq<char>, i: int) -> int
    decreases s.len() - i,
{
    if i < 0 {
        i
    } else {
        let j = ws_end(s, i);
        proof {
            lemma_ws_end(s, i);
        }
        if j + 1 < s.len() && s[j] == '/' && s[j + 1] == '/' {
            proof {
                lemma_line_end(s, j + 2);
            }
            skip_trivia(s, line_end(s, j + 2))
        } else {
            j
        }
    }
}

pub proof fn lemma_skip_trivia(s: Seq<char>, i: int)
    requires
        0 <= i <= s.len(),
    ensures
        i <= skip_trivia(s, i) <= s.len(),
    decreases s.len() - i,
{
    lemma_ws_end(s, i);
    let j = ws_end(s, i);
    if j + 1 < s.len() && s[j] == '/' && s[j + 1] == '/' {
        lemma_line_end(s, j + 2);
        lemma_skip_trivia(s, line_end(s, j + 2));
    }
}

/// The value of decimal digits.
pub open spec fn decimal_value(s: Seq<char>) -> nat
    decreases s.len(),
{
    if s.len() == 0 {
        0
    } else {
        decimal_value(s.drop_last()) * 10 + ((s.last() as u32) - 48) as nat
    }
}

/// The UTF-8 encoding of a char (`char::encode_utf8`).
pub open spec fn utf8(c: char) -> Seq<u8> {
    let u = c as u32;
    if u < 0x80 {
        seq![u as u8]
    } else if u < 0x800 {
        seq![(0xC0 | (u >> 6)) as u8, (0x80 | (u & 0x3F)) as u8]
    } else if u < 0x10000 {
        seq![(0xE0 | (u >> 12)) as u8, (0x80 | ((u >> 6) & 0x3F)) as u8, (0x80 | (u & 0x3F)) as u8]
    } else {
        seq![
            (0xF0 | (u >> 18)) as u8,
            (0x80 | ((u >> 12) & 0x3F)) as u8,
            (0x80 | ((u >> 6) & 0x3F)) as u8,
            (0x80 | (u & 0x3F)) as u8,
        ]
    }
}

/// `char::to_digit(16)`.
pub open spec fn hex_value(c: char) -> Option<u8> {
    if '0' <= c <= '9' {
        Some(((c as u32) - 48) as u8)
    } else if 'a' <= c <= 'f' {
        Some(((c as u32) - 97 + 10) as u8)
    } else if 'A' <= c <= 'F' {
        Some(((c as u32) - 65 + 10) as u8)
    } else {
        None
    }
}

/// `read_hex_digit` at `i`: the digit and the position after it.
pub open spec fn spec_hex_digit(s: Seq<char>, i: int) -> (Result<u8, Seq<char>>, int) {
    if i >= s.len() {
        (Err("incomplete \\x escape"@), i)
    } else {
        match hex_value(s[i]) {
            Some(v) => (Ok(v), i + 1),
            None => (Err("invalid hex digit: "@.push(s[i])), i + 1),
        }
    }
}

/// `read_escape` at `i` (just after the backslash).
pub open spec fn spec_escape(s: Seq<char>, i: int) -> (Result<Seq<u8>, Seq<char>>, int) {
    if i >= s.len() {
        (Err("unterminated escape"@), i)
    } else {
        let c = s[i];
        if c == 'n' {
            (Ok(seq![10u8]), i + 1)
        } else if c == 'r' {
            (Ok(seq![13u8]), i + 1)
        } else if c == 't' {
            (Ok(seq![9u8]), i + 1)
        } else if c == '\\' {
            (Ok(seq![92u8]), i + 1)
        } else if c == '"' {
            (Ok(seq![34u8]), i + 1)
        } else if c == 'x' {
            let (hi, i2) = spec_hex_digit(s, i + 1);
            match hi {
                Err(e) => (Err(e), i2),
                Ok(h) => {
                    let (lo, i3) = spec_hex_digit(s, i2);
                    match lo {
                        Err(e) => (Err(e), i3),
                        Ok(l) => (Ok(seq![(h * 16 + l) as u8]), i3),
                    }
                },
            }
        } else {
            (Err("invalid escape: \\"@.push(c)), i + 1)
        }
    }
}

/// `read_string` from `i` (just after the opening quote), with `acc` read so far.
pub open spec fn spec_string(s: Seq<char>, i: int, acc: Seq<u8>) -> (Result<Seq<u8>, Seq<char>>, int)
    decreases s.len() - i,
{
    if i < 0 || i >= s.len() {
        (Err("unterminated string literal"@), i)
    } else {
        let c = s[i];
        if c == '"' {
            (Ok(acc), i + 1)
        } else if c == '\\' {
            let (e, j) = spec_escape(s, i + 1);
            match e {
                Err(m) => (Err(m), j),
                Ok(bytes) => if j > i {
                    spec_string(s, j, acc + bytes)
                } else {
                    (Err(seq![]), j)
                },
            }
        } else {
            spec_string(s, i + 1, acc + utf8(c))
        }
    }
}

/// The position after `n` calls of `next_token` from `p` that each gave a
/// token other than `Eof`; `None` once a call gave `Eof` or an error.
pub open spec fn lex_calls(s: Seq<char>, p: int, n: nat) -> Option<int>
    decreases n,
{
    if n == 0 {
        Some(p)
    } else {
        match lex_calls(s, p, (n - 1) as nat) {
            None => None,
            Some(q) => {
                let (t, q2) = spec_next_token(s, q);
                if t is Ok && t != Ok::<SpecToken, Seq<char>>(SpecToken::Eof) {
                    Some(q2)
                } else {
                    None
                }
            },
        }
    }
}

proof fn lemma_lex_calls_advance(s: Seq<char>, p: int, n: nat)
    requires
        0 <= p <= s.len(),
    ensures
        lex_calls(s, p, n) matches Some(q) ==> p + n <= q <= s.len(),
    decreases n,
{
    if n > 0 {
        lemma_lex_calls_advance(s, p, (n - 1) as nat);
        if let Some(q) = lex_calls(s, p, (n - 1) as nat) {
            law_next_token_progress(s, q);
        }
    }
}

/// Reading tokens from `p` meets `Eof` or an error within one call more
/// than there are chars left.
pub proof fn law_lexing_ends(s: Seq<char>, p: int)
    requires
        0 <= p <= s.len(),
    ensures
        lex_calls(s, p, (s.len() - p + 1) as nat) is None,
{
    lemma_lex_calls_advance(s, p, (s.len() - p + 1) as nat);
}

/// Once the lexer has reached the end of its input it stays there: the token
/// after `Eof` is `Eof` again, at the same position.
pub proof fn law_eof_repeats(s: Seq<char>, p: int)
    requires
        0 <= p <= s.len(),
        spec_next_token(s, p).0 == Ok::<SpecToken, Seq<char>>(SpecToken::Eof),
    ensures
        spec_next_token(s, spec_next_token(s, p).1) == spec_next_token(s, p),
{
    law_next_token_progress(s, p);
    assert(ws_end(s, s.len() as int) == s.len());
    assert(skip_trivia(s, s.len() as int) == s.len());
}

/// The token of an identifier-like word: a keyword or an identifier.
pub open spec fn keyword(w: Seq<char>) -> SpecToken {
    if w == "fn"@ {
        SpecToken::Fn
    } else if w == "let"@ {
        SpecToken::Let
    } else if w == "struct"@ {
        SpecToken::Struct
    } else if w == "impl"@ {
        SpecToken::Impl
    } else if w == "trait"@ {
        SpecToken::Trait
    } else if w == "loop"@ {
        SpecToken::Loop
    } else if w == "match"@ {
        SpecToken::Match
    } else if w == "brk"@ {
        SpecToken::Brk
    } else if w == "true"@ {
        SpecToken::True
    } else if w == "false"@ {
        SpecToken::False
    } else if w == "_"@ {
        SpecToken::Underscore
    } else {
        SpecToken::Ident(w)
    }
}

/// A one- or two-char token at `i`: `two` when the next char is `next`.
pub open spec fn pair(s: Seq<char>, i: int, next: char, two: SpecToken, one: SpecToken) -> (Result<
    SpecToken,
    Seq<char>,
>, int) {
    if i + 1 < s.len() && s[i + 1] == next {
        (Ok(two), i + 2)
    } else {
        (Ok(one), i + 1)
    }
}

/// `Lexer::next_token` from position `p`: the token (or error message) and
/// the position after it.
pub open spec fn spec_next_token(s: Seq<char>, p: int) -> (Result<SpecToken, Seq<char>>, int) {
    let i = skip_trivia(s, p);
    if i < 0 || i >= s.len() {
        (Ok(SpecToken::Eof), i)
    } else {
        let c = s[i];
        if c == '<' {
            pair(s, i, '=', SpecToken::Le, SpecToken::Lt)
        } else if c == '>' {
            pair(s, i, '=', SpecToken::Ge, SpecToken::Gt)
        } else if c == '+' {
            (Ok(SpecToken::Plus), i + 1)
        } else if c == '*' {
            (Ok(SpecToken::Star), i + 1)
        } else if c == '/' {
            (Ok(SpecToken::Slash), i + 1)
        } else if c == '%' {
            (Ok(SpecToken::Percent), i + 1)
        } else if c == '(' {
            (Ok(SpecToken::LParen), i + 1)
        } else if c == ')' {
            (Ok(SpecToken::RParen), i + 1)
        } else if c == '{' {
            (Ok(SpecToken::LBrace), i + 1)
        } else if c == '}' {
            (Ok(SpecToken::RBrace), i + 1)
        } else if c == ',' {
            (Ok(SpecToken::Comma), i + 1)
        } else if c == ':' {
            pair(s, i, ':', SpecToken::ColonColon, SpecToken::Colon)
        } else if c == '.' {
            (Ok(SpecToken::Dot), i + 1)
        } else if c == '\'' {
            (Ok(SpecToken::Tick), i + 1)
        } else if c == '!' {
            pair(s, i, '=', SpecToken::NotEq, SpecToken::Bang)
        } else if c == '-' {
            pair(s, i, '>', SpecToken::Arrow, SpecToken::Minus)
        } else if c == '=' {
            if i + 1 < s.len() && s[i + 1] == '=' {
                (Ok(SpecToken::EqEq), i + 2)
            } else if i + 1 < s.len() && s[i + 1] == '>' {
                (Ok(SpecToken::FatArrow), i + 2)
            } else {
                (Ok(SpecToken::Assign), i + 1)
            }
        } else if c == '"' {
            let (r, j) = spec_string(s, i + 1, seq![]);
            match r {
                Ok(bytes) => (Ok(SpecToken::Str(bytes)), j),
                Err(m) => (Err(m), j),
            }
        } else if ascii_digit(c) {
            let e = digits_end(s, i + 1);
            let v = decimal_value(s.subrange(i, e));
            if v <= i64::MAX {
                (Ok(SpecToken::Number(v as i64)), e)
            } else {
                (Err("invalid number"@), e)
            }
        } else if ident_start(c) {
            let e = ident_end(s, i + 1);
            (Ok(keyword(s.subrange(i, e))), e)
        } else {
            (Err("unexpected character: "@.push(c)), i)
        }
    }
}

impl Lexer {
    /// The source chars.
    pub closed spec fn input_view(&self) -> Seq<char> {
        self.input@
    }

    /// The position of the next char to read.
    pub closed spec fn pos_view(&self) -> int {
        self.pos as int
    }

    pub closed spec fn wf(&self) -> bool {
        self.pos <= self.input@.len() < usize::MAX
    }

    pub proof fn lemma_wf(&self)
        requires
            self.wf(),
        ensures
            0 <= self.pos_view() <= self.input_view().len() < usize::MAX,
    {
    }

    pub fn new(input: &str) -> (r: Self)
        requires
            input@.len() < usize::MAX,
        ensures
            r.input_view() == input@,
            r.pos_view() == 0,
            r.wf(),
    {
        Self { input: str_to_chars(input), pos: 0 }
    }

    /// The next token, or an error message (see `spec_next_token`).
    pub fn next_token(&mut self) -> (r: Result<Token, String>)
        requires
            old(self).wf(),
        ensures
            final(self).wf(),
            final(self).input_view() == old(self).input_view(),
            ({
                let (t, p) = spec_next_token(old(self).input_view(), old(self).pos_view());
                &&& final(self).pos_view() == p
                &&& match r {
                    Ok(tok) => t == Ok::<SpecToken, Seq<char>>(tok@),
                    Err(m) => t == Err::<SpecToken, Seq<char>>(m@),
                }
            }),
    {
        self.skip_ws_and_comments();
        if self.pos >= self.input.len() {
            return Ok(Token::Eof);
        }
        let ch = self.input[self.pos];
        if ch == '<' {
            if self.peek_char(1) == Some('=') {
                self.pos = self.pos + 2;
                Ok(Token::Le)
            } else {
                self.pos = self.pos + 1;
                Ok(Token::Lt)
            }
        } else if ch == '>' {
            if self.peek_char(1) == Some('=') {
                self.pos = self.pos + 2;
                Ok(Token::Ge)
            } else {
                self.pos = self.pos + 1;
                Ok(Token::Gt)
            }
        } else if ch == '+' {
            self.pos = self.pos + 1;
            Ok(Token::Plus)
        } else if ch == '*' {
            self.pos = self.pos + 1;
            Ok(Token::Star)
        } else if ch == '/' {
            self.pos = self.pos + 1;
            Ok(Token::Slash)
        } else if ch == '%' {
            self.pos = self.pos + 1;
            Ok(Token::Percent)
        } else if ch == '(' {
            self.pos = self.pos + 1;
            Ok(Token::LParen)
        } else if ch == ')' {
            self.pos = self.pos + 1;
            Ok(Token::RParen)
        } else if ch == '{' {
            self.pos = self.pos + 1;
            Ok(Token::LBrace)
        } else if ch == '}' {
            self.pos = self.pos + 1;
            Ok(Token::RBrace)
        } else if ch == ',' {
            self.pos = self.pos + 1;
            Ok(Token::Comma)
        } else if ch == ':' {
            if self.peek_char(1) == Some(':') {
                self.pos = self.pos + 2;
                Ok(Token::ColonColon)
            } else {
                self.pos = self.pos + 1;
                Ok(Token::Colon)
            }
        } else if ch == '.' {
            self.pos = self.pos + 1;
            Ok(Token::Dot)
        } else if ch == '\'' {
            self.pos = self.pos + 1;
            Ok(Token::Tick)
        } else if ch == '!' {
            if self.peek_char(1) == Some('=') {
                self.pos = self.pos + 2;
                Ok(Token::NotEq)
            } else {
                self.pos = self.pos + 1;
                Ok(Token::Bang)
            }
        } else if ch == '-' {
            if self.peek_char(1) == Some('>') {
                self.pos = self.pos + 2;
                Ok(Token::Arrow)
            } else {
                self.pos = self.pos + 1;
                Ok(Token::Minus)
            }
        } else if ch == '=' {
            if self.peek_char(1) == Some('=') {
                self.pos = self.pos + 2;
                Ok(Token::EqEq)
            } else if self.peek_char(1) == Some('>') {
                self.pos = self.pos + 2;
                Ok(Token::FatArrow)
            } else {
                self.pos = self.pos + 1;
                Ok(Token::Assign)
            }
        } else if ch == '"' {
            match self.read_string() {
                Ok(bytes) => Ok(Token::Str(bytes)),
                Err(e) => Err(e),
            }
        } else if '0' <= ch && ch <= '9' {
            match self.read_number() {
                Ok(number) => Ok(Token::Number(number)),
                Err(e) => Err(e),
            }
        } else if is_ident_start(ch) {
            let start = self.pos;
            self.read_ident();
            proof {
                lemma_ident_end(self.input@, start + 1);
            }
            let ident = slice_vec(self.input.as_slice(), start, self.pos);
            let tok = keyword_token(ident.as_slice());
            Ok(tok)
        } else {
            let mut msg = string_of("unexpected character: ");
            push_char(&mut msg, ch);
            Err(msg)
        }
    }

    fn skip_ws_and_comments(&mut self)
        requires
            old(self).wf(),
        ensures
            final(self).wf(),
            final(self).input == old(self).input,
            final(self).pos == skip_trivia(old(self).input@, old(self).pos as int),
    {
        let ghost target = skip_trivia(old(self).input@, old(self).pos as int);
        loop
            invariant
                self.wf(),
                self.input == old(self).input,
                skip_trivia(self.input@, self.pos as int) == target,
            ensures
                self.wf(),
                self.input == old(self).input,
                self.pos == target,
            decreases self.input@.len() - self.pos,
        {
            let start = self.pos;
            let n = self.input.len();
            while self.pos < n && is_whitespace(self.input[self.pos])
                invariant
                    self.wf(),
                    n == self.input@.len(),
                    self.input == old(self).input,
                    start <= self.pos,
                    ws_end(self.input@, self.pos as int) == ws_end(self.input@, start as int),
                decreases self.input@.len() - self.pos,
            {
                self.pos = self.pos + 1;
            }
            let j = self.pos;
            assert(j == ws_end(self.input@, start as int));
            if self.pos + 1 < n && self.input[self.pos] == '/' && self.input[self.pos + 1] == '/' {
                self.pos = self.pos + 2;
                let s2 = self.pos;
                while self.pos < n && self.input[self.pos] != '\n'
                    invariant
                        self.wf(),
                        n == self.input@.len(),
                        self.input == old(self).input,
                        s2 <= self.pos,
                        line_end(self.input@, self.pos as int) == line_end(
                            self.input@,
                            s2 as int,
                        ),
                    decreases self.input@.len() - self.pos,
                {
                    self.pos = self.pos + 1;
                }
                assert(self.pos == line_end(self.input@, s2 as int));
                continue;
            }
            break;
        }
    }

    /// Reads an identifier's chars (the first is known to start one).
    fn read_ident(&mut self)
        requires
            old(self).wf(),
            old(self).pos < old(self).input@.len(),
        ensures
            final(self).wf(),
            final(self).input == old(self).input,
            final(self).pos == ident_end(old(self).input@, old(self).pos + 1),
    {
        self.pos = self.pos + 1;
        let start = self.pos;
        while self.pos < self.input.len() && is_ident_continue(self.input[self.pos])
            invariant
                self.wf(),
                self.input == old(self).input,
                start <= self.pos,
                ident_end(self.input@, self.pos as int) == ident_end(self.input@, start as int),
            decreases self.input@.len() - self.pos,
        {
            self.pos = self.pos + 1;
        }
    }

    /// Reads a decimal number (the first char is a digit).
    fn read_number(&mut self) -> (r: Result<i64, String>)
        requires
            old(self).wf(),
            old(self).pos < old(self).input@.len(),
            ascii_digit(old(self).input@[old(self).pos as int]),
        ensures
            final(self).wf(),
            final(self).input == old(self).input,
            final(self).pos == digits_end(old(self).input@, old(self).pos + 1),
            ({
                let v = decimal_value(
                    old(self).input@.subrange(old(self).pos as int, final(self).pos as int),
                );
                match r {
                    Ok(n) => v <= i64::MAX && n == v,
                    Err(m) => v > i64::MAX && m@ == "invalid number"@,
                }
            }),
    {
        let start = self.pos;
        self.pos = self.pos + 1;
        let s1 = self.pos;
        let mut value: u64 = ((self.input[start] as u32) - 48) as u64;
        let mut overflow = false;
        proof {
            let one = self.input@.subrange(start as int, s1 as int);
            assert(one.drop_last() =~= seq![]);
            assert(decimal_value(one.drop_last()) == 0);
            assert(one.last() == self.input@[start as int]);
            assert(decimal_value(one) == value);
        }
        while self.pos < self.input.len() && '0' <= self.input[self.pos] && self.input[self.pos]
            <= '9'
            invariant
                self.wf(),
                self.input == old(self).input,
                start < s1 <= self.pos,
                s1 == start + 1,
                digits_end(self.input@, self.pos as int) == digits_end(self.input@, s1 as int),
                forall|k: int| start <= k < self.pos ==> ascii_digit(#[trigger] self.input@[k]),
                overflow ==> decimal_value(self.input@.subrange(start as int, self.pos as int))
                    > i64::MAX,
                !overflow ==> value == decimal_value(
                    self.input@.subrange(start as int, self.pos as int),
                ) && value <= i64::MAX,
            decreases self.input@.len() - self.pos,
        {
            let d = ((self.input[self.pos] as u32) - 48) as u64;
            let ghost old_sub = self.input@.subrange(start as int, self.pos as int);
            let ghost new_sub = self.input@.subrange(start as int, self.pos + 1);
            assert(new_sub.drop_last() =~= old_sub);
            if !overflow {
                if value > (0x7FFF_FFFF_FFFF_FFFFu64 - d) / 10 {
                    overflow = true;
                    proof {
                        assert(value * 10 + d > 0x7FFF_FFFF_FFFF_FFFFu64) by (nonlinear_arith)
                            requires
                                value > (0x7FFF_FFFF_FFFF_FFFFu64 - d) / 10,
                                d <= 9,
                        ;
                    }
                } else {
                    proof {
                        assert(value * 10 + d <= 0x7FFF_FFFF_FFFF_FFFFu64) by (nonlinear_arith)
                            requires
                                value <= (0x7FFF_FFFF_FFFF_FFFFu64 - d) / 10,
                                d <= 9,
                        ;
                    }
                    value = value * 10 + d;
                }
            } else {
                proof {
                    let a = decimal_value(old_sub);
                    assert(a * 10 + d >= a) by (nonlinear_arith);
                }
            }
            self.pos = self.pos + 1;
        }
        if overflow {
            Err(string_of("invalid number"))
        } else {
            Ok(value as i64)
        }
    }

    /// Reads a string literal (the current char is the opening quote).
    fn read_string(&mut self) -> (r: Result<Vec<u8>, String>)
        requires
            old(self).wf(),
            old(self).pos < old(self).input@.len(),
        ensures
            final(self).wf(),
            final(self).input == old(self).input,
            ({
                let (t, p) = spec_string(old(self).input@, old(self).pos + 1, seq![]);
                &&& final(self).pos == p
                &&& match r {
                    Ok(b) => t == Ok::<Seq<u8>, Seq<char>>(b@),
                    Err(m) => t == Err::<Seq<u8>, Seq<char>>(m@),
                }
            }),
    {
        self.pos = self.pos + 1;
        let mut bytes: Vec<u8> = Vec::new();
        while self.pos < self.input.len()
            invariant
                self.wf(),
                self.input == old(self).input,
                spec_string(old(self).input@, old(self).pos + 1, seq![]) == spec_string(
                    self.input@,
                    self.pos as int,
                    bytes@,
                ),
            decreases self.input@.len() - self.pos,
        {
            let ch = self.input[self.pos];
            let at = self.pos;
            self.pos = self.pos + 1;
            if ch == '"' {
                return Ok(bytes);
            } else if ch == '\\' {
                match self.read_escape() {
                    Ok(esc) => {
                        let mut k: usize = 0;
                        let ghost b0 = bytes@;
                        while k < esc.len()
                            invariant
                                k <= esc@.len(),
                                bytes@ =~= b0 + esc@.take(k as int),
                            decreases esc@.len() - k,
                        {
                            bytes.push(esc[k]);
                            k = k + 1;
                            assert(bytes@ =~= b0 + esc@.take(k as int));
                        }
                        assert(esc@.take(k as int) =~= esc@);
                    },
                    Err(e) => {
                        return Err(e);
                    },
                }
            } else {
                let enc = encode_utf8(ch);
                let mut k: usize = 0;
                let ghost b0 = bytes@;
                while k < enc.len()
                    invariant
                        k <= enc@.len(),
                        bytes@ =~= b0 + enc@.take(k as int),
                    decreases enc@.len() - k,
                {
                    bytes.push(enc[k]);
                    k = k + 1;
                    assert(bytes@ =~= b0 + enc@.take(k as int));
                }
                assert(enc@.take(k as int) =~= enc@);
            }
        }
        Err(string_of("unterminated string literal"))
    }

    /// Reads an escape (the backslash is read).
    fn read_escape(&mut self) -> (r: Result<Vec<u8>, String>)
        requires
            old(self).wf(),
        ensures
            final(self).wf(),
            final(self).input == old(self).input,
            final(self).pos > old(self).pos || final(self).pos == old(self).input@.len(),
            ({
                let (t, p) = spec_escape(old(self).input@, old(self).pos as int);
                &&& final(self).pos == p
                &&& match r {
                    Ok(b) => t == Ok::<Seq<u8>, Seq<char>>(b@),
                    Err(m) => t == Err::<Seq<u8>, Seq<char>>(m@),
                }
            }),
    {
        if self.pos >= self.input.len() {
            return Err(string_of("unterminated escape"));
        }
        let ch = self.input[self.pos];
        self.pos = self.pos + 1;
        assert(ch == self.input@[old(self).pos as int]);
        if ch == 'n' {
            let v = vec![10u8];
            assert(v@ =~= seq![10u8]);
            Ok(v)
        } else if ch == 'r' {
            let v = vec![13u8];
            assert(v@ =~= seq![13u8]);
            Ok(v)
        } else if ch == 't' {
            let v = vec![9u8];
            assert(v@ =~= seq![9u8]);
            Ok(v)
        } else if ch == '\\' {
            let v = vec![92u8];
            assert(v@ =~= seq![92u8]);
            Ok(v)
        } else if ch == '"' {
            let v = vec![34u8];
            assert(v@ =~= seq![34u8]);
            Ok(v)
        } else if ch == 'x' {
            let hi = match self.read_hex_digit() {
                Ok(v) => v,
                Err(e) => {
                    return Err(e);
                },
            };
            let lo = match self.read_hex_digit() {
                Ok(v) => v,
                Err(e) => {
                    return Err(e);
                },
            };
            let v = vec![hi * 16 + lo];
            assert(v@ =~= seq![(hi * 16 + lo) as u8]);
            Ok(v)
        } else {
            let mut msg = string_of("invalid escape: \\");
            push_char(&mut msg, ch);
            Err(msg)
        }
    }

    /// Reads one hex digit.
    fn read_hex_digit(&mut self) -> (r: Result<u8, String>)
        requires
            old(self).wf(),
        ensures
            final(self).wf(),
            final(self).input == old(self).input,
            ({
                let (t, p) = spec_hex_digit(old(self).input@, old(self).pos as int);
                &&& final(self).pos == p
                &&& match r {
                    Ok(v) => t == Ok::<u8, Seq<char>>(v) && v < 16,
                    Err(m) => t == Err::<u8, Seq<char>>(m@),
                }
            }),
    {
        if self.pos >= self.input.len() {
            return Err(string_of("incomplete \\x escape"));
        }
        let ch = self.input[self.pos];
        self.pos = self.pos + 1;
        if '0' <= ch && ch <= '9' {
            Ok(((ch as u32) - 48) as u8)
        } else if 'a' <= ch && ch <= 'f' {
            Ok(((ch as u32) - 97 + 10) as u8)
        } else if 'A' <= ch && ch <= 'F' {
            Ok(((ch as u32) - 65 + 10) as u8)
        } else {
            let mut msg = string_of("invalid hex digit: ");
            push_char(&mut msg, ch);
            Err(msg)
        }
    }

    /// The char `offset` places after the position, if any.
    fn peek_char(&self, offset: usize) -> (r: Option<char>)
        requires
            self.wf(),
            offset <= 1,
        ensures
            r == (if self.pos + offset < self.input@.len() {
                Some(self.input@[self.pos + offset])
            } else {
                None::<char>
            }),
    {
        if self.pos + offset < self.input.len() {
            Some(self.input[self.pos + offset])
        } else {
            None
        }
    }

    /// A second lexer at the same place in the same input (`Clone`).
    pub fn fork(&self) -> (r: Lexer)
        requires
            self.wf(),
        ensures
            r.wf(),
            r.input_view() == self.input_view(),
            r.pos_view() == self.pos_view(),
    {
        let input = slice_vec(self.input.as_slice(), 0, self.input.len());
        proof {
            assert(self.input@.subrange(0, self.input@.len() as int) =~= self.input@);
        }
        Lexer { input, pos: self.pos }
    }
}

/// `char::encode_utf8`.
pub fn encode_utf8(c: char) -> (r: Vec<u8>)
    ensures
        r@ == utf8(c),
{
    let u = c as u32;
    if u < 0x80 {
        vec![u as u8]
    } else if u < 0x800 {
        vec![(0xC0 | (u >> 6)) as u8, (0x80 | (u & 0x3F)) as u8]
    } else if u < 0x10000 {
        vec![(0xE0 | (u >> 12)) as u8, (0x80 | ((u >> 6) & 0x3F)) as u8, (0x80 | (u & 0x3F)) as u8]
    } else {
        vec![
            (0xF0 | (u >> 18)) as u8,
            (0x80 | ((u >> 12) & 0x3F)) as u8,
            (0x80 | ((u >> 6) & 0x3F)) as u8,
            (0x80 | (u & 0x3F)) as u8,
        ]
    }
}

/// The keyword or identifier token of a word (see `keyword`).
pub fn keyword_token(w: &[char]) -> (r: Token)
    ensures
        r@ == keyword(w@),
{
    if text_is(w, "fn") {
        Token::Fn
    } else if text_is(w, "let") {
        Token::Let
    } else if text_is(w, "struct") {
        Token::Struct
    } else if text_is(w, "impl") {
        Token::Impl
    } else if text_is(w, "trait") {
        Token::Trait
    } else if text_is(w, "loop") {
        Token::Loop
    } else if text_is(w, "match") {
        Token::Match
    } else if text_is(w, "brk") {
        Token::Brk
    } else if text_is(w, "true") {
        Token::True
    } else if text_is(w, "false") {
        Token::False
    } else if text_is(w, "_") {
        Token::Underscore
    } else {
        Token::Ident(chars_to_string(w))
    }
}

pub fn is_ident_start(ch: char) -> (r: bool)
    ensures
        r == ident_start(ch),
{
    ('a' <= ch && ch <= 'z') || ('A' <= ch && ch <= 'Z') || ch == '_'
}

pub fn is_ident_continue(ch: char) -> (r: bool)
    ensures
        r == ident_continue(ch),
{
    ('a' <= ch && ch <= 'z') || ('A' <= ch && ch <= 'Z') || ch == '_' || ('0' <= ch && ch <= '9')
}

pub proof fn lemma_hex_digit(s: Seq<char>, i: int)
    requires
        0 <= i <= s.len(),
    ensures
        i <= spec_hex_digit(s, i).1 <= s.len(),
        spec_hex_digit(s, i).0 is Ok ==> spec_hex_digit(s, i).1 > i,
{
}

pub proof fn lemma_escape(s: Seq<char>, i: int)
    requires
        0 <= i <= s.len(),
    ensures
        i <= spec_escape(s, i).1 <= s.len(),
        spec_escape(s, i).0 is Ok ==> spec_escape(s, i).1 > i,
{
    if i < s.len() && s[i] == 'x' {
        lemma_hex_digit(s, i + 1);
        lemma_hex_digit(s, spec_hex_digit(s, i + 1).1);
    }
}

pub proof fn lemma_string(s: Seq<char>, i: int, acc: Seq<u8>)
    requires
        0 <= i <= s.len(),
    ensures
        i <= spec_string(s, i, acc).1 <= s.len(),
        spec_string(s, i, acc).0 is Ok ==> spec_string(s, i, acc).1 > i,
    decreases s.len() - i,
{
    if i < s.len() {
        let c = s[i];
        if c == '"' {
        } else if c == '\\' {
            lemma_escape(s, i + 1);
            let (e, j) = spec_escape(s, i + 1);
            if e is Ok && j > i {
                let bytes = e->Ok_0;
                lemma_string(s, j, acc + bytes);
            }
        } else {
            lemma_string(s, i + 1, acc + utf8(c));
        }
    }
}

/// Lexing never moves back, stays within the input, and moves forward on
/// every token but `Eof`, which it gives only at the end.
pub proof fn law_next_token_progress(s: Seq<char>, p: int)
    requires
        0 <= p <= s.len(),
    ensures
        p <= spec_next_token(s, p).1 <= s.len(),
        spec_next_token(s, p).0 matches Ok(t) ==> (t is Eof ==> spec_next_token(s, p).1
            == s.len()) && (!(t is Eof) ==> spec_next_token(s, p).1 > p),
{
    lemma_skip_trivia(s, p);
    let i = skip_trivia(s, p);
    if i < s.len() {
        let c = s[i];
        if c == '"' {
            lemma_string(s, i + 1, seq![]);
        } else if ascii_digit(c) {
            lemma_digits_end(s, i + 1);
        } else if ident_start(c) {
            lemma_ident_end(s, i + 1);
        }
    }
}

} // verus!

//! The lexer: converts raw rule source text into an ordered token sequence.
//!
//! `sp_lex` is the mathematical lexer over the character sequence of the
//! source; `tokenize` is proved to return exactly its result.  Whitespace is
//! skipped, two-character operators are recognized with one character of
//! lookahead, `//` comments run to the end of the line, `/* ... */` comments
//! to the closing marker (silently to the end of input when unterminated, as
//! are unterminated string literals), and identifiers are checked against the
//! reserved keywords before being emitted.

use vstd::prelude::*;

verus! {

/// A lexical token of the rule language.
#[derive(Debug, PartialEq)]
pub enum Token {
    Int(i64),
    Bool(bool),
    Ident(String),
    Rule,
    When,
    Then,
    LBrace,
    RBrace,
    LParen,
    RParen,
    Semicolon,
    Dot,
    Eq,
    NotEq,
    Lt,
    Gt,
    LtEq,
    GtEq,
    Assign,
    And,
    Or,
    Plus,
    Minus,
    Mul,
    Div,
    StringLit(String),
}

/// The mathematical mirror of `Token`, with the carried strings abstracted to
/// character sequences.
pub enum TokenV {
    Int(i64),
    Bool(bool),
    Ident(Seq<char>),
    Rule,
    When,
    Then,
    LBrace,
    RBrace,
    LParen,
    RParen,
    Semicolon,
    Dot,
    Eq,
    NotEq,
    Lt,
    Gt,
    LtEq,
    GtEq,
    Assign,
    And,
    Or,
    Plus,
    Minus,
    Mul,
    Div,
    StringLit(Seq<char>),
}

impl View for Token {
    type V = TokenV;

    open spec fn view(&self) -> TokenV {
        match self {
            Token::Int(n) => TokenV::Int(*n),
            Token::Bool(b) => TokenV::Bool(*b),
            Token::Ident(s) => TokenV::Ident(s@),
            Token::Rule => TokenV::Rule,
            Token::When => TokenV::When,
            Token::Then => TokenV::Then,
            Token::LBrace => TokenV::LBrace,
            Token::RBrace => TokenV::RBrace,
            Token::LParen => TokenV::LParen,
            Token::RParen => TokenV::RParen,
            Token::Semicolon => TokenV::Semicolon,
            Token::Dot => TokenV::Dot,
            Token::Eq => TokenV::Eq,
            Token::NotEq => TokenV::NotEq,
            Token::Lt => TokenV::Lt,
            Token::Gt => TokenV::Gt,
            Token::LtEq => TokenV::LtEq,
            Token::GtEq => TokenV::GtEq,
            Token::Assign => TokenV::Assign,
            Token::And => TokenV::And,
            Token::Or => TokenV::Or,
            Token::Plus => TokenV::Plus,
            Token::Minus => TokenV::Minus,
            Token::Mul => TokenV::Mul,
            Token::Div => TokenV::Div,
            Token::StringLit(s) => TokenV::StringLit(s@),
        }
    }
}

impl DeepView for Token {
    type V = TokenV;

    open spec fn deep_view(&self) -> TokenV {
        self.view()
    }
}

/// An error from lexing, carrying the source offset (in characters) at which
/// it was detected.
#[derive(Clone, Copy, Debug, PartialEq, Eq, Structural)]
pub enum LexError {
    /// An unrecognized character, or a lone `!`, `&` or `|` not followed by
    /// its required partner character.
    UnexpectedChar { ch: char, offset: usize },
    /// A numeric literal that overflows the 64-bit signed range.
    IntOverflow { offset: usize },
}

/// Whether `c` is ASCII whitespace (space, tab, newline, form feed, carriage
/// return).
pub open spec fn is_space_char(c: char) -> bool {
    c == ' ' || c == '\t' || c == '\n' || c == '\u{000c}' || c == '\r'
}

/// Whether `c` is an ASCII digit.
pub open spec fn is_digit_char(c: char) -> bool {
    48 <= c as u32 && c as u32 <= 57
}

/// Whether `c` may start an identifier: an ASCII letter or `_`.
pub open spec fn is_ident_start_char(c: char) -> bool {
    (65 <= c as u32 && c as u32 <= 90) || (97 <= c as u32 && c as u32 <= 122) || c as u32 == 95
}

/// Whether `c` may continue an identifier: an ASCII letter, digit or `_`.
pub open spec fn is_ident_char(c: char) -> bool {
    is_ident_start_char(c) || is_digit_char(c)
}

fn char_is_space(c: char) -> (b: bool)
    ensures
        b == is_space_char(c),
{
    c == ' ' || c == '\t' || c == '\n' || c == '\u{000c}' || c == '\r'
}

fn char_is_digit(c: char) -> (b: bool)
    ensures
        b == is_digit_char(c),
{
    let n = c as u32;
    48 <= n && n <= 57
}

fn char_is_ident_start(c: char) -> (b: bool)
    ensures
        b == is_ident_start_char(c),
{
    let n = c as u32;
    (65 <= n && n <= 90) || (97 <= n && n <= 122) || n == 95
}

fn char_is_ident(c: char) -> (b: bool)
    ensures
        b == is_ident_char(c),
{
    char_is_ident_start(c) || char_is_digit(c)
}

/// The numeric value of an ASCII digit character.
pub open spec fn digit_val(c: char) -> int {
    c as u32 - 48
}

/// The numeric value of a run of ASCII digit characters, most significant
/// first.
pub open spec fn digits_val(s: Seq<char>) -> int
    decreases s.len(),
{
    if s.len() == 0 {
        0
    } else {
        digits_val(s.drop_last()) * 10 + digit_val(s.last())
    }
}

/// How many characters a `//` comment starting at `pos` still covers: up to,
/// not including, the next newline (or the end of input).
pub open spec fn lc_len(s: Seq<char>, pos: int) -> nat
    decreases s.len() - pos,
{
    if pos < 0 || pos >= s.len() || s[pos] == '\n' {
        0
    } else {
        1 + lc_len(s, pos + 1)
    }
}

/// How many characters a `/* ... */` comment starting just after its opening
/// marker covers, including the closing marker; an unterminated comment
/// covers everything to the end of input.
pub open spec fn bc_len(s: Seq<char>, pos: int) -> nat
    decreases s.len() - pos,
{
    if pos < 0 || pos >= s.len() {
        0
    } else if pos + 1 >= s.len() {
        1
    } else if s[pos] == '*' && s[pos + 1] == '/' {
        2
    } else {
        1 + bc_len(s, pos + 1)
    }
}

/// How many characters the body of a string literal starting just after its
/// opening quote covers: up to, not including, the closing quote (or the end
/// of input when unterminated).
pub open spec fn sl_len(s: Seq<char>, pos: int) -> nat
    decreases s.len() - pos,
{
    if pos < 0 || pos >= s.len() || s[pos] == '"' {
        0
    } else {
        1 + sl_len(s, pos + 1)
    }
}

/// How many identifier characters run on from `pos`.
pub open spec fn id_len(s: Seq<char>, pos: int) -> nat
    decreases s.len() - pos,
{
    if pos < 0 || pos >= s.len() || !is_ident_char(s[pos]) {
        0
    } else {
        1 + id_len(s, pos + 1)
    }
}

/// How many digit characters run on from `pos`.
pub open spec fn dg_len(s: Seq<char>, pos: int) -> nat
    decreases s.len() - pos,
{
    if pos < 0 || pos >= s.len() || !is_digit_char(s[pos]) {
        0
    } else {
        1 + dg_len(s, pos + 1)
    }
}

/// The token an identifier word stands for, after the reserved keywords are
/// taken out.
pub open spec fn keyword_token(w: Seq<char>) -> TokenV {
    if w == "rule"@ {
        TokenV::Rule
    } else if w == "when"@ {
        TokenV::When
    } else if w == "then"@ {
        TokenV::Then
    } else if w == "true"@ {
        TokenV::Bool(true)
    } else if w == "false"@ {
        TokenV::Bool(false)
    } else {
        TokenV::Ident(w)
    }
}

/// Prepend already-lexed tokens to the outcome of lexing the rest.
pub open spec fn lex_join(ts: Seq<TokenV>, r: Result<Seq<TokenV>, LexError>) -> Result<
    Seq<TokenV>,
    LexError,
> {
    match r {
        Ok(rest) => Ok(ts + rest),
        Err(e) => Err(e),
    }
}

/// A decreasing measure for positions walking right through `s`.
pub open spec fn lex_measure(s: Seq<char>, pos: int) -> int {
    if pos <= s.len() {
        s.len() - pos
    } else {
        0
    }
}

/// The mathematical lexer: the tokens of `s` from position `pos` on, or the
/// first lexical error.
pub open spec fn sp_lex(s: Seq<char>, pos: int) -> Result<Seq<TokenV>, LexError>
    decreases lex_measure(s, pos),
{
    if pos < 0 || pos >= s.len() {
        Ok(Seq::empty())
    } else {
        let c = s[pos];
        if is_space_char(c) {
            sp_lex(s, pos + 1)
        } else if c == '{' {
            lex_join(seq![TokenV::LBrace], sp_lex(s, pos + 1))
        } else if c == '}' {
            lex_join(seq![TokenV::RBrace], sp_lex(s, pos + 1))
        } else if c == '(' {
            lex_join(seq![TokenV::LParen], sp_lex(s, pos + 1))
        } else if c == ')' {
            lex_join(seq![TokenV::RParen], sp_lex(s, pos + 1))
        } else if c == ';' {
            lex_join(seq![TokenV::Semicolon], sp_lex(s, pos + 1))
        } else if c == '.' {
            lex_join(seq![TokenV::Dot], sp_lex(s, pos + 1))
        } else if c == '+' {
            lex_join(seq![TokenV::Plus], sp_lex(s, pos + 1))
        } else if c == '-' {
            lex_join(seq![TokenV::Minus], sp_lex(s, pos + 1))
        } else if c == '*' {
            lex_join(seq![TokenV::Mul], sp_lex(s, pos + 1))
        } else if c == '=' {
            if pos + 1 < s.len() && s[pos + 1] == '=' {
                lex_join(seq![TokenV::Eq], sp_lex(s, pos + 2))
            } else {
                lex_join(seq![TokenV::Assign], sp_lex(s, pos + 1))
            }
        } else if c == '!' {
            if pos + 1 < s.len() && s[pos + 1] == '=' {
                lex_join(seq![TokenV::NotEq], sp_lex(s, pos + 2))
            } else {
                Err(LexError::UnexpectedChar { ch: c, offset: pos as usize })
            }
        } else if c == '<' {
            if pos + 1 < s.len() && s[pos + 1] == '=' {
                lex_join(seq![TokenV::LtEq], sp_lex(s, pos + 2))
            } else {
                lex_join(seq![TokenV::Lt], sp_lex(s, pos + 1))
            }
        } else if c == '>' {
            if pos + 1 < s.len() && s[pos + 1] == '=' {
                lex_join(seq![TokenV::GtEq], sp_lex(s, pos + 2))
            } else {
                lex_join(seq![TokenV::Gt], sp_lex(s, pos + 1))
            }
        } else if c == '&' {
            if pos + 1 < s.len() && s[pos + 1] == '&' {
                lex_join(seq![TokenV::And], sp_lex(s, pos + 2))
            } else {
                Err(LexError::UnexpectedChar { ch: c, offset: pos as usize })
            }
        } else if c == '|' {
            if pos + 1 < s.len() && s[pos + 1] == '|' {
                lex_join(seq![TokenV::Or], sp_lex(s, pos + 2))
            } else {
                Err(LexError::UnexpectedChar { ch: c, offset: pos as usize })
            }
        } else if c == '/' {
            if pos + 1 < s.len() && s[pos + 1] == '/' {
                sp_lex(s, pos + 2 + lc_len(s, pos + 2))
            } else if pos + 1 < s.len() && s[pos + 1] == '*' {
                sp_lex(s, pos + 2 + bc_len(s, pos + 2))
            } else {
                lex_join(seq![TokenV::Div], sp_lex(s, pos + 1))
            }
        } else if c == '"' {
            let body = sl_len(s, pos + 1);
            let after = pos + 1 + body;
            lex_join(
                seq![TokenV::StringLit(s.subrange(pos + 1, after))],
                sp_lex(s, if after < s.len() { after + 1 } else { s.len() as int }),
            )
        } else if is_digit_char(c) {
            let k = 1 + dg_len(s, pos + 1);
            let v = digits_val(s.subrange(pos, pos + k));
            if v > i64::MAX {
                Err(LexError::IntOverflow { offset: pos as usize })
            } else {
                lex_join(seq![TokenV::Int(v as i64)], sp_lex(s, pos + k))
            }
        } else if is_ident_start_char(c) {
            let k = 1 + id_len(s, pos + 1);
            let w = s.subrange(pos, pos + k);
            lex_join(seq![keyword_token(w)], sp_lex(s, pos + k))
        } else {
            Err(LexError::UnexpectedChar { ch: c, offset: pos as usize })
        }
    }
}

/// The tokens of a whole source text, or its first lexical error.
pub open spec fn spec_tokenize(s: Seq<char>) -> Result<Seq<TokenV>, LexError> {
    sp_lex(s, 0)
}

/// Prepending one more token associates with prepending the rest.
proof fn lemma_lex_join_push(ts: Seq<TokenV>, t: TokenV, r: Result<Seq<TokenV>, LexError>)
    ensures
        lex_join(ts.push(t), r) == lex_join(ts, lex_join(seq![t], r)),
{
    match r {
        Ok(rest) => {
            assert(ts.push(t) + rest =~= ts + (seq![t] + rest));
        },
        Err(e) => {},
    }
}

/// The characters of a string, as a vector.
fn chars_of(s: &str) -> (v: Vec<char>)
    ensures
        v@ == s@,
{
    let n = s.unicode_len();
    let mut v: Vec<char> = Vec::new();
    let mut i: usize = 0;
    while i < n
        invariant
            i <= n,
            n == s@.len(),
            v@ == s@.subrange(0, i as int),
        decreases n - i,
    {
        let c = s.get_char(i);
        v.push(c);
        proof {
            assert(v@ =~= s@.subrange(0, i as int + 1));
        }
        i += 1;
    }
    proof {
        assert(s@.subrange(0, n as int) =~= s@);
    }
    v
}

/// Whether two string slices hold the same characters.
fn str_eq(a: &str, b: &str) -> (r: bool)
    ensures
        r == (a@ == b@),
{
    let sa = String::from_str(a);
    let sb = String::from_str(b);
    sa == sb
}

/// The character at `pos`, or `None` past the end.
pub fn peek(chars: &Vec<char>, pos: usize) -> (r: Option<char>)
    ensures
        match r {
            Some(c) => pos < chars@.len() && c == chars@[pos as int],
            None => pos >= chars@.len(),
        },
{
    if pos < chars.len() {
        Some(chars[pos])
    } else {
        None
    }
}

/// Whether the character after `pos` exists and is `expected`.
fn next_is(chars: &Vec<char>, pos: usize, expected: char) -> (b: bool)
    requires
        pos < chars@.len(),
    ensures
        b == (pos + 1 < chars@.len() && chars@[pos + 1] == expected),
{
    let n = chars.len();
    if pos + 1 < n {
        match peek(chars, pos + 1) {
            Some(c) => c == expected,
            None => false,
        }
    } else {
        false
    }
}

/// Convert rule source text into its ordered token sequence, or report the
/// first lexical error: an unrecognized character, a lone `!`, `&` or `|`,
/// or a numeric literal overflowing the 64-bit signed range.
pub fn tokenize(input: String) -> (r: Result<Vec<Token>, LexError>)
    ensures
        match spec_tokenize(input@) {
            Ok(tv) => (match r {
                Ok(toks) => toks.deep_view() == tv,
                Err(e) => false,
            }),
            Err(err) => r == Err::<Vec<Token>, LexError>(err),
        },
{
    let s: &str = input.as_str();
    let chars = chars_of(s);
    let ghost inp = input@;
    let n = chars.len();
    let mut toks: Vec<Token> = Vec::new();
    let mut pos: usize = 0;
    while pos < n
        invariant
            inp == input@,
            n == inp.len(),
            chars@ == inp,
            s@ == inp,
            pos <= n,
            lex_join(toks.deep_view(), sp_lex(inp, pos as int)) == sp_lex(inp, 0),
        decreases n - pos,
    {
        let ghost dv0 = toks.deep_view();
        let c = chars[pos];
        let mut tok: Option<Token> = None;
        if char_is_space(c) {
            pos = pos + 1;
        } else if c == '{' {
            tok = Some(Token::LBrace);
            pos = pos + 1;
        } else if c == '}' {
            tok = Some(Token::RBrace);
            pos = pos + 1;
        } else if c == '(' {
            tok = Some(Token::LParen);
            pos = pos + 1;
        } else if c == ')' {
            tok = Some(Token::RParen);
            pos = pos + 1;
        } else if c == ';' {
            tok = Some(Token::Semicolon);
            pos = pos + 1;
        } else if c == '.' {
            tok = Some(Token::Dot);
            pos = pos + 1;
        } else if c == '+' {
            tok = Some(Token::Plus);
            pos = pos + 1;
        } else if c == '-' {
            tok = Some(Token::Minus);
            pos = pos + 1;
        } else if c == '*' {
            tok = Some(Token::Mul);
            pos = pos + 1;
        } else if c == '=' {
            if next_is(&chars, pos, '=') {
                tok = Some(Token::Eq);
                pos = pos + 2;
            } else {
                tok = Some(Token::Assign);
                pos = pos + 1;
            }
        } else if c == '!' {
            if next_is(&chars, pos, '=') {
                tok = Some(Token::NotEq);
                pos = pos + 2;
            } else {
                return Err(LexError::UnexpectedChar { ch: c, offset: pos });
            }
        } else if c == '<' {
            if next_is(&chars, pos, '=') {
                tok = Some(Token::LtEq);
                pos = pos + 2;
            } else {
                tok = Some(Token::Lt);
                pos = pos + 1;
            }
        } else if c == '>' {
            if next_is(&chars, pos, '=') {
                tok = Some(Token::GtEq);
                pos = pos + 2;
            } else {
                tok = Some(Token::Gt);
                pos = pos + 1;
            }
        } else if c == '&' {
            if next_is(&chars, pos, '&') {
                tok = Some(Token::And);
                pos = pos + 2;
            } else {
                return Err(LexError::UnexpectedChar { ch: c, offset: pos });
            }
        } else if c == '|' {
            if next_is(&chars, pos, '|') {
                tok = Some(Token::Or);
                pos = pos + 2;
            } else {
                return Err(LexError::UnexpectedChar { ch: c, offset: pos });
            }
        } else if c == '/' {
            if next_is(&chars, pos, '/') {
                // line comment: consume to the end of the line
                let mut pos2 = pos + 2;
                let ghost pc = pos as int + 2;
                while pos2 < n && chars[pos2] != '\n'
                    invariant
                        pc <= pos2 <= n,
                        n == inp.len(),
                        chars@ == inp,
                        lc_len(inp, pc) == pos2 - pc + lc_len(inp, pos2 as int),
                    decreases n - pos2,
                {
                    pos2 = pos2 + 1;
                }
                pos = pos2;
            } else if next_is(&chars, pos, '*') {
                // block comment: consume through the closing marker, or to
                // the end of input when it never comes
                let mut pos2 = pos + 2;
                let ghost pc = pos as int + 2;
                let mut done = false;
                while !done
                    invariant
                        pc <= pos2 <= n,
                        n == inp.len(),
                        chars@ == inp,
                        !done ==> bc_len(inp, pc) == pos2 - pc + bc_len(inp, pos2 as int),
                        done ==> pos2 == pc + bc_len(inp, pc),
                    decreases n - pos2 + (if done { 0int } else { 1int }),
                {
                    if pos2 >= n {
                        done = true;
                    } else if pos2 + 1 >= n {
                        pos2 = pos2 + 1;
                        done = true;
                    } else if chars[pos2] == '*' && chars[pos2 + 1] == '/' {
                        pos2 = pos2 + 2;
                        done = true;
                    } else {
                        pos2 = pos2 + 1;
                    }
                }
                pos = pos2;
            } else {
                tok = Some(Token::Div);
                pos = pos + 1;
            }
        } else if c == '"' {
            // string literal: the body runs to the closing quote, or to the
            // end of input when unterminated
            let start = pos + 1;
            let mut pos2 = start;
            while pos2 < n && chars[pos2] != '"'
                invariant
                    start <= pos2 <= n,
                    n == inp.len(),
                    chars@ == inp,
                    sl_len(inp, start as int) == pos2 - start + sl_len(inp, pos2 as int),
                decreases n - pos2,
            {
                pos2 = pos2 + 1;
            }
            let body = s.substring_char(start, pos2);
            tok = Some(Token::StringLit(String::from_str(body)));
            if pos2 < n {
                pos = pos2 + 1;
            } else {
                pos = n;
            }
        } else if char_is_digit(c) {
            // integer literal: the maximal run of digits, as a 64-bit
            // signed value
            let start = pos;
            let mut pos2 = pos + 1;
            while pos2 < n && char_is_digit(chars[pos2])
                invariant
                    start + 1 <= pos2 <= n,
                    n == inp.len(),
                    chars@ == inp,
                    is_digit_char(inp[start as int]),
                    dg_len(inp, start as int + 1) == pos2 - start - 1 + dg_len(inp, pos2 as int),
                    forall|m: int| start <= m < pos2 ==> is_digit_char(inp[m]),
                decreases n - pos2,
            {
                pos2 = pos2 + 1;
            }
            let mut val: i64 = 0;
            let mut overflowed = false;
            let mut j = start;
            while j < pos2
                invariant
                    start <= j <= pos2 <= n,
                    n == inp.len(),
                    chars@ == inp,
                    forall|m: int| start <= m < pos2 ==> is_digit_char(inp[m]),
                    !overflowed ==> 0 <= val && val == digits_val(
                        inp.subrange(start as int, j as int),
                    ),
                    overflowed ==> digits_val(inp.subrange(start as int, j as int)) > i64::MAX,
                decreases pos2 - j,
            {
                let d: i64 = (chars[j] as u32) as i64 - 48;
                proof {
                    assert(is_digit_char(inp[j as int]));
                    assert(digit_val(inp[j as int]) == d);
                    assert(inp.subrange(start as int, j as int + 1).drop_last() =~= inp.subrange(
                        start as int,
                        j as int,
                    ));
                    assert(inp.subrange(start as int, j as int + 1).last() == inp[j as int]);
                }
                if overflowed {
                } else if val > 922337203685477580i64 || (val == 922337203685477580i64 && d > 7) {
                    overflowed = true;
                } else {
                    val = val * 10 + d;
                }
                j = j + 1;
            }
            if overflowed {
                return Err(LexError::IntOverflow { offset: start });
            }
            tok = Some(Token::Int(val));
            pos = pos2;
        } else if char_is_ident_start(c) {
            // identifier or reserved keyword
            let start = pos;
            let mut pos2 = pos + 1;
            while pos2 < n && char_is_ident(chars[pos2])
                invariant
                    start + 1 <= pos2 <= n,
                    n == inp.len(),
                    chars@ == inp,
                    id_len(inp, start as int + 1) == pos2 - start - 1 + id_len(inp, pos2 as int),
                decreases n - pos2,
            {
                pos2 = pos2 + 1;
            }
            let word = s.substring_char(start, pos2);
            if str_eq(word, "rule") {
                tok = Some(Token::Rule);
            } else if str_eq(word, "when") {
                tok = Some(Token::When);
            } else if str_eq(word, "then") {
                tok = Some(Token::Then);
            } else if str_eq(word, "true") {
                tok = Some(Token::Bool(true));
            } else if str_eq(word, "false") {
                tok = Some(Token::Bool(false));
            } else {
                tok = Some(Token::Ident(String::from_str(word)));
            }
            pos = pos2;
        } else {
            return Err(LexError::UnexpectedChar { ch: c, offset: pos });
        }
        match tok {
            None => {},
            Some(t) => {
                toks.push(t);
                proof {
                    assert(toks.deep_view() =~= dv0.push(t@));
                    lemma_lex_join_push(dv0, t@, sp_lex(inp, pos as int));
                }
            },
        }
    }
    proof {
        assert(toks.deep_view() + Seq::<TokenV>::empty() =~= toks.deep_view());
    }
    Ok(toks)
}

} // verus!

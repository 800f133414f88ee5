//! Splitting expression text into tokens.
use vstd::prelude::*;
use crate::text::{
    char_is_alphabetic, char_is_numeric, char_is_whitespace, digit_value, is_alphabetic,
    is_alphanumeric, is_digit, is_digit_in, is_whitespace, message, parse_uint, parse_uint_spec,
    str_chars, substring,
};

verus! {

#[derive(Debug)]
pub enum Token {
    Literal(u64),
    Identifier(String),
    Op(String),
    LParen,
    RParen,
}

pub ghost enum SpecToken {
    Literal(u64),
    Identifier(Seq<char>),
    Op(Seq<char>),
    LParen,
    RParen,
}

impl View for Token {
    type V = SpecToken;

    open spec fn view(&self) -> SpecToken {
        match self {
            Token::Literal(v) => SpecToken::Literal(*v),
            Token::Identifier(s) => SpecToken::Identifier(s@),
            Token::Op(s) => SpecToken::Op(s@),
            Token::LParen => SpecToken::LParen,
            Token::RParen => SpecToken::RParen,
        }
    }
}

impl Token {
    pub fn duplicate(&self) -> (r: Token)
        ensures
            r@ == self@,
    {
        match self {
            Token::Literal(v) => Token::Literal(*v),
            Token::Identifier(s) => Token::Identifier(s.clone()),
            Token::Op(s) => Token::Op(s.clone()),
            Token::LParen => Token::LParen,
            Token::RParen => Token::RParen,
        }
    }
}

pub open spec fn tokens_view(v: Seq<Token>) -> Seq<SpecToken> {
    v.map_values(|t: Token| t@)
}

/// Characters that continue a number: hex digits and `x`/`X`.
pub open spec fn number_char(c: char) -> bool {
    is_digit_in(c, 16) || c == 'x' || c == 'X'
}

/// Characters that start an identifier.
pub open spec fn ident_start(c: char) -> bool {
    char_is_alphabetic(c) || c == '_' || c == '$'
}

/// Characters that continue an identifier.
pub open spec fn ident_char(c: char) -> bool {
    char_is_alphabetic(c) || char_is_numeric(c) || c == '_' || c == '$'
}

/// End of the run of number (`number == true`) or identifier characters
/// starting at `i`.
pub open spec fn scan_end(s: Seq<char>, i: int, number: bool) -> int
    decreases s.len() - i,
{
    if 0 <= i < s.len() && (if number {
        number_char(s[i])
    } else {
        ident_char(s[i])
    }) {
        scan_end(s, i + 1, number)
    } else {
        i
    }
}

pub proof fn lemma_scan_end(s: Seq<char>, i: int, number: bool)
    requires
        0 <= i <= s.len(),
    ensures
        i <= scan_end(s, i, number) <= s.len(),
        forall|k: int|
            i <= k < scan_end(s, i, number) ==> (if number {
                number_char(#[trigger] s[k])
            } else {
                ident_char(s[k])
            }),
        scan_end(s, i, number) < s.len() ==> !(if number {
            number_char(s[scan_end(s, i, number)])
        } else {
            ident_char(s[scan_end(s, i, number)])
        }),
    decreases s.len() - i,
{
    if i < s.len() && (if number {
        number_char(s[i])
    } else {
        ident_char(s[i])
    }) {
        lemma_scan_end(s, i + 1, number);
    }
}

/// Operators spelled with two characters.
pub open spec fn two_char_op(a: char, b: char) -> bool {
    ||| (a == '<' && b == '<')
    ||| (a == '>' && b == '>')
    ||| (a == '=' && b == '=')
    ||| (a == '!' && b == '=')
    ||| (a == '<' && b == '=')
    ||| (a == '>' && b == '=')
    ||| (a == '&' && b == '&')
    ||| (a == '|' && b == '|')
}

/// A 32-bit value with bit 31 set is read as a sign-extended 64-bit value.
pub open spec fn sign_extend32(raw: nat) -> u64 {
    if 0x8000_0000 <= raw <= 0xFFFF_FFFF {
        (raw + 0xFFFF_FFFF_0000_0000) as u64
    } else {
        raw as u64
    }
}

/// The value of a number token: `0x`/`0X` hexadecimal (sign-extended from
/// 32 bits when written with at most 8 digits), `0`-prefixed octal, or
/// decimal (sign-extended from 32 bits).
pub open spec fn number_value(t: Seq<char>) -> Result<u64, Seq<char>> {
    let invalid = "Invalid number: "@ + t;
    if t.len() >= 2 && t[0] == '0' && (t[1] == 'x' || t[1] == 'X') {
        match parse_uint_spec(t.skip(2), 16, u64::MAX as nat) {
            None => Err(invalid),
            Some(raw) => Ok(
                if t.len() - 2 <= 8 {
                    sign_extend32(raw)
                } else {
                    raw as u64
                },
            ),
        }
    } else if t.len() > 1 && t[0] == '0' {
        match parse_uint_spec(t.skip(1), 8, u64::MAX as nat) {
            None => Err(invalid),
            Some(v) => Ok(v as u64),
        }
    } else {
        match parse_uint_spec(t, 10, u64::MAX as nat) {
            None => Err(invalid),
            Some(raw) => Ok(sign_extend32(raw)),
        }
    }
}

pub open spec fn prepend(ts: Seq<SpecToken>, r: Result<Seq<SpecToken>, Seq<char>>) -> Result<
    Seq<SpecToken>,
    Seq<char>,
> {
    match r {
        Ok(rest) => Ok(ts + rest),
        Err(e) => Err(e),
    }
}

/// The tokens of `s[i..]`, or the message tokenizing fails with.
pub open spec fn lex_from(s: Seq<char>, i: int) -> Result<Seq<SpecToken>, Seq<char>>
    decreases s.len() - i,
{
    if i < 0 || i >= s.len() {
        Ok(Seq::empty())
    } else {
        let c = s[i];
        if char_is_whitespace(c) {
            lex_from(s, i + 1)
        } else if is_digit_in(c, 10) {
            let j = scan_end(s, i, true);
            proof {
                lemma_scan_end(s, i, true);
            }
            if j <= i {
                Ok(Seq::empty())
            } else {
                match number_value(s.subrange(i, j)) {
                    Err(m) => Err(m),
                    Ok(v) => prepend(seq![SpecToken::Literal(v)], lex_from(s, j)),
                }
            }
        } else if ident_start(c) {
            let j = scan_end(s, i, false);
            proof {
                lemma_scan_end(s, i, false);
            }
            if j <= i {
                Ok(Seq::empty())
            } else {
                prepend(seq![SpecToken::Identifier(s.subrange(i, j))], lex_from(s, j))
            }
        } else if c == '(' {
            prepend(seq![SpecToken::LParen], lex_from(s, i + 1))
        } else if c == ')' {
            prepend(seq![SpecToken::RParen], lex_from(s, i + 1))
        } else if i + 1 < s.len() && two_char_op(c, s[i + 1]) {
            prepend(seq![SpecToken::Op(s.subrange(i, i + 2))], lex_from(s, i + 2))
        } else {
            prepend(seq![SpecToken::Op(s.subrange(i, i + 1))], lex_from(s, i + 1))
        }
    }
}

proof fn lemma_prepend_assoc(a: Seq<SpecToken>, b: Seq<SpecToken>, r: Result<Seq<SpecToken>, Seq<char>>)
    ensures
        prepend(a, prepend(b, r)) == prepend(a + b, r),
{
    match r {
        Ok(rest) => {
            assert(a + (b + rest) =~= (a + b) + rest);
        },
        Err(_) => {},
    }
}

/// Reads the number token `s[i..j]`.
fn lex_number(input: &str, s: &Vec<char>, i: usize, j: usize) -> (r: Result<u64, String>)
    requires
        i < j <= s.len(),
        s@ == input@,
    ensures
        match number_value(s@.subrange(i as int, j as int)) {
            Ok(v) => r == Ok::<u64, String>(v),
            Err(m) => r is Err && r->Err_0@ == m,
        },
{
    let ghost t = s@.subrange(i as int, j as int);
    let invalid = message("Invalid number: ", input.substring_char(i, j));
    if j - i >= 2 && s[i] == '0' && (s[i + 1] == 'x' || s[i + 1] == 'X') {
        assert(s@.subrange(i + 2, j as int) =~= t.skip(2));
        match parse_uint(s, i + 2, j, 16, 0xFFFF_FFFF_FFFF_FFFF) {
            None => Err(invalid),
            Some(raw) => {
                if j - i - 2 <= 8 && 0x8000_0000 <= raw && raw <= 0xFFFF_FFFF {
                    Ok(raw + 0xFFFF_FFFF_0000_0000)
                } else {
                    Ok(raw)
                }
            },
        }
    } else if j - i > 1 && s[i] == '0' {
        assert(s@.subrange(i + 1, j as int) =~= t.skip(1));
        match parse_uint(s, i + 1, j, 8, 0xFFFF_FFFF_FFFF_FFFF) {
            None => Err(invalid),
            Some(v) => Ok(v),
        }
    } else {
        match parse_uint(s, i, j, 10, 0xFFFF_FFFF_FFFF_FFFF) {
            None => Err(invalid),
            Some(raw) => {
                if 0x8000_0000 <= raw && raw <= 0xFFFF_FFFF {
                    Ok(raw + 0xFFFF_FFFF_0000_0000)
                } else {
                    Ok(raw)
                }
            },
        }
    }
}

fn is_two_char_op(a: char, b: char) -> (r: bool)
    ensures
        r == two_char_op(a, b),
{
    (a == '<' && b == '<') || (a == '>' && b == '>') || (a == '=' && b == '=') || (a == '!' && b
        == '=') || (a == '<' && b == '=') || (a == '>' && b == '=') || (a == '&' && b == '&') || (a
        == '|' && b == '|')
}

/// Splits `input` into tokens (see `lex_from`).
pub fn tokenize(input: &str) -> (r: Result<Vec<Token>, String>)
    ensures
        match lex_from(input@, 0) {
            Ok(ts) => r is Ok && tokens_view(r->Ok_0@) == ts,
            Err(m) => r is Err && r->Err_0@ == m,
        },
{
    let s = str_chars(input);
    let n = s.len();
    let mut tokens: Vec<Token> = Vec::new();
    let mut i: usize = 0;
    assert(tokens_view(tokens@) =~= Seq::<SpecToken>::empty());
    assert(Seq::<SpecToken>::empty() + lex_from(s@, 0)->Ok_0 =~= lex_from(s@, 0)->Ok_0);
    while i < n
        invariant
            s@ == input@,
            n == s.len(),
            i <= n,
            lex_from(s@, 0) == prepend(tokens_view(tokens@), lex_from(s@, i as int)),
        decreases n - i,
    {
        let c = s[i];
        let ghost before = tokens_view(tokens@);
        if is_whitespace(c) {
            i = i + 1;
        } else if is_digit(c, 10) {
            let mut j = i;
            while j < n && (is_digit(s[j], 16) || s[j] == 'x' || s[j] == 'X')
                invariant
                    i <= j <= n == s.len(),
                    forall|k: int| i <= k < j ==> number_char(#[trigger] s@[k]),
                decreases n - j,
            {
                j = j + 1;
            }
            proof {
                lemma_scan_end(s@, i as int, true);
                lemma_scan_end_unique(s@, i as int, j as int, true);
                assert(digit_value(c) < 10);
            }
            match lex_number(input, &s, i, j) {
                Err(m) => {
                    return Err(m);
                },
                Ok(v) => {
                    tokens.push(Token::Literal(v));
                    proof {
                        lemma_prepend_assoc(before, seq![SpecToken::Literal(v)], lex_from(s@, j as int));
                        assert(tokens_view(tokens@) =~= before + seq![SpecToken::Literal(v)]);
                    }
                },
            }
            i = j;
        } else if is_alphabetic(c) || c == '_' || c == '$' {
            let mut j = i;
            while j < n && (is_alphanumeric(s[j]) || s[j] == '_' || s[j] == '$')
                invariant
                    i <= j <= n == s.len(),
                    forall|k: int| i <= k < j ==> ident_char(#[trigger] s@[k]),
                decreases n - j,
            {
                j = j + 1;
            }
            proof {
                lemma_scan_end(s@, i as int, false);
                lemma_scan_end_unique(s@, i as int, j as int, false);
            }
            let word = substring(input, i, j);
            let ghost w = word@;
            tokens.push(Token::Identifier(word));
            proof {
                lemma_prepend_assoc(before, seq![SpecToken::Identifier(w)], lex_from(s@, j as int));
                assert(tokens_view(tokens@) =~= before + seq![SpecToken::Identifier(w)]);
            }
            i = j;
        } else if c == '(' {
            tokens.push(Token::LParen);
            proof {
                lemma_prepend_assoc(before, seq![SpecToken::LParen], lex_from(s@, i + 1));
                assert(tokens_view(tokens@) =~= before + seq![SpecToken::LParen]);
            }
            i = i + 1;
        } else if c == ')' {
            tokens.push(Token::RParen);
            proof {
                lemma_prepend_assoc(before, seq![SpecToken::RParen], lex_from(s@, i + 1));
                assert(tokens_view(tokens@) =~= before + seq![SpecToken::RParen]);
            }
            i = i + 1;
        } else {
            let len: usize = if i + 1 < n && is_two_char_op(c, s[i + 1]) {
                2
            } else {
                1
            };
            let op = substring(input, i, i + len);
            let ghost o = op@;
            tokens.push(Token::Op(op));
            proof {
                lemma_prepend_assoc(before, seq![SpecToken::Op(o)], lex_from(s@, i + len));
                assert(tokens_view(tokens@) =~= before + seq![SpecToken::Op(o)]);
            }
            i = i + len;
        }
    }
    assert(lex_from(s@, i as int) == Ok::<Seq<SpecToken>, Seq<char>>(Seq::empty()));
    assert(tokens_view(tokens@) + Seq::<SpecToken>::empty() =~= tokens_view(tokens@));
    Ok(tokens)
}

proof fn lemma_scan_end_unique(s: Seq<char>, i: int, j: int, number: bool)
    requires
        0 <= i <= j <= s.len(),
        forall|k: int|
            i <= k < j ==> (if number {
                number_char(#[trigger] s[k])
            } else {
                ident_char(s[k])
            }),
        j == s.len() || !(if number {
            number_char(s[j])
        } else {
            ident_char(s[j])
        }),
    ensures
        scan_end(s, i, number) == j,
    decreases j - i,
{
    if i < j {
        lemma_scan_end_unique(s, i + 1, j, number);
    }
}

} // verus!

//! Character and number-text helpers shared by the expression language and
//! the snapshot encoders.
use vstd::prelude::*;
use vstd::string::*;

verus! {

// ── Unicode character classes (answered by std) ─────────────────────────────

/// Whether `c` has the Unicode `White_Space` property (`char::is_whitespace`):
/// tab, line feed, vertical tab, form feed, carriage return, space, next
/// line, no-break space, ogham space mark, the spaces U+2000 to U+200A, line
/// and paragraph separators, narrow no-break space, medium mathematical space
/// and ideographic space.
pub open spec fn char_is_whitespace(c: char) -> bool {
    let u = c as u32;
    ||| 0x09 <= u <= 0x0D
    ||| u == 0x20
    ||| u == 0x85
    ||| u == 0xA0
    ||| u == 0x1680
    ||| 0x2000 <= u <= 0x200A
    ||| u == 0x2028
    ||| u == 0x2029
    ||| u == 0x202F
    ||| u == 0x205F
    ||| u == 0x3000
}

/// Whether `c` is an ASCII letter.
pub open spec fn is_ascii_letter(c: char) -> bool {
    ('a' <= c && c <= 'z') || ('A' <= c && c <= 'Z')
}

/// Whether `c` is an ASCII digit.
pub open spec fn is_ascii_digit(c: char) -> bool {
    '0' <= c && c <= '9'
}

/// Whether `c` has the Unicode `Alphabetic` property (`char::is_alphabetic`).
pub uninterp spec fn char_is_alphabetic(c: char) -> bool;

/// Whether `c` is in a Unicode numeric category (`char::is_numeric`).
pub uninterp spec fn char_is_numeric(c: char) -> bool;

/// The Unicode lower-case mapping of a string (`str::to_lowercase`).
pub uninterp spec fn str_lowercase(s: Seq<char>) -> Seq<char>;

/// Whether `c` is white space (see `char_is_whitespace`).
pub(crate) fn is_whitespace(c: char) -> (r: bool)
    ensures
        r == char_is_whitespace(c),
{
    let u = c as u32;
    (0x09 <= u && u <= 0x0D) || u == 0x20 || u == 0x85 || u == 0xA0 || u == 0x1680 || (0x2000 <= u
        && u <= 0x200A) || u == 0x2028 || u == 0x2029 || u == 0x202F || u == 0x205F || u == 0x3000
}

/// Calls `char::is_alphabetic`; the result is the Unicode `Alphabetic`
/// property of `c`, named `char_is_alphabetic`. Among ASCII characters
/// exactly the letters have it.
#[verifier::external_body]
pub(crate) fn is_alphabetic(c: char) -> (r: bool)
    ensures
        r == char_is_alphabetic(c),
        (c as u32) < 0x80 ==> (r <==> is_ascii_letter(c)),
{
    c.is_alphabetic()
}

/// Calls `char::is_alphanumeric`, which std documents as "alphabetic or
/// numeric": the contract says exactly that over the two named classes.
/// Among ASCII characters exactly the letters and digits are.
#[verifier::external_body]
pub(crate) fn is_alphanumeric(c: char) -> (r: bool)
    ensures
        r == (char_is_alphabetic(c) || char_is_numeric(c)),
        (c as u32) < 0x80 ==> (r <==> (is_ascii_letter(c) || is_ascii_digit(c))),
{
    c.is_alphanumeric()
}

/// The lower-case form of an ASCII character: `A`-`Z` become `a`-`z`, every
/// other character is kept.
pub open spec fn ascii_lower(c: char) -> char {
    if 'A' <= c && c <= 'Z' {
        ((c as u32) + 32) as char
    } else {
        c
    }
}

/// Whether every character of `s` is ASCII.
pub open spec fn all_ascii(s: Seq<char>) -> bool {
    forall|i: int| 0 <= i < s.len() ==> (#[trigger] s[i] as u32) < 0x80
}

/// The lower-case form of a string as `str::to_lowercase` gives it: ASCII
/// text with `A`-`Z` lowered one for one, other text by the Unicode mapping.
pub open spec fn lowercase_text(s: Seq<char>) -> Seq<char> {
    if all_ascii(s) {
        s.map_values(|c: char| ascii_lower(c))
    } else {
        str_lowercase(s)
    }
}

/// Calls `str::to_lowercase`; the result is the Unicode lower-case mapping
/// of `s`, named `str_lowercase`. On an ASCII string the mapping lowers
/// `A`-`Z` and keeps every other character, one for one.
#[verifier::external_body]
pub(crate) fn to_lowercase(s: &str) -> (r: String)
    ensures
        r@ == str_lowercase(s@),
        all_ascii(s@) ==> r@ == s@.map_values(|c: char| ascii_lower(c)),
{
    s.to_lowercase()
}

// ── Digits ──────────────────────────────────────────────────────────────────

/// The value of `c` as a digit in radix 36 (`0-9`, `a-z`, `A-Z`), or 99 when
/// `c` is no such digit. This is `char::to_digit` before the radix check.
pub open spec fn digit_value(c: char) -> nat {
    if '0' <= c && c <= '9' {
        (c as nat - '0' as nat) as nat
    } else if 'a' <= c && c <= 'z' {
        (c as nat - 'a' as nat + 10) as nat
    } else if 'A' <= c && c <= 'Z' {
        (c as nat - 'A' as nat + 10) as nat
    } else {
        99
    }
}

/// `char::is_digit(radix)`.
pub open spec fn is_digit_in(c: char, radix: nat) -> bool {
    digit_value(c) < radix
}

pub open spec fn all_digits(s: Seq<char>, radix: nat) -> bool {
    forall|i: int| 0 <= i < s.len() ==> #[trigger] is_digit_in(s[i], radix)
}

/// Positional value of a digit string, most significant digit first.
pub open spec fn digits_value(s: Seq<char>, radix: nat) -> nat
    decreases s.len(),
{
    if s.len() == 0 {
        0
    } else {
        digits_value(s.drop_last(), radix) * radix + digit_value(s.last())
    }
}

/// What `uN::from_str_radix(s, radix)` gives for an unsigned type whose
/// largest value is `max`: an optional leading `+`, then at least one digit
/// of the radix, and a value that fits.
pub open spec fn parse_uint_spec(s: Seq<char>, radix: nat, max: nat) -> Option<nat> {
    let d = if s.len() > 0 && s[0] == '+' {
        s.skip(1)
    } else {
        s
    };
    if d.len() == 0 || !all_digits(d, radix) || digits_value(d, radix) > max {
        None
    } else {
        Some(digits_value(d, radix))
    }
}

pub fn digit_of(c: char) -> (r: u32)
    ensures
        r == digit_value(c),
{
    if '0' <= c && c <= '9' {
        (c as u32) - ('0' as u32)
    } else if 'a' <= c && c <= 'z' {
        (c as u32) - ('a' as u32) + 10
    } else if 'A' <= c && c <= 'Z' {
        (c as u32) - ('A' as u32) + 10
    } else {
        99
    }
}

/// `char::is_digit(radix)`.
pub fn is_digit(c: char, radix: u32) -> (r: bool)
    ensures
        r == is_digit_in(c, radix as nat),
{
    digit_of(c) < radix
}

proof fn lemma_digits_value_step(s: Seq<char>, a: int, i: int, radix: nat)
    requires
        0 <= a <= i < s.len(),
    ensures
        digits_value(s.subrange(a, i + 1), radix) == digits_value(s.subrange(a, i), radix) * radix
            + digit_value(s[i]),
{
    assert(s.subrange(a, i + 1).drop_last() =~= s.subrange(a, i));
}

proof fn lemma_digits_value_monotone(s: Seq<char>, a: int, j: int, k: int, radix: nat)
    requires
        0 <= a <= j <= k <= s.len(),
        radix >= 1,
        all_digits(s.subrange(a, k), radix),
    ensures
        digits_value(s.subrange(a, j), radix) <= digits_value(s.subrange(a, k), radix),
    decreases k - j,
{
    if j < k {
        lemma_digits_value_monotone(s, a, j, k - 1, radix);
        lemma_digits_value_step(s, a, k - 1, radix);
        let p = digits_value(s.subrange(a, k - 1), radix);
        assert(p * radix >= p) by (nonlinear_arith)
            requires
                radix >= 1,
        ;
    }
}

/// Parses `s[start..end]` as `uN::from_str_radix` does, for an unsigned type
/// whose largest value is `max`.
pub fn parse_uint(s: &Vec<char>, start: usize, end: usize, radix: u32, max: u64) -> (r: Option<
    u64,
>)
    requires
        start <= end <= s.len(),
        2 <= radix <= 36,
    ensures
        match r {
            Some(v) => parse_uint_spec(s@.subrange(start as int, end as int), radix as nat, max as nat)
                == Some(v as nat),
            None => parse_uint_spec(s@.subrange(start as int, end as int), radix as nat, max as nat)
                is None,
        },
{
    let ghost whole = s@.subrange(start as int, end as int);
    let mut d0 = start;
    if start < end && s[start] == '+' {
        d0 = start + 1;
    }
    let ghost d = s@.subrange(d0 as int, end as int);
    assert(d =~= (if whole.len() > 0 && whole[0] == '+' {
        whole.skip(1)
    } else {
        whole
    }));
    if d0 == end {
        return None;
    }
    let mut acc: u64 = 0;
    let mut i = d0;
    while i < end
        invariant
            d0 <= i <= end <= s.len(),
            2 <= radix <= 36,
            d == s@.subrange(d0 as int, end as int),
            whole == s@.subrange(start as int, end as int),
            d == (if whole.len() > 0 && whole[0] == '+' {
                whole.skip(1)
            } else {
                whole
            }),
            all_digits(s@.subrange(d0 as int, i as int), radix as nat),
            acc as nat == digits_value(s@.subrange(d0 as int, i as int), radix as nat),
            acc <= max,
        decreases end - i,
    {
        let c = s[i];
        let dv = digit_of(c);
        if dv >= radix {
            proof {
                assert(!is_digit_in(d[i - d0], radix as nat));
            }
            return None;
        }
        assert((acc as u128) * (radix as u128) <= 0xFFFF_FFFF_FFFF_FFFFu128 * 36) by (nonlinear_arith)
            requires
                acc <= 0xFFFF_FFFF_FFFF_FFFFu64,
                radix <= 36,
        ;
        let next: u128 = (acc as u128) * (radix as u128) + (dv as u128);
        proof {
            lemma_digits_value_step(s@, d0 as int, i as int, radix as nat);
        }
        if next > max as u128 {
            proof {
                if all_digits(d, radix as nat) {
                    assert(s@.subrange(d0 as int, end as int) == d);
                    lemma_digits_value_monotone(s@, d0 as int, i + 1, end as int, radix as nat);
                }
            }
            return None;
        }
        proof {
            assert forall|k: int| 0 <= k < i + 1 - d0 implies #[trigger] is_digit_in(
                s@.subrange(d0 as int, i + 1)[k],
                radix as nat,
            ) by {
                if k < i - d0 {
                    assert(s@.subrange(d0 as int, i + 1)[k] == s@.subrange(d0 as int, i as int)[k]);
                }
            }
        }
        acc = next as u64;
        i = i + 1;
    }
    assert(s@.subrange(d0 as int, i as int) =~= d);
    Some(acc)
}

// ── Strings ─────────────────────────────────────────────────────────────────

/// The characters of `s`, in order.
pub fn str_chars(s: &str) -> (v: Vec<char>)
    ensures
        v@ == s@,
{
    let n = s.unicode_len();
    let mut v: Vec<char> = Vec::new();
    let mut i: usize = 0;
    while i < n
        invariant
            n == s@.len(),
            i <= n,
            v@ =~= s@.subrange(0, i as int),
        decreases n - i,
    {
        v.push(s.get_char(i));
        i = i + 1;
    }
    v
}

/// Whether `v` spells exactly the literal `lit`.
pub fn chars_eq_str(v: &Vec<char>, start: usize, end: usize, lit: &str) -> (r: bool)
    requires
        start <= end <= v.len(),
    ensures
        r == (v@.subrange(start as int, end as int) == lit@),
{
    let n = lit.unicode_len();
    if end - start != n {
        return false;
    }
    let mut i: usize = 0;
    while i < n
        invariant
            n == lit@.len(),
            end - start == n,
            start <= end <= v.len(),
            i <= n,
            forall|k: int| 0 <= k < i ==> v@[start + k] == lit@[k],
        decreases n - i,
    {
        if v[start + i] != lit.get_char(i) {
            assert(v@.subrange(start as int, end as int)[i as int] != lit@[i as int]);
            return false;
        }
        i = i + 1;
    }
    assert(v@.subrange(start as int, end as int) =~= lit@);
    true
}

/// A `String` holding `s[start..end]` of the text whose characters are `s`.
pub fn substring(s: &str, start: usize, end: usize) -> (r: String)
    requires
        start <= end <= s@.len(),
    ensures
        r@ == s@.subrange(start as int, end as int),
{
    String::from_str(s.substring_char(start, end))
}

/// `prefix` followed by `rest`.
pub fn message(prefix: &str, rest: &str) -> (r: String)
    ensures
        r@ == prefix@ + rest@,
{
    let mut m = String::from_str(prefix);
    m.append(rest);
    m
}

} // verus!

//! Machine snapshots: device register state as TOML-shaped values (numbers
//! as hex strings), RAM as raw binary files in a save directory.
//!
//! Layout of a save directory:
//!   cpu.toml, mc.toml, ioc.toml, hpc3.toml, rex3.toml — device registers
//!   bank0.bin .. bank3.bin — the four 128 MB RAM banks
use vstd::prelude::*;
pub mod document;
use crate::text::{digit_value, digits_value, is_digit_in, parse_uint, parse_uint_spec, str_chars};

verus! {

/// A TOML value as the snapshot code reads and writes it.
#[derive(Debug)]
pub enum TomlValue {
    String(String),
    Integer(i64),
    Boolean(bool),
    Array(Vec<TomlValue>),
    Table(Vec<(String, TomlValue)>),
    /// Floats and datetimes, which the snapshot code never reads.
    Other,
}

/// A machine snapshot stored in the directory `dir`.
pub struct Snapshot {
    pub dir: String,
}

impl Snapshot {
    pub fn new(dir: String) -> (s: Self)
        ensures
            s.dir@ == dir@,
    {
        Snapshot { dir }
    }
}

// ── Hex text ────────────────────────────────────────────────────────────────

/// Lower-case hex digit of `d` (below 16).
pub open spec fn hex_char(d: nat) -> char {
    if d < 10 {
        ('0' as nat + d) as char
    } else {
        ('a' as nat + d - 10) as char
    }
}

/// The last `width` hex digits of `v`, most significant first.
pub open spec fn hex_text(v: nat, width: nat) -> Seq<char>
    decreases width,
{
    if width == 0 {
        Seq::empty()
    } else {
        hex_text(v / 16, (width - 1) as nat).push(hex_char(v % 16))
    }
}

/// `"0x"` and `width` hex digits of `v` (`format!("0x{:0width$x}")` for a
/// value that fits in `width` digits).
pub open spec fn hex_string(v: nat, width: nat) -> Seq<char> {
    "0x"@ + hex_text(v, width)
}

fn hex_digit(d: u64) -> (r: &'static str)
    requires
        d < 16,
    ensures
        r@ == seq![hex_char(d as nat)],
{
    proof {
        reveal_strlit("0");
        reveal_strlit("1");
        reveal_strlit("2");
        reveal_strlit("3");
        reveal_strlit("4");
        reveal_strlit("5");
        reveal_strlit("6");
        reveal_strlit("7");
        reveal_strlit("8");
        reveal_strlit("9");
        reveal_strlit("a");
        reveal_strlit("b");
        reveal_strlit("c");
        reveal_strlit("d");
        reveal_strlit("e");
        reveal_strlit("f");
    }
    let r = match d {
        0 => "0",
        1 => "1",
        2 => "2",
        3 => "3",
        4 => "4",
        5 => "5",
        6 => "6",
        7 => "7",
        8 => "8",
        9 => "9",
        10 => "a",
        11 => "b",
        12 => "c",
        13 => "d",
        14 => "e",
        _ => "f",
    };
    assert(r@ =~= seq![hex_char(d as nat)]);
    r
}

/// Appends the last `width` hex digits of `v` to `s`.
pub(crate) fn push_hex_digits(s: &mut String, v: u64, width: u64)
    requires
        1 <= width <= 16,
    ensures
        final(s)@ == old(s)@ + hex_text(v as nat, width as nat),
{
    let ghost start = s@;
    let mut j: u64 = 0;
    assert(start =~= start + hex_text((v >> (4 * width)) as nat, 0));
    while j < width
        invariant
            j <= width <= 16,
            start == old(s)@,
            s@ == start + hex_text((v >> (4 * (width - j))) as nat, j as nat),
        decreases width - j,
    {
        let k = width - j - 1;
        let x = v >> (4 * k);
        let d = x & 0xF;
        let ghost hi = v >> (4 * (width - j));
        assert(d == x % 16 && hi == x / 16) by (bit_vector)
            requires
                k < 16,
                x == v >> (4 * k),
                d == x & 0xF,
                hi == v >> (4 * (k + 1)),
        ;
        s.append(hex_digit(d));
        proof {
            assert(hex_text(x as nat, (j + 1) as nat) == hex_text((x / 16) as nat, j as nat).push(
                hex_char((x % 16) as nat),
            ));
            assert(s@ =~= start + hex_text(x as nat, (j + 1) as nat));
        }
        j = j + 1;
    }
    assert((v >> 0u64) == v) by (bit_vector);
}

/// `"0x"` followed by the last `width` hex digits of `v`.
fn hex_str(v: u64, width: u64) -> (s: String)
    requires
        1 <= width <= 16,
    ensures
        s@ == hex_string(v as nat, width as nat),
{
    let mut s = String::from_str("0x");
    let ghost start = s@;
    let mut j: u64 = 0;
    while j < width
        invariant
            j <= width <= 16,
            start == "0x"@,
            s@ == start + hex_text((v >> (4 * (width - j))) as nat, j as nat),
        decreases width - j,
    {
        let k = width - j - 1;
        let x = v >> (4 * k);
        let d = x & 0xF;
        let ghost hi = v >> (4 * (width - j));
        assert(d == x % 16 && hi == x / 16) by (bit_vector)
            requires
                k < 16,
                x == v >> (4 * k),
                d == x & 0xF,
                hi == v >> (4 * (k + 1)),
        ;
        s.append(hex_digit(d));
        proof {
            assert(hex_text(x as nat, (j + 1) as nat) == hex_text((x / 16) as nat, j as nat).push(
                hex_char((x % 16) as nat),
            ));
            assert(s@ =~= start + hex_text(x as nat, (j + 1) as nat));
        }
        j = j + 1;
    }
    assert((v >> 0u64) == v) by (bit_vector);
    s
}

pub fn hex_u64(v: u64) -> (t: TomlValue)
    ensures
        t matches TomlValue::String(s) && s@ == hex_string(v as nat, 16),
{
    TomlValue::String(hex_str(v, 16))
}

pub fn hex_u32(v: u32) -> (t: TomlValue)
    ensures
        t matches TomlValue::String(s) && s@ == hex_string(v as nat, 8),
{
    TomlValue::String(hex_str(v as u64, 8))
}

pub fn hex_u16(v: u16) -> (t: TomlValue)
    ensures
        t matches TomlValue::String(s) && s@ == hex_string(v as nat, 4),
{
    TomlValue::String(hex_str(v as u64, 4))
}

pub fn hex_u8(v: u8) -> (t: TomlValue)
    ensures
        t matches TomlValue::String(s) && s@ == hex_string(v as nat, 2),
{
    TomlValue::String(hex_str(v as u64, 2))
}

// ── Reading numbers back ────────────────────────────────────────────────────

/// `s` with every leading `"0x"` removed (`trim_start_matches("0x")`).
pub open spec fn trim_0x(s: Seq<char>) -> Seq<char>
    decreases s.len(),
{
    if s.len() >= 2 && s[0] == '0' && s[1] == 'x' {
        trim_0x(s.skip(2))
    } else {
        s
    }
}

/// The number a hex string holds: leading `"0x"`s dropped, then read as a
/// hexadecimal u64.
pub open spec fn hex_value(s: Seq<char>) -> Option<u64> {
    match parse_uint_spec(trim_0x(s), 16, u64::MAX as nat) {
        Some(v) => Some(v as u64),
        None => None,
    }
}

/// What a TOML value holds as a u64: a hex string, or an integer taken as
/// its two's complement bits.
pub open spec fn toml_u64_spec(v: TomlValue) -> Option<u64> {
    match v {
        TomlValue::String(s) => hex_value(s@),
        TomlValue::Integer(i) => Some(i as u64),
        _ => None,
    }
}

fn parse_hex(s: &String) -> (r: Option<u64>)
    ensures
        r == hex_value(s@),
{
    let c = str_chars(s.as_str());
    let n = c.len();
    let mut k: usize = 0;
    assert(c@.skip(0) =~= c@);
    while n - k >= 2 && c[k] == '0' && c[k + 1] == 'x'
        invariant
            k <= n == c.len(),
            trim_0x(c@) == trim_0x(c@.skip(k as int)),
        decreases n - k,
    {
        assert(c@.skip(k as int).skip(2) =~= c@.skip(k + 2));
        k = k + 2;
    }
    assert(trim_0x(c@.skip(k as int)) == c@.skip(k as int));
    assert(c@.subrange(k as int, n as int) =~= c@.skip(k as int));
    parse_uint(&c, k, n, 16, 0xFFFF_FFFF_FFFF_FFFF)
}

/// A hex string or an integer as u64.
pub fn toml_u64(v: &TomlValue) -> (r: Option<u64>)
    ensures
        r == toml_u64_spec(*v),
{
    match v {
        TomlValue::String(s) => parse_hex(s),
        TomlValue::Integer(i) => Some(*i as u64),
        _ => None,
    }
}

/// A hex string or an integer as u32 (the low 32 bits).
pub fn toml_u32(v: &TomlValue) -> (r: Option<u32>)
    ensures
        r == (match toml_u64_spec(*v) {
            Some(x) => Some(x as u32),
            None => None,
        }),
{
    match toml_u64(v) {
        Some(x) => Some(x as u32),
        None => None,
    }
}

/// A hex string or an integer as u16 (the low 16 bits).
pub fn toml_u16(v: &TomlValue) -> (r: Option<u16>)
    ensures
        r == (match toml_u64_spec(*v) {
            Some(x) => Some(x as u16),
            None => None,
        }),
{
    match toml_u64(v) {
        Some(x) => Some(x as u16),
        None => None,
    }
}

/// A hex string or an integer as u8 (the low 8 bits).
pub fn toml_u8(v: &TomlValue) -> (r: Option<u8>)
    ensures
        r == (match toml_u64_spec(*v) {
            Some(x) => Some(x as u8),
            None => None,
        }),
{
    match toml_u64(v) {
        Some(x) => Some(x as u8),
        None => None,
    }
}

/// The boolean a TOML value holds.
pub fn toml_bool(v: &TomlValue) -> (r: Option<bool>)
    ensures
        r == (match *v {
            TomlValue::Boolean(b) => Some(b),
            _ => None,
        }),
{
    match v {
        TomlValue::Boolean(b) => Some(*b),
        _ => None,
    }
}

// ── Arrays and tables ───────────────────────────────────────────────────────

/// Whether `t` is an array of the `width`-digit hex strings of `vals`.
pub open spec fn is_hex_array(t: TomlValue, vals: Seq<nat>, width: nat) -> bool {
    t matches TomlValue::Array(a) && a@.len() == vals.len() && forall|i: int|
        0 <= i < a@.len() ==> (#[trigger] a@[i] matches TomlValue::String(s) && s@ == hex_string(
            vals[i],
            width,
        ))
}

/// An array of the hex strings of `slice`.
pub fn u64_slice_to_toml(slice: &[u64]) -> (t: TomlValue)
    ensures
        is_hex_array(t, slice@.map_values(|x: u64| x as nat), 16),
{
    let mut a: Vec<TomlValue> = Vec::new();
    let mut i: usize = 0;
    while i < slice.len()
        invariant
            i <= slice@.len(),
            a@.len() == i,
            forall|k: int|
                0 <= k < i ==> (#[trigger] a@[k] matches TomlValue::String(s) && s@ == hex_string(
                    slice@[k] as nat,
                    16,
                )),
        decreases slice@.len() - i,
    {
        a.push(hex_u64(slice[i]));
        i = i + 1;
    }
    let t = TomlValue::Array(a);
    assert(is_hex_array(t, slice@.map_values(|x: u64| x as nat), 16));
    t
}

/// An array of the hex strings of `slice`.
pub fn u32_slice_to_toml(slice: &[u32]) -> (t: TomlValue)
    ensures
        is_hex_array(t, slice@.map_values(|x: u32| x as nat), 8),
{
    let mut a: Vec<TomlValue> = Vec::new();
    let mut i: usize = 0;
    while i < slice.len()
        invariant
            i <= slice@.len(),
            a@.len() == i,
            forall|k: int|
                0 <= k < i ==> (#[trigger] a@[k] matches TomlValue::String(s) && s@ == hex_string(
                    slice@[k] as nat,
                    8,
                )),
        decreases slice@.len() - i,
    {
        a.push(hex_u32(slice[i]));
        i = i + 1;
    }
    let t = TomlValue::Array(a);
    assert(is_hex_array(t, slice@.map_values(|x: u32| x as nat), 8));
    t
}

/// An array of the hex strings of `slice`.
pub fn u16_slice_to_toml(slice: &[u16]) -> (t: TomlValue)
    ensures
        is_hex_array(t, slice@.map_values(|x: u16| x as nat), 4),
{
    let mut a: Vec<TomlValue> = Vec::new();
    let mut i: usize = 0;
    while i < slice.len()
        invariant
            i <= slice@.len(),
            a@.len() == i,
            forall|k: int|
                0 <= k < i ==> (#[trigger] a@[k] matches TomlValue::String(s) && s@ == hex_string(
                    slice@[k] as nat,
                    4,
                )),
        decreases slice@.len() - i,
    {
        a.push(hex_u16(slice[i]));
        i = i + 1;
    }
    let t = TomlValue::Array(a);
    assert(is_hex_array(t, slice@.map_values(|x: u16| x as nat), 4));
    t
}

/// An array of the hex strings of `slice`.
pub fn u8_slice_to_toml(slice: &[u8]) -> (t: TomlValue)
    ensures
        is_hex_array(t, slice@.map_values(|x: u8| x as nat), 2),
{
    let mut a: Vec<TomlValue> = Vec::new();
    let mut i: usize = 0;
    while i < slice.len()
        invariant
            i <= slice@.len(),
            a@.len() == i,
            forall|k: int|
                0 <= k < i ==> (#[trigger] a@[k] matches TomlValue::String(s) && s@ == hex_string(
                    slice@[k] as nat,
                    2,
                )),
        decreases slice@.len() - i,
    {
        a.push(hex_u8(slice[i]));
        i = i + 1;
    }
    let t = TomlValue::Array(a);
    assert(is_hex_array(t, slice@.map_values(|x: u8| x as nat), 2));
    t
}

/// Element `i` of a TOML array as u64, if `v` is an array holding a number
/// there.
pub open spec fn array_u64(v: TomlValue, i: int) -> Option<u64> {
    match v {
        TomlValue::Array(a) => if 0 <= i < a@.len() {
            toml_u64_spec(a@[i])
        } else {
            None
        },
        _ => None,
    }
}

/// Loads `dst` from a TOML array: each entry the array holds a number for
/// is set to it (truncated to 64 bits); the rest keep their values.
pub fn load_u64_slice(v: &TomlValue, dst: &mut [u64])
    ensures
        final(dst)@.len() == old(dst)@.len(),
        forall|i: int|
            0 <= i < old(dst)@.len() ==> #[trigger] final(dst)@[i] == (match array_u64(*v, i) {
                Some(x) => x,
                None => old(dst)@[i],
            }),
{
    match v {
        TomlValue::Array(arr) => {
            let mut i: usize = 0;
            while i < arr.len() && i < dst.len()
                invariant
                    dst@.len() == old(dst)@.len(),
                    *v == TomlValue::Array(*arr),
                    forall|k: int|
                        0 <= k < i && k < dst@.len() ==> #[trigger] dst@[k] == (match array_u64(*v, k) {
                            Some(x) => x,
                            None => old(dst)@[k],
                        }),
                    forall|k: int| i <= k < dst@.len() ==> #[trigger] dst@[k] == old(dst)@[k],
                decreases arr.len() - i,
            {
                match toml_u64(&arr[i]) {
                    Some(x) => {
                        dst[i] = x;
                    },
                    None => {},
                }
                i = i + 1;
            }
        },
        _ => {},
    }
}

/// Loads `dst` from a TOML array: each entry the array holds a number for
/// is set to its low 32 bits; the rest keep their values.
pub fn load_u32_slice(v: &TomlValue, dst: &mut [u32])
    ensures
        final(dst)@.len() == old(dst)@.len(),
        forall|i: int|
            0 <= i < old(dst)@.len() ==> #[trigger] final(dst)@[i] == (match array_u64(*v, i) {
                Some(x) => x as u32,
                None => old(dst)@[i],
            }),
{
    match v {
        TomlValue::Array(arr) => {
            let mut i: usize = 0;
            while i < arr.len() && i < dst.len()
                invariant
                    dst@.len() == old(dst)@.len(),
                    *v == TomlValue::Array(*arr),
                    forall|k: int|
                        0 <= k < i && k < dst@.len() ==> #[trigger] dst@[k] == (match array_u64(*v, k) {
                            Some(x) => x as u32,
                            None => old(dst)@[k],
                        }),
                    forall|k: int| i <= k < dst@.len() ==> #[trigger] dst@[k] == old(dst)@[k],
                decreases arr.len() - i,
            {
                match toml_u32(&arr[i]) {
                    Some(x) => {
                        dst[i] = x;
                    },
                    None => {},
                }
                i = i + 1;
            }
        },
        _ => {},
    }
}

/// Loads `dst` from a TOML array: each entry the array holds a number for
/// is set to its low 16 bits; the rest keep their values.
pub fn load_u16_slice(v: &TomlValue, dst: &mut [u16])
    ensures
        final(dst)@.len() == old(dst)@.len(),
        forall|i: int|
            0 <= i < old(dst)@.len() ==> #[trigger] final(dst)@[i] == (match array_u64(*v, i) {
                Some(x) => x as u16,
                None => old(dst)@[i],
            }),
{
    match v {
        TomlValue::Array(arr) => {
            let mut i: usize = 0;
            while i < arr.len() && i < dst.len()
                invariant
                    dst@.len() == old(dst)@.len(),
                    *v == TomlValue::Array(*arr),
                    forall|k: int|
                        0 <= k < i && k < dst@.len() ==> #[trigger] dst@[k] == (match array_u64(*v, k) {
                            Some(x) => x as u16,
                            None => old(dst)@[k],
                        }),
                    forall|k: int| i <= k < dst@.len() ==> #[trigger] dst@[k] == old(dst)@[k],
                decreases arr.len() - i,
            {
                match toml_u16(&arr[i]) {
                    Some(x) => {
                        dst[i] = x;
                    },
                    None => {},
                }
                i = i + 1;
            }
        },
        _ => {},
    }
}

/// Loads `dst` from a TOML array: each entry the array holds a number for
/// is set to its low 8 bits; the rest keep their values.
pub fn load_u8_slice(v: &TomlValue, dst: &mut [u8])
    ensures
        final(dst)@.len() == old(dst)@.len(),
        forall|i: int|
            0 <= i < old(dst)@.len() ==> #[trigger] final(dst)@[i] == (match array_u64(*v, i) {
                Some(x) => x as u8,
                None => old(dst)@[i],
            }),
{
    match v {
        TomlValue::Array(arr) => {
            let mut i: usize = 0;
            while i < arr.len() && i < dst.len()
                invariant
                    dst@.len() == old(dst)@.len(),
                    *v == TomlValue::Array(*arr),
                    forall|k: int|
                        0 <= k < i && k < dst@.len() ==> #[trigger] dst@[k] == (match array_u64(*v, k) {
                            Some(x) => x as u8,
                            None => old(dst)@[k],
                        }),
                    forall|k: int| i <= k < dst@.len() ==> #[trigger] dst@[k] == old(dst)@[k],
                decreases arr.len() - i,
            {
                match toml_u8(&arr[i]) {
                    Some(x) => {
                        dst[i] = x;
                    },
                    None => {},
                }
                i = i + 1;
            }
        },
        _ => {},
    }
}

/// The value of the first entry named `key`.
pub open spec fn first_field(entries: Seq<(String, TomlValue)>, key: Seq<char>) -> Option<TomlValue>
    decreases entries.len(),
{
    if entries.len() == 0 {
        None
    } else if entries[0].0@ == key {
        Some(entries[0].1)
    } else {
        first_field(entries.skip(1), key)
    }
}

proof fn lemma_first_field_skip(s: Seq<(String, TomlValue)>, key: Seq<char>, i: int)
    requires
        0 <= i <= s.len(),
        forall|k: int| 0 <= k < i ==> (#[trigger] s[k]).0@ != key,
    ensures
        first_field(s, key) == first_field(s.skip(i), key),
    decreases i,
{
    if i > 0 {
        lemma_first_field_skip(s.skip(1), key, i - 1);
        assert(s.skip(1).skip(i - 1) =~= s.skip(i));
    } else {
        assert(s.skip(0) =~= s);
    }
}

/// The value stored under `key` in a TOML table (the first such entry);
/// `None` for a missing key or a value that is no table.
pub fn get_field<'a>(table: &'a TomlValue, key: &str) -> (r: Option<&'a TomlValue>)
    ensures
        match *table {
            TomlValue::Table(entries) => match r {
                Some(x) => first_field(entries@, key@) == Some(*x),
                None => first_field(entries@, key@) is None,
            },
            _ => r is None,
        },
{
    match table {
        TomlValue::Table(entries) => {
            let mut i: usize = 0;
            while i < entries.len()
                invariant
                    i <= entries@.len(),
                    *table == TomlValue::Table(*entries),
                    forall|j: int| 0 <= j < i ==> (#[trigger] entries@[j]).0@ != key@,
                decreases entries@.len() - i,
            {
                let k = String::from_str(key);
                let e = &entries[i];
                if e.0 == k {
                    proof {
                        lemma_first_field_skip(entries@, key@, i as int);
                        assert(entries@.skip(i as int)[0] == entries@[i as int]);
                        assert(first_field(entries@.skip(i as int), key@) == Some(e.1));
                    }
                    return Some(&e.1);
                }
                i = i + 1;
            }
            proof {
                lemma_first_field_skip(entries@, key@, i as int);
                assert(entries@.skip(i as int).len() == 0);
            }
            None
        },
        _ => None,
    }
}

// ── Round trips ─────────────────────────────────────────────────────────────

pub open spec fn pow16(w: nat) -> nat
    decreases w,
{
    if w == 0 {
        1
    } else {
        16 * pow16((w - 1) as nat)
    }
}

proof fn lemma_hex_text_value(v: nat, w: nat)
    ensures
        hex_text(v, w).len() == w,
        all_hex(hex_text(v, w)),
        digits_value(hex_text(v, w), 16) == v % pow16(w),
        w >= 1 ==> hex_text(v, w)[0] != '+',
        forall|i: int| 0 <= i < w ==> #[trigger] hex_text(v, w)[i] != 'x',
    decreases w,
{
    if w > 0 {
        let t = hex_text(v, w);
        let p = hex_text(v / 16, (w - 1) as nat);
        lemma_hex_text_value(v / 16, (w - 1) as nat);
        assert(t.drop_last() =~= p);
        assert forall|i: int| 0 <= i < t.len() implies #[trigger] is_digit_in(t[i], 16) by {
            if i < p.len() {
                assert(t[i] == p[i]);
            }
        }
        assert forall|i: int| 0 <= i < w implies #[trigger] t[i] != 'x' by {
            if i < p.len() {
                assert(t[i] == p[i]);
            }
        }
        let pw = pow16((w - 1) as nat);
        assert(pw > 0) by {
            lemma_pow16_pos((w - 1) as nat);
        }
        vstd::arithmetic::div_mod::lemma_mod_breakdown(v as int, 16, pw as int);
        assert(16 * pw == pw * 16) by (nonlinear_arith);
        assert(((v / 16) % pw) * 16 == 16 * ((v / 16) % pw)) by (nonlinear_arith);
    }
}

proof fn lemma_pow16_pos(w: nat)
    ensures
        pow16(w) > 0,
    decreases w,
{
    if w > 0 {
        lemma_pow16_pos((w - 1) as nat);
    }
}

pub open spec fn all_hex(s: Seq<char>) -> bool {
    forall|i: int| 0 <= i < s.len() ==> #[trigger] is_digit_in(s[i], 16)
}

/// Reading back the hex string written for a value of `width` hex digits
/// gives the value.
pub proof fn lemma_hex_round_trip(v: nat, width: nat)
    requires
        1 <= width <= 16,
        v < pow16(width),
    ensures
        hex_value(hex_string(v, width)) == Some(v as u64),
{
    reveal_strlit("0x");
    let t = hex_text(v, width);
    lemma_hex_text_value(v, width);
    let s = hex_string(v, width);
    assert(s.skip(2) =~= t);
    if t.len() >= 2 {
        assert(t[1] != 'x');
    }
    assert(trim_0x(t) == t);
    lemma_pow16_values();
    lemma_pow16_mono(width, 16);
    assert(v % pow16(width) == v) by {
        vstd::arithmetic::div_mod::lemma_small_mod(v, pow16(width));
    }
}

proof fn lemma_pow16_values()
    ensures
        pow16(2) == 0x100,
        pow16(4) == 0x1_0000,
        pow16(8) == 0x1_0000_0000,
        pow16(16) == 0x1_0000_0000_0000_0000,
{
    reveal_with_fuel(pow16, 17);
}

proof fn lemma_pow16_mono(a: nat, b: nat)
    requires
        a <= b,
    ensures
        pow16(a) <= pow16(b),
    decreases b - a,
{
    if a < b {
        lemma_pow16_mono(a, (b - 1) as nat);
        lemma_pow16_pos((b - 1) as nat);
    }
}

/// A value written with `hex_u64` (or `hex_u32`, `hex_u16`, `hex_u8`) reads
/// back as the same value.
pub proof fn lemma_toml_hex_round_trip(v64: u64, v32: u32, v16: u16, v8: u8)
    ensures
        hex_value(hex_string(v64 as nat, 16)) == Some(v64),
        hex_value(hex_string(v32 as nat, 8)) == Some(v32 as u64),
        hex_value(hex_string(v16 as nat, 4)) == Some(v16 as u64),
        hex_value(hex_string(v8 as nat, 2)) == Some(v8 as u64),
{
    lemma_pow16_values();
    lemma_hex_round_trip(v64 as nat, 16);
    lemma_hex_round_trip(v32 as nat, 8);
    lemma_hex_round_trip(v16 as nat, 4);
    lemma_hex_round_trip(v8 as nat, 2);
}

/// The values that fit in `width` hex digits are those below this.
pub open spec fn hex_limit(width: nat) -> nat {
    if width == 2 {
        0x100
    } else if width == 4 {
        0x1_0000
    } else if width == 8 {
        0x1_0000_0000
    } else {
        0x1_0000_0000_0000_0000
    }
}

/// An array written by `u64_slice_to_toml` (or the `u32`, `u16`, `u8`
/// forms) reads back, entry by entry, as the values written: loading it into
/// a slice of the same length gives back the saved slice.
pub proof fn lemma_slice_round_trip(t: TomlValue, vals: Seq<nat>, width: nat)
    requires
        width == 2 || width == 4 || width == 8 || width == 16,
        forall|i: int| 0 <= i < vals.len() ==> #[trigger] vals[i] < hex_limit(width),
        is_hex_array(t, vals, width),
    ensures
        forall|i: int| 0 <= i < vals.len() ==> #[trigger] array_u64(t, i) == Some(vals[i] as u64),
{
    lemma_pow16_values();
    assert forall|i: int| 0 <= i < vals.len() implies #[trigger] array_u64(t, i) == Some(
        vals[i] as u64,
    ) by {
        lemma_hex_round_trip(vals[i], width);
    }
}

} // verus!

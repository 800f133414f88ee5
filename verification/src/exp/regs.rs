//! Register names of the debugger's expression language.
use vstd::prelude::*;
use crate::mips::{cp0_name, cp0_reg_name, cp0_stored_value, MipsCore};
use crate::text::{
    chars_eq_str, parse_uint, parse_uint_spec, str_chars, lowercase_text, to_lowercase,
};

verus! {

/// A register that an expression can name.
#[derive(Debug, Clone, Copy, PartialEq, Eq, Structural)]
pub enum RegTarget {
    Pc,
    Hi,
    Lo,
    Gpr(u32),
    Cp0(u32),
    Fpr(u32),
}

impl RegTarget {
    /// Register numbers are below 32.
    pub open spec fn valid(self) -> bool {
        match self {
            RegTarget::Gpr(i) => i < 32,
            RegTarget::Cp0(i) => i < 32,
            RegTarget::Fpr(i) => i < 32,
            _ => true,
        }
    }
}

/// The conventional name of general register `i` (`zero`, `at`, ..., `ra`).
pub open spec fn gpr_alias_name(i: int) -> Seq<char> {
    if i == 0 { "zero"@ } else if i == 1 { "at"@ } else if i == 2 { "v0"@ } else if i == 3 { "v1"@ }
    else if i == 4 { "a0"@ } else if i == 5 { "a1"@ } else if i == 6 { "a2"@ } else if i == 7 { "a3"@ }
    else if i == 8 { "t0"@ } else if i == 9 { "t1"@ } else if i == 10 { "t2"@ } else if i == 11 { "t3"@ }
    else if i == 12 { "t4"@ } else if i == 13 { "t5"@ } else if i == 14 { "t6"@ } else if i == 15 { "t7"@ }
    else if i == 16 { "s0"@ } else if i == 17 { "s1"@ } else if i == 18 { "s2"@ } else if i == 19 { "s3"@ }
    else if i == 20 { "s4"@ } else if i == 21 { "s5"@ } else if i == 22 { "s6"@ } else if i == 23 { "s7"@ }
    else if i == 24 { "t8"@ } else if i == 25 { "t9"@ } else if i == 26 { "k0"@ } else if i == 27 { "k1"@ }
    else if i == 28 { "gp"@ } else if i == 29 { "sp"@ } else if i == 30 { "fp"@ } else { "ra"@ }
}

fn gpr_alias(i: u32) -> (r: &'static str)
    requires
        i < 32,
    ensures
        r@ == gpr_alias_name(i as int),
{
    match i {
        0 => "zero", 1 => "at", 2 => "v0", 3 => "v1",
        4 => "a0", 5 => "a1", 6 => "a2", 7 => "a3",
        8 => "t0", 9 => "t1", 10 => "t2", 11 => "t3",
        12 => "t4", 13 => "t5", 14 => "t6", 15 => "t7",
        16 => "s0", 17 => "s1", 18 => "s2", 19 => "s3",
        20 => "s4", 21 => "s5", 22 => "s6", 23 => "s7",
        24 => "t8", 25 => "t9", 26 => "k0", 27 => "k1",
        28 => "gp", 29 => "sp", 30 => "fp", _ => "ra",
    }
}

/// The first general register at or after `i` whose conventional name is
/// `name`.
pub open spec fn gpr_alias_from(name: Seq<char>, i: int) -> Option<u32>
    decreases 32 - i,
{
    if i < 0 || i >= 32 {
        None
    } else if gpr_alias_name(i) == name {
        Some(i as u32)
    } else {
        gpr_alias_from(name, i + 1)
    }
}

/// The first CP0 register at or after `i` whose lower-cased name is `lc`.
pub open spec fn cp0_lookup_from(lc: Seq<char>, i: int) -> Option<u32>
    decreases 32 - i,
{
    if i < 0 || i >= 32 {
        None
    } else if lowercase_text(cp0_name(i)) == lc {
        Some(i as u32)
    } else {
        cp0_lookup_from(lc, i + 1)
    }
}

/// `s` with every leading `c` removed (`trim_start_matches(c)`).
pub open spec fn trim_leading(s: Seq<char>, c: char) -> Seq<char>
    decreases s.len(),
{
    if s.len() > 0 && s[0] == c {
        trim_leading(s.skip(1), c)
    } else {
        s
    }
}

pub open spec fn starts_with_char(s: Seq<char>, c: char) -> bool {
    s.len() > 0 && s[0] == c
}

pub open spec fn has_prefix(s: Seq<char>, p: Seq<char>) -> bool {
    s.len() >= p.len() && s.take(p.len() as int) == p
}

/// A register number below 32 spelled in decimal, as `str::parse::<u32>`
/// reads it.
pub open spec fn small_index(s: Seq<char>) -> Option<u32> {
    match parse_uint_spec(s, 10, u32::MAX as nat) {
        Some(v) => if v < 32 {
            Some(v as u32)
        } else {
            None
        },
        None => None,
    }
}

/// What `parse_reg_target` makes of a word.
pub open spec fn reg_target_of(a: Seq<char>) -> Option<RegTarget> {
    if a == "pc"@ {
        Some(RegTarget::Pc)
    } else if a == "hi"@ {
        Some(RegTarget::Hi)
    } else if a == "lo"@ {
        Some(RegTarget::Lo)
    } else {
        let name = trim_leading(a, '$');
        if gpr_alias_from(name, 0) is Some {
            Some(RegTarget::Gpr(gpr_alias_from(name, 0).unwrap()))
        } else if (starts_with_char(a, '$') || starts_with_char(a, 'r')) && small_index(
            trim_leading(name, 'r'),
        ) is Some {
            Some(RegTarget::Gpr(small_index(trim_leading(name, 'r')).unwrap()))
        } else if has_prefix(a, "c0_"@) {
            let rest = a.skip(3);
            if small_index(rest) is Some {
                Some(RegTarget::Cp0(small_index(rest).unwrap()))
            } else if cp0_lookup_from(lowercase_text(rest), 0) is Some {
                Some(RegTarget::Cp0(cp0_lookup_from(lowercase_text(rest), 0).unwrap()))
            } else {
                None
            }
        } else if starts_with_char(a, 'f') && small_index(a.skip(1)) is Some {
            Some(RegTarget::Fpr(small_index(a.skip(1)).unwrap()))
        } else {
            None
        }
    }
}

proof fn lemma_trim_leading(s: Seq<char>, c: char, k: int)
    requires
        0 <= k <= s.len(),
        forall|j: int| 0 <= j < k ==> s[j] == c,
        k == s.len() || s[k] != c,
    ensures
        trim_leading(s, c) == s.skip(k),
    decreases k,
{
    if k == 0 {
        assert(s.skip(0) =~= s);
    } else {
        lemma_trim_leading(s.skip(1), c, k - 1);
        assert(s.skip(1).skip(k - 1) =~= s.skip(k));
    }
}

/// Index of the first character at or after `from` in `v[..end]` that is
/// not `c`.
fn skip_char(v: &Vec<char>, from: usize, end: usize, c: char) -> (k: usize)
    requires
        from <= end <= v.len(),
    ensures
        from <= k <= end,
        forall|j: int| from <= j < k ==> v@[j] == c,
        k == end || v@[k as int] != c,
{
    let mut k = from;
    while k < end && v[k] == c
        invariant
            from <= k <= end <= v.len(),
            forall|j: int| from <= j < k ==> v@[j] == c,
        decreases end - k,
    {
        k = k + 1;
    }
    k
}

fn lookup_gpr_alias(a: &Vec<char>, s: usize) -> (r: Option<u32>)
    requires
        s <= a.len(),
    ensures
        r == gpr_alias_from(a@.skip(s as int), 0),
        r matches Some(i) ==> i < 32,
{
    let n = a.len();
    let ghost name = a@.skip(s as int);
    assert(a@.subrange(s as int, n as int) =~= name);
    let mut i: u32 = 0;
    while i < 32
        invariant
            i <= 32,
            s <= n == a.len(),
            name == a@.skip(s as int),
            a@.subrange(s as int, n as int) == name,
            gpr_alias_from(name, 0) == gpr_alias_from(name, i as int),
        decreases 32 - i,
    {
        if chars_eq_str(a, s, n, gpr_alias(i)) {
            return Some(i);
        }
        i = i + 1;
    }
    None
}

fn lookup_cp0_name(rest: &str) -> (r: Option<u32>)
    ensures
        r == cp0_lookup_from(lowercase_text(rest@), 0),
        r matches Some(i) ==> i < 32,
{
    let rest_lc = to_lowercase(rest);
    assert(rest_lc@ == lowercase_text(rest@));
    let mut j: u32 = 0;
    while j < 32
        invariant
            j <= 32,
            rest_lc@ == lowercase_text(rest@),
            cp0_lookup_from(lowercase_text(rest@), 0) == cp0_lookup_from(
                lowercase_text(rest@),
                j as int,
            ),
        decreases 32 - j,
    {
        let name = cp0_reg_name(j);
        let nm = to_lowercase(name);
        assert(nm@ == lowercase_text(name@));
        if nm == rest_lc {
            return Some(j);
        }
        j = j + 1;
    }
    None
}

fn small_index_at(a: &Vec<char>, from: usize, to: usize) -> (r: Option<u32>)
    requires
        from <= to <= a.len(),
    ensures
        r == small_index(a@.subrange(from as int, to as int)),
{
    match parse_uint(a, from, to, 10, 0xFFFF_FFFF) {
        Some(idx) => if idx < 32 {
            Some(idx as u32)
        } else {
            None
        },
        None => None,
    }
}

/// Parses a register name: `pc`, `hi`, `lo`; a general register by its
/// conventional name (`sp`, `$t0`), as `$N` or `rN`; a CP0 register as
/// `c0_N` or `c0_<name>` (any case); a floating-point register as `fN`.
pub fn parse_reg_target(arg: &str) -> (r: Option<RegTarget>)
    ensures
        r == reg_target_of(arg@),
        r matches Some(t) ==> t.valid(),
{
    let a = str_chars(arg);
    let n = a.len();
    assert(a@.subrange(0, n as int) =~= a@);
    if chars_eq_str(&a, 0, n, "pc") {
        return Some(RegTarget::Pc);
    }
    if chars_eq_str(&a, 0, n, "hi") {
        return Some(RegTarget::Hi);
    }
    if chars_eq_str(&a, 0, n, "lo") {
        return Some(RegTarget::Lo);
    }
    // GPR conventional names, after any leading '$'
    let s = skip_char(&a, 0, n, '$');
    proof {
        lemma_trim_leading(a@, '$', s as int);
    }
    let ghost name = a@.skip(s as int);
    match lookup_gpr_alias(&a, s) {
        Some(i) => {
            return Some(RegTarget::Gpr(i));
        },
        None => {},
    }
    // Numeric GPR: $N or rN
    if n > 0 && (a[0] == '$' || a[0] == 'r') {
        let t = skip_char(&a, s, n, 'r');
        proof {
            lemma_trim_leading(name, 'r', t - s);
            assert(name.skip(t - s) =~= a@.subrange(t as int, n as int));
        }
        match small_index_at(&a, t, n) {
            Some(idx) => {
                return Some(RegTarget::Gpr(idx));
            },
            None => {},
        }
    }
    // CP0: c0_N or c0_Name
    if n >= 3 && chars_eq_str(&a, 0, 3, "c0_") {
        assert(a@.take(3) =~= a@.subrange(0, 3));
        let ghost rest = a@.skip(3);
        assert(a@.subrange(3, n as int) =~= rest);
        match small_index_at(&a, 3, n) {
            Some(idx) => {
                return Some(RegTarget::Cp0(idx));
            },
            None => {},
        }
        let rest_str = arg.substring_char(3, n);
        assert(rest_str@ =~= rest);
        return match lookup_cp0_name(rest_str) {
            Some(j) => Some(RegTarget::Cp0(j)),
            None => None,
        };
    }
    proof {
        reveal_strlit("c0_");
        if n >= 3 {
            assert(a@.take(3) =~= a@.subrange(0, 3));
        }
    }
    // FPU: fN
    if n > 0 && a[0] == 'f' {
        assert(a@.subrange(1, n as int) =~= a@.skip(1));
        match small_index_at(&a, 1, n) {
            Some(idx) => {
                return Some(RegTarget::Fpr(idx));
            },
            None => {},
        }
    }
    None
}

/// Reads the register `target` names.
pub fn read_reg_target(target: &RegTarget, core: &MipsCore) -> (v: u64)
    requires
        target.valid(),
    ensures
        v == reg_value(*target, *core),
{
    match target {
        RegTarget::Pc => core.pc,
        RegTarget::Hi => core.hi,
        RegTarget::Lo => core.lo,
        RegTarget::Gpr(i) => core.read_gpr(*i),
        RegTarget::Cp0(i) => core.read_cp0_debug(*i),
        RegTarget::Fpr(i) => core.fpr[*i as usize],
    }
}

/// The value of register `t` in `core`.
pub open spec fn reg_value(t: RegTarget, core: MipsCore) -> u64 {
    match t {
        RegTarget::Pc => core.pc,
        RegTarget::Hi => core.hi,
        RegTarget::Lo => core.lo,
        RegTarget::Gpr(i) => core.gpr_value(i as int),
        RegTarget::Cp0(i) => core.cp0[i as int],
        RegTarget::Fpr(i) => core.fpr[i as int],
    }
}

/// Writes `val` to the register `target` names.
pub fn write_reg_target(target: &RegTarget, core: &mut MipsCore, val: u64)
    requires
        target.valid(),
        old(core).wf(),
    ensures
        final(core).wf(),
        final(core).pc == (if *target == RegTarget::Pc {
            val
        } else {
            old(core).pc
        }),
        final(core).hi == (if *target == RegTarget::Hi {
            val
        } else {
            old(core).hi
        }),
        final(core).lo == (if *target == RegTarget::Lo {
            val
        } else {
            old(core).lo
        }),
        final(core).gpr@ == (match *target {
            RegTarget::Gpr(i) => if i == 0 {
                old(core).gpr@
            } else {
                old(core).gpr@.update(i as int, val)
            },
            _ => old(core).gpr@,
        }),
        final(core).cp0@ == (match *target {
            RegTarget::Cp0(i) => old(core).cp0@.update(i as int, cp0_stored_value(i as int, val)),
            _ => old(core).cp0@,
        }),
        final(core).fpr@ == (match *target {
            RegTarget::Fpr(i) => old(core).fpr@.update(i as int, val),
            _ => old(core).fpr@,
        }),
{
    match target {
        RegTarget::Pc => core.pc = val,
        RegTarget::Hi => core.hi = val,
        RegTarget::Lo => core.lo = val,
        RegTarget::Gpr(i) => core.write_gpr(*i, val),
        RegTarget::Cp0(i) => core.write_cp0(*i, val),
        RegTarget::Fpr(i) => core.fpr[*i as usize] = val,
    }
}


/// The general register names of the MIPS calling convention, in register
/// order: `zero`, `at`, `v0`-`v1`, `a0`-`a3`, `t0`-`t7`, `s0`-`s7`, `t8`-`t9`,
/// `k0`-`k1`, `gp`, `sp`, `fp`, `ra` name registers 0 to 31.
pub proof fn lemma_abi_register_names()
    ensures
        reg_target_of("zero"@) == Some(RegTarget::Gpr(0)),
        reg_target_of("at"@) == Some(RegTarget::Gpr(1)),
        reg_target_of("v0"@) == Some(RegTarget::Gpr(2)),
        reg_target_of("v1"@) == Some(RegTarget::Gpr(3)),
        reg_target_of("a0"@) == Some(RegTarget::Gpr(4)),
        reg_target_of("a1"@) == Some(RegTarget::Gpr(5)),
        reg_target_of("a2"@) == Some(RegTarget::Gpr(6)),
        reg_target_of("a3"@) == Some(RegTarget::Gpr(7)),
        reg_target_of("t0"@) == Some(RegTarget::Gpr(8)),
        reg_target_of("t1"@) == Some(RegTarget::Gpr(9)),
        reg_target_of("t2"@) == Some(RegTarget::Gpr(10)),
        reg_target_of("t3"@) == Some(RegTarget::Gpr(11)),
        reg_target_of("t4"@) == Some(RegTarget::Gpr(12)),
        reg_target_of("t5"@) == Some(RegTarget::Gpr(13)),
        reg_target_of("t6"@) == Some(RegTarget::Gpr(14)),
        reg_target_of("t7"@) == Some(RegTarget::Gpr(15)),
        reg_target_of("s0"@) == Some(RegTarget::Gpr(16)),
        reg_target_of("s1"@) == Some(RegTarget::Gpr(17)),
        reg_target_of("s2"@) == Some(RegTarget::Gpr(18)),
        reg_target_of("s3"@) == Some(RegTarget::Gpr(19)),
        reg_target_of("s4"@) == Some(RegTarget::Gpr(20)),
        reg_target_of("s5"@) == Some(RegTarget::Gpr(21)),
        reg_target_of("s6"@) == Some(RegTarget::Gpr(22)),
        reg_target_of("s7"@) == Some(RegTarget::Gpr(23)),
        reg_target_of("t8"@) == Some(RegTarget::Gpr(24)),
        reg_target_of("t9"@) == Some(RegTarget::Gpr(25)),
        reg_target_of("k0"@) == Some(RegTarget::Gpr(26)),
        reg_target_of("k1"@) == Some(RegTarget::Gpr(27)),
        reg_target_of("gp"@) == Some(RegTarget::Gpr(28)),
        reg_target_of("sp"@) == Some(RegTarget::Gpr(29)),
        reg_target_of("fp"@) == Some(RegTarget::Gpr(30)),
        reg_target_of("ra"@) == Some(RegTarget::Gpr(31)),
{
    lemma_abi_names_0();
    lemma_abi_names_1();
    lemma_abi_names_2();
    lemma_abi_names_3();
    lemma_abi_names_4();
    lemma_abi_names_5();
    lemma_abi_names_6();
    lemma_abi_names_7();
}

#[verifier::rlimit(60)]
proof fn lemma_abi_names_0()
    ensures
        reg_target_of("zero"@) == Some(RegTarget::Gpr(0)),
        reg_target_of("at"@) == Some(RegTarget::Gpr(1)),
        reg_target_of("v0"@) == Some(RegTarget::Gpr(2)),
        reg_target_of("v1"@) == Some(RegTarget::Gpr(3)),
{
    reveal_strlit("zero");
    reveal_strlit("at");
    reveal_strlit("v0");
    reveal_strlit("v1");
    reveal_strlit("a0");
    reveal_strlit("a1");
    reveal_strlit("a2");
    reveal_strlit("a3");
    reveal_strlit("t0");
    reveal_strlit("t1");
    reveal_strlit("t2");
    reveal_strlit("t3");
    reveal_strlit("t4");
    reveal_strlit("t5");
    reveal_strlit("t6");
    reveal_strlit("t7");
    reveal_strlit("s0");
    reveal_strlit("s1");
    reveal_strlit("s2");
    reveal_strlit("s3");
    reveal_strlit("s4");
    reveal_strlit("s5");
    reveal_strlit("s6");
    reveal_strlit("s7");
    reveal_strlit("t8");
    reveal_strlit("t9");
    reveal_strlit("k0");
    reveal_strlit("k1");
    reveal_strlit("gp");
    reveal_strlit("sp");
    reveal_strlit("fp");
    reveal_strlit("ra");
    reveal_strlit("pc");
    reveal_strlit("hi");
    reveal_strlit("lo");
    lemma_abi_name(0, "zero"@);
    lemma_abi_name(1, "at"@);
    lemma_abi_name(2, "v0"@);
    lemma_abi_name(3, "v1"@);
}

#[verifier::rlimit(60)]
proof fn lemma_abi_names_1()
    ensures
        reg_target_of("a0"@) == Some(RegTarget::Gpr(4)),
        reg_target_of("a1"@) == Some(RegTarget::Gpr(5)),
        reg_target_of("a2"@) == Some(RegTarget::Gpr(6)),
        reg_target_of("a3"@) == Some(RegTarget::Gpr(7)),
{
    reveal_strlit("zero");
    reveal_strlit("at");
    reveal_strlit("v0");
    reveal_strlit("v1");
    reveal_strlit("a0");
    reveal_strlit("a1");
    reveal_strlit("a2");
    reveal_strlit("a3");
    reveal_strlit("t0");
    reveal_strlit("t1");
    reveal_strlit("t2");
    reveal_strlit("t3");
    reveal_strlit("t4");
    reveal_strlit("t5");
    reveal_strlit("t6");
    reveal_strlit("t7");
    reveal_strlit("s0");
    reveal_strlit("s1");
    reveal_strlit("s2");
    reveal_strlit("s3");
    reveal_strlit("s4");
    reveal_strlit("s5");
    reveal_strlit("s6");
    reveal_strlit("s7");
    reveal_strlit("t8");
    reveal_strlit("t9");
    reveal_strlit("k0");
    reveal_strlit("k1");
    reveal_strlit("gp");
    reveal_strlit("sp");
    reveal_strlit("fp");
    reveal_strlit("ra");
    reveal_strlit("pc");
    reveal_strlit("hi");
    reveal_strlit("lo");
    lemma_abi_name(4, "a0"@);
    lemma_abi_name(5, "a1"@);
    lemma_abi_name(6, "a2"@);
    lemma_abi_name(7, "a3"@);
}

#[verifier::rlimit(60)]
proof fn lemma_abi_names_2()
    ensures
        reg_target_of("t0"@) == Some(RegTarget::Gpr(8)),
        reg_target_of("t1"@) == Some(RegTarget::Gpr(9)),
        reg_target_of("t2"@) == Some(RegTarget::Gpr(10)),
        reg_target_of("t3"@) == Some(RegTarget::Gpr(11)),
{
    reveal_strlit("zero");
    reveal_strlit("at");
    reveal_strlit("v0");
    reveal_strlit("v1");
    reveal_strlit("a0");
    reveal_strlit("a1");
    reveal_strlit("a2");
    reveal_strlit("a3");
    reveal_strlit("t0");
    reveal_strlit("t1");
    reveal_strlit("t2");
    reveal_strlit("t3");
    reveal_strlit("t4");
    reveal_strlit("t5");
    reveal_strlit("t6");
    reveal_strlit("t7");
    reveal_strlit("s0");
    reveal_strlit("s1");
    reveal_strlit("s2");
    reveal_strlit("s3");
    reveal_strlit("s4");
    reveal_strlit("s5");
    reveal_strlit("s6");
    reveal_strlit("s7");
    reveal_strlit("t8");
    reveal_strlit("t9");
    reveal_strlit("k0");
    reveal_strlit("k1");
    reveal_strlit("gp");
    reveal_strlit("sp");
    reveal_strlit("fp");
    reveal_strlit("ra");
    reveal_strlit("pc");
    reveal_strlit("hi");
    reveal_strlit("lo");
    lemma_abi_name(8, "t0"@);
    lemma_abi_name(9, "t1"@);
    lemma_abi_name(10, "t2"@);
    lemma_abi_name(11, "t3"@);
}

#[verifier::rlimit(60)]
proof fn lemma_abi_names_3()
    ensures
        reg_target_of("t4"@) == Some(RegTarget::Gpr(12)),
        reg_target_of("t5"@) == Some(RegTarget::Gpr(13)),
        reg_target_of("t6"@) == Some(RegTarget::Gpr(14)),
        reg_target_of("t7"@) == Some(RegTarget::Gpr(15)),
{
    reveal_strlit("zero");
    reveal_strlit("at");
    reveal_strlit("v0");
    reveal_strlit("v1");
    reveal_strlit("a0");
    reveal_strlit("a1");
    reveal_strlit("a2");
    reveal_strlit("a3");
    reveal_strlit("t0");
    reveal_strlit("t1");
    reveal_strlit("t2");
    reveal_strlit("t3");
    reveal_strlit("t4");
    reveal_strlit("t5");
    reveal_strlit("t6");
    reveal_strlit("t7");
    reveal_strlit("s0");
    reveal_strlit("s1");
    reveal_strlit("s2");
    reveal_strlit("s3");
    reveal_strlit("s4");
    reveal_strlit("s5");
    reveal_strlit("s6");
    reveal_strlit("s7");
    reveal_strlit("t8");
    reveal_strlit("t9");
    reveal_strlit("k0");
    reveal_strlit("k1");
    reveal_strlit("gp");
    reveal_strlit("sp");
    reveal_strlit("fp");
    reveal_strlit("ra");
    reveal_strlit("pc");
    reveal_strlit("hi");
    reveal_strlit("lo");
    lemma_abi_name(12, "t4"@);
    lemma_abi_name(13, "t5"@);
    lemma_abi_name(14, "t6"@);
    lemma_abi_name(15, "t7"@);
}

#[verifier::rlimit(60)]
proof fn lemma_abi_names_4()
    ensures
        reg_target_of("s0"@) == Some(RegTarget::Gpr(16)),
        reg_target_of("s1"@) == Some(RegTarget::Gpr(17)),
        reg_target_of("s2"@) == Some(RegTarget::Gpr(18)),
        reg_target_of("s3"@) == Some(RegTarget::Gpr(19)),
{
    reveal_strlit("zero");
    reveal_strlit("at");
    reveal_strlit("v0");
    reveal_strlit("v1");
    reveal_strlit("a0");
    reveal_strlit("a1");
    reveal_strlit("a2");
    reveal_strlit("a3");
    reveal_strlit("t0");
    reveal_strlit("t1");
    reveal_strlit("t2");
    reveal_strlit("t3");
    reveal_strlit("t4");
    reveal_strlit("t5");
    reveal_strlit("t6");
    reveal_strlit("t7");
    reveal_strlit("s0");
    reveal_strlit("s1");
    reveal_strlit("s2");
    reveal_strlit("s3");
    reveal_strlit("s4");
    reveal_strlit("s5");
    reveal_strlit("s6");
    reveal_strlit("s7");
    reveal_strlit("t8");
    reveal_strlit("t9");
    reveal_strlit("k0");
    reveal_strlit("k1");
    reveal_strlit("gp");
    reveal_strlit("sp");
    reveal_strlit("fp");
    reveal_strlit("ra");
    reveal_strlit("pc");
    reveal_strlit("hi");
    reveal_strlit("lo");
    lemma_abi_name(16, "s0"@);
    lemma_abi_name(17, "s1"@);
    lemma_abi_name(18, "s2"@);
    lemma_abi_name(19, "s3"@);
}

#[verifier::rlimit(60)]
proof fn lemma_abi_names_5()
    ensures
        reg_target_of("s4"@) == Some(RegTarget::Gpr(20)),
        reg_target_of("s5"@) == Some(RegTarget::Gpr(21)),
        reg_target_of("s6"@) == Some(RegTarget::Gpr(22)),
        reg_target_of("s7"@) == Some(RegTarget::Gpr(23)),
{
    reveal_strlit("zero");
    reveal_strlit("at");
    reveal_strlit("v0");
    reveal_strlit("v1");
    reveal_strlit("a0");
    reveal_strlit("a1");
    reveal_strlit("a2");
    reveal_strlit("a3");
    reveal_strlit("t0");
    reveal_strlit("t1");
    reveal_strlit("t2");
    reveal_strlit("t3");
    reveal_strlit("t4");
    reveal_strlit("t5");
    reveal_strlit("t6");
    reveal_strlit("t7");
    reveal_strlit("s0");
    reveal_strlit("s1");
    reveal_strlit("s2");
    reveal_strlit("s3");
    reveal_strlit("s4");
    reveal_strlit("s5");
    reveal_strlit("s6");
    reveal_strlit("s7");
    reveal_strlit("t8");
    reveal_strlit("t9");
    reveal_strlit("k0");
    reveal_strlit("k1");
    reveal_strlit("gp");
    reveal_strlit("sp");
    reveal_strlit("fp");
    reveal_strlit("ra");
    reveal_strlit("pc");
    reveal_strlit("hi");
    reveal_strlit("lo");
    lemma_abi_name(20, "s4"@);
    lemma_abi_name(21, "s5"@);
    lemma_abi_name(22, "s6"@);
    lemma_abi_name(23, "s7"@);
}

#[verifier::rlimit(60)]
proof fn lemma_abi_names_6()
    ensures
        reg_target_of("t8"@) == Some(RegTarget::Gpr(24)),
        reg_target_of("t9"@) == Some(RegTarget::Gpr(25)),
        reg_target_of("k0"@) == Some(RegTarget::Gpr(26)),
        reg_target_of("k1"@) == Some(RegTarget::Gpr(27)),
{
    reveal_strlit("zero");
    reveal_strlit("at");
    reveal_strlit("v0");
    reveal_strlit("v1");
    reveal_strlit("a0");
    reveal_strlit("a1");
    reveal_strlit("a2");
    reveal_strlit("a3");
    reveal_strlit("t0");
    reveal_strlit("t1");
    reveal_strlit("t2");
    reveal_strlit("t3");
    reveal_strlit("t4");
    reveal_strlit("t5");
    reveal_strlit("t6");
    reveal_strlit("t7");
    reveal_strlit("s0");
    reveal_strlit("s1");
    reveal_strlit("s2");
    reveal_strlit("s3");
    reveal_strlit("s4");
    reveal_strlit("s5");
    reveal_strlit("s6");
    reveal_strlit("s7");
    reveal_strlit("t8");
    reveal_strlit("t9");
    reveal_strlit("k0");
    reveal_strlit("k1");
    reveal_strlit("gp");
    reveal_strlit("sp");
    reveal_strlit("fp");
    reveal_strlit("ra");
    reveal_strlit("pc");
    reveal_strlit("hi");
    reveal_strlit("lo");
    lemma_abi_name(24, "t8"@);
    lemma_abi_name(25, "t9"@);
    lemma_abi_name(26, "k0"@);
    lemma_abi_name(27, "k1"@);
}

#[verifier::rlimit(60)]
proof fn lemma_abi_names_7()
    ensures
        reg_target_of("gp"@) == Some(RegTarget::Gpr(28)),
        reg_target_of("sp"@) == Some(RegTarget::Gpr(29)),
        reg_target_of("fp"@) == Some(RegTarget::Gpr(30)),
        reg_target_of("ra"@) == Some(RegTarget::Gpr(31)),
{
    reveal_strlit("zero");
    reveal_strlit("at");
    reveal_strlit("v0");
    reveal_strlit("v1");
    reveal_strlit("a0");
    reveal_strlit("a1");
    reveal_strlit("a2");
    reveal_strlit("a3");
    reveal_strlit("t0");
    reveal_strlit("t1");
    reveal_strlit("t2");
    reveal_strlit("t3");
    reveal_strlit("t4");
    reveal_strlit("t5");
    reveal_strlit("t6");
    reveal_strlit("t7");
    reveal_strlit("s0");
    reveal_strlit("s1");
    reveal_strlit("s2");
    reveal_strlit("s3");
    reveal_strlit("s4");
    reveal_strlit("s5");
    reveal_strlit("s6");
    reveal_strlit("s7");
    reveal_strlit("t8");
    reveal_strlit("t9");
    reveal_strlit("k0");
    reveal_strlit("k1");
    reveal_strlit("gp");
    reveal_strlit("sp");
    reveal_strlit("fp");
    reveal_strlit("ra");
    reveal_strlit("pc");
    reveal_strlit("hi");
    reveal_strlit("lo");
    lemma_abi_name(28, "gp"@);
    lemma_abi_name(29, "sp"@);
    lemma_abi_name(30, "fp"@);
    lemma_abi_name(31, "ra"@);
}

/// A name that only register `k` has among the first `k + 1` resolves to
/// register `k`.
proof fn lemma_abi_name(k: int, name: Seq<char>)
    requires
        0 <= k < 32,
        gpr_alias_name(k) == name,
        forall|i: int| 0 <= i < k ==> gpr_alias_name(i) != name,
        name.len() > 0,
        name[0] != '$',
        name != "pc"@,
        name != "hi"@,
        name != "lo"@,
    ensures
        reg_target_of(name) == Some(RegTarget::Gpr(k as u32)),
{
    lemma_alias_from(name, k, 0);
    assert(trim_leading(name, '$') == name);
}

proof fn lemma_alias_from(name: Seq<char>, k: int, i: int)
    requires
        0 <= i <= k < 32,
        gpr_alias_name(k) == name,
        forall|j: int| 0 <= j < k ==> gpr_alias_name(j) != name,
    ensures
        gpr_alias_from(name, i) == Some(k as u32),
    decreases k - i,
{
    if i < k {
        lemma_alias_from(name, k, i + 1);
    }
}

} // verus!

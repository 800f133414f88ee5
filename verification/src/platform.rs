//! Host platform helpers: the register arithmetic behind MIPS FPU rounding
//! modes and exception flags on x86 and ARM hosts, and timer calibration.
//! Reading and writing the host registers themselves happens outside the
//! library.
use vstd::prelude::*;

pub mod generic;

verus! {

/// x86 MXCSR rounding control (bits 14:13) for a MIPS rounding mode
/// (FCSR bits 1:0: 0 nearest, 1 toward zero, 2 up, 3 down).
pub open spec fn x86_rounding_spec(mips_rm: u8) -> u32 {
    let m = mips_rm % 4;
    if m == 0 {
        0
    } else if m == 1 {
        3
    } else if m == 2 {
        2
    } else {
        1
    }
}

pub fn x86_rounding(mips_rm: u8) -> (r: u32)
    ensures
        r == x86_rounding_spec(mips_rm),
{
    let m = mips_rm & 0x3;
    assert(m == mips_rm % 4) by (bit_vector)
        requires
            m == mips_rm & 0x3,
    ;
    match m {
        0 => 0b00,
        1 => 0b11,
        2 => 0b10,
        _ => 0b01,
    }
}

/// MXCSR with its rounding control set for a MIPS rounding mode; the other
/// bits kept.
pub fn mxcsr_with_rounding(mxcsr: u32, mips_rm: u8) -> (r: u32)
    ensures
        r & 0x6000 == x86_rounding_spec(mips_rm) * 0x2000,
        r & !0x6000u32 == mxcsr & !0x6000u32,
{
    let rm = x86_rounding(mips_rm);
    let r = (mxcsr & !(0x3u32 << 13u32)) | (rm << 13u32);
    assert(r & 0x6000 == rm * 0x2000 && r & !0x6000u32 == mxcsr & !0x6000u32) by (bit_vector)
        requires
            rm <= 3,
            r == (mxcsr & !(0x3u32 << 13u32)) | (rm << 13u32),
    ;
    r
}

/// ARM FPCR rounding mode (bits 23:22) for a MIPS rounding mode.
pub open spec fn arm_rounding_spec(mips_rm: u8) -> u64 {
    let m = mips_rm % 4;
    if m == 0 {
        0
    } else if m == 1 {
        3
    } else if m == 2 {
        1
    } else {
        2
    }
}

pub fn arm_rounding(mips_rm: u8) -> (r: u64)
    ensures
        r == arm_rounding_spec(mips_rm),
{
    let m = mips_rm & 0x3;
    assert(m == mips_rm % 4) by (bit_vector)
        requires
            m == mips_rm & 0x3,
    ;
    match m {
        0 => 0b00,
        1 => 0b11,
        2 => 0b01,
        _ => 0b10,
    }
}

/// FPCR with its rounding mode set for a MIPS rounding mode; the other bits
/// kept.
pub fn fpcr_with_rounding(fpcr: u64, mips_rm: u8) -> (r: u64)
    ensures
        r & 0xC0_0000 == arm_rounding_spec(mips_rm) * 0x40_0000,
        r & !0xC0_0000u64 == fpcr & !0xC0_0000u64,
{
    let rm = arm_rounding(mips_rm);
    let r = (fpcr & !(0x3u64 << 22u64)) | (rm << 22u64);
    assert(r & 0xC0_0000 == rm * 0x40_0000 && r & !0xC0_0000u64 == fpcr & !0xC0_0000u64) by (bit_vector)
        requires
            rm <= 3,
            r == (fpcr & !(0x3u64 << 22u64)) | (rm << 22u64),
    ;
    r
}

/// MIPS FCSR flag bits (6 V, 5 Z, 4 O, 3 U, 2 I) for host flags given as
/// (invalid, divide-by-zero, overflow, underflow, inexact).
pub open spec fn mips_flags_spec(v: bool, z: bool, o: bool, u: bool, i: bool) -> u32 {
    ((if v {
        0x40int
    } else {
        0int
    }) + (if z {
        0x20int
    } else {
        0int
    }) + (if o {
        0x10int
    } else {
        0int
    }) + (if u {
        0x08int
    } else {
        0int
    }) + (if i {
        0x04int
    } else {
        0int
    })) as u32
}

fn mips_flags(v: bool, z: bool, o: bool, u: bool, i: bool) -> (r: u32)
    ensures
        r == mips_flags_spec(v, z, o, u, i),
{
    let mut f: u32 = 0;
    if v {
        f = f + 0x40;
    }
    if z {
        f = f + 0x20;
    }
    if o {
        f = f + 0x10;
    }
    if u {
        f = f + 0x08;
    }
    if i {
        f = f + 0x04;
    }
    f
}

/// MIPS flags from x86 MXCSR exception flags (bit 0 invalid, 2 divide by
/// zero, 3 overflow, 4 underflow, 5 precision).
pub fn mips_flags_from_mxcsr(mxcsr: u32) -> (r: u32)
    ensures
        r == mips_flags_spec(
            mxcsr & 0x01 != 0,
            mxcsr & 0x04 != 0,
            mxcsr & 0x08 != 0,
            mxcsr & 0x10 != 0,
            mxcsr & 0x20 != 0,
        ),
{
    mips_flags(
        mxcsr & 0x01 != 0,
        mxcsr & 0x04 != 0,
        mxcsr & 0x08 != 0,
        mxcsr & 0x10 != 0,
        mxcsr & 0x20 != 0,
    )
}

/// MIPS flags from ARM FPSR cumulative flags (bit 0 invalid, 1 divide by
/// zero, 2 overflow, 3 underflow, 4 inexact).
pub fn mips_flags_from_fpsr(fpsr: u64) -> (r: u32)
    ensures
        r == mips_flags_spec(
            fpsr & 0x01 != 0,
            fpsr & 0x02 != 0,
            fpsr & 0x04 != 0,
            fpsr & 0x08 != 0,
            fpsr & 0x10 != 0,
        ),
{
    mips_flags(
        fpsr & 0x01 != 0,
        fpsr & 0x02 != 0,
        fpsr & 0x04 != 0,
        fpsr & 0x08 != 0,
        fpsr & 0x10 != 0,
    )
}

/// MXCSR with its sticky exception flags (bits 5:0) cleared.
pub fn mxcsr_cleared(mxcsr: u32) -> (r: u32)
    ensures
        r & 0x3F == 0,
        r & !0x3Fu32 == mxcsr & !0x3Fu32,
{
    let r = mxcsr & !0x3Fu32;
    assert(r & 0x3F == 0 && r & !0x3Fu32 == mxcsr & !0x3Fu32) by (bit_vector)
        requires
            r == mxcsr & !0x3Fu32,
    ;
    r
}

/// Host tick frequency in Hz from a calibration run: `ticks` counted over
/// `nanos` nanoseconds; 1 GHz when no time elapsed.
pub fn tick_frequency(ticks: u64, nanos: u64) -> (f: u64)
    requires
        ticks * 1_000_000_000 <= u64::MAX,
    ensures
        f == (if nanos > 0 {
            (ticks * 1_000_000_000 / nanos as int) as u64
        } else {
            1_000_000_000
        }),
{
    if nanos > 0 {
        ticks * 1_000_000_000 / nanos
    } else {
        1_000_000_000
    }
}

} // verus!

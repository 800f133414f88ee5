//! Behaviour of hosts without a supported FPU or timer register: a
//! nanosecond timer and no FPU mode control.
use vstd::prelude::*;

verus! {

/// Frequency of the fallback host timer: it counts nanoseconds.
pub fn get_host_tick_frequency() -> (f: u64)
    ensures
        f == 1_000_000_000,
{
    1_000_000_000
}

/// The fallback host cannot change the FPU rounding mode.
pub fn set_fpu_mode(mips_rm: u8) {
}

/// The fallback host reports no FPU exception flags.
pub fn get_fpu_status() -> (s: u32)
    ensures
        s == 0,
{
    0
}

/// The fallback host has no FPU flags to clear.
pub fn clear_fpu_status() {
}

} // verus!

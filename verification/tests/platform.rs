use iris_devices::platform::generic::{clear_fpu_status, get_fpu_status, get_host_tick_frequency, set_fpu_mode};
use iris_devices::platform::{
    arm_rounding, fpcr_with_rounding, mips_flags_from_fpsr, mips_flags_from_mxcsr, mxcsr_cleared,
    mxcsr_with_rounding, tick_frequency, x86_rounding,
};

#[test]
fn rounding_mode_maps() {
    // MIPS: 0 nearest, 1 toward zero, 2 up, 3 down.
    assert_eq!([x86_rounding(0), x86_rounding(1), x86_rounding(2), x86_rounding(3)], [0, 3, 2, 1]);
    assert_eq!([arm_rounding(0), arm_rounding(1), arm_rounding(2), arm_rounding(3)], [0, 3, 1, 2]);
    assert_eq!(x86_rounding(5), 3);
}

#[test]
fn rounding_bits_are_placed_and_others_kept() {
    assert_eq!(mxcsr_with_rounding(0x1F80, 1), 0x7F80);
    assert_eq!(mxcsr_with_rounding(0x7F80, 0), 0x1F80);
    assert_eq!(fpcr_with_rounding(0, 2), 0x40_0000);
    assert_eq!(fpcr_with_rounding(0xFFFF_FFFF_FFFF_FFFF, 0), 0xFFFF_FFFF_FF3F_FFFF);
}

#[test]
fn exception_flags_map_to_fcsr_bits() {
    assert_eq!(mips_flags_from_mxcsr(0x01), 0x40);
    assert_eq!(mips_flags_from_mxcsr(0x04), 0x20);
    assert_eq!(mips_flags_from_mxcsr(0x3F), 0x7C);
    // Denormal (bit 1) has no MIPS counterpart.
    assert_eq!(mips_flags_from_mxcsr(0x02), 0);
    assert_eq!(mips_flags_from_fpsr(0x1F), 0x7C);
    assert_eq!(mips_flags_from_fpsr(0x10), 0x04);
    assert_eq!(mxcsr_cleared(0x1FBF), 0x1F80);
}

#[test]
fn calibration_and_fallback_host() {
    assert_eq!(tick_frequency(30_000_000, 10_000_000), 3_000_000_000);
    assert_eq!(tick_frequency(123, 0), 1_000_000_000);
    assert_eq!(get_host_tick_frequency(), 1_000_000_000);
    set_fpu_mode(1);
    clear_fpu_status();
    assert_eq!(get_fpu_status(), 0);
}

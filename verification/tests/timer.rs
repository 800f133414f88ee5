use iris_devices::timer::TimerState;
use iris_devices::traits::BusStatus;

#[test]
fn test_timer_basic() {
    let mut timer = TimerState::new();

    // Test Write/Read Target
    assert_eq!(timer.write32(0x04, 0xDEADBEEF), BusStatus::Ready);
    match timer.read32(0x04) {
        BusStatus::Data(val) => assert_eq!(val, 0xDEADBEEF),
        _ => panic!("Unexpected bus status"),
    }

    // Test Run
    timer.start();
    assert!(timer.is_running());

    // Step
    timer.step(100);

    timer.stop();
    assert!(!timer.is_running());

    // Counter should match clock in this simple impl
    match timer.read32(0x00) {
        BusStatus::Data(val) => assert_eq!(val, 100),
        _ => panic!("Could not read counter"),
    }
}

#[test]
fn timer_ignores_steps_while_stopped() {
    let mut timer = TimerState::new();
    timer.step(50);
    assert_eq!(timer.get_clock(), 0);
    assert_eq!(timer.read32(0x00), BusStatus::Data(0));
}

#[test]
fn timer_counter_wraps_at_32_bits() {
    let mut timer = TimerState::new();
    assert_eq!(timer.write32(0x00, 0xFFFF_FFF0), BusStatus::Ready);
    timer.start();
    timer.step(0x20);
    assert_eq!(timer.read32(0x00), BusStatus::Data(0x10));
    assert_eq!(timer.get_clock(), 0x20);
}

#[test]
fn timer_unknown_registers_error() {
    let mut timer = TimerState::new();
    assert_eq!(timer.read32(0x08), BusStatus::Error);
    assert_eq!(timer.write32(0x08, 1), BusStatus::Error);
}

#[test]
fn timer_doubleword_access_spans_counter_and_target() {
    let mut timer = TimerState::new();
    assert_eq!(timer.write64(0x00, 0x1111_2222_3333_4444), BusStatus::Ready);
    assert_eq!(timer.read32(0x00), BusStatus::Data(0x1111_2222));
    assert_eq!(timer.read32(0x04), BusStatus::Data(0x3333_4444));
    assert_eq!(timer.read64(0x00), BusStatus::Data64(0x1111_2222_3333_4444));
    assert_eq!(timer.read64(0x04), BusStatus::Error);
    assert_eq!(timer.write64(0x04, 5), BusStatus::Error);
}

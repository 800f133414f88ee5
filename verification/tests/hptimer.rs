use iris_devices::hptimer::{wait_action, TimerArena, TimerEntry, TimerReturn, WaitAction};

fn one_shot(at: u64, cb: u32) -> TimerEntry<u32> {
    TimerEntry { next_expiration: at, period: None, enabled: true, in_fifo: false, callback: Some(cb) }
}

fn recurring(at: u64, period: u64, cb: u32) -> TimerEntry<u32> {
    TimerEntry { next_expiration: at, period: Some(period), enabled: true, in_fifo: false, callback: Some(cb) }
}

fn entry(a: &TimerArena<u32>, id: u64) -> &TimerEntry<u32> {
    a.slots[(id & 0xFFFF_FFFF) as usize].timer.as_ref().unwrap()
}

#[test]
fn one_shot_fires_once_and_is_removed() {
    let mut a: TimerArena<u32> = TimerArena::new();
    let id = a.allocate(one_shot(1000, 7));
    assert_eq!(a.next_wakeup(), Some(1000));
    a.collect_expired(999);
    assert!(a.fifo.is_empty());
    a.collect_expired(1000);
    assert_eq!(a.fifo.len(), 1);
    // Queued timers are not waited for again.
    assert_eq!(a.next_wakeup(), None);
    let due = a.take_due().unwrap();
    assert_eq!(due.callback, Some(7));
    assert!(!entry(&a, id).in_fifo);
    a.apply_result(due.index, due.generation, 7, TimerReturn::Continue, 1000);
    assert!(!a.deallocate(id));
    assert_eq!(a.next_wakeup(), None);
}

#[test]
fn recurring_timer_advances_by_its_period() {
    let mut a: TimerArena<u32> = TimerArena::new();
    let id = a.allocate(recurring(1000, 250, 1));
    a.collect_expired(1100);
    let due = a.take_due().unwrap();
    a.apply_result(due.index, due.generation, 1, TimerReturn::Continue, 1100);
    assert_eq!(entry(&a, id).next_expiration, 1250);
    assert_eq!(entry(&a, id).callback, Some(1));
    assert_eq!(a.next_wakeup(), Some(1250));
}

#[test]
fn callback_results_reschedule_disable_and_delete() {
    let mut a: TimerArena<u32> = TimerArena::new();
    let id = a.allocate(recurring(10, 5, 1));
    a.apply_result((id & 0xFFFF_FFFF) as usize, (id >> 32) as u32, 1, TimerReturn::RescheduleOneShot(40), 100);
    assert_eq!(entry(&a, id).next_expiration, 140);
    assert_eq!(entry(&a, id).period, None);
    a.apply_result((id & 0xFFFF_FFFF) as usize, (id >> 32) as u32, 1, TimerReturn::RescheduleRecurring(60), 100);
    assert_eq!(entry(&a, id).next_expiration, 200);
    assert_eq!(entry(&a, id).period, Some(60));
    a.apply_result((id & 0xFFFF_FFFF) as usize, (id >> 32) as u32, 1, TimerReturn::Disable, 100);
    assert!(!entry(&a, id).enabled);
    assert_eq!(a.next_wakeup(), None);
    a.apply_result((id & 0xFFFF_FFFF) as usize, (id >> 32) as u32, 1, TimerReturn::Delete, 100);
    assert!(!a.deallocate(id));
}

#[test]
fn times_saturate() {
    let mut a: TimerArena<u32> = TimerArena::new();
    let id = a.allocate(recurring(u64::MAX - 1, 10, 1));
    a.apply_result((id & 0xFFFF_FFFF) as usize, (id >> 32) as u32, 1, TimerReturn::Continue, 0);
    assert_eq!(entry(&a, id).next_expiration, u64::MAX);
}

#[test]
fn stale_ids_are_refused_after_slot_reuse() {
    let mut a: TimerArena<u32> = TimerArena::new();
    let first = a.allocate(one_shot(5, 1));
    assert!(a.deallocate(first));
    let second = a.allocate(one_shot(6, 2));
    // The slot was reused with a new generation.
    assert_eq!(first & 0xFFFF_FFFF, second & 0xFFFF_FFFF);
    assert_ne!(first, second);
    assert!(!a.disable(first));
    assert!(!a.enable(first));
    assert!(!a.deallocate(first));
    assert!(a.disable(second));
    assert!(a.enable(second));
    // A result for the old timer changes nothing.
    a.apply_result((first & 0xFFFF_FFFF) as usize, (first >> 32) as u32, 9, TimerReturn::Delete, 0);
    assert!(a.deallocate(second));
}

#[test]
fn removed_id_stays_dead_through_many_reuses() {
    let mut a: TimerArena<u32> = TimerArena::new();
    let first = a.allocate(one_shot(5, 1));
    assert!(a.deallocate(first));
    for round in 0..1000u32 {
        let id = a.allocate(recurring(10, 3, round));
        assert_ne!(id, first);
        a.collect_expired(20);
        if let Some(d) = a.take_due() {
            a.apply_result(d.index, d.generation, round, TimerReturn::Delete, 20);
        }
        assert!(!a.enable(first));
        assert!(!a.disable(first));
        assert!(!a.deallocate(first));
        let _ = a.deallocate(id);
    }
}

#[test]
fn disabled_timers_are_neither_queued_nor_awaited() {
    let mut a: TimerArena<u32> = TimerArena::new();
    let id = a.allocate(one_shot(5, 1));
    assert!(a.disable(id));
    a.collect_expired(100);
    assert!(a.fifo.is_empty());
    assert_eq!(a.next_wakeup(), None);
    assert!(a.enable(id));
    assert_eq!(a.next_wakeup(), Some(5));
}

#[test]
fn expired_timers_are_queued_in_slot_order() {
    let mut a: TimerArena<u32> = TimerArena::new();
    let x = a.allocate(one_shot(30, 1));
    let y = a.allocate(one_shot(10, 2));
    let z = a.allocate(one_shot(20, 3));
    assert_eq!(a.next_wakeup(), Some(10));
    a.collect_expired(25);
    let d1 = a.take_due().unwrap();
    assert_eq!(d1.callback, Some(2));
    let d2 = a.take_due().unwrap();
    assert_eq!(d2.callback, Some(3));
    assert!(a.take_due().is_none());
    // Until their results are applied, taken timers still count as pending.
    assert_eq!(a.next_wakeup(), Some(10));
    a.apply_result(d1.index, d1.generation, 2, TimerReturn::Continue, 25);
    a.apply_result(d2.index, d2.generation, 3, TimerReturn::Continue, 25);
    assert_eq!(a.next_wakeup(), Some(30));
    let _ = (x, y, z);
}

#[test]
fn timer_disabled_while_queued_is_dropped_from_queue() {
    let mut a: TimerArena<u32> = TimerArena::new();
    let id = a.allocate(one_shot(1, 4));
    a.collect_expired(2);
    assert!(a.disable(id));
    assert!(a.take_due().is_none());
    assert!(a.fifo.is_empty());
    assert!(!entry(&a, id).in_fifo);
}

#[test]
fn worker_wait_decisions() {
    assert_eq!(wait_action(0, Some(1_000_000), false), WaitAction::Park(900_000));
    assert_eq!(wait_action(0, Some(200_001), false), WaitAction::Park(100_001));
    assert_eq!(wait_action(0, Some(200_000), false), WaitAction::Sleep(50_000));
    assert_eq!(wait_action(10, Some(5), false), WaitAction::Recheck);
    assert_eq!(wait_action(0, Some(1_000_000), true), WaitAction::Recheck);
    assert_eq!(wait_action(0, None, false), WaitAction::ParkIndefinitely);
    assert_eq!(wait_action(0, None, true), WaitAction::Recheck);
}

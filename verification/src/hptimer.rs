//! Bookkeeping of the high-precision timer manager: an arena of timers
//! addressed by generation-tagged ids, the queue of expired timers, and the
//! decisions of the worker loop. Time is counted in nanoseconds from an
//! epoch the caller chooses.
use vstd::prelude::*;
use std::collections::VecDeque;

verus! {

/// Unique identifier for a timer: the slot's generation in the high 32 bits,
/// the slot index in the low 32 bits.
pub type TimerId = u64;

/// Action returned by a timer callback upon expiration. Durations are in
/// nanoseconds.
#[derive(Debug, Clone, Copy, PartialEq, Eq, Structural)]
pub enum TimerReturn {
    /// Keep the timer: a recurring timer is scheduled one period later, a
    /// one-shot timer is deleted.
    Continue,
    /// Keep the timer in the manager, but mark it disabled.
    Disable,
    /// Remove the timer from the manager.
    Delete,
    /// Fire once more, the given time from now.
    RescheduleOneShot(u64),
    /// Become (or stay) recurring with this period; the next expiration is
    /// the old one plus the new period.
    RescheduleRecurring(u64),
}

/// A callback with its own context, run when its timer expires.
pub trait TimerCallback {
    fn call(&mut self) -> TimerReturn;
}

/// One timer.
pub struct TimerEntry<C> {
    pub next_expiration: u64,
    pub period: Option<u64>,
    pub enabled: bool,
    pub in_fifo: bool,
    pub callback: Option<C>,
}

/// A slot of the arena.
pub struct Slot<C> {
    pub generation: u32,
    pub timer: Option<TimerEntry<C>>,
}

/// An expired timer taken from the queue to be run.
pub struct DueTimer<C> {
    pub index: usize,
    pub generation: u32,
    pub callback: Option<C>,
}

/// What the worker does when nothing is due.
#[derive(Debug, Clone, Copy, PartialEq, Eq, Structural)]
pub enum WaitAction {
    /// Look at the timers again now.
    Recheck,
    /// Park for this many nanoseconds (or until woken).
    Park(u64),
    /// Sleep this many nanoseconds.
    Sleep(u64),
    /// Park until woken.
    ParkIndefinitely,
}

pub const ID_INDEX_SPAN: u64 = 0x1_0000_0000;

pub open spec fn make_id(generation: u32, index: int) -> u64 {
    (generation as int * ID_INDEX_SPAN + index) as u64
}

pub open spec fn id_index(id: u64) -> int {
    (id % ID_INDEX_SPAN) as int
}

pub open spec fn id_generation(id: u64) -> u32 {
    (id / ID_INDEX_SPAN) as u32
}

fn encode_id(generation: u32, index: usize) -> (id: u64)
    requires
        index < ID_INDEX_SPAN,
    ensures
        id == make_id(generation, index as int),
        id_index(id) == index,
        id_generation(id) == generation,
{
    let g = generation as u64;
    let i = index as u64;
    assert(((g << 32u64) | i) == g * 0x1_0000_0000u64 + i) by (bit_vector)
        requires
            g < 0x1_0000_0000u64,
            i < 0x1_0000_0000u64,
    ;
    let id = (g << 32u64) | i;
    assert(id % 0x1_0000_0000u64 == i && id / 0x1_0000_0000u64 == g) by (nonlinear_arith)
        requires
            id == g * 0x1_0000_0000u64 + i,
            i < 0x1_0000_0000u64,
    ;
    id
}

fn decode_id(id: u64) -> (r: (u32, usize))
    ensures
        r.0 == id_generation(id),
        r.1 as int == id_index(id),
{
    assert((id >> 32u64) == id / 0x1_0000_0000u64) by (bit_vector);
    assert((id & 0xFFFF_FFFFu64) == id % 0x1_0000_0000u64) by (bit_vector);
    ((id >> 32u64) as u32, (id & 0xFFFF_FFFFu64) as usize)
}

/// The timers of a manager: slots, the free list, the queue of expired
/// timers waiting to be run, and the stop flag.
pub struct TimerArena<C> {
    pub slots: Vec<Slot<C>>,
    pub free_indices: Vec<usize>,
    pub fifo: VecDeque<(usize, u32)>,
    pub stop: bool,
}

/// Whether the timer in `s` has expired at `now` and still has to be queued.
pub open spec fn newly_expired<C>(s: Slot<C>, now: u64) -> bool {
    s.timer matches Some(t) && t.enabled && !t.in_fifo && t.next_expiration <= now
}

/// The queue entries for the slots `slots[..upto]` that expired at `now`,
/// in slot order.
pub open spec fn expired_entries<C>(slots: Seq<Slot<C>>, now: u64, upto: int) -> Seq<(usize, u32)>
    decreases upto,
{
    if upto <= 0 || upto > slots.len() {
        Seq::empty()
    } else {
        let prev = expired_entries(slots, now, upto - 1);
        if newly_expired(slots[upto - 1], now) {
            prev.push(((upto - 1) as usize, slots[upto - 1].generation))
        } else {
            prev
        }
    }
}

/// The slot after queueing it if it expired.
pub open spec fn mark_queued<C>(s: Slot<C>, now: u64) -> Slot<C> {
    if newly_expired(s, now) {
        Slot { timer: Some(TimerEntry { in_fifo: true, ..s.timer.unwrap() }), ..s }
    } else {
        s
    }
}

/// Earliest expiration among the enabled, unqueued timers of
/// `slots[..upto]`.
pub open spec fn earliest_wakeup<C>(slots: Seq<Slot<C>>, upto: int) -> Option<u64>
    decreases upto,
{
    if upto <= 0 || upto > slots.len() {
        None
    } else {
        let prev = earliest_wakeup(slots, upto - 1);
        let s = slots[upto - 1];
        match s.timer {
            Some(t) => if t.enabled && !t.in_fifo {
                match prev {
                    Some(w) => if t.next_expiration < w {
                        Some(t.next_expiration)
                    } else {
                        Some(w)
                    },
                    None => Some(t.next_expiration),
                }
            } else {
                prev
            },
            None => prev,
        }
    }
}

pub open spec fn sat_add(a: u64, b: u64) -> u64 {
    if a + b > u64::MAX {
        u64::MAX
    } else {
        (a + b) as u64
    }
}

/// The decision of the worker when no callback is due: `now` and the
/// earliest wakeup in nanoseconds, and whether a timer was added or enabled
/// since the last scan.
pub open spec fn wait_action_spec(now: u64, next_wakeup: Option<u64>, woken: bool) -> WaitAction {
    match next_wakeup {
        Some(target) => if now >= target || woken {
            WaitAction::Recheck
        } else if target - now > 200_000 {
            WaitAction::Park((target - now - 100_000) as u64)
        } else {
            WaitAction::Sleep(50_000)
        },
        None => if woken {
            WaitAction::Recheck
        } else {
            WaitAction::ParkIndefinitely
        },
    }
}

/// Decides how the worker waits: for a target more than 200 µs away it parks
/// until 100 µs before it, nearer than that it sleeps 50 µs; with no timer
/// pending it parks until woken.
pub fn wait_action(now: u64, next_wakeup: Option<u64>, woken: bool) -> (a: WaitAction)
    ensures
        a == wait_action_spec(now, next_wakeup, woken),
{
    match next_wakeup {
        Some(target) => {
            if now >= target || woken {
                WaitAction::Recheck
            } else if target - now > 200_000 {
                WaitAction::Park(target - now - 100_000)
            } else {
                WaitAction::Sleep(50_000)
            }
        },
        None => {
            if woken {
                WaitAction::Recheck
            } else {
                WaitAction::ParkIndefinitely
            }
        },
    }
}

/// Whether the timer `x` names is not an enabled timer of `a` (it is
/// disabled, or `x` names no timer).
pub open spec fn is_off<C>(a: TimerArena<C>, x: u64) -> bool {
    !(a.live(x) && a.entry(x).enabled)
}

/// A step from `a` to `b` does not turn the timer `x` on.
pub open spec fn stays_off<C>(a: TimerArena<C>, b: TimerArena<C>, x: u64) -> bool {
    is_off(a, x) ==> is_off(b, x)
}

/// Whether queue entry `e` names a timer `a` holds now.
pub open spec fn names_timer<C>(a: TimerArena<C>, e: (usize, u32)) -> bool {
    &&& e.0 < a.slots.len()
    &&& a.slots@[e.0 as int].generation == e.1
    &&& a.slots@[e.0 as int].timer is Some
}

/// The timer queue entry `e` names.
pub open spec fn named_timer<C>(a: TimerArena<C>, e: (usize, u32)) -> TimerEntry<C> {
    a.slots@[e.0 as int].timer.unwrap()
}

/// What holds of the expiry queue once the worker has looked at the timers
/// at time `t`: every entry that still names a timer names a queued timer
/// that had expired by `t`, and no such timer is queued twice.
pub open spec fn queue_sound<C>(a: TimerArena<C>, t: u64) -> bool {
    &&& forall|k: int|
        0 <= k < a.fifo@.len() && names_timer(a, #[trigger] a.fifo@[k]) ==> named_timer(a, a.fifo@[k]).next_expiration
            <= t && named_timer(a, a.fifo@[k]).in_fifo
    &&& forall|k1: int, k2: int|
        0 <= k1 < k2 < a.fifo@.len() && names_timer(a, #[trigger] a.fifo@[k1]) ==> a.fifo@[k1]
            != #[trigger] a.fifo@[k2]
}

proof fn lemma_expired_entries<C>(slots: Seq<Slot<C>>, now: u64, n: int)
    requires
        0 <= n <= slots.len(),
        slots.len() <= usize::MAX,
    ensures
        forall|m: int|
            0 <= m < expired_entries(slots, now, n).len() ==> {
                let e = #[trigger] expired_entries(slots, now, n)[m];
                &&& e.0 < n
                &&& newly_expired(slots[e.0 as int], now)
                &&& e.1 == slots[e.0 as int].generation
            },
        forall|m1: int, m2: int|
            0 <= m1 < m2 < expired_entries(slots, now, n).len() ==> (#[trigger] expired_entries(
                slots,
                now,
                n,
            )[m1]).0 < (#[trigger] expired_entries(slots, now, n)[m2]).0,
    decreases n,
{
    if n > 0 {
        lemma_expired_entries(slots, now, n - 1);
        let prev = expired_entries(slots, now, n - 1);
        let cur = expired_entries(slots, now, n);
        assert forall|m: int| 0 <= m < prev.len() implies cur[m] == prev[m] by {}
        assert forall|m: int| 0 <= m < cur.len() implies {
            let e = #[trigger] cur[m];
            &&& e.0 < n
            &&& newly_expired(slots[e.0 as int], now)
            &&& e.1 == slots[e.0 as int].generation
        } by {
            if m < prev.len() {
                assert(cur[m] == prev[m]);
                let e = prev[m];
                assert(e.0 < n - 1);
            } else {
                assert(newly_expired(slots[n - 1], now));
                assert(cur == prev.push(((n - 1) as usize, slots[n - 1].generation)));
            }
        }
        assert forall|m1: int, m2: int| 0 <= m1 < m2 < cur.len() implies (#[trigger] cur[m1]).0 < (
        #[trigger] cur[m2]).0 by {
            assert(cur[m1] == prev[m1]);
            let e1 = prev[m1];
            assert(e1.0 < n - 1);
            if m2 < prev.len() {
                assert(cur[m2] == prev[m2]);
            } else {
                assert(cur == prev.push(((n - 1) as usize, slots[n - 1].generation)));
            }
        }
    }
}

/// Queueing what expired at `now` (`collect_expired`), no earlier than the
/// time the queue was sound for, leaves it sound for `now`.
proof fn lemma_collect_keeps_queue_sound<C>(a: TimerArena<C>, b: TimerArena<C>, now: u64, t: u64)
    requires
        a.wf(),
        queue_sound(a, t),
        t <= now,
        b.slots@.len() == a.slots@.len(),
        forall|j: int| 0 <= j < b.slots@.len() ==> #[trigger] b.slots@[j] == mark_queued(a.slots@[j], now),
        b.fifo@ == a.fifo@ + expired_entries(a.slots@, now, a.slots@.len() as int),
    ensures
        queue_sound(b, now),
{
    let n = a.slots@.len() as int;
    let e = expired_entries(a.slots@, now, n);
    lemma_expired_entries(a.slots@, now, n);
    let la = a.fifo@.len() as int;
    assert forall|k: int| 0 <= k < b.fifo@.len() && names_timer(b, #[trigger] b.fifo@[k]) implies named_timer(
        b,
        b.fifo@[k],
    ).next_expiration <= now && named_timer(b, b.fifo@[k]).in_fifo by {
        let x = b.fifo@[k];
        assert(b.slots@[x.0 as int] == mark_queued(a.slots@[x.0 as int], now));
        if k < la {
            assert(x == a.fifo@[k]);
        } else {
            assert(x == e[k - la]);
        }
    }
    assert forall|k1: int, k2: int|
        0 <= k1 < k2 < b.fifo@.len() && names_timer(b, #[trigger] b.fifo@[k1]) implies b.fifo@[k1]
        != #[trigger] b.fifo@[k2] by {
        let x = b.fifo@[k1];
        let y = b.fifo@[k2];
        assert(b.slots@[x.0 as int] == mark_queued(a.slots@[x.0 as int], now));
        if k2 < la {
            assert(x == a.fifo@[k1] && y == a.fifo@[k2]);
        } else if k1 < la {
            assert(x == a.fifo@[k1]);
            assert(y == e[k2 - la]);
            if x == y {
                assert(names_timer(a, a.fifo@[k1]));
                assert(named_timer(a, a.fifo@[k1]).in_fifo);
                assert(newly_expired(a.slots@[y.0 as int], now));
            }
        } else {
            assert(x == e[k1 - la] && y == e[k2 - la]);
        }
    }
}

/// Taking the queue head (`take_due`) keeps the queue sound; when the head
/// names a timer, that timer had expired by `t`.
proof fn lemma_take_keeps_queue_sound<C>(a: TimerArena<C>, b: TimerArena<C>, t: u64)
    requires
        queue_sound(a, t),
        a.fifo@.len() > 0,
        b.fifo@ == a.fifo@.drop_first(),
        b.slots@.len() == a.slots@.len(),
        names_timer(a, a.fifo@[0]) ==> {
            let i = a.fifo@[0].0 as int;
            &&& forall|j: int| 0 <= j < a.slots@.len() && j != i ==> #[trigger] b.slots@[j] == a.slots@[j]
            &&& b.slots@[i].generation == a.slots@[i].generation
            &&& b.slots@[i].timer is Some
            &&& b.slots@[i].timer.unwrap().next_expiration == a.slots@[i].timer.unwrap().next_expiration
            &&& !b.slots@[i].timer.unwrap().in_fifo
        },
        !names_timer(a, a.fifo@[0]) ==> b.slots@ == a.slots@,
    ensures
        queue_sound(b, t),
        names_timer(a, a.fifo@[0]) ==> named_timer(a, a.fifo@[0]).next_expiration <= t,
{
    let h = a.fifo@[0];
    assert(a.fifo@[0] == h);
    assert forall|k: int| 0 <= k < b.fifo@.len() && names_timer(b, #[trigger] b.fifo@[k]) implies named_timer(
        b,
        b.fifo@[k],
    ).next_expiration <= t && named_timer(b, b.fifo@[k]).in_fifo by {
        let x = b.fifo@[k];
        assert(x == a.fifo@[k + 1]);
        if names_timer(a, h) && x.0 == h.0 {
            if x.1 == h.1 {
                assert(a.fifo@[0] != a.fifo@[k + 1]);
            }
        }
    }
    assert forall|k1: int, k2: int|
        0 <= k1 < k2 < b.fifo@.len() && names_timer(b, #[trigger] b.fifo@[k1]) implies b.fifo@[k1]
        != #[trigger] b.fifo@[k2] by {
        assert(b.fifo@[k1] == a.fifo@[k1 + 1]);
        assert(b.fifo@[k2] == a.fifo@[k2 + 1]);
        if names_timer(a, h) && b.fifo@[k1].0 == h.0 && b.fifo@[k1].1 == h.1 {
            assert(a.fifo@[0] != a.fifo@[k1 + 1]);
        }
    }
}

/// The id a queue entry stands for.
pub open spec fn entry_id(e: (usize, u32)) -> u64 {
    make_id(e.1, e.0 as int)
}

proof fn lemma_entry_id<C>(a: TimerArena<C>, e: (usize, u32))
    requires
        a.wf(),
    ensures
        names_timer(a, e) ==> a.live(entry_id(e)) && a.entry(entry_id(e)) == named_timer(a, e),
        a.live(entry_id(e)) && e.0 < ID_INDEX_SPAN ==> names_timer(a, e),
{
    if e.0 < ID_INDEX_SPAN {
        let g = e.1 as int;
        let i = e.0 as int;
        assert((g * 0x1_0000_0000 + i) % 0x1_0000_0000 == i && (g * 0x1_0000_0000 + i)
            / 0x1_0000_0000 == g) by (nonlinear_arith)
            requires
                0 <= i < 0x1_0000_0000,
                0 <= g < 0x1_0000_0000,
        ;
        assert(g * 0x1_0000_0000 + i < 0x1_0000_0000_0000_0000) by (nonlinear_arith)
            requires
                0 <= i < 0x1_0000_0000,
                0 <= g < 0x1_0000_0000,
        ;
    }
}

/// A step that leaves the queue alone and keeps, for every timer it keeps,
/// the expiration and the queued flag keeps the queue sound; so does one
/// that changes a single timer `id` that no queue entry names.
proof fn lemma_timers_keep_queue_sound<C>(a: TimerArena<C>, b: TimerArena<C>, t: u64, id: u64, all: bool)
    requires
        a.wf(),
        b.wf(),
        queue_sound(a, t),
        b.fifo@ == a.fifo@,
        forall|x: u64|
            (all || x != id) && #[trigger] b.live(x) ==> a.live(x) && b.entry(x).next_expiration
                == a.entry(x).next_expiration && b.entry(x).in_fifo == a.entry(x).in_fifo,
        !all ==> forall|k: int|
            0 <= k < b.fifo@.len() && names_timer(b, #[trigger] b.fifo@[k]) ==> entry_id(b.fifo@[k])
                != id,
    ensures
        queue_sound(b, t),
{
    assert forall|k: int| 0 <= k < b.fifo@.len() && names_timer(b, #[trigger] b.fifo@[k]) implies named_timer(
        b,
        b.fifo@[k],
    ).next_expiration <= t && named_timer(b, b.fifo@[k]).in_fifo by {
        let e = b.fifo@[k];
        lemma_entry_id(b, e);
        lemma_entry_id(a, e);
        assert(b.live(entry_id(e)));
        assert(a.fifo@[k] == e);
    }
    assert forall|k1: int, k2: int|
        0 <= k1 < k2 < b.fifo@.len() && names_timer(b, #[trigger] b.fifo@[k1]) implies b.fifo@[k1]
        != #[trigger] b.fifo@[k2] by {
        let e = b.fifo@[k1];
        lemma_entry_id(b, e);
        lemma_entry_id(a, e);
        assert(b.live(entry_id(e)));
        assert(a.fifo@[k1] == e);
        assert(a.fifo@[k2] == b.fifo@[k2]);
    }
}

/// Putting back the result of a timer that is not queued (`apply_result`)
/// keeps the queue sound.
proof fn lemma_apply_keeps_queue_sound<C>(a: TimerArena<C>, b: TimerArena<C>, id: u64)
    requires
        a.wf(),
        b.wf(),
        b.fifo@ == a.fifo@,
        forall|x: u64|
            x != id ==> (#[trigger] b.live(x) <==> a.live(x)) && (a.live(x) ==> b.entry(x).next_expiration
                == a.entry(x).next_expiration && b.entry(x).in_fifo == a.entry(x).in_fifo),
        !a.live(id) ==> b.slots@ == a.slots@,
    ensures
        forall|t: u64|
            #[trigger] queue_sound(a, t) && (a.live(id) ==> !a.entry(id).in_fifo) ==> queue_sound(b, t),
{
    assert forall|t: u64| #[trigger] queue_sound(a, t) && (a.live(id) ==> !a.entry(id).in_fifo) implies queue_sound(
        b,
        t,
    ) by {
        assert forall|k: int|
            0 <= k < b.fifo@.len() && names_timer(b, #[trigger] b.fifo@[k]) implies entry_id(b.fifo@[k])
            != id by {
            let e = b.fifo@[k];
            lemma_entry_id(a, e);
            lemma_entry_id(b, e);
            if entry_id(e) == id {
                assert(a.fifo@[k] == e);
                assert(b.live(id));
                if !a.live(id) {
                    assert(b.slots@ == a.slots@);
                }
                assert(names_timer(a, e));
            }
        }
        lemma_timers_keep_queue_sound(a, b, t, id, false);
    }
}

/// A timer handed out by `take_due` from `a` was an enabled timer of `a`.
pub open spec fn handed_out_enabled<C>(a: TimerArena<C>, due: Option<DueTimer<C>>) -> bool {
    due matches Some(d) ==> a.live(make_id(d.generation, d.index as int)) && a.entry(
        make_id(d.generation, d.index as int),
    ).enabled
}

/// No call while disabled: along a run of the worker and the manager
/// (`collect_expired`, `take_due`, `apply_result`, `disable`, `deallocate`,
/// and `enable` or `allocate` of other timers: each keeps `stays_off`), a
/// timer that is off at the start stays off, and no `take_due` of the run
/// hands its callback out. Only `enable` of the timer turns it back on.
pub proof fn lemma_no_call_while_off<C>(run: Seq<TimerArena<C>>, dues: Seq<Option<DueTimer<C>>>, x: u64)
    requires
        run.len() > 0,
        is_off(run[0], x),
        forall|k: int| 0 <= k < run.len() - 1 ==> #[trigger] stays_off(run[k], run[k + 1], x),
        dues.len() == run.len(),
        forall|k: int| 0 <= k < run.len() ==> #[trigger] handed_out_enabled(run[k], dues[k]),
    ensures
        forall|k: int| 0 <= k < run.len() ==> #[trigger] is_off(run[k], x),
        forall|k: int|
            0 <= k < run.len() ==> (#[trigger] dues[k] matches Some(d) ==> make_id(
                d.generation,
                d.index as int,
            ) != x),
{
    assert forall|k: int| 0 <= k < run.len() implies #[trigger] is_off(run[k], x) by {
        lemma_off_prefix(run, x, k);
    }
    assert forall|k: int| 0 <= k < run.len() implies (#[trigger] dues[k] matches Some(d) ==> make_id(
        d.generation,
        d.index as int,
    ) != x) by {
        lemma_off_prefix(run, x, k);
        assert(handed_out_enabled(run[k], dues[k]));
    }
}

proof fn lemma_off_prefix<C>(run: Seq<TimerArena<C>>, x: u64, k: int)
    requires
        0 <= k < run.len(),
        is_off(run[0], x),
        forall|j: int| 0 <= j < run.len() - 1 ==> #[trigger] stays_off(run[j], run[j + 1], x),
    ensures
        is_off(run[k], x),
    decreases k,
{
    if k > 0 {
        lemma_off_prefix(run, x, k - 1);
        let j = k - 1;
        assert(stays_off(run[j], run[j + 1], x));
        assert(j + 1 == k);
    }
}

/// What `allocate` does: `entry` is stored under the fresh id `id`, which
/// did not name a timer before; every other id keeps its timer (or stays
/// dead). A reused slot's generation is advanced by one (wrapping), a new
/// slot starts at generation 1; freed slots are reused last-freed first.
pub open spec fn allocated<C>(a: TimerArena<C>, b: TimerArena<C>, entry: TimerEntry<C>, id: u64) -> bool {
    &&& b.wf()
    &&& !a.live(id)
    &&& b.live(id)
    &&& b.entry(id) == entry
    &&& forall|x: u64| a.live(x) ==> #[trigger] b.live(x) && b.entry(x) == a.entry(x)
    &&& forall|x: u64| x != id ==> (#[trigger] b.live(x) <==> a.live(x))
    &&& forall|x: u64| x != id ==> #[trigger] stays_off(a, b, x)
    &&& b.fifo@ == a.fifo@
    &&& b.stop == a.stop
    &&& id_index(id) < a.slots.len() ==> id_generation(id) == vstd::wrapping::u32_specs::wrapping_add(
        a.slots@[id_index(id)].generation,
        1,
    )
    &&& id_index(id) == a.slots.len() ==> id_generation(id) == 1
    &&& a.free_indices@.len() > 0 ==> id_index(id) == a.free_indices@.last()
        && b.free_indices@ == a.free_indices@.drop_last() && b.slots.len() == a.slots.len()
    &&& a.free_indices@.len() == 0 ==> id_index(id) == a.slots.len() && b.free_indices@
        == a.free_indices@ && b.slots.len() == a.slots.len() + 1
}

/// What `deallocate` does: `id` names no timer afterwards, and `removed`
/// says whether it named one before; other ids and every slot's generation
/// are unchanged.
pub open spec fn deallocated<C>(a: TimerArena<C>, b: TimerArena<C>, id: u64, removed: bool) -> bool {
    &&& b.wf()
    &&& removed == a.live(id)
    &&& !b.live(id)
    &&& forall|x: u64| x != id ==> (#[trigger] b.live(x) <==> a.live(x))
    &&& forall|x: u64| x != id && a.live(x) ==> #[trigger] b.entry(x) == a.entry(x)
    &&& b.fifo@ == a.fifo@
    &&& b.stop == a.stop
    &&& b.slots.len() == a.slots.len()
    &&& forall|j: int| 0 <= j < a.slots.len() ==> #[trigger] b.slots@[j].generation == a.slots@[j].generation
    &&& !removed ==> b.slots@ == a.slots@
}

/// A removed timer's id stays dead through the next allocation: when its
/// slot is reused it gets a new generation, so the id cannot name the new
/// timer (timer ids are not reused as long as a slot is reallocated fewer
/// than 2^32 times).
pub proof fn lemma_removed_id_stays_dead<C>(
    a: TimerArena<C>,
    b: TimerArena<C>,
    c: TimerArena<C>,
    x: u64,
    entry: TimerEntry<C>,
    id: u64,
)
    requires
        a.wf(),
        deallocated(a, b, x, true),
        allocated(b, c, entry, id),
    ensures
        !c.live(x),
        id != x,
{
    let i = id_index(x);
    assert(a.live(x));
    assert(b.slots@[i].generation == id_generation(x));
    if id_index(id) == i {
        assert(id_generation(id) != id_generation(x));
    }
}

/// The generation of slot `i`; a slot not made yet counts as generation 0
/// (a new slot starts at generation 1).
pub open spec fn slot_generation<C>(a: TimerArena<C>, i: int) -> u32 {
    if 0 <= i < a.slots.len() {
        a.slots@[i].generation
    } else {
        0
    }
}

/// Whether slot `i` holds a timer.
pub open spec fn slot_holds<C>(a: TimerArena<C>, i: int) -> bool {
    0 <= i < a.slots.len() && a.slots@[i].timer is Some
}

/// What every operation of the arena does to slot `i`: it keeps the slot's
/// generation and stores no timer in it that was not there, or it allocates
/// in it, advancing the generation by one (wrapping).
pub open spec fn slot_step<C>(a: TimerArena<C>, b: TimerArena<C>, i: int) -> bool {
    ||| slot_generation(b, i) == slot_generation(a, i) && (slot_holds(b, i) ==> slot_holds(a, i))
    ||| slot_generation(b, i) == vstd::wrapping::u32_specs::wrapping_add(slot_generation(a, i), 1)
}

/// Along a run of arena states each reached from the one before by an
/// operation, slot `id_index(x)` has been allocated in `k` times after the
/// first state, where that state left it empty at `x`'s generation.
proof fn lemma_slot_after_removal<C>(run: Seq<TimerArena<C>>, x: u64, j: int) -> (k: nat)
    requires
        0 <= j < run.len(),
        slot_generation(run[0], id_index(x)) == id_generation(x),
        !slot_holds(run[0], id_index(x)),
        forall|n: int, i: int| 0 <= n < run.len() - 1 ==> #[trigger] slot_step(run[n], run[n + 1], i),
    ensures
        k <= j,
        slot_generation(run[j], id_index(x)) as int == (id_generation(x) + k) % 0x1_0000_0000,
        k == 0 ==> !slot_holds(run[j], id_index(x)),
    decreases j,
{
    let i = id_index(x);
    if j == 0 {
        0
    } else {
        let k0 = lemma_slot_after_removal(run, x, j - 1);
        let n = j - 1;
        assert(slot_step(run[n], run[n + 1], i));
        assert(n + 1 == j);
        if slot_generation(run[j], i) == slot_generation(run[j - 1], i) && (slot_holds(run[j], i)
            ==> slot_holds(run[j - 1], i)) {
            k0
        } else {
            let g = id_generation(x) as int;
            assert(0 <= (g + k0) % 0x1_0000_0000 < 0x1_0000_0000);
            assert(((g + k0) % 0x1_0000_0000 + 1) % 0x1_0000_0000 == (g + k0 + 1) % 0x1_0000_0000) by {
                vstd::arithmetic::div_mod::lemma_add_mod_noop(g + k0, 1, 0x1_0000_0000);
            }
            (k0 + 1) as nat
        }
    }
}

/// A removed timer's id stays dead through any later run of operations
/// (allocations, removals, enabling, disabling, collecting, taking and
/// applying results in any order): every operation keeps each slot's
/// generation, or advances it by one as it allocates there, so the id could
/// name a timer again only once its slot had been allocated 2^32 times. A
/// run of at most 2^32 states after the removal therefore never revives it.
pub proof fn lemma_removed_id_stays_dead_over_run<C>(run: Seq<TimerArena<C>>, x: u64)
    requires
        1 <= run.len() <= 0x1_0000_0000,
        slot_generation(run[0], id_index(x)) == id_generation(x),
        !slot_holds(run[0], id_index(x)),
        forall|n: int, i: int| 0 <= n < run.len() - 1 ==> #[trigger] slot_step(run[n], run[n + 1], i),
    ensures
        forall|j: int| 0 <= j < run.len() ==> !(#[trigger] run[j]).live(x),
{
    assert forall|j: int| 0 <= j < run.len() implies !(#[trigger] run[j]).live(x) by {
        let k = lemma_slot_after_removal(run, x, j);
        let g = id_generation(x) as int;
        if k > 0 {
            assert(k < 0x1_0000_0000);
            assert((g + k) % 0x1_0000_0000 != g) by {
                if g + k < 0x1_0000_0000 {
                    vstd::arithmetic::div_mod::lemma_small_mod((g + k) as nat, 0x1_0000_0000);
                } else {
                    vstd::arithmetic::div_mod::lemma_mod_sub_multiples_vanish((g + k - 0x1_0000_0000) as int, 0x1_0000_0000);
                    vstd::arithmetic::div_mod::lemma_small_mod((g + k - 0x1_0000_0000) as nat, 0x1_0000_0000);
                }
            }
        }
    }
}

/// Removing a timer leaves its slot empty at the timer's generation: the
/// first state of a run for `lemma_removed_id_stays_dead_over_run`.
pub proof fn lemma_removal_empties_slot<C>(a: TimerArena<C>, b: TimerArena<C>, x: u64)
    requires
        a.wf(),
        deallocated(a, b, x, true),
    ensures
        slot_generation(b, id_index(x)) == id_generation(x),
        !slot_holds(b, id_index(x)),
{
    assert(a.live(x));
}

impl<C> TimerArena<C> {
    /// Indices fit in the low half of an id; free slots hold no timer and
    /// appear once in the free list.
    pub open spec fn wf(&self) -> bool {
        &&& self.slots.len() < ID_INDEX_SPAN
        &&& forall|k: int|
            0 <= k < self.free_indices.len() ==> #[trigger] self.free_indices@[k] < self.slots.len()
                && self.slots@[self.free_indices@[k] as int].timer is None
        &&& self.free_indices@.no_duplicates()
    }

    /// Whether `id` names a timer held now.
    pub open spec fn live(&self, id: u64) -> bool {
        let i = id_index(id);
        &&& 0 <= i < self.slots.len()
        &&& self.slots@[i].generation == id_generation(id)
        &&& self.slots@[i].timer is Some
    }

    /// The timer `id` names.
    pub open spec fn entry(&self, id: u64) -> TimerEntry<C> {
        self.slots@[id_index(id)].timer.unwrap()
    }

    pub fn new() -> (a: Self)
        ensures
            a.wf(),
            a.slots@.len() == 0,
            a.free_indices@.len() == 0,
            a.fifo@.len() == 0,
            !a.stop,
            forall|t: u64| #[trigger] queue_sound(a, t),
    {
        TimerArena { slots: Vec::new(), free_indices: Vec::new(), fifo: VecDeque::new(), stop: false }
    }

    /// Stores `entry` in a free slot (reusing a freed one first) and returns
    /// its id; the slot's generation is advanced so that ids of earlier
    /// timers of that slot stay dead.
    pub fn allocate(&mut self, entry: TimerEntry<C>) -> (id: TimerId)
        requires
            old(self).wf(),
            old(self).slots.len() + 1 < ID_INDEX_SPAN,
        ensures
            allocated(*old(self), *final(self), entry, id),
            forall|i: int| #[trigger] slot_step(*old(self), *final(self), i),
            forall|t: u64|
                #[trigger] queue_sound(*old(self), t) && (forall|k: int|
                    0 <= k < old(self).fifo@.len() ==> entry_id(#[trigger] old(self).fifo@[k]) != id)
                    ==> queue_sound(*final(self), t),
    {
        let ghost before = *self;
        let r = self.allocate_step(entry);
        proof {
            assert forall|t: u64|
                #[trigger] queue_sound(before, t) && (forall|k: int|
                    0 <= k < before.fifo@.len() ==> entry_id(#[trigger] before.fifo@[k]) != r)
                    implies queue_sound(*self, t) by {
                lemma_timers_keep_queue_sound(before, *self, t, r, false);
            }
        }
        r
    }

    fn allocate_step(&mut self, entry: TimerEntry<C>) -> (id: TimerId)
        requires
            old(self).wf(),
            old(self).slots.len() + 1 < ID_INDEX_SPAN,
        ensures
            allocated(*old(self), *final(self), entry, id),
            forall|i: int| #[trigger] slot_step(*old(self), *final(self), i),
    {
        let index = match self.free_indices.pop() {
            Some(idx) => {
                proof {
                    assert(old(self).free_indices@[old(self).free_indices@.len() - 1] == idx);
                }
                idx
            },
            None => {
                let idx = self.slots.len();
                self.slots.push(Slot { generation: 0, timer: None });
                idx
            },
        };
        let ghost mid = self.slots@;
        let generation = self.slots[index].generation.wrapping_add(1);
        self.slots[index] = Slot { generation, timer: Some(entry) };
        let id = encode_id(generation, index);
        proof {
            assert forall|k: int| 0 <= k < self.free_indices.len() implies #[trigger] self.free_indices@[k]
                < self.slots.len() && self.slots@[self.free_indices@[k] as int].timer is None by {
                assert(self.free_indices@[k] == old(self).free_indices@[k]);
                if self.free_indices@[k] == index {
                    assert(old(self).free_indices@.no_duplicates());
                }
            }
            assert forall|x: u64| old(self).live(x) implies #[trigger] self.live(x) && self.entry(x)
                == old(self).entry(x) by {
                if id_index(x) == index {
                    let j = old(self).free_indices@.len() - 1;
                    assert(old(self).free_indices@[j] == index);
                }
            }
            assert forall|x: u64| x != id implies (#[trigger] self.live(x) <==> old(self).live(x)) by {
                if id_index(x) == index && self.live(x) {
                    assert(id_generation(x) == generation);
                    assert(x == make_id(generation, index as int)) by (nonlinear_arith)
                        requires
                            x % 0x1_0000_0000 == index,
                            x / 0x1_0000_0000 == generation,
                    ;
                }
                if id_index(x) == index && old(self).live(x) && index < old(self).slots.len() {
                    let j = old(self).free_indices@.len() - 1;
                    assert(old(self).free_indices@[j] == index);
                }
            }
            if index < old(self).slots.len() {
                let j = old(self).free_indices@.len() - 1;
                assert(old(self).free_indices@[j] == index);
            }
            assert(mid[index as int].generation == slot_generation(*old(self), index as int));
            assert forall|i: int| #[trigger] slot_step(*old(self), *self, i) by {
                if i != index && 0 <= i < old(self).slots.len() {
                    assert(self.slots@[i] == old(self).slots@[i]);
                }
            }
        }
        id
    }

    /// Removes the timer `id` names; `false` when it names none.
    pub fn deallocate(&mut self, id: TimerId) -> (removed: bool)
        requires
            old(self).wf(),
        ensures
            deallocated(*old(self), *final(self), id, removed),
            forall|x: u64| #[trigger] stays_off(*old(self), *final(self), x),
            forall|i: int| #[trigger] slot_step(*old(self), *final(self), i),
            forall|t: u64| #[trigger] queue_sound(*old(self), t) ==> queue_sound(*final(self), t),
    {
        let ghost before = *self;
        let r = self.deallocate_step(id);
        proof {
            assert forall|t: u64| #[trigger] queue_sound(before, t) implies queue_sound(*self, t) by {
                assert forall|k: int|
                    0 <= k < self.fifo@.len() && names_timer(*self, #[trigger] self.fifo@[k]) implies entry_id(
                    self.fifo@[k],
                ) != id by {
                    lemma_entry_id(*self, self.fifo@[k]);
                }
                lemma_timers_keep_queue_sound(before, *self, t, id, false);
            }
        }
        r
    }

    fn deallocate_step(&mut self, id: TimerId) -> (removed: bool)
        requires
            old(self).wf(),
        ensures
            deallocated(*old(self), *final(self), id, removed),
            forall|x: u64| #[trigger] stays_off(*old(self), *final(self), x),
            forall|i: int| #[trigger] slot_step(*old(self), *final(self), i),
    {
        let (generation, idx) = decode_id(id);
        if idx < self.slots.len() {
            if self.slots[idx].generation == generation && self.slots[idx].timer.is_some() {
                self.slots[idx] = Slot { generation, timer: None };
                self.free_indices.push(idx);
                proof {
                    assert forall|k: int| 0 <= k < self.free_indices.len() implies #[trigger] self.free_indices@[k]
                        < self.slots.len() && self.slots@[self.free_indices@[k] as int].timer is None by {
                        if k < old(self).free_indices.len() {
                            assert(self.free_indices@[k] == old(self).free_indices@[k]);
                        }
                    }
                    assert forall|a: int, b: int|
                        0 <= a < b < self.free_indices.len() implies self.free_indices@[a]
                        != self.free_indices@[b] by {
                        if b == old(self).free_indices.len() {
                            assert(old(self).slots@[idx as int].timer is Some);
                            assert(self.free_indices@[a] == old(self).free_indices@[a]);
                        } else {
                            assert(old(self).free_indices@.no_duplicates());
                        }
                    }
                    assert forall|x: u64| x != id implies (#[trigger] self.live(x) <==> old(self).live(x)) by {
                        if id_index(x) == idx && old(self).live(x) {
                            assert(x == make_id(generation, idx as int)) by (nonlinear_arith)
                                requires
                                    x % 0x1_0000_0000 == idx,
                                    x / 0x1_0000_0000 == generation,
                            ;
                            assert(id == make_id(generation, idx as int)) by (nonlinear_arith)
                                requires
                                    id % 0x1_0000_0000 == idx,
                                    id / 0x1_0000_0000 == generation,
                            ;
                        }
                    }
                    assert forall|i: int| #[trigger] slot_step(*old(self), *self, i) by {
                        if i != idx && 0 <= i < old(self).slots.len() {
                            assert(self.slots@[i] == old(self).slots@[i]);
                        }
                    }
                }
                return true;
            }
        }
        false
    }

    /// Turns on the timer `id` names; `false` when it names none.
    pub fn enable(&mut self, id: TimerId) -> (found: bool)
        requires
            old(self).wf(),
        ensures
            final(self).wf(),
            found == old(self).live(id),
            final(self).fifo@ == old(self).fifo@,
            final(self).stop == old(self).stop,
            final(self).free_indices@ == old(self).free_indices@,
            found ==> final(self).slots@ == old(self).slots@.update(
                id_index(id),
                Slot {
                    timer: Some(TimerEntry { enabled: true, ..old(self).entry(id) }),
                    ..old(self).slots@[id_index(id)]
                },
            ),
            !found ==> final(self).slots@ == old(self).slots@,
            forall|x: u64| x != id ==> #[trigger] stays_off(*old(self), *final(self), x),
            forall|i: int| #[trigger] slot_step(*old(self), *final(self), i),
            forall|t: u64| #[trigger] queue_sound(*old(self), t) ==> queue_sound(*final(self), t),
    {
        let ghost before = *self;
        let r = self.enable_step(id);
        proof {
            assert forall|i: int| #[trigger] slot_step(before, *self, i) by {
                if r && i != id_index(id) && 0 <= i < before.slots.len() {
                    assert(self.slots@[i] == before.slots@[i]);
                }
            }
            assert forall|t: u64| #[trigger] queue_sound(before, t) implies queue_sound(*self, t) by {
                lemma_timers_keep_queue_sound(before, *self, t, id, true);
            }
        }
        r
    }

    fn enable_step(&mut self, id: TimerId) -> (found: bool)
        requires
            old(self).wf(),
        ensures
            final(self).wf(),
            found == old(self).live(id),
            final(self).fifo@ == old(self).fifo@,
            final(self).stop == old(self).stop,
            final(self).free_indices@ == old(self).free_indices@,
            found ==> final(self).slots@ == old(self).slots@.update(
                id_index(id),
                Slot {
                    timer: Some(TimerEntry { enabled: true, ..old(self).entry(id) }),
                    ..old(self).slots@[id_index(id)]
                },
            ),
            !found ==> final(self).slots@ == old(self).slots@,
            forall|x: u64| x != id ==> #[trigger] stays_off(*old(self), *final(self), x),
    {
        self.set_enabled(id, true)
    }

    /// Turns off the timer `id` names; `false` when it names none.
    pub fn disable(&mut self, id: TimerId) -> (found: bool)
        requires
            old(self).wf(),
        ensures
            final(self).wf(),
            found == old(self).live(id),
            final(self).fifo@ == old(self).fifo@,
            final(self).stop == old(self).stop,
            final(self).free_indices@ == old(self).free_indices@,
            found ==> final(self).slots@ == old(self).slots@.update(
                id_index(id),
                Slot {
                    timer: Some(TimerEntry { enabled: false, ..old(self).entry(id) }),
                    ..old(self).slots@[id_index(id)]
                },
            ),
            !found ==> final(self).slots@ == old(self).slots@,
            forall|x: u64| #[trigger] stays_off(*old(self), *final(self), x),
            forall|i: int| #[trigger] slot_step(*old(self), *final(self), i),
            forall|t: u64| #[trigger] queue_sound(*old(self), t) ==> queue_sound(*final(self), t),
    {
        let ghost before = *self;
        let r = self.disable_step(id);
        proof {
            assert forall|i: int| #[trigger] slot_step(before, *self, i) by {
                if r && i != id_index(id) && 0 <= i < before.slots.len() {
                    assert(self.slots@[i] == before.slots@[i]);
                }
            }
            assert forall|t: u64| #[trigger] queue_sound(before, t) implies queue_sound(*self, t) by {
                lemma_timers_keep_queue_sound(before, *self, t, id, true);
            }
        }
        r
    }

    fn disable_step(&mut self, id: TimerId) -> (found: bool)
        requires
            old(self).wf(),
        ensures
            final(self).wf(),
            found == old(self).live(id),
            final(self).fifo@ == old(self).fifo@,
            final(self).stop == old(self).stop,
            final(self).free_indices@ == old(self).free_indices@,
            found ==> final(self).slots@ == old(self).slots@.update(
                id_index(id),
                Slot {
                    timer: Some(TimerEntry { enabled: false, ..old(self).entry(id) }),
                    ..old(self).slots@[id_index(id)]
                },
            ),
            !found ==> final(self).slots@ == old(self).slots@,
            forall|x: u64| #[trigger] stays_off(*old(self), *final(self), x),
    {
        self.set_enabled(id, false)
    }

    fn set_enabled(&mut self, id: TimerId, on: bool) -> (found: bool)
        requires
            old(self).wf(),
        ensures
            final(self).wf(),
            found == old(self).live(id),
            final(self).fifo@ == old(self).fifo@,
            final(self).stop == old(self).stop,
            final(self).free_indices@ == old(self).free_indices@,
            found ==> final(self).slots@ == old(self).slots@.update(
                id_index(id),
                Slot {
                    timer: Some(TimerEntry { enabled: on, ..old(self).entry(id) }),
                    ..old(self).slots@[id_index(id)]
                },
            ),
            !found ==> final(self).slots@ == old(self).slots@,
    {
        let (generation, idx) = decode_id(id);
        if idx < self.slots.len() && self.slots[idx].generation == generation {
            let slot = &mut self.slots[idx];
            match &mut slot.timer {
                Some(t) => {
                    t.enabled = on;
                    return true;
                },
                None => {},
            }
        }
        false
    }

    /// Queues, in slot order, every enabled timer that expired at `now` and
    /// is not queued yet.
    pub fn collect_expired(&mut self, now: u64)
        requires
            old(self).wf(),
        ensures
            final(self).wf(),
            final(self).slots@.len() == old(self).slots@.len(),
            forall|j: int|
                0 <= j < final(self).slots@.len() ==> #[trigger] final(self).slots@[j] == mark_queued(
                    old(self).slots@[j],
                    now,
                ),
            final(self).fifo@ == old(self).fifo@ + expired_entries(old(self).slots@, now, old(self).slots@.len() as int),
            final(self).free_indices@ == old(self).free_indices@,
            final(self).stop == old(self).stop,
            forall|x: u64| #[trigger] stays_off(*old(self), *final(self), x),
            forall|i: int| #[trigger] slot_step(*old(self), *final(self), i),
            forall|t: u64|
                #[trigger] queue_sound(*old(self), t) && t <= now ==> queue_sound(*final(self), now),
    {
        let n = self.slots.len();
        let mut index: usize = 0;
        while index < n
            invariant
                n == self.slots.len() == old(self).slots.len(),
                index <= n,
                self.free_indices@ == old(self).free_indices@,
                self.stop == old(self).stop,
                forall|j: int|
                    0 <= j < index ==> #[trigger] self.slots@[j] == mark_queued(old(self).slots@[j], now),
                forall|j: int| index <= j < n ==> #[trigger] self.slots@[j] == old(self).slots@[j],
                self.fifo@ == old(self).fifo@ + expired_entries(old(self).slots@, now, index as int),
                old(self).wf(),
            decreases n - index,
        {
            let generation = self.slots[index].generation;
            let expired = match &self.slots[index].timer {
                Some(t) => t.enabled && !t.in_fifo && t.next_expiration <= now,
                None => false,
            };
            if expired {
                let slot = &mut self.slots[index];
                match &mut slot.timer {
                    Some(t) => {
                        t.in_fifo = true;
                    },
                    None => {},
                }
                self.fifo.push_back((index, generation));
            }
            proof {
                assert(self.fifo@ =~= old(self).fifo@ + expired_entries(
                    old(self).slots@,
                    now,
                    index + 1,
                ));
            }
            index = index + 1;
        }
        proof {
            assert forall|k: int| 0 <= k < self.free_indices.len() implies #[trigger] self.free_indices@[k]
                < self.slots.len() && self.slots@[self.free_indices@[k] as int].timer is None by {
                let f = self.free_indices@[k] as int;
                assert(self.slots@[f] == mark_queued(old(self).slots@[f], now));
            }
            assert forall|t: u64| #[trigger] queue_sound(*old(self), t) && t <= now implies queue_sound(
                *self,
                now,
            ) by {
                lemma_collect_keeps_queue_sound(*old(self), *self, now, t);
            }
            assert forall|i: int| #[trigger] slot_step(*old(self), *self, i) by {
                if 0 <= i < n {
                    assert(self.slots@[i] == mark_queued(old(self).slots@[i], now));
                }
            }
        }
    }

    /// Takes the oldest queue entry. When it still names an enabled timer,
    /// the timer's callback is taken out and returned for running; the timer
    /// leaves the queue either way.
    pub fn take_due(&mut self) -> (due: Option<DueTimer<C>>)
        requires
            old(self).wf(),
        ensures
            final(self).wf(),
            final(self).free_indices@ == old(self).free_indices@,
            final(self).stop == old(self).stop,
            final(self).slots@.len() == old(self).slots@.len(),
            old(self).fifo@.len() == 0 ==> due is None && final(self).fifo@ == old(self).fifo@
                && final(self).slots@ == old(self).slots@,
            old(self).fifo@.len() > 0 ==> {
                let (i, g) = old(self).fifo@[0];
                let s = old(self).slots@[i as int];
                &&& final(self).fifo@ == old(self).fifo@.drop_first()
                &&& if i < old(self).slots.len() && s.generation == g && s.timer is Some {
                    let t = s.timer.unwrap();
                    &&& final(self).slots@ == old(self).slots@.update(
                        i as int,
                        Slot {
                            timer: Some(
                                TimerEntry {
                                    in_fifo: false,
                                    callback: if t.enabled {
                                        None
                                    } else {
                                        t.callback
                                    },
                                    ..t
                                },
                            ),
                            ..s
                        },
                    )
                    &&& if t.enabled {
                        due matches Some(d) && d.index == i && d.generation == g && d.callback
                            == t.callback
                    } else {
                        due is None
                    }
                } else {
                    final(self).slots@ == old(self).slots@ && due is None
                }
            },
            forall|x: u64| #[trigger] stays_off(*old(self), *final(self), x),
            handed_out_enabled(*old(self), due),
            forall|i: int| #[trigger] slot_step(*old(self), *final(self), i),
            forall|t: u64|
                #[trigger] queue_sound(*old(self), t) ==> queue_sound(*final(self), t) && (due matches Some(
                    d,
                ) ==> old(self).entry(entry_id((d.index, d.generation))).next_expiration <= t),
    {
        let ghost before = *self;
        let r = self.take_due_step();
        proof {
            assert forall|i: int| #[trigger] slot_step(before, *self, i) by {
                if before.fifo@.len() > 0 && 0 <= i < before.slots.len() {
                    let h = before.fifo@[0];
                    if i != h.0 as int {
                        assert(self.slots@[i] == before.slots@[i]);
                    }
                }
            }
            assert forall|t: u64| #[trigger] queue_sound(before, t) implies queue_sound(*self, t) && (
            r matches Some(d) ==> before.entry(entry_id((d.index, d.generation))).next_expiration <= t) by {
                if before.fifo@.len() > 0 {
                    let h = before.fifo@[0];
                    lemma_entry_id(before, h);
                    if names_timer(before, h) {
                        let i = h.0 as int;
                        assert forall|j: int| 0 <= j < before.slots@.len() && j != i implies #[trigger] self.slots@[j]
                            == before.slots@[j] by {}
                    }
                    lemma_take_keeps_queue_sound(before, *self, t);
                }
            }
        }
        r
    }

    fn take_due_step(&mut self) -> (due: Option<DueTimer<C>>)
        requires
            old(self).wf(),
        ensures
            final(self).wf(),
            final(self).free_indices@ == old(self).free_indices@,
            final(self).stop == old(self).stop,
            final(self).slots@.len() == old(self).slots@.len(),
            old(self).fifo@.len() == 0 ==> due is None && final(self).fifo@ == old(self).fifo@
                && final(self).slots@ == old(self).slots@,
            old(self).fifo@.len() > 0 ==> {
                let (i, g) = old(self).fifo@[0];
                let s = old(self).slots@[i as int];
                &&& final(self).fifo@ == old(self).fifo@.drop_first()
                &&& if i < old(self).slots.len() && s.generation == g && s.timer is Some {
                    let t = s.timer.unwrap();
                    &&& final(self).slots@ == old(self).slots@.update(
                        i as int,
                        Slot {
                            timer: Some(
                                TimerEntry {
                                    in_fifo: false,
                                    callback: if t.enabled {
                                        None
                                    } else {
                                        t.callback
                                    },
                                    ..t
                                },
                            ),
                            ..s
                        },
                    )
                    &&& if t.enabled {
                        due matches Some(d) && d.index == i && d.generation == g && d.callback
                            == t.callback
                    } else {
                        due is None
                    }
                } else {
                    final(self).slots@ == old(self).slots@ && due is None
                }
            },
            forall|x: u64| #[trigger] stays_off(*old(self), *final(self), x),
            handed_out_enabled(*old(self), due),
    {
        match self.fifo.pop_front() {
            None => None,
            Some((idx, generation)) => {
                if idx < self.slots.len() && self.slots[idx].generation == generation {
                    let slot = &mut self.slots[idx];
                    match &mut slot.timer {
                        Some(t) => {
                            let mut result = None;
                            if t.enabled {
                                let cb = t.callback.take();
                                result = Some(DueTimer { index: idx, generation, callback: cb });
                            }
                            t.in_fifo = false;
                            result
                        },
                        None => None,
                    }
                } else {
                    None
                }
            },
        }
    }

    /// Earliest expiration among enabled timers that are not queued.
    pub fn next_wakeup(&self) -> (w: Option<u64>)
        ensures
            w == earliest_wakeup(self.slots@, self.slots@.len() as int),
    {
        let mut next: Option<u64> = None;
        let mut i: usize = 0;
        while i < self.slots.len()
            invariant
                i <= self.slots.len(),
                next == earliest_wakeup(self.slots@, i as int),
            decreases self.slots.len() - i,
        {
            match &self.slots[i].timer {
                Some(t) => {
                    if t.enabled && !t.in_fifo {
                        next = match next {
                            Some(w) => if t.next_expiration < w {
                                Some(t.next_expiration)
                            } else {
                                Some(w)
                            },
                            None => Some(t.next_expiration),
                        };
                    }
                },
                None => {},
            }
            i = i + 1;
        }
        next
    }

    /// Puts the callback of a timer that has run back in its slot and applies
    /// what the callback returned (see `TimerReturn`). Nothing changes when
    /// the timer was removed meanwhile. Times saturate at `u64::MAX`.
    pub fn apply_result(&mut self, index: usize, generation: u32, cb: C, result: TimerReturn, now: u64)
        requires
            old(self).wf(),
            index < ID_INDEX_SPAN,
        ensures
            final(self).wf(),
            final(self).fifo@ == old(self).fifo@,
            final(self).stop == old(self).stop,
            final(self).slots.len() == old(self).slots.len(),
            ({
                let id = make_id(generation, index as int);
                if old(self).live(id) {
                    let t = old(self).entry(id);
                    match result {
                        TimerReturn::Continue => match t.period {
                            Some(p) => final(self).live(id) && final(self).entry(id) == TimerEntry {
                                next_expiration: sat_add(t.next_expiration, p),
                                callback: Some(cb),
                                ..t
                            },
                            None => !final(self).live(id),
                        },
                        TimerReturn::Disable => final(self).live(id) && final(self).entry(id) == TimerEntry {
                            enabled: false,
                            callback: Some(cb),
                            ..t
                        },
                        TimerReturn::Delete => !final(self).live(id),
                        TimerReturn::RescheduleOneShot(d) => final(self).live(id) && final(self).entry(id)
                            == TimerEntry {
                            next_expiration: sat_add(now, d),
                            period: None,
                            callback: Some(cb),
                            ..t
                        },
                        TimerReturn::RescheduleRecurring(p) => final(self).live(id) && final(self).entry(id)
                            == TimerEntry {
                            next_expiration: sat_add(t.next_expiration, p),
                            period: Some(p),
                            callback: Some(cb),
                            ..t
                        },
                    }
                } else {
                    final(self).slots@ == old(self).slots@
                }
            }),
            forall|x: u64|
                x != make_id(generation, index as int) ==> (#[trigger] final(self).live(x) <==> old(
                    self,
                ).live(x)) && (old(self).live(x) ==> final(self).entry(x) == old(self).entry(x)),
            forall|x: u64| #[trigger] stays_off(*old(self), *final(self), x),
            forall|i: int| #[trigger] slot_step(*old(self), *final(self), i),
            forall|t: u64|
                #[trigger] queue_sound(*old(self), t) && (old(self).live(make_id(generation, index as int))
                    ==> !old(self).entry(make_id(generation, index as int)).in_fifo) ==> queue_sound(
                    *final(self),
                    t,
                ),
    {
        let id = encode_id(generation, index);
        if index < self.slots.len() && self.slots[index].generation == generation
            && self.slots[index].timer.is_some() {
            let ghost t = old(self).entry(id);
            let slot = &mut self.slots[index];
            let mut delete = false;
            match &mut slot.timer {
                Some(t) => {
                    t.callback = Some(cb);
                    match result {
                        TimerReturn::Continue => {
                            match t.period {
                                Some(period) => {
                                    t.next_expiration = t.next_expiration.saturating_add(period);
                                },
                                None => {
                                    delete = true;
                                },
                            }
                        },
                        TimerReturn::Disable => {
                            t.enabled = false;
                        },
                        TimerReturn::Delete => {
                            delete = true;
                        },
                        TimerReturn::RescheduleOneShot(new_delay) => {
                            t.next_expiration = now.saturating_add(new_delay);
                            t.period = None;
                        },
                        TimerReturn::RescheduleRecurring(new_period) => {
                            t.period = Some(new_period);
                            t.next_expiration = t.next_expiration.saturating_add(new_period);
                        },
                    }
                },
                None => {},
            }
            proof {
                assert forall|k: int| 0 <= k < self.free_indices.len() implies #[trigger] self.free_indices@[k]
                    < self.slots.len() && self.slots@[self.free_indices@[k] as int].timer is None by {
                    assert(old(self).free_indices@[k] != index);
                }
                assert forall|x: u64| x != id implies (#[trigger] self.live(x) <==> old(self).live(x))
                    && (old(self).live(x) ==> self.entry(x) == old(self).entry(x)) by {
                    if id_index(x) == index && old(self).live(x) {
                        assert(x == make_id(generation, index as int)) by (nonlinear_arith)
                            requires
                                x % 0x1_0000_0000 == index,
                                x / 0x1_0000_0000 == generation,
                        ;
                    }
                }
            }
            let ghost mid = *self;
            assert forall|i: int| #[trigger] slot_step(*old(self), mid, i) by {
                if i != index && 0 <= i < old(self).slots.len() {
                    assert(mid.slots@[i] == old(self).slots@[i]);
                }
            }
            if delete {
                self.deallocate(id);
                assert forall|i: int| #[trigger] slot_step(*old(self), *self, i) by {
                    assert(slot_step(*old(self), mid, i));
                    assert(slot_step(mid, *self, i));
                    assert(slot_generation(*self, i) == slot_generation(mid, i));
                }
            }
        }
        proof {
            lemma_apply_keeps_queue_sound(*old(self), *self, id);
        }
    }
}

} // verus!

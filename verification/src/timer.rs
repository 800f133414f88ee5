//! Simple programmable timer: a free-running 32-bit counter (register 0x00)
//! advanced by the clock while running, and a target register (0x04).
use vstd::prelude::*;
use crate::traits::BusStatus;

verus! {

pub const TIMER_REG_COUNTER: u32 = 0x00;
pub const TIMER_REG_TARGET: u32 = 0x04;

/// Registers of the timer.
#[derive(Debug, Clone, Copy, PartialEq, Eq, Structural)]
pub struct TimerState {
    pub clock: u64,
    pub running: bool,
    pub counter: u32,
    pub target: u32,
}

/// The timer after `cycles` cycles: a running timer's clock counts them and
/// its counter advances by them modulo 2^32; a stopped timer does not move.
pub open spec fn step_spec(s: TimerState, cycles: u64) -> TimerState {
    if s.running {
        TimerState {
            clock: (s.clock + cycles) as u64,
            counter: ((s.counter + cycles) % 0x1_0000_0000) as u32,
            ..s
        }
    } else {
        s
    }
}

/// Stepping keeps the counter in step with the clock: their difference
/// modulo 2^32 does not change, so a counter that started with the clock
/// keeps reading the clock's low 32 bits until it is written.
pub proof fn lemma_counter_follows_clock(s: TimerState, cycles: u64)
    requires
        s.running ==> s.clock + cycles <= u64::MAX,
    ensures
        (step_spec(s, cycles).counter - step_spec(s, cycles).clock) % 0x1_0000_0000 == (s.counter
            - s.clock) % 0x1_0000_0000,
{
    if s.running {
        let c = s.counter as int;
        let k = s.clock as int;
        let n = cycles as int;
        assert(((c + n) % 0x1_0000_0000 - (k + n)) % 0x1_0000_0000 == (c - k) % 0x1_0000_0000) by {
            vstd::arithmetic::div_mod::lemma_fundamental_div_mod(c + n, 0x1_0000_0000);
            let q = (c + n) / 0x1_0000_0000;
            assert((c + n) % 0x1_0000_0000 - (k + n) == (c - k) + (-q) * 0x1_0000_0000);
            vstd::arithmetic::div_mod::lemma_mod_multiples_vanish(-q, c - k, 0x1_0000_0000);
        }
    }
}

/// Value of a 32-bit read of register `addr`.
pub open spec fn read32_spec(s: TimerState, addr: u32) -> BusStatus {
    if addr == TIMER_REG_COUNTER {
        BusStatus::Data(s.counter)
    } else if addr == TIMER_REG_TARGET {
        BusStatus::Data(s.target)
    } else {
        BusStatus::Error
    }
}

/// State after a 32-bit write of register `addr`.
pub open spec fn write32_spec(s: TimerState, addr: u32, val: u32) -> TimerState {
    if addr == TIMER_REG_COUNTER {
        TimerState { counter: val, ..s }
    } else if addr == TIMER_REG_TARGET {
        TimerState { target: val, ..s }
    } else {
        s
    }
}

impl TimerState {
    /// A stopped timer with all registers zero.
    pub fn new() -> (s: Self)
        ensures
            s == (TimerState { clock: 0, running: false, counter: 0, target: 0 }),
    {
        TimerState { clock: 0, running: false, counter: 0, target: 0 }
    }

    /// Advances a running timer by `cycles`: the clock counts them, the
    /// counter wraps at 32 bits. A stopped timer does not move.
    pub fn step(&mut self, cycles: u64)
        requires
            old(self).running ==> old(self).clock + cycles <= u64::MAX,
        ensures
            *final(self) == step_spec(*old(self), cycles),
    {
        if self.running {
            self.clock = self.clock + cycles;
            let c = self.counter;
            let lo = cycles as u32;
            assert(lo == cycles % 0x1_0000_0000) by (bit_vector)
                requires
                    lo == cycles as u32,
            ;
            self.counter = c.wrapping_add(lo);
        }
    }

    pub fn stop(&mut self)
        ensures
            *final(self) == (TimerState { running: false, ..*old(self) }),
    {
        self.running = false;
    }

    pub fn start(&mut self)
        ensures
            *final(self) == (TimerState { running: true, ..*old(self) }),
    {
        self.running = true;
    }

    pub fn is_running(&self) -> (b: bool)
        ensures
            b == self.running,
    {
        self.running
    }

    pub fn get_clock(&self) -> (c: u64)
        ensures
            c == self.clock,
    {
        self.clock
    }

    /// 32-bit read: the counter at 0x00, the target at 0x04, an error
    /// elsewhere.
    pub fn read32(&self, addr: u32) -> (r: BusStatus)
        ensures
            r == read32_spec(*self, addr),
    {
        match addr {
            TIMER_REG_COUNTER => BusStatus::Data(self.counter),
            TIMER_REG_TARGET => BusStatus::Data(self.target),
            _ => BusStatus::Error,
        }
    }

    /// 32-bit write of the counter (0x00) or the target (0x04); an error
    /// elsewhere.
    pub fn write32(&mut self, addr: u32, val: u32) -> (r: BusStatus)
        ensures
            *final(self) == write32_spec(*old(self), addr, val),
            r == (if addr == TIMER_REG_COUNTER || addr == TIMER_REG_TARGET {
                BusStatus::Ready
            } else {
                BusStatus::Error
            }),
    {
        match addr {
            TIMER_REG_COUNTER => self.counter = val,
            TIMER_REG_TARGET => self.target = val,
            _ => {
                return BusStatus::Error;
            },
        }
        BusStatus::Ready
    }

    /// 64-bit read of two consecutive registers, the first in the high
    /// half; an error when either is not readable.
    pub fn read64(&self, addr: u32) -> (r: BusStatus)
        ensures
            r == (match (read32_spec(*self, addr), read32_spec(*self, (addr + 4) as u32)) {
                (BusStatus::Data(h), BusStatus::Data(l)) => BusStatus::Data64(
                    (h as int * 0x1_0000_0000 + l as int) as u64,
                ),
                _ => BusStatus::Error,
            }),
    {
        let high = match self.read32(addr) {
            BusStatus::Data(val) => val as u64,
            _ => {
                return BusStatus::Error;
            },
        };
        let low = match self.read32(addr + 4) {
            BusStatus::Data(val) => val as u64,
            _ => {
                return BusStatus::Error;
            },
        };
        assert((high << 32u64) | low == high * 0x1_0000_0000 + low) by (bit_vector)
            requires
                high < 0x1_0000_0000,
                low < 0x1_0000_0000,
        ;
        BusStatus::Data64((high << 32u64) | low)
    }

    /// 64-bit write to two consecutive registers, the high half first; an
    /// error when either is not writable (the first write stays done).
    pub fn write64(&mut self, addr: u32, val: u64) -> (r: BusStatus)
        ensures
            ({
                let high = (val / 0x1_0000_0000) as u32;
                let low = (val % 0x1_0000_0000) as u32;
                let first_ok = addr == TIMER_REG_COUNTER || addr == TIMER_REG_TARGET;
                let second = (addr + 4) as u32;
                let second_ok = second == TIMER_REG_COUNTER || second == TIMER_REG_TARGET;
                if !first_ok {
                    r == BusStatus::Error && *final(self) == *old(self)
                } else {
                    *final(self) == write32_spec(write32_spec(*old(self), addr, high), second, low)
                        && r == (if second_ok {
                        BusStatus::Ready
                    } else {
                        BusStatus::Error
                    })
                }
            }),
    {
        let high = (val >> 32u64) as u32;
        let low = val as u32;
        assert(high == val / 0x1_0000_0000 && low == val % 0x1_0000_0000) by (bit_vector)
            requires
                high == (val >> 32u64) as u32,
                low == val as u32,
        ;
        if self.write32(addr, high) == BusStatus::Error {
            return BusStatus::Error;
        }
        self.write32(addr + 4, low)
    }
}

} // verus!

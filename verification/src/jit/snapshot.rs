//! CPU snapshot taken before a speculative block runs, so that a block that
//! misbehaves can be rolled back.
use vstd::prelude::*;
use crate::mips::{MipsCore, MipsExecutor, MipsTlb, NanoTlbEntry, CP0_CAUSE, CP0_STATUS, CP0_WIRED};

verus! {

pub const CP0_ENTRYLO0: usize = 2;
pub const CP0_ENTRYLO1: usize = 3;
pub const CP0_CONTEXT: usize = 4;
pub const CP0_PAGEMASK: usize = 5;
pub const CP0_BADVADDR: usize = 8;
pub const CP0_COUNT: usize = 9;
pub const CP0_ENTRYHI: usize = 10;
pub const CP0_COMPARE: usize = 11;
pub const CP0_EPC: usize = 14;

/// Complete CPU snapshot for rollback of a speculative block.
pub struct CpuRollbackSnapshot {
    pub gpr: [u64; 32],
    pub pc: u64,
    pub hi: u64,
    pub lo: u64,
    pub cp0_status: u32,
    pub cp0_cause: u32,
    pub cp0_epc: u64,
    pub cp0_count: u64,
    pub cp0_compare: u64,
    pub cp0_badvaddr: u64,
    pub cp0_entryhi: u64,
    pub cp0_context: u64,
    pub cp0_wired: u32,
    pub cp0_entrylo0: u64,
    pub cp0_entrylo1: u64,
    pub cp0_pagemask: u64,
    pub nanotlb: [NanoTlbEntry; 3],
    pub in_delay_slot: bool,
    pub delay_slot_target: u64,
    pub cached_pending: u64,
    pub interrupt_check_counter: u8,
    pub tlb: MipsTlb,
}

/// The CP0 registers a snapshot keeps.
pub open spec fn saved_cp0(i: int) -> bool {
    i == CP0_STATUS || i == CP0_CAUSE || i == CP0_EPC || i == CP0_COUNT || i == CP0_COMPARE || i
        == CP0_BADVADDR || i == CP0_ENTRYHI || i == CP0_CONTEXT || i == CP0_WIRED || i
        == CP0_ENTRYLO0 || i == CP0_ENTRYLO1 || i == CP0_PAGEMASK
}

impl CpuRollbackSnapshot {
    /// The value the snapshot keeps for CP0 register `i` (one of
    /// `saved_cp0`).
    pub open spec fn cp0_value(&self, i: int) -> u64 {
        if i == CP0_STATUS {
            self.cp0_status as u64
        } else if i == CP0_CAUSE {
            self.cp0_cause as u64
        } else if i == CP0_EPC {
            self.cp0_epc
        } else if i == CP0_COUNT {
            self.cp0_count
        } else if i == CP0_COMPARE {
            self.cp0_compare
        } else if i == CP0_BADVADDR {
            self.cp0_badvaddr
        } else if i == CP0_ENTRYHI {
            self.cp0_entryhi
        } else if i == CP0_CONTEXT {
            self.cp0_context
        } else if i == CP0_WIRED {
            self.cp0_wired as u64
        } else if i == CP0_ENTRYLO0 {
            self.cp0_entrylo0
        } else if i == CP0_ENTRYLO1 {
            self.cp0_entrylo1
        } else {
            self.cp0_pagemask
        }
    }

    /// Whether the snapshot holds exactly the state of `e`, with TLB `tlb`.
    pub open spec fn matches(&self, e: MipsExecutor, tlb: Seq<crate::mips::TlbEntry>) -> bool {
        &&& self.gpr == e.core.gpr
        &&& self.pc == e.core.pc
        &&& self.hi == e.core.hi
        &&& self.lo == e.core.lo
        &&& forall|i: int| #[trigger] saved_cp0(i) ==> self.cp0_value(i) == e.core.cp0[i]
        &&& self.nanotlb == e.nanotlb
        &&& self.in_delay_slot == e.in_delay_slot
        &&& self.delay_slot_target == e.delay_slot_target
        &&& self.cached_pending == e.cached_pending
        &&& self.interrupt_check_counter == e.interrupt_check_counter
        &&& self.tlb.entries@ == tlb
    }

    /// Captures the CPU state of `exec`, with `tlb` as its TLB. Call right
    /// before running a speculative block.
    pub fn capture(exec: &MipsExecutor, tlb: MipsTlb) -> (s: Self)
        requires
            exec.core.wf(),
        ensures
            s.matches(*exec, tlb.entries@),
    {
        let c = &exec.core;
        CpuRollbackSnapshot {
            gpr: c.gpr,
            pc: c.pc,
            hi: c.hi,
            lo: c.lo,
            cp0_status: c.cp0[CP0_STATUS] as u32,
            cp0_cause: c.cp0[CP0_CAUSE] as u32,
            cp0_epc: c.cp0[CP0_EPC],
            cp0_count: c.cp0[CP0_COUNT],
            cp0_compare: c.cp0[CP0_COMPARE],
            cp0_badvaddr: c.cp0[CP0_BADVADDR],
            cp0_entryhi: c.cp0[CP0_ENTRYHI],
            cp0_context: c.cp0[CP0_CONTEXT],
            cp0_wired: c.cp0[CP0_WIRED] as u32,
            cp0_entrylo0: c.cp0[CP0_ENTRYLO0],
            cp0_entrylo1: c.cp0[CP0_ENTRYLO1],
            cp0_pagemask: c.cp0[CP0_PAGEMASK],
            nanotlb: exec.nanotlb,
            in_delay_slot: exec.in_delay_slot,
            delay_slot_target: exec.delay_slot_target,
            cached_pending: exec.cached_pending,
            interrupt_check_counter: exec.interrupt_check_counter,
            tlb,
        }
    }

    /// Puts the saved state back into `exec`; what the snapshot does not
    /// keep (floating-point registers, other CP0 registers) stays as it is.
    pub fn restore(&self, exec: &mut MipsExecutor)
        requires
            old(exec).core.wf(),
        ensures
            final(exec).core.wf(),
            self.matches(*final(exec), self.tlb.entries@),
            final(exec).tlb.entries@ == self.tlb.entries@,
            final(exec).core.fpr == old(exec).core.fpr,
            forall|i: int| 0 <= i < 32 && !saved_cp0(i) ==> final(exec).core.cp0[i] == old(
                exec,
            ).core.cp0[i],
    {
        exec.core.gpr = self.gpr;
        exec.core.pc = self.pc;
        exec.core.hi = self.hi;
        exec.core.lo = self.lo;
        exec.core.cp0[CP0_STATUS] = self.cp0_status as u64;
        exec.core.cp0[CP0_CAUSE] = self.cp0_cause as u64;
        exec.core.cp0[CP0_EPC] = self.cp0_epc;
        exec.core.cp0[CP0_COUNT] = self.cp0_count;
        exec.core.cp0[CP0_COMPARE] = self.cp0_compare;
        exec.core.cp0[CP0_BADVADDR] = self.cp0_badvaddr;
        exec.core.cp0[CP0_ENTRYHI] = self.cp0_entryhi;
        exec.core.cp0[CP0_CONTEXT] = self.cp0_context;
        exec.core.cp0[CP0_WIRED] = self.cp0_wired as u64;
        exec.core.cp0[CP0_ENTRYLO0] = self.cp0_entrylo0;
        exec.core.cp0[CP0_ENTRYLO1] = self.cp0_entrylo1;
        exec.core.cp0[CP0_PAGEMASK] = self.cp0_pagemask;
        exec.nanotlb = self.nanotlb;
        exec.in_delay_slot = self.in_delay_slot;
        exec.delay_slot_target = self.delay_slot_target;
        exec.cached_pending = self.cached_pending;
        exec.interrupt_check_counter = self.interrupt_check_counter;
        exec.tlb = self.tlb.duplicate();
    }

    /// Bitmask of the general registers that differ between the snapshot
    /// and `exec` (bit i set = register i changed).
    pub fn compare_gprs(&self, exec: &MipsExecutor) -> (mask: u32)
        ensures
            forall|k: u32|
                k < 32 ==> (#[trigger] ((mask >> k) & 1) == 1) == (self.gpr[k as int]
                    != exec.core.gpr[k as int]),
    {
        let mut mask = 0u32;
        let mut i: u32 = 0;
        assert(forall|k: u32| k < 32 ==> (#[trigger] ((0u32 >> k) & 1) == 1) == false) by (bit_vector);
        while i < 32
            invariant
                i <= 32,
                forall|k: u32|
                    k < 32 ==> (#[trigger] ((mask >> k) & 1) == 1) == (k < i && self.gpr[k as int]
                        != exec.core.gpr[k as int]),
            decreases 32 - i,
        {
            if self.gpr[i as usize] != exec.core.gpr[i as usize] {
                let m0 = mask;
                mask |= 1u32 << i;
                assert forall|k: u32| k < 32 implies ((mask >> k) & 1 == 1) == (((m0 >> k) & 1 == 1)
                    || k == i) by {
                    let m = mask;
                    assert(((m >> k) & 1 == 1) == (((m0 >> k) & 1 == 1) || k == i)) by (bit_vector)
                        requires
                            m == m0 | (1u32 << i),
                            i < 32,
                            k < 32,
                    ;
                }
            }
            i = i + 1;
        }
        mask
    }
}

/// Rolling back to a snapshot of an executor gives back every piece of
/// state the snapshot keeps; when the block left the rest (floating-point
/// registers, the CP0 registers not kept) alone, the executor is exactly as
/// it was at the capture.
pub proof fn lemma_restore_undoes(s: CpuRollbackSnapshot, before: MipsExecutor, after: MipsExecutor)
    requires
        s.matches(before, before.tlb.entries@),
        s.matches(after, s.tlb.entries@),
        after.tlb.entries@ == s.tlb.entries@,
        before.core.fpr == after.core.fpr,
        before.core.wf(),
        forall|i: int| 0 <= i < 32 && !saved_cp0(i) ==> after.core.cp0[i] == before.core.cp0[i],
    ensures
        after.core.gpr == before.core.gpr,
        after.core.pc == before.core.pc,
        after.core.hi == before.core.hi,
        after.core.lo == before.core.lo,
        after.core.cp0@ == before.core.cp0@,
        after.core.fpr == before.core.fpr,
        after.nanotlb == before.nanotlb,
        after.in_delay_slot == before.in_delay_slot,
        after.delay_slot_target == before.delay_slot_target,
        after.cached_pending == before.cached_pending,
        after.interrupt_check_counter == before.interrupt_check_counter,
        after.tlb.entries@ == before.tlb.entries@,
{
    assert forall|i: int| 0 <= i < 32 implies after.core.cp0@[i] == before.core.cp0@[i] by {
        if saved_cp0(i) {
            assert(s.cp0_value(i) == after.core.cp0[i]);
            assert(s.cp0_value(i) == before.core.cp0[i]);
        }
    }
    assert(after.core.cp0@ =~= before.core.cp0@);
}

} // verus!

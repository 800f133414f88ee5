use iris_devices::jit::dispatch::{
    advance_count, chain_after, dispatch_step, is_compilable_for_tier, max_helpers_for,
    max_tier_from_setting, miss_compile_tier, needs_snapshot, probe_allowed, BlockTracer,
    DispatchAction, HostArch, RunOutcome, TracePhase, CAUSE_IP7, MAX_BLOCK_LEN,
};
use iris_devices::jit::profile::{decode_profile, encode_profile, entries_to_save, ProfileEntry, ProfileError};
use iris_devices::jit::snapshot::CpuRollbackSnapshot;
use iris_devices::jit::tier::{after_clean_run, after_exception, BlockStats, BlockTier, TierChange};
use iris_devices::mips::{decode, MipsCore, MipsExecutor, MipsTlb, NanoTlbEntry, TlbEntry};

const ADDIU: u32 = 0x2508_0001; // addiu t0, t0, 1
const LW: u32 = 0x8D09_0000; // lw t1, 0(t0)
const SW: u32 = 0xAD09_0000; // sw t1, 0(t0)
const BEQ: u32 = 0x1000_FFFD; // beq zero, zero, -3
const SYSCALL: u32 = 0x0000_000C;

#[test]
fn tiers_rank_promote_and_demote() {
    assert_eq!(BlockTier::Alu.rank(), 0);
    assert_eq!(BlockTier::Full.rank(), 2);
    assert_eq!(BlockTier::from_rank(1), Some(BlockTier::Loads));
    assert_eq!(BlockTier::from_rank(3), None);
    assert_eq!(BlockTier::Alu.promote(), Some(BlockTier::Loads));
    assert_eq!(BlockTier::Full.promote(), None);
    assert_eq!(BlockTier::Full.demote(), Some(BlockTier::Loads));
    assert_eq!(BlockTier::Alu.demote(), None);
    assert_eq!(BlockTier::Loads.promote().and_then(|t| t.demote()), Some(BlockTier::Loads));
}

#[test]
fn speculative_block_becomes_trusted_then_promoted() {
    let mut s = BlockStats::new(BlockTier::Alu);
    let mut changes = Vec::new();
    for _ in 0..200 {
        let (n, c) = after_clean_run(s, BlockTier::Full);
        s = n;
        changes.push(c);
    }
    // Trusted after the stable threshold, promoted at the promote threshold.
    assert!(!s.speculative);
    assert_eq!(s.stable_hits, 200);
    assert_eq!(s.hit_count, 200);
    assert_eq!(changes[198], TierChange::Keep);
    assert_eq!(changes[199], TierChange::Promote(BlockTier::Loads));
}

#[test]
fn promotion_respects_the_cap() {
    let s = BlockStats { tier: BlockTier::Loads, speculative: false, hit_count: 0, stable_hits: 199, exception_count: 0 };
    let (_, c) = after_clean_run(s, BlockTier::Loads);
    assert_eq!(c, TierChange::Keep);
    let (_, c) = after_clean_run(s, BlockTier::Full);
    assert_eq!(c, TierChange::Promote(BlockTier::Full));
}

#[test]
fn exceptions_demote_after_threshold() {
    let mut s = BlockStats::new(BlockTier::Full);
    let (n, c) = after_exception(s);
    assert_eq!(c, TierChange::Keep);
    s = n;
    let (n, c) = after_exception(s);
    assert_eq!(c, TierChange::Keep);
    s = n;
    let (n, c) = after_exception(s);
    assert_eq!(c, TierChange::Demote(BlockTier::Loads));
    assert_eq!(n.exception_count, 3);
    assert_eq!(n.stable_hits, 0);
    // At the lowest tier the block stops being speculative instead.
    let s = BlockStats { tier: BlockTier::Alu, speculative: true, hit_count: 5, stable_hits: 4, exception_count: 2 };
    let (n, c) = after_exception(s);
    assert_eq!(c, TierChange::Keep);
    assert!(!n.speculative);
}

#[test]
fn clean_run_clears_exceptions() {
    let s = BlockStats { tier: BlockTier::Loads, speculative: true, hit_count: 1, stable_hits: 0, exception_count: 2 };
    let (n, c) = after_clean_run(s, BlockTier::Full);
    assert_eq!(c, TierChange::Keep);
    assert_eq!(n.exception_count, 0);
    assert_eq!(n.stable_hits, 1);
}

#[test]
fn compilability_by_tier() {
    assert!(is_compilable_for_tier(&decode(ADDIU), BlockTier::Alu));
    assert!(is_compilable_for_tier(&decode(BEQ), BlockTier::Alu));
    assert!(!is_compilable_for_tier(&decode(LW), BlockTier::Alu));
    assert!(is_compilable_for_tier(&decode(LW), BlockTier::Loads));
    assert!(!is_compilable_for_tier(&decode(SW), BlockTier::Loads));
    assert!(is_compilable_for_tier(&decode(SW), BlockTier::Full));
    assert!(!is_compilable_for_tier(&decode(SYSCALL), BlockTier::Full));
}

#[test]
fn tracer_stops_after_branch_delay_slot() {
    let mut t = BlockTracer::new(0x8000_1000, BlockTier::Alu, 1);
    assert_eq!(t.next_pc(), Some(0x8000_1000));
    t.feed(Some(ADDIU));
    assert_eq!(t.next_pc(), Some(0x8000_1004));
    t.feed(Some(BEQ));
    assert_eq!(t.phase, TracePhase::DelaySlot);
    t.feed(Some(ADDIU));
    assert!(t.is_done());
    assert_eq!(t.next_pc(), None);
    assert_eq!(t.instrs.len(), 3);
    assert_eq!(t.count, 2);
}

#[test]
fn tracer_drops_branch_with_uncompilable_delay_slot() {
    let mut t = BlockTracer::new(0, BlockTier::Alu, 1);
    t.feed(Some(BEQ));
    t.feed(Some(LW));
    assert!(t.is_done());
    assert_eq!(t.instrs.len(), 0);
}

#[test]
fn tracer_stops_at_uncompilable_or_unreadable() {
    let mut t = BlockTracer::new(0, BlockTier::Loads, 1);
    t.feed(Some(LW));
    t.feed(Some(SW));
    assert!(t.is_done());
    assert_eq!(t.instrs.len(), 1);
    let mut t = BlockTracer::new(0, BlockTier::Loads, 1);
    t.feed(None);
    assert!(t.is_done());
    assert_eq!(t.instrs.len(), 0);
}

#[test]
fn tracer_never_puts_a_load_or_store_in_a_delay_slot() {
    let mut t = BlockTracer::new(0, BlockTier::Full, 3);
    t.feed(Some(ADDIU));
    t.feed(Some(BEQ));
    t.feed(Some(SW));
    assert!(t.is_done());
    // The branch went with its delay slot.
    assert_eq!(t.instrs.len(), 1);
    assert_eq!(t.instrs[0].0, ADDIU);
}

#[test]
fn full_tier_blocks_end_after_their_helper_calls() {
    let mut t = BlockTracer::new(0, BlockTier::Full, 1);
    t.feed(Some(ADDIU));
    t.feed(Some(LW));
    assert!(t.is_done());
    assert_eq!(t.instrs.len(), 2);

    let mut t = BlockTracer::new(0, BlockTier::Full, 3);
    for w in [LW, ADDIU, SW, ADDIU] {
        t.feed(Some(w));
        assert!(!t.is_done());
    }
    t.feed(Some(LW));
    assert!(t.is_done());
    assert_eq!(t.instrs.len(), 5);
    assert_eq!(t.helpers, 3);

    // Loads at the Loads tier are not counted.
    let mut t = BlockTracer::new(0, BlockTier::Loads, 1);
    t.feed(Some(LW));
    t.feed(Some(LW));
    assert!(!t.is_done());
}

#[test]
fn tracer_caps_block_length() {
    let mut t = BlockTracer::new(0, BlockTier::Alu, 1);
    let mut fed = 0;
    while !t.is_done() {
        t.feed(Some(ADDIU));
        fed += 1;
    }
    assert_eq!(fed, MAX_BLOCK_LEN);
    assert_eq!(t.instrs.len(), MAX_BLOCK_LEN);
    assert_eq!(t.pc, 4 * MAX_BLOCK_LEN as u64);
}

#[test]
fn probes_skip_prom_vectors_and_delay_slots() {
    assert!(probe_allowed(0x8000_1000, false));
    assert!(!probe_allowed(0x8000_1000, true));
    assert!(!probe_allowed(0xBFC0_0000, false));
    assert!(!probe_allowed(0xFFFF_FFFF_BFC0_0100, false));
    assert!(!probe_allowed(0x9FC0_0000, false));
    assert!(!probe_allowed(0x8000_0180, false));
    assert!(probe_allowed(0x8000_0400, false));
}

#[test]
fn count_register_advance() {
    // Crossing compare raises IP7 once.
    assert_eq!(advance_count(90, 0, 1, 100, 20), (110, CAUSE_IP7, 1));
    // A zero compare never fires.
    assert_eq!(advance_count(90, 0, 1, 0, 20), (110, 0, 0));
    // The count is 48 bits wide.
    assert_eq!(advance_count(0xFFFF_FFFF_FFFF, 0, 2, 0, 1), (1, 0, 0));
    assert_eq!(advance_count(5, 0x100, 3, 1000, 0), (5, 0x100, 0));
}

#[test]
fn compile_tiers_and_settings() {
    // The main path compiles new blocks at Alu; chain misses at the cap.
    assert_eq!(miss_compile_tier(BlockTier::Full, false), BlockTier::Alu);
    assert_eq!(miss_compile_tier(BlockTier::Loads, false), BlockTier::Alu);
    assert_eq!(miss_compile_tier(BlockTier::Full, true), BlockTier::Full);
    assert_eq!(miss_compile_tier(BlockTier::Loads, true), BlockTier::Loads);
    assert_eq!(miss_compile_tier(BlockTier::Alu, true), BlockTier::Alu);
    assert_eq!(max_helpers_for(HostArch::X86_64), 1);
    assert_eq!(max_helpers_for(HostArch::Aarch64), 3);
    assert_eq!(max_helpers_for(HostArch::Other), 1);
    assert_eq!(max_tier_from_setting(Some(0)), BlockTier::Alu);
    assert_eq!(max_tier_from_setting(Some(1)), BlockTier::Loads);
    assert_eq!(max_tier_from_setting(Some(7)), BlockTier::Full);
    assert_eq!(max_tier_from_setting(None), BlockTier::Full);
}

#[test]
fn profile_image_round_trip() {
    let entries = vec![
        ProfileEntry { phys_pc: 0x1000, virt_pc: 0x8000_1000, tier: BlockTier::Loads },
        ProfileEntry { phys_pc: 0x2000, virt_pc: 0xFFFF_FFFF_8000_2000, tier: BlockTier::Full },
    ];
    let img = encode_profile(&entries);
    assert_eq!(img.len(), 9 + 2 * 17);
    assert_eq!(&img[0..9], &[b'I', b'R', b'J', b'P', 1, 2, 0, 0, 0]);
    assert_eq!(img[9], 0x00);
    assert_eq!(img[10], 0x10);
    assert_eq!(img[25], 1);
    assert_eq!(decode_profile(&img), Ok(entries));
}

#[test]
fn profile_image_errors() {
    assert_eq!(decode_profile(b"XXXX\x01\0\0\0\0"), Err(ProfileError::BadMagic));
    assert_eq!(decode_profile(b"IRJ"), Err(ProfileError::BadMagic));
    assert_eq!(decode_profile(b"IRJP"), Err(ProfileError::BadVersion));
    assert_eq!(decode_profile(b"IRJP\x02\0\0\0\0"), Err(ProfileError::BadVersion));
    assert_eq!(decode_profile(b"IRJP\x01\0\0"), Err(ProfileError::Truncated));
    assert_eq!(decode_profile(b"IRJP\x01\0\0\0\0"), Ok(vec![]));
}

#[test]
fn profile_reader_skips_unknown_tiers() {
    let entries = vec![
        ProfileEntry { phys_pc: 1, virt_pc: 2, tier: BlockTier::Alu },
        ProfileEntry { phys_pc: 3, virt_pc: 4, tier: BlockTier::Full },
    ];
    let mut img = encode_profile(&entries);
    img[9 + 16] = 9; // unknown tier byte on the first entry
    assert_eq!(decode_profile(&img), Ok(vec![entries[1]]));
    // Bytes after the announced records are ignored.
    img.push(0xAA);
    assert_eq!(decode_profile(&img), Ok(vec![entries[1]]));
}

#[test]
fn cut_short_profile_gives_nothing() {
    let entries = vec![
        ProfileEntry { phys_pc: 1, virt_pc: 2, tier: BlockTier::Loads },
        ProfileEntry { phys_pc: 3, virt_pc: 4, tier: BlockTier::Full },
    ];
    let mut img = encode_profile(&entries);
    img.pop(); // the second record ends early
    assert_eq!(decode_profile(&img), Err(ProfileError::Truncated));
    let mut img = encode_profile(&entries);
    img[5] = 3; // announces a record that is not there
    assert_eq!(decode_profile(&img), Err(ProfileError::Truncated));
}

fn executor() -> MipsExecutor {
    MipsExecutor {
        core: MipsCore::new(),
        nanotlb: [NanoTlbEntry { vpn: 0, pfn: 0, valid: false }; 3],
        in_delay_slot: false,
        delay_slot_target: 0,
        cached_pending: 0,
        interrupt_check_counter: 0,
        tlb: MipsTlb { entries: vec![TlbEntry::default(); 4] },
    }
}

#[test]
fn rollback_restores_captured_state() {
    let mut exec = executor();
    exec.core.write_gpr(3, 33);
    exec.core.pc = 0x8000_0000;
    exec.core.cp0[14] = 0x1234;
    let snap = CpuRollbackSnapshot::capture(&exec, exec.tlb.duplicate());
    assert_eq!(snap.compare_gprs(&exec), 0);

    exec.core.write_gpr(3, 1);
    exec.core.write_gpr(31, 2);
    exec.core.pc = 0x8000_0040;
    exec.core.cp0[14] = 0;
    exec.core.fpr[1] = 99;
    exec.in_delay_slot = true;
    exec.tlb.entries[0].entry_hi = 0xABC;
    assert_eq!(snap.compare_gprs(&exec), (1 << 3) | (1 << 31));

    snap.restore(&mut exec);
    assert_eq!(snap.compare_gprs(&exec), 0);
    assert_eq!(exec.core.read_gpr(3), 33);
    assert_eq!(exec.core.pc, 0x8000_0000);
    assert_eq!(exec.core.cp0[14], 0x1234);
    assert!(!exec.in_delay_slot);
    assert_eq!(exec.tlb.entries[0].entry_hi, 0);
    // Floating-point registers are not part of the snapshot.
    assert_eq!(exec.core.fpr[1], 99);
}

#[test]
fn only_blocks_above_alu_are_saved() {
    let blocks = vec![
        (0x10, 0x8000_0010, BlockTier::Alu),
        (0x20, 0x8000_0020, BlockTier::Full),
        (0x30, 0x8000_0030, BlockTier::Loads),
    ];
    assert_eq!(
        entries_to_save(&blocks),
        vec![
            ProfileEntry { phys_pc: 0x20, virt_pc: 0x8000_0020, tier: BlockTier::Full },
            ProfileEntry { phys_pc: 0x30, virt_pc: 0x8000_0030, tier: BlockTier::Loads },
        ]
    );
}

#[test]
fn chains_stop_at_32_instructions() {
    assert_eq!(chain_after(0, 10), Some(10));
    assert_eq!(chain_after(10, 21), Some(31));
    assert_eq!(chain_after(10, 22), None);
    assert_eq!(chain_after(31, 1), None);
    assert_eq!(chain_after(u32::MAX, u32::MAX), None);
}

#[test]
fn dispatch_decisions_after_a_run() {
    let spec = BlockStats { tier: BlockTier::Loads, speculative: true, hit_count: 10, stable_hits: 7, exception_count: 2 };
    assert!(needs_snapshot(spec, false));
    // Third exception of a speculative block: roll back, interpret, demote.
    let (n, a) = dispatch_step(spec, false, RunOutcome::Exception, BlockTier::Full);
    assert_eq!(a, DispatchAction { rollback: true, interpret_fault: true, invalidate: false, recompile_at: Some(BlockTier::Alu) });
    assert_eq!(n.stable_hits, 0);
    assert_eq!(n.exception_count, 3);
    // A trusted block is rolled back only in verify mode.
    let trusted = BlockStats { speculative: false, ..spec };
    assert!(!needs_snapshot(trusted, false));
    assert!(needs_snapshot(trusted, true));
    let (n, a) = dispatch_step(trusted, false, RunOutcome::Exception, BlockTier::Full);
    assert_eq!(n, trusted);
    assert_eq!(a, DispatchAction { rollback: false, interpret_fault: true, invalidate: false, recompile_at: None });
    let (_, a) = dispatch_step(trusted, true, RunOutcome::Exception, BlockTier::Full);
    assert!(a.rollback);
    // A replay mismatch drops the block.
    let (n, a) = dispatch_step(trusted, true, RunOutcome::Mismatch, BlockTier::Full);
    assert_eq!(n, trusted);
    assert_eq!(a, DispatchAction { rollback: false, interpret_fault: false, invalidate: true, recompile_at: None });
    // The 200th clean run of a trusted block promotes it.
    let ready = BlockStats { stable_hits: 199, exception_count: 0, ..trusted };
    let (n, a) = dispatch_step(ready, false, RunOutcome::Clean, BlockTier::Full);
    assert_eq!(a.recompile_at, Some(BlockTier::Full));
    assert_eq!(n.stable_hits, 200);
}

#[test]
fn tier_never_exceeds_the_cap_over_a_run() {
    for cap in [BlockTier::Alu, BlockTier::Loads, BlockTier::Full] {
        let mut s = BlockStats::new(miss_compile_tier(cap, false));
        for step in 0..2000u32 {
            // Mostly clean runs, with a burst of exceptions now and then.
            let outcome = if step % 500 >= 495 { RunOutcome::Exception } else { RunOutcome::Clean };
            let (n, a) = dispatch_step(s, false, outcome, cap);
            s = match a.recompile_at {
                Some(t) => BlockStats::new(t),
                None => n,
            };
            assert!(s.tier.rank() <= cap.rank());
        }
    }
}

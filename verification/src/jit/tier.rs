//! Compilation tiers of a JIT block and the statistics that move a block
//! between them.
use vstd::prelude::*;

verus! {

/// How much of the instruction set a compiled block may hold.
#[derive(Debug, Clone, Copy, PartialEq, Eq, Structural)]
pub enum BlockTier {
    /// Pure arithmetic and branches.
    Alu,
    /// Also memory reads.
    Loads,
    /// Also memory writes.
    Full,
}

/// Clean runs before a speculative block becomes trusted.
pub const TIER_STABLE_THRESHOLD: u32 = 50;

/// Clean runs of a trusted block before it is promoted.
pub const TIER_PROMOTE_THRESHOLD: u32 = 200;

/// Exceptions at a tier before a block is demoted.
pub const TIER_DEMOTE_THRESHOLD: u32 = 3;

pub open spec fn tier_rank(t: BlockTier) -> nat {
    match t {
        BlockTier::Alu => 0,
        BlockTier::Loads => 1,
        BlockTier::Full => 2,
    }
}

pub open spec fn promote_spec(t: BlockTier) -> Option<BlockTier> {
    match t {
        BlockTier::Alu => Some(BlockTier::Loads),
        BlockTier::Loads => Some(BlockTier::Full),
        BlockTier::Full => None,
    }
}

pub open spec fn demote_spec(t: BlockTier) -> Option<BlockTier> {
    match t {
        BlockTier::Alu => None,
        BlockTier::Loads => Some(BlockTier::Alu),
        BlockTier::Full => Some(BlockTier::Loads),
    }
}

impl BlockTier {
    /// 0 for Alu, 1 for Loads, 2 for Full.
    pub fn rank(self) -> (r: u8)
        ensures
            r == tier_rank(self),
    {
        match self {
            BlockTier::Alu => 0,
            BlockTier::Loads => 1,
            BlockTier::Full => 2,
        }
    }

    /// The tier of a rank, if there is one.
    pub fn from_rank(r: u8) -> (t: Option<BlockTier>)
        ensures
            match t {
                Some(x) => tier_rank(x) == r,
                None => r > 2,
            },
    {
        match r {
            0 => Some(BlockTier::Alu),
            1 => Some(BlockTier::Loads),
            2 => Some(BlockTier::Full),
            _ => None,
        }
    }

    /// The next tier up, if any.
    pub fn promote(self) -> (t: Option<BlockTier>)
        ensures
            t == promote_spec(self),
    {
        match self {
            BlockTier::Alu => Some(BlockTier::Loads),
            BlockTier::Loads => Some(BlockTier::Full),
            BlockTier::Full => None,
        }
    }

    /// The next tier down, if any.
    pub fn demote(self) -> (t: Option<BlockTier>)
        ensures
            t == demote_spec(self),
    {
        match self {
            BlockTier::Alu => None,
            BlockTier::Loads => Some(BlockTier::Alu),
            BlockTier::Full => Some(BlockTier::Loads),
        }
    }
}

/// Promotion and demotion undo each other, and each moves one rank.
pub proof fn lemma_promote_demote_inverse(t: BlockTier, u: BlockTier)
    ensures
        promote_spec(t) == Some(u) <==> demote_spec(u) == Some(t),
        promote_spec(t) == Some(u) ==> tier_rank(u) == tier_rank(t) + 1,
        tier_rank(t) == tier_rank(u) ==> t == u,
{
}

/// Execution statistics of a compiled block.
#[derive(Debug, Clone, Copy, PartialEq, Eq, Structural)]
pub struct BlockStats {
    pub tier: BlockTier,
    /// Snapshot the CPU before each run (not yet trusted at this tier).
    pub speculative: bool,
    pub hit_count: u64,
    pub stable_hits: u32,
    pub exception_count: u32,
}

/// What to do with a block after a run.
#[derive(Debug, Clone, Copy, PartialEq, Eq, Structural)]
pub enum TierChange {
    Keep,
    /// Recompile at this (higher) tier.
    Promote(BlockTier),
    /// Recompile at this (lower) tier.
    Demote(BlockTier),
}

impl BlockStats {
    /// A freshly compiled, speculative block.
    pub fn new(tier: BlockTier) -> (s: Self)
        ensures
            s == (BlockStats { tier, speculative: true, hit_count: 0, stable_hits: 0, exception_count: 0 }),
    {
        BlockStats { tier, speculative: true, hit_count: 0, stable_hits: 0, exception_count: 0 }
    }
}

/// Statistics and decision after a speculative run that raised an
/// exception (and was rolled back): the clean-run streak ends; at the
/// demotion threshold the block drops a tier, or, at the lowest tier,
/// stops being speculative.
pub open spec fn after_exception_spec(s: BlockStats) -> (BlockStats, TierChange) {
    let s1 = BlockStats {
        hit_count: (s.hit_count + 1) as u64,
        exception_count: (s.exception_count + 1) as u32,
        stable_hits: 0,
        ..s
    };
    if s1.exception_count >= TIER_DEMOTE_THRESHOLD {
        match demote_spec(s.tier) {
            Some(lower) => (s1, TierChange::Demote(lower)),
            None => (BlockStats { speculative: false, ..s1 }, TierChange::Keep),
        }
    } else {
        (s1, TierChange::Keep)
    }
}

pub fn after_exception(s: BlockStats) -> (r: (BlockStats, TierChange))
    requires
        s.hit_count < u64::MAX,
        s.exception_count < u32::MAX,
    ensures
        r == after_exception_spec(s),
{
    let mut n = s;
    n.hit_count = n.hit_count + 1;
    n.exception_count = n.exception_count + 1;
    n.stable_hits = 0;
    if n.exception_count >= TIER_DEMOTE_THRESHOLD {
        match s.tier.demote() {
            Some(lower) => (n, TierChange::Demote(lower)),
            None => {
                n.speculative = false;
                (n, TierChange::Keep)
            },
        }
    } else {
        (n, TierChange::Keep)
    }
}

/// Statistics and decision after a clean run: the streak grows and the
/// exception count clears; a speculative block becomes trusted after enough
/// clean runs, and a trusted one is promoted after more, never above
/// `max_tier`.
pub open spec fn after_clean_run_spec(s: BlockStats, max_tier: BlockTier) -> (BlockStats, TierChange) {
    let s1 = BlockStats {
        hit_count: (s.hit_count + 1) as u64,
        stable_hits: (s.stable_hits + 1) as u32,
        exception_count: 0,
        ..s
    };
    let s2 = if s1.speculative && s1.stable_hits >= TIER_STABLE_THRESHOLD {
        BlockStats { speculative: false, ..s1 }
    } else {
        s1
    };
    if !s2.speculative && s2.stable_hits >= TIER_PROMOTE_THRESHOLD {
        match promote_spec(s.tier) {
            Some(next) => if tier_rank(next) <= tier_rank(max_tier) {
                (s2, TierChange::Promote(next))
            } else {
                (s2, TierChange::Keep)
            },
            None => (s2, TierChange::Keep),
        }
    } else {
        (s2, TierChange::Keep)
    }
}

pub fn after_clean_run(s: BlockStats, max_tier: BlockTier) -> (r: (BlockStats, TierChange))
    requires
        s.hit_count < u64::MAX,
        s.stable_hits < u32::MAX,
    ensures
        r == after_clean_run_spec(s, max_tier),
{
    let mut n = s;
    n.hit_count = n.hit_count + 1;
    n.stable_hits = n.stable_hits + 1;
    n.exception_count = 0;
    if n.speculative && n.stable_hits >= TIER_STABLE_THRESHOLD {
        n.speculative = false;
    }
    if !n.speculative && n.stable_hits >= TIER_PROMOTE_THRESHOLD {
        match s.tier.promote() {
            Some(next) => {
                if next.rank() <= max_tier.rank() {
                    return (n, TierChange::Promote(next));
                }
            },
            None => {},
        }
    }
    (n, TierChange::Keep)
}

/// A promotion always goes one tier up and never above the cap; a
/// demotion always goes one tier down.
pub proof fn lemma_tier_changes_are_single_steps(s: BlockStats, max_tier: BlockTier)
    ensures
        after_clean_run_spec(s, max_tier).1 matches TierChange::Promote(t) ==> tier_rank(t)
            == tier_rank(s.tier) + 1 && tier_rank(t) <= tier_rank(max_tier),
        after_exception_spec(s).1 matches TierChange::Demote(t) ==> tier_rank(t) + 1
            == tier_rank(s.tier),
        !(after_clean_run_spec(s, max_tier).1 is Demote),
        !(after_exception_spec(s).1 is Promote),
{
}

/// How the counters move a block, with the thresholds written out: a clean
/// run adds one to the hit count and to the run of clean runs and clears the
/// exception count; a speculative block stays speculative until its 50th
/// clean run in a row; a trusted block is promoted one rank at its 200th
/// clean run in a row while a higher tier is allowed. An exception adds one
/// to the hit and exception counts and ends the run of clean runs; at the
/// 3rd exception the block is demoted one rank, or at the lowest tier stops
/// being speculative. Neither changes the tier of the statistics itself.
pub proof fn lemma_tier_thresholds(s: BlockStats, max_tier: BlockTier)
    requires
        s.hit_count < u64::MAX,
        s.stable_hits < u32::MAX,
        s.exception_count < u32::MAX,
    ensures
        ({
            let (n, c) = after_clean_run_spec(s, max_tier);
            &&& n.tier == s.tier && n.hit_count == s.hit_count + 1
            &&& n.stable_hits == s.stable_hits + 1 && n.exception_count == 0
            &&& n.speculative == (s.speculative && s.stable_hits + 1 < 50)
            &&& (c is Promote) == (!n.speculative && s.stable_hits + 1 >= 200 && tier_rank(s.tier)
                < tier_rank(max_tier))
            &&& c is Promote ==> tier_rank(c->Promote_0) == tier_rank(s.tier) + 1
            &&& !(c is Demote)
        }),
        ({
            let (e, d) = after_exception_spec(s);
            &&& e.tier == s.tier && e.hit_count == s.hit_count + 1
            &&& e.stable_hits == 0 && e.exception_count == s.exception_count + 1
            &&& (d is Demote) == (s.exception_count + 1 >= 3 && s.tier != BlockTier::Alu)
            &&& d is Demote ==> tier_rank(d->Demote_0) + 1 == tier_rank(s.tier)
            &&& e.speculative == (s.speculative && !(s.exception_count + 1 >= 3 && s.tier
                == BlockTier::Alu))
            &&& !(d is Promote)
        }),
        tier_rank(BlockTier::Alu) < tier_rank(BlockTier::Loads) < tier_rank(BlockTier::Full),
{
}

} // verus!

//! The adaptive JIT's decision logic: which instructions a block may hold at
//! each tier, how a block is traced, how blocks move between tiers, the
//! rollback snapshot and the profile file.
pub mod dispatch;
pub mod profile;
pub mod snapshot;
pub mod tier;

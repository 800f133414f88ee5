//! Decisions of the JIT dispatch loop: which instructions a block may hold,
//! how a block is traced from fetched instruction words, where the loop
//! probes the code cache, how the count register advances over a block,
//! and which blocks the profile keeps.
use vstd::prelude::*;
use crate::jit::tier::{
    after_clean_run, after_clean_run_spec, after_exception, after_exception_spec, demote_spec,
    promote_spec, tier_rank, BlockStats, BlockTier, TierChange, TIER_DEMOTE_THRESHOLD,
    TIER_PROMOTE_THRESHOLD, TIER_STABLE_THRESHOLD,
};
use crate::mips::{
    decode, decoded, DecodedInstr, FUNCT_ADDU, FUNCT_AND, FUNCT_DADDU, FUNCT_DDIV, FUNCT_DDIVU,
    FUNCT_DIV, FUNCT_DIVU, FUNCT_DMULT, FUNCT_DMULTU, FUNCT_DSLL, FUNCT_DSLL32, FUNCT_DSLLV,
    FUNCT_DSRA, FUNCT_DSRA32, FUNCT_DSRAV, FUNCT_DSRL, FUNCT_DSRL32, FUNCT_DSRLV, FUNCT_DSUBU,
    FUNCT_JR, FUNCT_MFHI, FUNCT_MFLO, FUNCT_MOVN, FUNCT_MOVZ, FUNCT_MTHI, FUNCT_MTLO, FUNCT_MULT,
    FUNCT_MULTU, FUNCT_NOR, FUNCT_OR, FUNCT_SLL, FUNCT_SLLV, FUNCT_SLT, FUNCT_SLTU, FUNCT_SRA,
    FUNCT_SRAV, FUNCT_SRL, FUNCT_SRLV, FUNCT_SUBU, FUNCT_SYNC, FUNCT_XOR, OP_ADDIU, OP_ANDI,
    OP_BEQ, OP_BGTZ, OP_BLEZ, OP_BNE, OP_DADDIU, OP_J, OP_JAL, OP_LB, OP_LBU, OP_LD, OP_LH, OP_LHU,
    OP_LUI, OP_LW, OP_LWU, OP_ORI, OP_SB, OP_SD, OP_SH, OP_SLTI, OP_SLTIU, OP_SPECIAL, OP_SW,
    OP_XORI,
};

verus! {

/// Longest block the tracer builds, in instructions before the delay slot.
pub const MAX_BLOCK_LEN: usize = 64;

/// Interpreter steps between cache probes within a batch.
pub const PROBE_INTERVAL: u32 = 1000;

/// Interpreter steps in one outer batch.
pub const BATCH_SIZE: u32 = 10000;

/// Cause register bit 15: the timer interrupt (IP7).
pub const CAUSE_IP7: u64 = 0x8000;

// ── Instruction classes ─────────────────────────────────────────────────────

pub open spec fn alu_funct(f: u8) -> bool {
    f == FUNCT_SLL || f == FUNCT_SRL || f == FUNCT_SRA || f == FUNCT_SLLV || f == FUNCT_SRLV || f
        == FUNCT_SRAV || f == FUNCT_MOVZ || f == FUNCT_MOVN || f == FUNCT_MFHI || f == FUNCT_MTHI
        || f == FUNCT_MFLO || f == FUNCT_MTLO || f == FUNCT_MULT || f == FUNCT_MULTU || f
        == FUNCT_DIV || f == FUNCT_DIVU || f == FUNCT_DMULT || f == FUNCT_DMULTU || f == FUNCT_DDIV
        || f == FUNCT_DDIVU || f == FUNCT_ADDU || f == FUNCT_SUBU || f == FUNCT_AND || f == FUNCT_OR
        || f == FUNCT_XOR || f == FUNCT_NOR || f == FUNCT_SLT || f == FUNCT_SLTU || f == FUNCT_DADDU
        || f == FUNCT_DSUBU || f == FUNCT_DSLL || f == FUNCT_DSRL || f == FUNCT_DSRA || f
        == FUNCT_DSLL32 || f == FUNCT_DSRL32 || f == FUNCT_DSRA32 || f == FUNCT_DSLLV || f
        == FUNCT_DSRLV || f == FUNCT_DSRAV || f == FUNCT_SYNC
}

/// Register arithmetic, shifts, moves, multiply/divide and immediates.
pub open spec fn is_alu_spec(d: DecodedInstr) -> bool {
    if d.op == OP_SPECIAL {
        alu_funct(d.funct)
    } else {
        d.op == OP_ADDIU || d.op == OP_DADDIU || d.op == OP_SLTI || d.op == OP_SLTIU || d.op
            == OP_ANDI || d.op == OP_ORI || d.op == OP_XORI || d.op == OP_LUI
    }
}

pub open spec fn is_load_spec(d: DecodedInstr) -> bool {
    d.op == OP_LB || d.op == OP_LBU || d.op == OP_LH || d.op == OP_LHU || d.op == OP_LW || d.op
        == OP_LWU || d.op == OP_LD
}

pub open spec fn is_store_spec(d: DecodedInstr) -> bool {
    d.op == OP_SB || d.op == OP_SH || d.op == OP_SW || d.op == OP_SD
}

pub open spec fn is_branch_spec(d: DecodedInstr) -> bool {
    if d.op == OP_SPECIAL {
        d.funct == FUNCT_JR
    } else {
        d.op == OP_BEQ || d.op == OP_BNE || d.op == OP_BLEZ || d.op == OP_BGTZ || d.op == OP_J
            || d.op == OP_JAL
    }
}

/// Whether a block of `tier` may hold the instruction: arithmetic and
/// branches always; loads from the Loads tier; stores at the Full tier.
pub open spec fn compilable_spec(d: DecodedInstr, tier: BlockTier) -> bool {
    is_alu_spec(d) || is_branch_spec(d) || match tier {
        BlockTier::Alu => false,
        BlockTier::Loads => is_load_spec(d),
        BlockTier::Full => is_load_spec(d) || is_store_spec(d),
    }
}

fn is_compilable_alu(d: &DecodedInstr) -> (b: bool)
    ensures
        b == is_alu_spec(*d),
{
    if d.op == OP_SPECIAL {
        let f = d.funct;
        f == FUNCT_SLL || f == FUNCT_SRL || f == FUNCT_SRA || f == FUNCT_SLLV || f == FUNCT_SRLV
            || f == FUNCT_SRAV || f == FUNCT_MOVZ || f == FUNCT_MOVN || f == FUNCT_MFHI || f
            == FUNCT_MTHI || f == FUNCT_MFLO || f == FUNCT_MTLO || f == FUNCT_MULT || f
            == FUNCT_MULTU || f == FUNCT_DIV || f == FUNCT_DIVU || f == FUNCT_DMULT || f
            == FUNCT_DMULTU || f == FUNCT_DDIV || f == FUNCT_DDIVU || f == FUNCT_ADDU || f
            == FUNCT_SUBU || f == FUNCT_AND || f == FUNCT_OR || f == FUNCT_XOR || f == FUNCT_NOR
            || f == FUNCT_SLT || f == FUNCT_SLTU || f == FUNCT_DADDU || f == FUNCT_DSUBU || f
            == FUNCT_DSLL || f == FUNCT_DSRL || f == FUNCT_DSRA || f == FUNCT_DSLL32 || f
            == FUNCT_DSRL32 || f == FUNCT_DSRA32 || f == FUNCT_DSLLV || f == FUNCT_DSRLV || f
            == FUNCT_DSRAV || f == FUNCT_SYNC
    } else {
        let o = d.op;
        o == OP_ADDIU || o == OP_DADDIU || o == OP_SLTI || o == OP_SLTIU || o == OP_ANDI || o
            == OP_ORI || o == OP_XORI || o == OP_LUI
    }
}

fn is_compilable_load(d: &DecodedInstr) -> (b: bool)
    ensures
        b == is_load_spec(*d),
{
    let o = d.op;
    o == OP_LB || o == OP_LBU || o == OP_LH || o == OP_LHU || o == OP_LW || o == OP_LWU || o
        == OP_LD
}

fn is_compilable_store(d: &DecodedInstr) -> (b: bool)
    ensures
        b == is_store_spec(*d),
{
    let o = d.op;
    o == OP_SB || o == OP_SH || o == OP_SW || o == OP_SD
}

fn is_branch_or_jump(d: &DecodedInstr) -> (b: bool)
    ensures
        b == is_branch_spec(*d),
{
    if d.op == OP_SPECIAL {
        d.funct == FUNCT_JR
    } else {
        let o = d.op;
        o == OP_BEQ || o == OP_BNE || o == OP_BLEZ || o == OP_BGTZ || o == OP_J || o == OP_JAL
    }
}

/// Which instructions a block of each tier may hold, by MIPS opcode
/// (bits 31:26) and, for opcode 0, function code (bits 5:0):
/// - the loads LB 32, LH 33, LW 35, LBU 36, LHU 37, LWU 39 and LD 55 from the
///   Loads tier up, never at Alu;
/// - the stores SB 40, SH 41, SW 43 and SD 63 at the Full tier only;
/// - the immediate operations ADDIU 9, SLTI 10, SLTIU 11, ANDI 12, ORI 13,
///   XORI 14, LUI 15 and DADDIU 25, the jumps and branches J 2, JAL 3, BEQ 4,
///   BNE 5, BLEZ 6 and BGTZ 7, JR (function 8) and the register operations
///   (shifts, moves to and from HI/LO, multiply and divide, ADDU, SUBU, AND,
///   OR, XOR, NOR, SLT, SLTU, the 64-bit forms and SYNC) at every tier;
/// - nothing else at any tier.
pub proof fn lemma_compile_classes(d: DecodedInstr)
    ensures
        d.op == 32 || d.op == 33 || d.op == 35 || d.op == 36 || d.op == 37 || d.op == 39 || d.op == 55 ==> !compilable_spec(d, BlockTier::Alu)
            && compilable_spec(d, BlockTier::Loads) && compilable_spec(d, BlockTier::Full),
        d.op == 40 || d.op == 41 || d.op == 43 || d.op == 63 ==> !compilable_spec(d, BlockTier::Alu)
            && !compilable_spec(d, BlockTier::Loads) && compilable_spec(d, BlockTier::Full),
        d.op == 9 || d.op == 10 || d.op == 11 || d.op == 12 || d.op == 13 || d.op == 14 || d.op == 15 || d.op == 25
            || d.op == 2 || d.op == 3 || d.op == 4 || d.op == 5 || d.op == 6 || d.op == 7 || (d.op == 0 && d.funct == 8)
            ==> compilable_spec(d, BlockTier::Alu) && compilable_spec(d, BlockTier::Loads)
            && compilable_spec(d, BlockTier::Full),
        d.op == 0 && (d.funct == 0 || d.funct == 2 || d.funct == 3 || d.funct == 4 || d.funct == 6 || d.funct == 7 || d.funct == 10 || d.funct == 11
            || d.funct == 15 || d.funct == 16 || d.funct == 17 || d.funct == 18 || d.funct == 19 || d.funct == 20 || d.funct == 22 || d.funct == 23
            || d.funct == 24 || d.funct == 25 || d.funct == 26 || d.funct == 27 || d.funct == 28 || d.funct == 29 || d.funct == 30 || d.funct == 31
            || d.funct == 33 || d.funct == 35 || d.funct == 36 || d.funct == 37 || d.funct == 38 || d.funct == 39 || d.funct == 42 || d.funct == 43
            || d.funct == 45 || d.funct == 47 || d.funct == 56 || d.funct == 58 || d.funct == 59 || d.funct == 60 || d.funct == 62 || d.funct == 63) ==> compilable_spec(d, BlockTier::Alu)
            && compilable_spec(d, BlockTier::Loads) && compilable_spec(d, BlockTier::Full),
        d.op == 0 && !(d.funct == 0 || d.funct == 2 || d.funct == 3 || d.funct == 4 || d.funct == 6 || d.funct == 7 || d.funct == 10 || d.funct == 11
            || d.funct == 15 || d.funct == 16 || d.funct == 17 || d.funct == 18 || d.funct == 19 || d.funct == 20 || d.funct == 22 || d.funct == 23
            || d.funct == 24 || d.funct == 25 || d.funct == 26 || d.funct == 27 || d.funct == 28 || d.funct == 29 || d.funct == 30 || d.funct == 31
            || d.funct == 33 || d.funct == 35 || d.funct == 36 || d.funct == 37 || d.funct == 38 || d.funct == 39 || d.funct == 42 || d.funct == 43
            || d.funct == 45 || d.funct == 47 || d.funct == 56 || d.funct == 58 || d.funct == 59 || d.funct == 60 || d.funct == 62 || d.funct == 63
            || d.funct == 8) ==> !compilable_spec(d, BlockTier::Full),
        d.op != 0 && !(d.op == 32 || d.op == 33 || d.op == 35 || d.op == 36 || d.op == 37 || d.op == 39 || d.op == 55 || d.op == 40
            || d.op == 41 || d.op == 43 || d.op == 63 || d.op == 9 || d.op == 10 || d.op == 11 || d.op == 12 || d.op == 13
            || d.op == 14 || d.op == 15 || d.op == 25 || d.op == 2 || d.op == 3 || d.op == 4 || d.op == 5 || d.op == 6
            || d.op == 7) ==> !compilable_spec(d, BlockTier::Full),
        compilable_spec(d, BlockTier::Alu) ==> compilable_spec(d, BlockTier::Loads),
        compilable_spec(d, BlockTier::Loads) ==> compilable_spec(d, BlockTier::Full),
{
}

/// Whether a block of `tier` may hold `d` (see `compilable_spec`).
pub fn is_compilable_for_tier(d: &DecodedInstr, tier: BlockTier) -> (b: bool)
    ensures
        b == compilable_spec(*d, tier),
{
    if is_compilable_alu(d) || is_branch_or_jump(d) {
        return true;
    }
    match tier {
        BlockTier::Alu => false,
        BlockTier::Loads => is_compilable_load(d),
        BlockTier::Full => is_compilable_load(d) || is_compilable_store(d),
    }
}

// ── Block tracing ───────────────────────────────────────────────────────────

/// Whether the instruction can fault when it runs: loads and stores go
/// through memory helpers that can raise an exception.
pub open spec fn can_fault_spec(d: DecodedInstr) -> bool {
    is_load_spec(d) || is_store_spec(d)
}

fn can_fault(d: &DecodedInstr) -> (b: bool)
    ensures
        b == can_fault_spec(*d),
{
    is_compilable_load(d) || is_compilable_store(d)
}

/// Where the tracer stands.
#[derive(Debug, Clone, Copy, PartialEq, Eq, Structural)]
pub enum TracePhase {
    /// Next fetch is a body instruction.
    Body,
    /// Next fetch is the delay slot of the branch just traced.
    DelaySlot,
    /// The block is complete.
    Done,
}

/// Builds the instruction list of a block from fetched instruction words:
/// the caller fetches the word at `next_pc()` and hands the result to
/// `feed` until the tracer is done.
///
/// A block runs from its start up to the first instruction its tier cannot
/// hold, a failed fetch, or 64 instructions. At the Full tier it also ends
/// right after its `max_helpers`-th load or store (each one a memory helper
/// call in the compiled code). A branch ends the block together with its
/// delay slot; when the delay slot cannot be held, or can fault (a load or
/// store), the branch is dropped as well.
pub struct BlockTracer {
    /// Address of the block's first instruction.
    pub start: u64,
    pub tier: BlockTier,
    pub max_helpers: u32,
    pub pc: u64,
    pub phase: TracePhase,
    /// Body instructions traced so far (delay slots not counted).
    pub count: usize,
    /// Loads and stores traced so far at the Full tier.
    pub helpers: u32,
    pub instrs: Vec<(u32, DecodedInstr)>,
}

/// The mathematical state of a tracer.
pub ghost struct TraceView {
    pub start: u64,
    pub tier: BlockTier,
    pub max_helpers: u32,
    pub pc: u64,
    pub phase: TracePhase,
    pub count: nat,
    pub helpers: nat,
    pub instrs: Seq<(u32, DecodedInstr)>,
}

/// Whether the instruction is a helper call counted against the Full tier's
/// limit.
pub open spec fn counts_as_helper(d: DecodedInstr, tier: BlockTier) -> bool {
    tier == BlockTier::Full && can_fault_spec(d)
}

/// Tracer state after it is handed the fetch result `word` for `t.pc`.
pub open spec fn feed_spec(t: TraceView, word: Option<u32>) -> TraceView {
    match t.phase {
        TracePhase::Body => match word {
            None => TraceView { phase: TracePhase::Done, ..t },
            Some(raw) => {
                let d = decoded(raw);
                if !compilable_spec(d, t.tier) {
                    TraceView { phase: TracePhase::Done, ..t }
                } else {
                    let helpers = if counts_as_helper(d, t.tier) {
                        t.helpers + 1
                    } else {
                        t.helpers
                    };
                    let phase = if is_branch_spec(d) {
                        TracePhase::DelaySlot
                    } else if counts_as_helper(d, t.tier) && helpers >= t.max_helpers {
                        TracePhase::Done
                    } else if t.count + 1 >= MAX_BLOCK_LEN {
                        TracePhase::Done
                    } else {
                        TracePhase::Body
                    };
                    TraceView {
                        pc: vstd::wrapping::u64_specs::wrapping_add(t.pc, 4),
                        phase,
                        count: t.count + 1,
                        helpers,
                        instrs: t.instrs.push((raw, d)),
                        ..t
                    }
                }
            },
        },
        TracePhase::DelaySlot => match word {
            Some(raw) => if compilable_spec(decoded(raw), t.tier) && !can_fault_spec(decoded(raw)) {
                TraceView { phase: TracePhase::Done, instrs: t.instrs.push((raw, decoded(raw))), ..t }
            } else {
                TraceView { phase: TracePhase::Done, instrs: t.instrs.drop_last(), ..t }
            },
            None => TraceView { phase: TracePhase::Done, instrs: t.instrs.drop_last(), ..t },
        },
        TracePhase::Done => t,
    }
}

impl BlockTracer {
    pub open spec fn view_state(&self) -> TraceView {
        TraceView {
            start: self.start,
            tier: self.tier,
            max_helpers: self.max_helpers,
            pc: self.pc,
            phase: self.phase,
            count: self.count as nat,
            helpers: self.helpers as nat,
            instrs: self.instrs@,
        }
    }

    /// In the delay slot phase the branch is the last instruction held.
    pub open spec fn wf(&self) -> bool {
        &&& self.count <= MAX_BLOCK_LEN
        &&& self.helpers <= self.count
        &&& self.instrs@.len() <= self.count + 1
        &&& self.phase == TracePhase::Body ==> self.count < MAX_BLOCK_LEN && self.instrs@.len()
            == self.count
        &&& self.phase == TracePhase::DelaySlot ==> self.instrs@.len() == self.count
            && self.count > 0
    }

    /// A tracer for a block of `tier` starting at `start_pc`, allowing
    /// `max_helpers` loads and stores in a Full-tier block.
    pub fn new(start_pc: u64, tier: BlockTier, max_helpers: u32) -> (t: Self)
        ensures
            t.wf(),
            t.view_state() == (TraceView {
                start: start_pc,
                tier,
                max_helpers,
                pc: start_pc,
                phase: TracePhase::Body,
                count: 0,
                helpers: 0,
                instrs: Seq::empty(),
            }),
    {
        BlockTracer {
            start: start_pc,
            tier,
            max_helpers,
            pc: start_pc,
            phase: TracePhase::Body,
            count: 0,
            helpers: 0,
            instrs: Vec::new(),
        }
    }

    /// Address of the next word to fetch, until the block is complete.
    pub fn next_pc(&self) -> (r: Option<u64>)
        ensures
            r == (if self.phase == TracePhase::Done {
                None
            } else {
                Some(self.pc)
            }),
    {
        match self.phase {
            TracePhase::Done => None,
            _ => Some(self.pc),
        }
    }

    /// Takes the fetch result for `next_pc()` (see `feed_spec`).
    pub fn feed(&mut self, word: Option<u32>)
        requires
            old(self).wf(),
        ensures
            final(self).wf(),
            final(self).view_state() == feed_spec(old(self).view_state(), word),
    {
        match self.phase {
            TracePhase::Body => match word {
                None => {
                    self.phase = TracePhase::Done;
                },
                Some(raw) => {
                    let d = decode(raw);
                    if !is_compilable_for_tier(&d, self.tier) {
                        self.phase = TracePhase::Done;
                    } else {
                        let is_branch = is_branch_or_jump(&d);
                        let helper = match self.tier {
                            BlockTier::Full => can_fault(&d),
                            _ => false,
                        };
                        self.instrs.push((raw, d));
                        self.pc = self.pc.wrapping_add(4);
                        self.count = self.count + 1;
                        if helper {
                            self.helpers = self.helpers + 1;
                        }
                        if is_branch {
                            self.phase = TracePhase::DelaySlot;
                        } else if helper && self.helpers >= self.max_helpers {
                            self.phase = TracePhase::Done;
                        } else if self.count >= MAX_BLOCK_LEN {
                            self.phase = TracePhase::Done;
                        }
                    }
                },
            },
            TracePhase::DelaySlot => {
                let keep = match word {
                    Some(raw) => {
                        let d = decode(raw);
                        if is_compilable_for_tier(&d, self.tier) && !can_fault(&d) {
                            self.instrs.push((raw, d));
                            true
                        } else {
                            false
                        }
                    },
                    None => false,
                };
                if !keep {
                    self.instrs.pop();
                }
                self.phase = TracePhase::Done;
            },
            TracePhase::Done => {},
        }
    }

    /// Whether the block is complete.
    pub fn is_done(&self) -> (b: bool)
        ensures
            b == (self.phase == TracePhase::Done),
    {
        match self.phase {
            TracePhase::Done => true,
            _ => false,
        }
    }
}

/// Host architectures with their own limit on helper calls in a block.
#[derive(Debug, Clone, Copy, PartialEq, Eq, Structural)]
pub enum HostArch {
    X86_64,
    Aarch64,
    /// Any other host.
    Other,
}

/// How many loads and stores a Full-tier block may hold on `arch`: the code
/// generator miscompiles longer chains of helper calls on x86_64 beyond one,
/// on aarch64 beyond three.
pub fn max_helpers_for(arch: HostArch) -> (n: u32)
    ensures
        n == (match arch {
            HostArch::Aarch64 => 3u32,
            _ => 1u32,
        }),
{
    match arch {
        HostArch::Aarch64 => 3,
        _ => 1,
    }
}

/// Address of the `k`-th instruction of a block starting at `start`.
pub open spec fn instr_addr(start: u64, k: int) -> u64 {
    ((start + 4 * k) % 0x1_0000_0000_0000_0000) as u64
}

/// How many of `instrs` are loads or stores.
pub open spec fn helper_count(instrs: Seq<(u32, DecodedInstr)>) -> nat
    decreases instrs.len(),
{
    if instrs.len() == 0 {
        0
    } else {
        helper_count(instrs.drop_last()) + if can_fault_spec(instrs.last().1) {
            1nat
        } else {
            0nat
        }
    }
}

/// The helper cap in force: `max_helpers`, but a block always gets to hold
/// its first load or store.
pub open spec fn helper_cap(max_helpers: u32) -> nat {
    if max_helpers == 0 {
        1
    } else {
        max_helpers as nat
    }
}

/// Whether `k` may hold a branch in a block in `phase` holding `instrs`:
/// while the delay slot is awaited, only the last instruction; in a
/// complete block, only the second to last (whose delay slot, the last,
/// cannot fault), or the last when it is itself that delay slot.
pub open spec fn branch_place_ok(phase: TracePhase, instrs: Seq<(u32, DecodedInstr)>, k: int) -> bool {
    ||| phase == TracePhase::DelaySlot && k == instrs.len() - 1
    ||| phase == TracePhase::Done && k == instrs.len() - 2 && !can_fault_spec(instrs[k + 1].1)
    ||| phase == TracePhase::Done && k == instrs.len() - 1 && instrs.len() >= 2 && is_branch_spec(
        instrs[k - 1].1,
    ) && !can_fault_spec(instrs[k].1)
}

/// What holds of every block the tracer builds when each word it was handed
/// is the word `mem` holds at `next_pc()`:
/// - instruction `k` is the word at `start + 4k`, decoded, and its tier can
///   hold it;
/// - a complete block holds a branch only second to last, with its delay
///   slot last, and that delay slot cannot fault;
/// - a block holds at most 65 instructions, and a Full-tier block at most
///   `helper_cap(max_helpers)` loads and stores.
pub open spec fn trace_ok(t: TraceView, mem: spec_fn(u64) -> u32) -> bool {
    &&& t.instrs.len() <= t.count + 1
    &&& t.count <= MAX_BLOCK_LEN
    &&& t.phase != TracePhase::Done ==> t.pc == instr_addr(t.start, t.count as int)
    &&& t.phase == TracePhase::Body ==> t.instrs.len() == t.count && t.count < MAX_BLOCK_LEN
    &&& t.phase == TracePhase::DelaySlot ==> t.instrs.len() == t.count && t.count > 0
        && is_branch_spec(t.instrs.last().1)
    &&& forall|k: int|
        0 <= k < t.instrs.len() ==> (#[trigger] t.instrs[k]).0 == mem(instr_addr(t.start, k))
            && t.instrs[k].1 == decoded(t.instrs[k].0) && compilable_spec(t.instrs[k].1, t.tier)
    &&& forall|k: int|
        0 <= k < t.instrs.len() && is_branch_spec((#[trigger] t.instrs[k]).1) ==> branch_place_ok(
            t.phase,
            t.instrs,
            k,
        )
    &&& t.tier == BlockTier::Full ==> helper_count(t.instrs) == t.helpers
    &&& t.tier == BlockTier::Full && t.phase == TracePhase::Body ==> t.helpers < helper_cap(
        t.max_helpers,
    )
    &&& t.helpers <= helper_cap(t.max_helpers)
    &&& t.tier != BlockTier::Full ==> t.helpers == 0
}

proof fn lemma_helper_count_push(s: Seq<(u32, DecodedInstr)>, x: (u32, DecodedInstr))
    ensures
        helper_count(s.push(x)) == helper_count(s) + if can_fault_spec(x.1) {
            1nat
        } else {
            0nat
        },
{
    assert(s.push(x).drop_last() =~= s);
}

proof fn lemma_instr_addr_step(start: u64, k: int)
    requires
        0 <= k,
    ensures
        instr_addr(start, k + 1) == vstd::wrapping::u64_specs::wrapping_add(instr_addr(start, k), 4),
{
    let m = 0x1_0000_0000_0000_0000int;
    vstd::arithmetic::div_mod::lemma_add_mod_noop(start + 4 * k, 4, m);
    vstd::arithmetic::div_mod::lemma_mod_twice(4, m);
    vstd::arithmetic::div_mod::lemma_small_mod(4, m as nat);
    assert(start + 4 * (k + 1) == (start + 4 * k) + 4);
    assert(vstd::wrapping::u64_specs::wrapping_add(instr_addr(start, k), 4) == ((instr_addr(start, k)
        + 4) % m) as u64);
    vstd::arithmetic::div_mod::lemma_mod_bound(start + 4 * k, m);
    vstd::arithmetic::div_mod::lemma_add_mod_noop(instr_addr(start, k) as int, 4, m);
    vstd::arithmetic::div_mod::lemma_mod_twice(start + 4 * k, m);
}

/// A tracer starts sound: an empty block at its start address.
pub proof fn lemma_trace_starts_sound(start: u64, tier: BlockTier, max_helpers: u32, mem: spec_fn(u64) -> u32)
    ensures
        trace_ok(
            TraceView {
                start,
                tier,
                max_helpers,
                pc: start,
                phase: TracePhase::Body,
                count: 0,
                helpers: 0,
                instrs: Seq::empty(),
            },
            mem,
        ),
{
    let m = 0x1_0000_0000_0000_0000int;
    vstd::arithmetic::div_mod::lemma_small_mod(start as nat, m as nat);
}

/// Every tracer step handed the word at `next_pc()` (or a failed fetch)
/// keeps `trace_ok`: a traced block only ever holds, in order, the words at
/// its addresses that its tier can hold; its one branch comes second to
/// last with a delay slot that cannot fault; and it respects the block and
/// helper limits.
pub proof fn lemma_trace_step_keeps_block_sound(t: TraceView, mem: spec_fn(u64) -> u32, word: Option<u32>)
    requires
        trace_ok(t, mem),
        t.phase != TracePhase::Done ==> (word matches Some(w) ==> w == mem(t.pc)),
    ensures
        trace_ok(feed_spec(t, word), mem),
        feed_spec(t, word).tier == t.tier,
        feed_spec(t, word).start == t.start,
        feed_spec(t, word).instrs.len() <= MAX_BLOCK_LEN + 1,
{
    let r = feed_spec(t, word);
    if t.phase == TracePhase::Body {
        if let Some(raw) = word {
            let d = decoded(raw);
            if compilable_spec(d, t.tier) {
                lemma_helper_count_push(t.instrs, (raw, d));
                lemma_instr_addr_step(t.start, t.count as int);
                assert forall|k: int| 0 <= k < r.instrs.len() implies (#[trigger] r.instrs[k]).0 == mem(
                    instr_addr(r.start, k),
                ) && r.instrs[k].1 == decoded(r.instrs[k].0) && compilable_spec(r.instrs[k].1, r.tier) by {
                    if k < t.instrs.len() {
                        assert(r.instrs[k] == t.instrs[k]);
                    }
                }
                assert forall|k: int|
                    0 <= k < r.instrs.len() && is_branch_spec((#[trigger] r.instrs[k]).1) implies branch_place_ok(
                    r.phase,
                    r.instrs,
                    k,
                ) by {
                    if k < t.instrs.len() {
                        assert(r.instrs[k] == t.instrs[k]);
                        assert(t.instrs[k] == t.instrs[k]);
                    }
                }
            }
        }
    } else if t.phase == TracePhase::DelaySlot {
        let last = t.instrs.len() - 1;
        assert(is_branch_spec(t.instrs[last].1) || !is_branch_spec(t.instrs[last].1));
        match word {
            Some(raw) => {
                let d = decoded(raw);
                if compilable_spec(d, t.tier) && !can_fault_spec(d) {
                    lemma_helper_count_push(t.instrs, (raw, d));
                    assert forall|k: int| 0 <= k < r.instrs.len() implies (#[trigger] r.instrs[k]).0
                        == mem(instr_addr(r.start, k)) && r.instrs[k].1 == decoded(r.instrs[k].0)
                        && compilable_spec(r.instrs[k].1, r.tier) by {
                        if k < t.instrs.len() {
                            assert(r.instrs[k] == t.instrs[k]);
                        }
                    }
                    assert forall|k: int|
                        0 <= k < r.instrs.len() && is_branch_spec((#[trigger] r.instrs[k]).1) implies branch_place_ok(
                        r.phase,
                        r.instrs,
                        k,
                    ) by {
                        assert(r.instrs[r.instrs.len() - 2] == t.instrs[last]);
                        assert(r.instrs[r.instrs.len() - 1] == (raw, d));
                        if k < t.instrs.len() {
                            assert(r.instrs[k] == t.instrs[k]);
                        }
                    }
                } else {
                    lemma_drop_branch(t, mem);
                }
            },
            None => {
                lemma_drop_branch(t, mem);
            },
        }
    }
}

proof fn lemma_drop_branch(t: TraceView, mem: spec_fn(u64) -> u32)
    requires
        trace_ok(t, mem),
        t.phase == TracePhase::DelaySlot,
    ensures
        trace_ok(TraceView { phase: TracePhase::Done, instrs: t.instrs.drop_last(), ..t }, mem),
{
    let r = TraceView { phase: TracePhase::Done, instrs: t.instrs.drop_last(), ..t };
    let last = t.instrs.len() - 1;
    assert(t.instrs.drop_last().push(t.instrs[last]) =~= t.instrs);
    lemma_helper_count_push(t.instrs.drop_last(), t.instrs[last]);
    assert forall|k: int| 0 <= k < r.instrs.len() implies (#[trigger] r.instrs[k]).0 == mem(
        instr_addr(r.start, k),
    ) && r.instrs[k].1 == decoded(r.instrs[k].0) && compilable_spec(r.instrs[k].1, r.tier) by {
        assert(r.instrs[k] == t.instrs[k]);
    }
    assert forall|k: int| 0 <= k < r.instrs.len() implies !is_branch_spec((#[trigger] r.instrs[k]).1) by {
        assert(r.instrs[k] == t.instrs[k]);
    }
}

// ── Dispatch loop decisions ─────────────────────────────────────────────────

/// Whether the dispatch loop may probe the code cache at `pc`: never in
/// the PROM (KSEG0/KSEG1 0x1FC00000 region), never in the exception vectors
/// (0x80000000 to 0x800003FF), never in a delay slot.
pub open spec fn probe_allowed_spec(pc: u64, in_delay_slot: bool) -> bool {
    let pc32 = pc % 0x1_0000_0000;
    let in_prom = (0x9FC0_0000 <= pc32 < 0xA000_0000) || pc32 >= 0xBFC0_0000;
    let in_exc = 0x8000_0000 <= pc32 < 0x8000_0400;
    !(in_prom || in_exc || in_delay_slot)
}

pub fn probe_allowed(pc: u64, in_delay_slot: bool) -> (b: bool)
    ensures
        b == probe_allowed_spec(pc, in_delay_slot),
{
    let pc32 = (pc & 0xFFFF_FFFF) as u32;
    assert(pc & 0xFFFF_FFFF == pc % 0x1_0000_0000) by (bit_vector);
    let in_prom = (pc32 >= 0x9FC0_0000 && pc32 < 0xA000_0000) || (pc32 >= 0xBFC0_0000);
    let in_exc = pc32 >= 0x8000_0000 && pc32 < 0x8000_0400;
    !(in_prom || in_exc || in_delay_slot)
}

/// Count and cause registers after one instruction: the 48-bit count
/// advances by `step`; crossing a nonzero compare value raises IP7.
pub open spec fn count_step_spec(count: u64, cause: u64, step: u64, compare: u64) -> (u64, u64, bool) {
    let next = ((count + step) % 0x1_0000_0000_0000) as u64;
    if compare != 0 && count < compare && next >= compare {
        (next, cause | CAUSE_IP7, true)
    } else {
        (next, cause, false)
    }
}

/// Count, cause and number of timer ticks after `n` instructions.
pub open spec fn count_advance_spec(count: u64, cause: u64, step: u64, compare: u64, n: nat) -> (
    u64,
    u64,
    nat,
)
    decreases n,
{
    if n == 0 {
        (count, cause, 0)
    } else {
        let (c1, k1, fired) = count_step_spec(count, cause, step, compare);
        let (c2, k2, ticks) = count_advance_spec(c1, k1, step, compare, (n - 1) as nat);
        (c2, k2, ticks + if fired {
            1nat
        } else {
            0nat
        })
    }
}

/// Advances the count register over a block of `n` instructions that ran
/// compiled; gives the new count, the new cause and how many timer
/// interrupts were raised.
pub fn advance_count(count: u64, cause: u64, step: u64, compare: u64, n: u32) -> (r: (u64, u64, u32))
    ensures
        ({
            let (c, k, t) = count_advance_spec(count, cause, step, compare, n as nat);
            r.0 == c && r.1 == k && r.2 as nat == t
        }),
{
    let mut c = count;
    let mut k = cause;
    let mut ticks: u32 = 0;
    let mut i: u32 = 0;
    while i < n
        invariant
            i <= n,
            ticks <= i,
            ({
                let (c2, k2, t2) = count_advance_spec(c, k, step, compare, (n - i) as nat);
                count_advance_spec(count, cause, step, compare, n as nat) == (c2, k2, (t2 + ticks) as nat)
            }),
        decreases n - i,
    {
        let prev = c;
        let sum = prev.wrapping_add(step);
        c = sum & 0x0000_FFFF_FFFF_FFFF;
        assert(c == (prev + step) % 0x1_0000_0000_0000) by (bit_vector)
            requires
                sum == vstd::wrapping::u64_specs::wrapping_add(prev, step),
                c == sum & 0x0000_FFFF_FFFF_FFFFu64,
        ;
        if compare != 0 && prev < compare && c >= compare {
            k = k | CAUSE_IP7;
            ticks = ticks + 1;
        }
        i = i + 1;
    }
    (c, k, ticks)
}

/// One instruction's worth of the count register, from its inputs: the
/// count moves to `(count + step) mod 2^48`; exactly when that carries it
/// from below a nonzero compare value to at or above it (whatever the step
/// size) the timer interrupt bit 0x8000 is raised in the cause register and
/// one tick is counted; otherwise the cause is left as it was.
pub proof fn lemma_count_crossing(count: u64, cause: u64, step: u64, compare: u64)
    ensures
        ({
            let next = (count + step) % 0x1_0000_0000_0000;
            let (c, k, ticks) = count_advance_spec(count, cause, step, compare, 1);
            &&& c == next
            &&& (compare != 0 && count < compare && compare <= next) ==> ticks == 1 && k == cause
                | 0x8000u64
            &&& !(compare != 0 && count < compare && compare <= next) ==> ticks == 0 && k == cause
        }),
{
    reveal_with_fuel(count_advance_spec, 2);
}

/// Over any number of instructions the count advances by `step` each time
/// modulo 2^48 and at most one tick is counted per instruction; the cause
/// register is unchanged when no tick was counted and otherwise is the old
/// cause with the timer bit 0x8000 added.
pub proof fn lemma_count_advance_bounds(count: u64, cause: u64, step: u64, compare: u64, n: nat)
    ensures
        ({
            let (c, k, ticks) = count_advance_spec(count, cause, step, compare, n);
            &&& n > 0 ==> c as int == (count + n * step) % 0x1_0000_0000_0000
            &&& ticks <= n
            &&& ticks > 0 ==> k == cause | 0x8000u64
            &&& ticks == 0 ==> k == cause
        }),
    decreases n,
{
    if n > 0 {
        let (c1, k1, fired) = count_step_spec(count, cause, step, compare);
        lemma_count_advance_bounds(c1, k1, step, compare, (n - 1) as nat);
        let (c, k, t) = count_advance_spec(c1, k1, step, compare, (n - 1) as nat);
        assert(forall|x: u64| #[trigger] (x | 0x8000u64) | 0x8000u64 == x | 0x8000u64) by (bit_vector);
        assert((cause | 0x8000u64) | 0x8000u64 == cause | 0x8000u64);
        let m: int = 0x1_0000_0000_0000;
        if n == 1 {
            assert(c == c1);
            assert(n * step == step) by (nonlinear_arith)
                requires
                    n == 1,
            ;
        }
        if n > 1 {
            assert(c as int == (c1 + (n - 1) * step) % m);
            assert(c1 as int == (count + step) % m);
            let x: int = (n - 1) * step;
            vstd::arithmetic::div_mod::lemma_add_mod_noop_right(x, count + step, m);
            assert(x + (count + step) == count + n * step) by (nonlinear_arith)
                requires
                    x == (n - 1) * step,
            ;
            assert(c1 + x == x + c1);
        }
    }
}

/// The tier a block is compiled at when the dispatch loop misses in the code
/// cache. On the main path a new block starts at `Alu`, safe by
/// construction, and is promoted as it proves stable; a miss inside a chain
/// of blocks compiles at the highest tier allowed, since chain targets often
/// start with loads or stores that an `Alu` trace cannot cover.
pub fn miss_compile_tier(max_tier: BlockTier, in_chain: bool) -> (t: BlockTier)
    ensures
        t == (if in_chain { max_tier } else { BlockTier::Alu }),
        tier_rank(t) <= tier_rank(max_tier),
{
    if in_chain {
        max_tier
    } else {
        BlockTier::Alu
    }
}

/// Most instructions run by a chain of cached blocks before control goes
/// back to the interpreter, which delivers pending interrupts.
pub const MAX_CHAIN_INSTRS: u32 = 32;

/// Chaining after a block of `block_len` instructions ran, `chained` having
/// run before it in the chain: the new total while it stays below
/// `MAX_CHAIN_INSTRS`, `None` when the chain must end.
pub fn chain_after(chained: u32, block_len: u32) -> (r: Option<u32>)
    ensures
        r == (if chained + block_len < MAX_CHAIN_INSTRS {
            Some((chained + block_len) as u32)
        } else {
            None::<u32>
        }),
{
    if chained < MAX_CHAIN_INSTRS && block_len < MAX_CHAIN_INSTRS - chained {
        Some(chained + block_len)
    } else {
        None
    }
}

/// The chain cap is 32 instructions: `chain_after` continues a chain only
/// while fewer than 32 instructions have run in it.
pub proof fn lemma_chain_cap()
    ensures
        MAX_CHAIN_INSTRS == 32,
{
}

/// Whether the CPU is snapshotted before a cached block runs: a speculative
/// block may have to be rolled back, and verify mode compares every run.
pub fn needs_snapshot(s: BlockStats, verify: bool) -> (b: bool)
    ensures
        b == (s.speculative || verify),
{
    s.speculative || verify
}

/// How a run of a cached block ended.
#[derive(Debug, Clone, Copy, PartialEq, Eq, Structural)]
pub enum RunOutcome {
    /// The block raised an exception.
    Exception,
    /// The block ran to its end (and, in verify mode, the interpreter's
    /// replay agreed with it).
    Clean,
    /// Verify mode only: the interpreter's replay of the block disagreed.
    Mismatch,
}

/// What the dispatch loop does after a cached block ran.
#[derive(Debug, Clone, Copy, PartialEq, Eq, Structural)]
pub struct DispatchAction {
    /// Put the snapshot taken before the run back.
    pub rollback: bool,
    /// Let the interpreter execute the faulting instruction.
    pub interpret_fault: bool,
    /// Drop the block from the code cache.
    pub invalidate: bool,
    /// Recompile the block at this tier.
    pub recompile_at: Option<BlockTier>,
}

/// The block statistics and the loop's action after a run of a block with
/// statistics `s` ended in `outcome`:
/// - an exception in a speculative block rolls the CPU back and counts
///   against the block (it may be demoted, see `after_exception`); a
///   trusted block is rolled back only in verify mode, for the comparison;
///   the interpreter then runs the faulting instruction;
/// - a replay mismatch drops the block and leaves the interpreter's state;
/// - a clean run counts towards trust and promotion (`after_clean_run`).
pub open spec fn dispatch_step_spec(s: BlockStats, verify: bool, outcome: RunOutcome, max_tier: BlockTier) -> (
    BlockStats,
    DispatchAction,
) {
    match outcome {
        RunOutcome::Exception => if s.speculative {
            let (n, c) = after_exception_spec(s);
            (
                n,
                DispatchAction {
                    rollback: true,
                    interpret_fault: true,
                    invalidate: false,
                    recompile_at: match c {
                        TierChange::Demote(t) => Some(t),
                        _ => None,
                    },
                },
            )
        } else {
            (
                s,
                DispatchAction {
                    rollback: verify,
                    interpret_fault: true,
                    invalidate: false,
                    recompile_at: None,
                },
            )
        },
        RunOutcome::Mismatch => (
            s,
            DispatchAction { rollback: false, interpret_fault: false, invalidate: true, recompile_at: None },
        ),
        RunOutcome::Clean => {
            let (n, c) = after_clean_run_spec(s, max_tier);
            (
                n,
                DispatchAction {
                    rollback: false,
                    interpret_fault: false,
                    invalidate: false,
                    recompile_at: match c {
                        TierChange::Promote(t) => Some(t),
                        _ => None,
                    },
                },
            )
        },
    }
}

/// One decision of the dispatch loop (see `dispatch_step_spec`).
pub fn dispatch_step(s: BlockStats, verify: bool, outcome: RunOutcome, max_tier: BlockTier) -> (r: (
    BlockStats,
    DispatchAction,
))
    requires
        s.hit_count < u64::MAX,
        s.exception_count < u32::MAX,
        s.stable_hits < u32::MAX,
    ensures
        r == dispatch_step_spec(s, verify, outcome, max_tier),
{
    match outcome {
        RunOutcome::Exception => if s.speculative {
            let (n, c) = after_exception(s);
            let recompile_at = match c {
                TierChange::Demote(t) => Some(t),
                _ => None,
            };
            (n, DispatchAction { rollback: true, interpret_fault: true, invalidate: false, recompile_at })
        } else {
            (s, DispatchAction { rollback: verify, interpret_fault: true, invalidate: false, recompile_at: None })
        },
        RunOutcome::Mismatch => (
            s,
            DispatchAction { rollback: false, interpret_fault: false, invalidate: true, recompile_at: None },
        ),
        RunOutcome::Clean => {
            let (n, c) = after_clean_run(s, max_tier);
            let recompile_at = match c {
                TierChange::Promote(t) => Some(t),
                _ => None,
            };
            (n, DispatchAction { rollback: false, interpret_fault: false, invalidate: false, recompile_at })
        },
    }
}

/// The block lifecycle the dispatch loop keeps:
/// - a block stops being snapshotted (becomes trusted) only after 50 clean
///   runs in a row, or at the Alu tier after 3 exceptions;
/// - it is recompiled one tier up only from a clean run of a trusted block
///   with 200 clean runs in a row, never above `max_tier`;
/// - it is recompiled one tier down only after its 3rd exception in a row
///   while speculative;
/// - every exception of a speculative block rolls the CPU back and ends its
///   run of clean runs.
pub proof fn lemma_dispatch_lifecycle(s: BlockStats, verify: bool, outcome: RunOutcome, max_tier: BlockTier)
    ensures
        ({
            let (n, a) = dispatch_step_spec(s, verify, outcome, max_tier);
            &&& s.speculative && !n.speculative ==> (outcome == RunOutcome::Clean && n.stable_hits
                >= TIER_STABLE_THRESHOLD) || (outcome == RunOutcome::Exception && s.tier
                == BlockTier::Alu && n.exception_count >= TIER_DEMOTE_THRESHOLD)
            &&& !s.speculative ==> !n.speculative
            &&& (a.recompile_at is Some && outcome == RunOutcome::Clean) ==> !n.speculative
                && n.stable_hits >= TIER_PROMOTE_THRESHOLD && promote_spec(s.tier) == Some(
                a.recompile_at->0,
            ) && tier_rank(a.recompile_at->0) <= tier_rank(max_tier)
            &&& (a.recompile_at is Some && outcome != RunOutcome::Clean) ==> outcome
                == RunOutcome::Exception && s.speculative && n.exception_count
                >= TIER_DEMOTE_THRESHOLD && demote_spec(s.tier) == Some(a.recompile_at->0)
            &&& outcome == RunOutcome::Exception && s.speculative ==> a.rollback && n.stable_hits == 0
        }),
{
}

/// The tier a cached block runs at after one decision of the dispatch loop:
/// the tier it is recompiled at, or its tier before.
pub open spec fn tier_after_step(s: BlockStats, verify: bool, outcome: RunOutcome, max_tier: BlockTier) -> BlockTier {
    match dispatch_step_spec(s, verify, outcome, max_tier).1.recompile_at {
        Some(t) => t,
        None => s.tier,
    }
}

/// Over a whole run of the dispatch loop a cached block never goes above
/// `max_tier`: it starts at or below the cap (as `miss_compile_tier` and a
/// capped profile entry give), promotions stop at the cap and demotions
/// lower it, whatever the runs' outcomes and whatever else the loop resets
/// when it recompiles.
pub proof fn lemma_tier_stays_under_cap(
    run: Seq<BlockStats>,
    events: Seq<(bool, RunOutcome)>,
    max_tier: BlockTier,
)
    requires
        run.len() == events.len() + 1,
        tier_rank(run[0].tier) <= tier_rank(max_tier),
        forall|k: int|
            0 <= k < events.len() ==> (#[trigger] run[k + 1]).tier == tier_after_step(
                run[k],
                events[k].0,
                events[k].1,
                max_tier,
            ),
    ensures
        forall|k: int| 0 <= k < run.len() ==> tier_rank((#[trigger] run[k]).tier) <= tier_rank(max_tier),
    decreases events.len(),
{
    if events.len() > 0 {
        let m = events.len() - 1;
        lemma_tier_stays_under_cap(run.drop_last(), events.drop_last(), max_tier);
        assert forall|k: int| 0 <= k < run.len() implies tier_rank((#[trigger] run[k]).tier) <= tier_rank(
            max_tier,
        ) by {
            if k < run.len() - 1 {
                assert(run.drop_last()[k] == run[k]);
            } else {
                let j = k - 1;
                assert(run.drop_last()[j] == run[j]);
                assert(run[j + 1].tier == tier_after_step(run[j], events[j].0, events[j].1, max_tier));
                lemma_dispatch_lifecycle(run[j], events[j].0, events[j].1, max_tier);
                crate::jit::tier::lemma_tier_changes_are_single_steps(run[j], max_tier);
            }
        }
    }
}

/// The highest tier allowed by the `IRIS_JIT_MAX_TIER` setting: 0 for Alu,
/// 1 for Loads, anything else (or nothing) for Full.
pub fn max_tier_from_setting(setting: Option<u8>) -> (t: BlockTier)
    ensures
        t == (match setting {
            Some(0) => BlockTier::Alu,
            Some(1) => BlockTier::Loads,
            _ => BlockTier::Full,
        }),
{
    match setting {
        Some(0) => BlockTier::Alu,
        Some(1) => BlockTier::Loads,
        _ => BlockTier::Full,
    }
}

} // verus!

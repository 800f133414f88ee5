//! The slice of MIPS CPU state that the debugger expressions and the JIT
//! rollback snapshot work on, and the symbol table of the debugger.
use vstd::prelude::*;
use crate::text::chars_eq_str;
use crate::text::str_chars;

verus! {

/// CP0 register numbers that hold 32-bit values.
pub const CP0_WIRED: usize = 6;
pub const CP0_STATUS: usize = 12;
pub const CP0_CAUSE: usize = 13;

/// Architectural register state of the R4400 core.
pub struct MipsCore {
    pub pc: u64,
    pub hi: u64,
    pub lo: u64,
    pub gpr: [u64; 32],
    pub fpr: [u64; 32],
    /// Coprocessor 0 registers, by register number.
    pub cp0: [u64; 32],
}

impl MipsCore {
    /// Wired, Status and Cause are 32-bit registers.
    pub open spec fn wf(&self) -> bool {
        &&& self.cp0[CP0_WIRED as int] <= u32::MAX
        &&& self.cp0[CP0_STATUS as int] <= u32::MAX
        &&& self.cp0[CP0_CAUSE as int] <= u32::MAX
    }

    /// What reading general register `i` gives: register 0 reads as zero.
    pub open spec fn gpr_value(&self, i: int) -> u64 {
        if i == 0 {
            0
        } else {
            self.gpr[i]
        }
    }

    /// A core with every register zero.
    pub fn new() -> (c: Self)
        ensures
            c.wf(),
            c.pc == 0 && c.hi == 0 && c.lo == 0,
            forall|i: int| 0 <= i < 32 ==> c.gpr[i] == 0 && c.fpr[i] == 0 && c.cp0[i] == 0,
    {
        MipsCore { pc: 0, hi: 0, lo: 0, gpr: [0u64; 32], fpr: [0u64; 32], cp0: [0u64; 32] }
    }

    pub fn read_gpr(&self, i: u32) -> (v: u64)
        requires
            i < 32,
        ensures
            v == self.gpr_value(i as int),
    {
        if i == 0 {
            0
        } else {
            self.gpr[i as usize]
        }
    }

    /// Writes general register `i`; writes to register 0 are dropped.
    pub fn write_gpr(&mut self, i: u32, v: u64)
        requires
            i < 32,
        ensures
            final(self).pc == old(self).pc,
            final(self).hi == old(self).hi,
            final(self).lo == old(self).lo,
            final(self).fpr == old(self).fpr,
            final(self).cp0 == old(self).cp0,
            final(self).gpr@ == (if i == 0 {
                old(self).gpr@
            } else {
                old(self).gpr@.update(i as int, v)
            }),
    {
        if i != 0 {
            self.gpr[i as usize] = v;
        }
    }

    pub fn read_cp0_debug(&self, i: u32) -> (v: u64)
        requires
            i < 32,
        ensures
            v == self.cp0[i as int],
    {
        self.cp0[i as usize]
    }

    /// Writes CP0 register `i`; the 32-bit registers keep the low 32 bits.
    pub fn write_cp0(&mut self, i: u32, v: u64)
        requires
            i < 32,
            old(self).wf(),
        ensures
            final(self).wf(),
            final(self).pc == old(self).pc,
            final(self).hi == old(self).hi,
            final(self).lo == old(self).lo,
            final(self).gpr == old(self).gpr,
            final(self).fpr == old(self).fpr,
            final(self).cp0@ == old(self).cp0@.update(i as int, cp0_stored_value(i as int, v)),
    {
        let stored = if i as usize == CP0_WIRED || i as usize == CP0_STATUS || i as usize
            == CP0_CAUSE {
            v & 0xFFFF_FFFF
        } else {
            v
        };
        assert(v & 0xFFFF_FFFF <= u32::MAX) by (bit_vector);
        self.cp0[i as usize] = stored;
    }
}

/// The value CP0 register `i` holds after a write of `v`.
pub open spec fn cp0_stored_value(i: int, v: u64) -> u64 {
    if i == CP0_WIRED || i == CP0_STATUS || i == CP0_CAUSE {
        v & 0xFFFF_FFFF
    } else {
        v
    }
}

/// Name of CP0 register `i`, as the disassembler prints it.
pub open spec fn cp0_name(i: int) -> Seq<char> {
    if i == 0 { "Index"@ }
    else if i == 1 { "Random"@ }
    else if i == 2 { "EntryLo0"@ }
    else if i == 3 { "EntryLo1"@ }
    else if i == 4 { "Context"@ }
    else if i == 5 { "PageMask"@ }
    else if i == 6 { "Wired"@ }
    else if i == 8 { "BadVAddr"@ }
    else if i == 9 { "Count"@ }
    else if i == 10 { "EntryHi"@ }
    else if i == 11 { "Compare"@ }
    else if i == 12 { "Status"@ }
    else if i == 13 { "Cause"@ }
    else if i == 14 { "EPC"@ }
    else if i == 15 { "PRId"@ }
    else if i == 16 { "Config"@ }
    else if i == 17 { "LLAddr"@ }
    else if i == 18 { "WatchLo"@ }
    else if i == 19 { "WatchHi"@ }
    else if i == 20 { "XContext"@ }
    else if i == 26 { "ECC"@ }
    else if i == 27 { "CacheErr"@ }
    else if i == 28 { "TagLo"@ }
    else if i == 29 { "TagHi"@ }
    else if i == 30 { "ErrorEPC"@ }
    else { "Reserved"@ }
}

pub fn cp0_reg_name(i: u32) -> (r: &'static str)
    ensures
        r@ == cp0_name(i as int),
{
    match i {
        0 => "Index",
        1 => "Random",
        2 => "EntryLo0",
        3 => "EntryLo1",
        4 => "Context",
        5 => "PageMask",
        6 => "Wired",
        8 => "BadVAddr",
        9 => "Count",
        10 => "EntryHi",
        11 => "Compare",
        12 => "Status",
        13 => "Cause",
        14 => "EPC",
        15 => "PRId",
        16 => "Config",
        17 => "LLAddr",
        18 => "WatchLo",
        19 => "WatchHi",
        20 => "XContext",
        26 => "ECC",
        27 => "CacheErr",
        28 => "TagLo",
        29 => "TagHi",
        30 => "ErrorEPC",
        _ => "Reserved",
    }
}

/// Symbol name to address map loaded from a link map.
pub struct SymbolTable {
    pub entries: Vec<(String, u64)>,
}

/// Address of the first entry named `name` in `entries`.
pub open spec fn lookup_symbol(entries: Seq<(Seq<char>, u64)>, name: Seq<char>) -> Option<u64>
    decreases entries.len(),
{
    if entries.len() == 0 {
        None
    } else if entries[0].0 == name {
        Some(entries[0].1)
    } else {
        lookup_symbol(entries.skip(1), name)
    }
}

impl View for SymbolTable {
    type V = Seq<(Seq<char>, u64)>;

    open spec fn view(&self) -> Seq<(Seq<char>, u64)> {
        self.entries@.map_values(|e: (String, u64)| (e.0@, e.1))
    }
}

proof fn lemma_lookup_prefix_miss(s: Seq<(Seq<char>, u64)>, name: Seq<char>, i: int)
    requires
        0 <= i <= s.len(),
        forall|k: int| 0 <= k < i ==> s[k].0 != name,
    ensures
        lookup_symbol(s, name) == lookup_symbol(s.skip(i), name),
    decreases i,
{
    if i > 0 {
        lemma_lookup_prefix_miss(s.skip(1), name, i - 1);
        assert(s.skip(1).skip(i - 1) =~= s.skip(i));
    } else {
        assert(s.skip(0) =~= s);
    }
}

impl SymbolTable {
    pub fn new() -> (t: Self)
        ensures
            t@ == Seq::<(Seq<char>, u64)>::empty(),
    {
        let t = SymbolTable { entries: Vec::new() };
        assert(t@ =~= Seq::<(Seq<char>, u64)>::empty());
        t
    }

    /// Adds `name` at `addr` after the symbols already held.
    pub fn add(&mut self, name: String, addr: u64)
        ensures
            final(self)@ == old(self)@.push((name@, addr)),
    {
        self.entries.push((name, addr));
        assert(self@ =~= old(self)@.push((name@, addr)));
    }

    /// Address of `name`: the first entry of that name.
    pub fn get_addr(&self, name: &str) -> (r: Option<u64>)
        ensures
            r == lookup_symbol(self@, name@),
    {
        let want = str_chars(name);
        let mut i: usize = 0;
        while i < self.entries.len()
            invariant
                i <= self.entries.len(),
                want@ == name@,
                forall|k: int| 0 <= k < i ==> self@[k].0 != name@,
            decreases self.entries.len() - i,
        {
            let e = &self.entries[i];
            let n = e.0.as_str();
            if chars_eq_str(&want, 0, want.len(), n) {
                proof {
                    assert(want@.subrange(0, want@.len() as int) =~= want@);
                    lemma_lookup_prefix_miss(self@, name@, i as int);
                    assert(self@.skip(i as int)[0] == self@[i as int]);
                }
                return Some(e.1);
            }
            proof {
                assert(want@.subrange(0, want@.len() as int) =~= want@);
            }
            i = i + 1;
        }
        proof {
            lemma_lookup_prefix_miss(self@, name@, i as int);
            assert(self@.skip(i as int).len() == 0);
        }
        None
    }
}

// ── Instruction fields ──────────────────────────────────────────────────────

pub const OP_SPECIAL: u8 = 0;
pub const OP_J: u8 = 2;
pub const OP_JAL: u8 = 3;
pub const OP_BEQ: u8 = 4;
pub const OP_BNE: u8 = 5;
pub const OP_BLEZ: u8 = 6;
pub const OP_BGTZ: u8 = 7;
pub const OP_ADDIU: u8 = 9;
pub const OP_SLTI: u8 = 10;
pub const OP_SLTIU: u8 = 11;
pub const OP_ANDI: u8 = 12;
pub const OP_ORI: u8 = 13;
pub const OP_XORI: u8 = 14;
pub const OP_LUI: u8 = 15;
pub const OP_DADDIU: u8 = 25;
pub const OP_LB: u8 = 32;
pub const OP_LH: u8 = 33;
pub const OP_LW: u8 = 35;
pub const OP_LBU: u8 = 36;
pub const OP_LHU: u8 = 37;
pub const OP_LWU: u8 = 39;
pub const OP_SB: u8 = 40;
pub const OP_SH: u8 = 41;
pub const OP_SW: u8 = 43;
pub const OP_LD: u8 = 55;
pub const OP_SD: u8 = 63;

pub const FUNCT_SLL: u8 = 0;
pub const FUNCT_SRL: u8 = 2;
pub const FUNCT_SRA: u8 = 3;
pub const FUNCT_SLLV: u8 = 4;
pub const FUNCT_SRLV: u8 = 6;
pub const FUNCT_SRAV: u8 = 7;
pub const FUNCT_JR: u8 = 8;
pub const FUNCT_MOVZ: u8 = 10;
pub const FUNCT_MOVN: u8 = 11;
pub const FUNCT_SYNC: u8 = 15;
pub const FUNCT_MFHI: u8 = 16;
pub const FUNCT_MTHI: u8 = 17;
pub const FUNCT_MFLO: u8 = 18;
pub const FUNCT_MTLO: u8 = 19;
pub const FUNCT_DSLLV: u8 = 20;
pub const FUNCT_DSRLV: u8 = 22;
pub const FUNCT_DSRAV: u8 = 23;
pub const FUNCT_MULT: u8 = 24;
pub const FUNCT_MULTU: u8 = 25;
pub const FUNCT_DIV: u8 = 26;
pub const FUNCT_DIVU: u8 = 27;
pub const FUNCT_DMULT: u8 = 28;
pub const FUNCT_DMULTU: u8 = 29;
pub const FUNCT_DDIV: u8 = 30;
pub const FUNCT_DDIVU: u8 = 31;
pub const FUNCT_ADDU: u8 = 33;
pub const FUNCT_SUBU: u8 = 35;
pub const FUNCT_AND: u8 = 36;
pub const FUNCT_OR: u8 = 37;
pub const FUNCT_XOR: u8 = 38;
pub const FUNCT_NOR: u8 = 39;
pub const FUNCT_SLT: u8 = 42;
pub const FUNCT_SLTU: u8 = 43;
pub const FUNCT_DADDU: u8 = 45;
pub const FUNCT_DSUBU: u8 = 47;
pub const FUNCT_DSLL: u8 = 56;
pub const FUNCT_DSRL: u8 = 58;
pub const FUNCT_DSRA: u8 = 59;
pub const FUNCT_DSLL32: u8 = 60;
pub const FUNCT_DSRL32: u8 = 62;
pub const FUNCT_DSRA32: u8 = 63;

/// The fields of a 32-bit instruction word.
#[derive(Debug, Clone, Copy, PartialEq, Eq, Structural, Default)]
pub struct DecodedInstr {
    pub raw: u32,
    /// bits 31:26
    pub op: u8,
    /// bits 25:21
    pub rs: u8,
    /// bits 20:16
    pub rt: u8,
    /// bits 15:11
    pub rd: u8,
    /// bits 10:6
    pub sa: u8,
    /// bits 5:0
    pub funct: u8,
    /// bits 15:0
    pub imm: u16,
}

/// The fields of `raw`.
pub open spec fn decoded(raw: u32) -> DecodedInstr {
    DecodedInstr {
        raw,
        op: (raw / 0x400_0000) as u8,
        rs: ((raw / 0x20_0000) % 32) as u8,
        rt: ((raw / 0x1_0000) % 32) as u8,
        rd: ((raw / 0x800) % 32) as u8,
        sa: ((raw / 0x40) % 32) as u8,
        funct: (raw % 64) as u8,
        imm: (raw % 0x1_0000) as u16,
    }
}

/// Splits an instruction word into its fields.
pub fn decode(raw: u32) -> (d: DecodedInstr)
    ensures
        d == decoded(raw),
{
    let op = raw >> 26u32;
    let rs = (raw >> 21u32) & 31;
    let rt = (raw >> 16u32) & 31;
    let rd = (raw >> 11u32) & 31;
    let sa = (raw >> 6u32) & 31;
    let funct = raw & 63;
    let imm = raw & 0xFFFF;
    assert(op == raw / 0x400_0000 && op < 64 && rs == (raw / 0x20_0000) % 32 && rt == (raw
        / 0x1_0000) % 32 && rd == (raw / 0x800) % 32 && sa == (raw / 0x40) % 32 && funct == raw
        % 64 && imm == raw % 0x1_0000) by (bit_vector)
        requires
            op == raw >> 26u32,
            rs == (raw >> 21u32) & 31,
            rt == (raw >> 16u32) & 31,
            rd == (raw >> 11u32) & 31,
            sa == (raw >> 6u32) & 31,
            funct == raw & 63,
            imm == raw & 0xFFFF,
    ;
    DecodedInstr {
        raw,
        op: op as u8,
        rs: rs as u8,
        rt: rt as u8,
        rd: rd as u8,
        sa: sa as u8,
        funct: funct as u8,
        imm: imm as u16,
    }
}

// ── Executor state ──────────────────────────────────────────────────────────

/// One entry of the small translation cache in front of the TLB.
#[derive(Debug, Clone, Copy, PartialEq, Eq, Structural, Default)]
pub struct NanoTlbEntry {
    pub vpn: u64,
    pub pfn: u64,
    pub valid: bool,
}

/// One joint TLB entry.
#[derive(Debug, Clone, Copy, PartialEq, Eq, Structural, Default)]
pub struct TlbEntry {
    pub page_mask: u64,
    pub entry_hi: u64,
    pub entry_lo0: u64,
    pub entry_lo1: u64,
}

/// The joint TLB.
pub struct MipsTlb {
    pub entries: Vec<TlbEntry>,
}

impl MipsTlb {
    /// A copy of this TLB.
    pub fn duplicate(&self) -> (t: MipsTlb)
        ensures
            t.entries@ == self.entries@,
    {
        let mut entries: Vec<TlbEntry> = Vec::new();
        let mut i: usize = 0;
        while i < self.entries.len()
            invariant
                i <= self.entries.len(),
                entries@ =~= self.entries@.subrange(0, i as int),
            decreases self.entries.len() - i,
        {
            entries.push(self.entries[i]);
            i = i + 1;
        }
        MipsTlb { entries }
    }
}

/// The interpreter's CPU state that a compiled block can observe or change.
pub struct MipsExecutor {
    pub core: MipsCore,
    pub nanotlb: [NanoTlbEntry; 3],
    pub in_delay_slot: bool,
    pub delay_slot_target: u64,
    pub cached_pending: u64,
    pub interrupt_check_counter: u8,
    pub tlb: MipsTlb,
}

} // verus!

//! JIT profile file: the blocks that reached a tier worth keeping, saved at
//! shutdown and read back at startup.
//!
//! Layout: the magic "IRJP", a version byte (1), the entry count as a
//! little-endian u32, then per entry the physical pc and the virtual pc as
//! little-endian u64 and the tier as one byte (0 Alu, 1 Loads, 2 Full).
use vstd::prelude::*;
use vstd::bytes::{
    lemma_auto_spec_u32_to_from_le_bytes, lemma_auto_spec_u64_to_from_le_bytes,
    spec_u32_from_le_bytes, spec_u32_to_le_bytes, spec_u64_from_le_bytes, spec_u64_to_le_bytes,
    u32_from_le_bytes, u32_to_le_bytes, u64_from_le_bytes, u64_to_le_bytes,
};
use crate::jit::tier::{tier_rank, BlockTier};

verus! {

/// One entry of the profile: a block that reached a tier worth keeping.
#[derive(Debug, Clone, Copy, PartialEq, Eq, Structural)]
pub struct ProfileEntry {
    pub phys_pc: u64,
    pub virt_pc: u64,
    pub tier: BlockTier,
}

/// Why a profile image was not read.
#[derive(Debug, Clone, Copy, PartialEq, Eq, Structural)]
pub enum ProfileError {
    /// The image does not start with "IRJP".
    BadMagic,
    /// The version byte is missing or not 1.
    BadVersion,
    /// The image ends before the entry count or inside an entry record.
    Truncated,
}

pub const PROFILE_VERSION: u8 = 1;

/// Size of one entry in the image.
pub const ENTRY_SIZE: usize = 17;

/// Size of the header (magic, version, count).
pub const HEADER_SIZE: usize = 9;

pub open spec fn magic() -> Seq<u8> {
    seq![0x49u8, 0x52u8, 0x4Au8, 0x50u8]
}

pub open spec fn tier_of_byte(b: u8) -> BlockTier {
    if b == 0 {
        BlockTier::Alu
    } else if b == 1 {
        BlockTier::Loads
    } else {
        BlockTier::Full
    }
}

/// The bytes of one entry.
pub open spec fn entry_bytes(e: ProfileEntry) -> Seq<u8> {
    spec_u64_to_le_bytes(e.phys_pc) + spec_u64_to_le_bytes(e.virt_pc) + seq![tier_rank(e.tier) as u8]
}

/// The bytes of a list of entries, one after the other.
pub open spec fn entries_bytes(es: Seq<ProfileEntry>) -> Seq<u8>
    decreases es.len(),
{
    if es.len() == 0 {
        Seq::empty()
    } else {
        entry_bytes(es[0]) + entries_bytes(es.skip(1))
    }
}

/// The image of a profile.
pub open spec fn encode_spec(es: Seq<ProfileEntry>) -> Seq<u8> {
    magic() + seq![PROFILE_VERSION] + spec_u32_to_le_bytes(es.len() as u32) + entries_bytes(es)
}

/// The entries read from `b` at `off` when `remaining` more are announced
/// (the records are all there: see `decode_spec`); entries with an unknown
/// tier byte are skipped.
pub open spec fn decode_entries(b: Seq<u8>, off: int, remaining: nat) -> Seq<ProfileEntry>
    decreases remaining,
{
    if remaining == 0 || off < 0 || off + 17 > b.len() {
        Seq::empty()
    } else {
        let rest = decode_entries(b, off + 17, (remaining - 1) as nat);
        let t = b[off + 16];
        if t <= 2 {
            seq![
                ProfileEntry {
                    phys_pc: spec_u64_from_le_bytes(b.subrange(off, off + 8)),
                    virt_pc: spec_u64_from_le_bytes(b.subrange(off + 8, off + 16)),
                    tier: tier_of_byte(t),
                },
            ] + rest
        } else {
            rest
        }
    }
}

/// The number of entries the header of `b` announces.
pub open spec fn announced(b: Seq<u8>) -> nat {
    spec_u32_from_le_bytes(b.subrange(5, 9)) as nat
}

/// What reading a profile image gives: an error, and so no entry at all,
/// when the magic or the version is wrong or the image ends before the
/// entry count or inside one of the records it announces; otherwise the
/// announced entries (bytes after them are ignored).
pub open spec fn decode_spec(b: Seq<u8>) -> Result<Seq<ProfileEntry>, ProfileError> {
    if b.len() < 4 || b.subrange(0, 4) != magic() {
        Err(ProfileError::BadMagic)
    } else if b.len() < 5 || b[4] != PROFILE_VERSION {
        Err(ProfileError::BadVersion)
    } else if b.len() < 9 || b.len() < 9 + 17 * announced(b) {
        Err(ProfileError::Truncated)
    } else {
        Ok(decode_entries(b, 9, announced(b)))
    }
}

fn append_bytes(out: &mut Vec<u8>, more: Vec<u8>)
    ensures
        final(out)@ == old(out)@ + more@,
{
    let mut m = more;
    out.append(&mut m);
}

proof fn lemma_entries_bytes_len(es: Seq<ProfileEntry>)
    ensures
        entries_bytes(es).len() == 17 * es.len(),
    decreases es.len(),
{
    lemma_auto_spec_u64_to_from_le_bytes();
    if es.len() > 0 {
        lemma_entries_bytes_len(es.skip(1));
    }
}

proof fn lemma_entries_bytes_push(es: Seq<ProfileEntry>, e: ProfileEntry)
    ensures
        entries_bytes(es.push(e)) == entries_bytes(es) + entry_bytes(e),
    decreases es.len(),
{
    if es.len() == 0 {
        assert(es.push(e).skip(1) =~= Seq::<ProfileEntry>::empty());
        assert(entries_bytes(es.push(e).skip(1)) == Seq::<u8>::empty());
        assert(entries_bytes(es) == Seq::<u8>::empty());
        assert(entries_bytes(es.push(e)) =~= entry_bytes(e));
    } else {
        assert(es.push(e).skip(1) =~= es.skip(1).push(e));
        lemma_entries_bytes_push(es.skip(1), e);
        assert(entries_bytes(es.push(e)) =~= entries_bytes(es) + entry_bytes(e));
    }
}

/// The entries kept of the compiled blocks `(phys_pc, virt_pc, tier)`, in
/// order: those above the Alu tier (Alu blocks compile on first use anyway).
pub open spec fn kept_entries(blocks: Seq<(u64, u64, BlockTier)>) -> Seq<ProfileEntry>
    decreases blocks.len(),
{
    if blocks.len() == 0 {
        Seq::empty()
    } else {
        let rest = kept_entries(blocks.drop_last());
        let (p, v, t) = blocks.last();
        if t == BlockTier::Alu {
            rest
        } else {
            rest.push(ProfileEntry { phys_pc: p, virt_pc: v, tier: t })
        }
    }
}

/// The profile of a set of compiled blocks (see `kept_entries`).
pub fn entries_to_save(blocks: &Vec<(u64, u64, BlockTier)>) -> (out: Vec<ProfileEntry>)
    ensures
        out@ == kept_entries(blocks@),
{
    let mut out: Vec<ProfileEntry> = Vec::new();
    let mut i: usize = 0;
    while i < blocks.len()
        invariant
            i <= blocks@.len(),
            out@ == kept_entries(blocks@.subrange(0, i as int)),
        decreases blocks@.len() - i,
    {
        let (p, v, t) = blocks[i];
        assert(blocks@.subrange(0, i + 1).drop_last() =~= blocks@.subrange(0, i as int));
        match t {
            BlockTier::Alu => {},
            _ => {
                out.push(ProfileEntry { phys_pc: p, virt_pc: v, tier: t });
            },
        }
        i = i + 1;
    }
    assert(blocks@.subrange(0, blocks@.len() as int) =~= blocks@);
    out
}

/// The image of a list of entries (see `encode_spec`).
pub fn encode_profile(entries: &Vec<ProfileEntry>) -> (out: Vec<u8>)
    requires
        entries@.len() <= u32::MAX,
    ensures
        out@ == encode_spec(entries@),
{
    let mut out: Vec<u8> = Vec::new();
    out.push(0x49u8);
    out.push(0x52u8);
    out.push(0x4Au8);
    out.push(0x50u8);
    out.push(PROFILE_VERSION);
    append_bytes(&mut out, u32_to_le_bytes(entries.len() as u32));
    let ghost header = out@;
    assert(header =~= magic() + seq![PROFILE_VERSION] + spec_u32_to_le_bytes(entries@.len() as u32));
    let mut i: usize = 0;
    assert(entries@.subrange(0, 0) =~= Seq::<ProfileEntry>::empty());
    while i < entries.len()
        invariant
            i <= entries.len(),
            out@ == header + entries_bytes(entries@.subrange(0, i as int)),
        decreases entries.len() - i,
    {
        let e = entries[i];
        append_bytes(&mut out, u64_to_le_bytes(e.phys_pc));
        append_bytes(&mut out, u64_to_le_bytes(e.virt_pc));
        out.push(e.tier.rank());
        proof {
            assert(entries@.subrange(0, i + 1) =~= entries@.subrange(0, i as int).push(e));
            lemma_entries_bytes_push(entries@.subrange(0, i as int), e);
            assert(out@ =~= header + entries_bytes(entries@.subrange(0, i + 1)));
        }
        i = i + 1;
    }
    assert(entries@.subrange(0, i as int) =~= entries@);
    out
}

fn read_u64(b: &[u8], off: usize) -> (v: u64)
    requires
        off + 8 <= b.len(),
    ensures
        v == spec_u64_from_le_bytes(b@.subrange(off as int, off + 8)),
{
    let mut buf: Vec<u8> = Vec::new();
    let mut k: usize = 0;
    while k < 8
        invariant
            k <= 8,
            off + 8 <= b.len(),
            buf@ =~= b@.subrange(off as int, off + k),
        decreases 8 - k,
    {
        buf.push(b[off + k]);
        k = k + 1;
    }
    u64_from_le_bytes(buf.as_slice())
}

/// Reads a profile image (see `decode_spec`).
pub fn decode_profile(b: &[u8]) -> (r: Result<Vec<ProfileEntry>, ProfileError>)
    ensures
        match decode_spec(b@) {
            Ok(es) => r is Ok && r->Ok_0@ == es,
            Err(e) => r == Err::<Vec<ProfileEntry>, ProfileError>(e),
        },
{
    let n = b.len();
    if n < 4 || b[0] != 0x49u8 || b[1] != 0x52u8 || b[2] != 0x4Au8 || b[3] != 0x50u8 {
        proof {
            if n >= 4 {
                if b@.subrange(0, 4) == magic() {
                    assert(b@.subrange(0, 4)[0] == b@[0]);
                    assert(b@.subrange(0, 4)[1] == b@[1]);
                    assert(b@.subrange(0, 4)[2] == b@[2]);
                    assert(b@.subrange(0, 4)[3] == b@[3]);
                }
            }
        }
        return Err(ProfileError::BadMagic);
    }
    assert(b@.subrange(0, 4) =~= magic());
    if n < 5 || b[4] != PROFILE_VERSION {
        return Err(ProfileError::BadVersion);
    }
    if n < 9 {
        return Err(ProfileError::Truncated);
    }
    let mut cbuf: Vec<u8> = Vec::new();
    cbuf.push(b[5]);
    cbuf.push(b[6]);
    cbuf.push(b[7]);
    cbuf.push(b[8]);
    assert(cbuf@ =~= b@.subrange(5, 9));
    let count = u32_from_le_bytes(cbuf.as_slice());
    if (n - 9) / 17 < count as usize {
        assert(n < 9 + 17 * count) by (nonlinear_arith)
            requires
                (n - 9) / 17 < count,
                n >= 9,
        ;
        return Err(ProfileError::Truncated);
    }
    assert(n >= 9 + 17 * count) by (nonlinear_arith)
        requires
            (n - 9) / 17 >= count,
            n >= 9,
    ;
    let mut entries: Vec<ProfileEntry> = Vec::new();
    let mut off: usize = 9;
    let mut i: u32 = 0;
    assert(entries@ + decode_entries(b@, 9, count as nat) =~= decode_entries(b@, 9, count as nat));
    while i < count
        invariant
            n == b@.len(),
            n == b.len(),
            9 <= off <= n,
            i <= count,
            entries@ + decode_entries(b@, off as int, (count - i) as nat) == decode_entries(
                b@,
                9,
                count as nat,
            ),
        ensures
            9 <= off <= n,
            i == count || off + 17 > n,
            entries@ + decode_entries(b@, off as int, (count - i) as nat) == decode_entries(
                b@,
                9,
                count as nat,
            ),
        decreases count - i,
    {
        if n - off < 17 {
            break;
        }
        let phys_pc = read_u64(b, off);
        let virt_pc = read_u64(b, off + 8);
        let t = b[off + 16];
        let ghost before = entries@;
        if t <= 2 {
            let tier = if t == 0 {
                BlockTier::Alu
            } else if t == 1 {
                BlockTier::Loads
            } else {
                BlockTier::Full
            };
            entries.push(ProfileEntry { phys_pc, virt_pc, tier });
        }
        proof {
            let rest = decode_entries(b@, off + 17, (count - i - 1) as nat);
            if t <= 2 {
                assert(entries@ + rest =~= before + decode_entries(b@, off as int, (count - i) as nat));
            } else {
                assert(entries@ + rest =~= before + decode_entries(b@, off as int, (count - i) as nat));
            }
        }
        off = off + 17;
        i = i + 1;
    }
    proof {
        assert(decode_entries(b@, off as int, (count - i) as nat) =~= Seq::<ProfileEntry>::empty());
        assert(entries@ =~= entries@ + Seq::<ProfileEntry>::empty());
    }
    Ok(entries)
}

/// Reading back a saved profile gives exactly the entries saved.
pub proof fn lemma_profile_round_trip(es: Seq<ProfileEntry>)
    requires
        es.len() <= u32::MAX,
    ensures
        decode_spec(encode_spec(es)) == Ok::<Seq<ProfileEntry>, ProfileError>(es),
{
    lemma_auto_spec_u32_to_from_le_bytes();
    lemma_auto_spec_u64_to_from_le_bytes();
    let b = encode_spec(es);
    let header = magic() + seq![PROFILE_VERSION] + spec_u32_to_le_bytes(es.len() as u32);
    assert(header.len() == 9);
    assert(b.subrange(0, 4) =~= magic());
    assert(b.subrange(5, 9) =~= spec_u32_to_le_bytes(es.len() as u32));
    lemma_entries_bytes_len(es);
    lemma_decode_entries_of_encoding(header, es);
    assert(es.skip(0) =~= es);
}

proof fn lemma_decode_entries_of_encoding(prefix: Seq<u8>, es: Seq<ProfileEntry>)
    ensures
        decode_entries(prefix + entries_bytes(es), prefix.len() as int, es.len()) == es,
    decreases es.len(),
{
    lemma_auto_spec_u64_to_from_le_bytes();
    if es.len() > 0 {
        let e = es[0];
        let b = prefix + entries_bytes(es);
        let off = prefix.len() as int;
        lemma_entries_bytes_len(es);
        let p2 = prefix + entry_bytes(e);
        assert(b =~= p2 + entries_bytes(es.skip(1)));
        lemma_decode_entries_of_encoding(p2, es.skip(1));
        assert(b.subrange(off, off + 8) =~= spec_u64_to_le_bytes(e.phys_pc));
        assert(b.subrange(off + 8, off + 16) =~= spec_u64_to_le_bytes(e.virt_pc));
        assert(b[off + 16] == tier_rank(e.tier) as u8);
        assert(tier_of_byte(tier_rank(e.tier) as u8) == e.tier);
        assert(es =~= seq![e] + es.skip(1));
    }
}

} // verus!

//! The XMAP9's status dump: its registers and its mode table, one decoded
//! entry a line, as the monitor prints them.
use vstd::prelude::*;
use crate::locks::{dec_text, push_decimal};
use crate::snapshot::{hex_text, push_hex_digits};
use crate::xmap9::Xmap9;

verus! {

/// The pixel mode name left-aligned in five columns.
pub open spec fn pix_mode_col(m: nat) -> Seq<char> {
    if m == 0 {
        "CI   "@
    } else if m == 1 {
        "RGB0 "@
    } else if m == 2 {
        "RGB1 "@
    } else if m == 3 {
        "RGB2 "@
    } else {
        "?    "@
    }
}

/// The pixel size name left-aligned in six columns.
pub open spec fn pix_size_col(m: nat) -> Seq<char> {
    if m == 0 {
        "4bpp  "@
    } else if m == 1 {
        "8bpp  "@
    } else if m == 2 {
        "12bpp "@
    } else if m == 3 {
        "24bpp "@
    } else {
        "?     "@
    }
}

/// A table index right-aligned in two columns.
pub open spec fn index_col(i: nat) -> Seq<char> {
    if i < 10 {
        " "@ + dec_text(i)
    } else {
        dec_text(i)
    }
}

/// A raw entry in at least six hex digits.
pub open spec fn raw_col(raw: u32) -> Seq<char> {
    if raw < 0x100_0000 {
        hex_text(raw as nat, 6)
    } else if raw < 0x1000_0000 {
        hex_text(raw as nat, 7)
    } else {
        hex_text(raw as nat, 8)
    }
}

/// The color map base of a color-index entry (see `Xmap9::decode_mode_entry`).
pub open spec fn cmap_base_of(raw: u32) -> nat {
    let msb = (raw / 8) % 32;
    if (raw / 0x100) % 4 == 0 {
        if (raw / 0x400) % 4 == 2 {
            ((msb / 16) * 16 * 256) as nat
        } else {
            (msb * 256) as nat
        }
    } else {
        0
    }
}

/// Index and raw value columns of a mode table line.
pub open spec fn mode_head(i: nat, raw: u32) -> Seq<char> {
    "  "@ + index_col(i) + "   "@ + raw_col(raw) + "   "@
}

/// Pixel mode, size and color map columns of a mode table line.
pub open spec fn mode_mid(raw: u32) -> Seq<char> {
    pix_mode_col(((raw / 0x100) % 4) as nat) + "    "@ + pix_size_col(((raw / 0x400) % 4) as nat)
        + "   "@ + hex_text(((raw / 8) % 32) as nat, 2) + "       "@ + hex_text(cmap_base_of(raw), 4)
        + "       "@
}

/// Auxiliary, buffer and overlay columns of a mode table line.
pub open spec fn mode_tail(raw: u32) -> Seq<char> {
    let aux_msb = (raw / 0x8_0000) % 32;
    hex_text(((raw / 0x1_0000) % 8) as nat, 1) + "        "@ + hex_text(aux_msb as nat, 2) + "     "@
        + hex_text((aux_msb * 256) as nat, 4) + "      "@ + dec_text((raw % 2) as nat) + " "@
        + dec_text(((raw / 2) % 2) as nat) + "\n"@
}

/// The dump line of mode table entry `i` holding `raw`: index, raw value,
/// pixel mode and size, color map MSB and base, auxiliary mode, MSB and
/// base, buffer and overlay bits.
pub open spec fn mode_line(i: nat, raw: u32) -> Seq<char> {
    mode_head(i, raw) + mode_mid(raw) + mode_tail(raw)
}

/// The lines of the first `n` mode table entries.
pub open spec fn mode_lines(table: Seq<u32>, n: int) -> Seq<char>
    decreases n,
{
    if n <= 0 {
        Seq::empty()
    } else {
        mode_lines(table, n - 1) + mode_line((n - 1) as nat, table[n - 1])
    }
}

/// The status dump of an XMAP9, headed by `label`.
pub open spec fn xmap9_status_text(s: Xmap9, label: Seq<char>) -> Seq<char> {
    "=== "@ + label + " ===\n"@ + "  config="@ + hex_text(s.config as nat, 2) + " cursor_cmap_msb="@
        + hex_text(s.cursor_cmap_msb as nat, 2) + " popup_cmap_msb="@ + hex_text(
        s.popup_cmap_msb as nat,
        2,
    ) + " mode_addr="@ + hex_text(s.mode_addr as nat, 2) + " fifo_avail="@ + hex_text(
        s.fifo_avail as nat,
        2,
    ) + "\n"@ + "  Mode Table (32 entries):\n"@
        + "  idx  raw      pix_mode pix_size msb_cmap cmap_base  aux_mode aux_msb aux_base  buf ovl\n"@
        + mode_lines(s.mode_table@, 32)
}

fn mode_col_text(m: u32) -> (r: &'static str)
    ensures
        r@ == pix_mode_col(m as nat),
{
    if m == 0 {
        "CI   "
    } else if m == 1 {
        "RGB0 "
    } else if m == 2 {
        "RGB1 "
    } else if m == 3 {
        "RGB2 "
    } else {
        "?    "
    }
}

fn size_col_text(m: u32) -> (r: &'static str)
    ensures
        r@ == pix_size_col(m as nat),
{
    if m == 0 {
        "4bpp  "
    } else if m == 1 {
        "8bpp  "
    } else if m == 2 {
        "12bpp "
    } else if m == 3 {
        "24bpp "
    } else {
        "?     "
    }
}

fn push_mode_head(t: &mut String, i: usize, raw: u32)
    requires
        i < 32,
    ensures
        final(t)@ == old(t)@ + mode_head(i as nat, raw),
{
    t.append("  ");
    if i < 10 {
        t.append(" ");
    }
    push_decimal(t, i as u64);
    t.append("   ");
    let w: u64 = if raw < 0x100_0000 {
        6
    } else if raw < 0x1000_0000 {
        7
    } else {
        8
    };
    push_hex_digits(t, raw as u64, w);
    t.append("   ");
    assert(t@ =~= old(t)@ + mode_head(i as nat, raw));
}

fn push_mode_mid(t: &mut String, raw: u32)
    ensures
        final(t)@ == old(t)@ + mode_mid(raw),
{
    let m = Xmap9::decode_mode_entry(raw);
    t.append(mode_col_text(m.pix_mode));
    t.append("    ");
    t.append(size_col_text(m.pix_size));
    t.append("   ");
    push_hex_digits(t, m.msb as u64, 2);
    t.append("       ");
    push_hex_digits(t, m.cmap_base as u64, 4);
    t.append("       ");
    assert(t@ =~= old(t)@ + mode_mid(raw));
}

fn push_mode_tail(t: &mut String, raw: u32)
    ensures
        final(t)@ == old(t)@ + mode_tail(raw),
{
    let m = Xmap9::decode_mode_entry(raw);
    push_hex_digits(t, m.aux_pix as u64, 1);
    t.append("        ");
    push_hex_digits(t, m.aux_msb as u64, 2);
    t.append("     ");
    push_hex_digits(t, m.aux_base as u64, 4);
    t.append("      ");
    push_decimal(t, m.buf as u64);
    t.append(" ");
    push_decimal(t, m.ovl as u64);
    t.append("\n");
    assert(t@ =~= old(t)@ + mode_tail(raw));
}

fn push_mode_line(t: &mut String, i: usize, raw: u32)
    requires
        i < 32,
    ensures
        final(t)@ == old(t)@ + mode_line(i as nat, raw),
{
    let ghost t0 = t@;
    push_mode_head(t, i, raw);
    push_mode_mid(t, raw);
    push_mode_tail(t, raw);
    assert(t@ =~= t0 + mode_line(i as nat, raw));
}

impl Xmap9 {
    fn push_header(&self, t: &mut String, label: &str)
        ensures
            final(t)@ + mode_lines(self.mode_table@, 32) == old(t)@ + xmap9_status_text(
                *self,
                label@,
            ),
    {
        t.append("=== ");
        t.append(label);
        t.append(" ===\n");
        t.append("  config=");
        push_hex_digits(t, self.config as u64, 2);
        t.append(" cursor_cmap_msb=");
        push_hex_digits(t, self.cursor_cmap_msb as u64, 2);
        t.append(" popup_cmap_msb=");
        push_hex_digits(t, self.popup_cmap_msb as u64, 2);
        t.append(" mode_addr=");
        push_hex_digits(t, self.mode_addr as u64, 2);
        t.append(" fifo_avail=");
        push_hex_digits(t, self.fifo_avail as u64, 2);
        t.append("\n");
        t.append("  Mode Table (32 entries):\n");
        t.append(
            "  idx  raw      pix_mode pix_size msb_cmap cmap_base  aux_mode aux_msb aux_base  buf ovl\n",
        );
        assert(t@ + mode_lines(self.mode_table@, 32) =~= old(t)@ + xmap9_status_text(
            *self,
            label@,
        ));
    }

    /// The status dump the monitor prints, headed by `label` (see
    /// `xmap9_status_text`).
    pub fn status_text(&self, label: &str) -> (t: String)
        ensures
            t@ == xmap9_status_text(*self, label@),
    {
        let mut t = String::new();
        self.push_header(&mut t, label);
        let ghost head = t@;
        let mut i: usize = 0;
        while i < 32
            invariant
                i <= 32,
                t@ == head + mode_lines(self.mode_table@, i as int),
            decreases 32 - i,
        {
            push_mode_line(&mut t, i, self.mode_table[i]);
            assert(t@ =~= head + mode_lines(self.mode_table@, i + 1));
            i = i + 1;
        }
        t
    }
}

} // verus!

//! A color map's status dump: its registers and the palette rows that hold
//! colors, as the monitor prints them.
use vstd::prelude::*;
use crate::cmap::{address, Cmap};
use crate::locks::{dec_text, push_decimal};
use crate::snapshot::{hex_text, push_hex_digits};

verus! {

/// Whether palette row `r` (entries `16r .. 16r + 16`) is all zero.
pub open spec fn cmap_row_zero(p: Seq<u32>, r: int) -> bool {
    forall|i: int| 16 * r <= i < 16 * r + 16 ==> #[trigger] p[i] == 0
}

/// The first `k` entries of row `r`: a space and the entry's low 24 bits in
/// six hex digits each.
pub open spec fn cmap_row_entries(p: Seq<u32>, r: int, k: int) -> Seq<char>
    decreases k,
{
    if k <= 0 {
        Seq::empty()
    } else {
        cmap_row_entries(p, r, k - 1) + " "@ + hex_text(p[16 * r + k - 1] as nat, 6)
    }
}

/// The dump line of row `r`.
pub open spec fn cmap_row_line(p: Seq<u32>, r: int) -> Seq<char> {
    "  "@ + hex_text((16 * r) as nat, 4) + ":"@ + cmap_row_entries(p, r, 16) + "\n"@
}

/// The lines of the first `n` rows that are not all zero.
pub open spec fn cmap_rows(p: Seq<u32>, n: int) -> Seq<char>
    decreases n,
{
    if n <= 0 {
        Seq::empty()
    } else {
        cmap_rows(p, n - 1) + if cmap_row_zero(p, n - 1) {
            Seq::empty()
        } else {
            cmap_row_line(p, n - 1)
        }
    }
}

/// The status dump of a color map, headed by `label`.
pub open spec fn cmap_status_text(s: Cmap, label: Seq<char>) -> Seq<char> {
    "=== "@ + label + " ===\n"@ + "  addr="@ + hex_text(address(s) as nat, 4) + " addr_lo="@
        + hex_text(s.addr_lo as nat, 2) + " addr_hi="@ + hex_text(s.addr_hi as nat, 2) + "\n"@
        + "  rgb_counter="@ + dec_text(s.rgb_counter as nat) + " red_temp="@ + hex_text(
        s.red_temp as nat,
        2,
    ) + " green_temp="@ + hex_text(s.green_temp as nat, 2) + "\n"@ + "  command="@ + hex_text(
        s.command as nat,
        2,
    ) + " revision="@ + hex_text(s.revision as nat, 2) + "\n"@ + "  Palette (non-zero rows):\n"@
        + cmap_rows(s.palette@, 512)
}

impl Cmap {
    fn push_row(&self, t: &mut String, row: usize)
        requires
            row < 512,
        ensures
            final(t)@ == old(t)@ + cmap_row_line(self.palette@, row as int),
    {
        t.append("  ");
        push_hex_digits(t, (row * 16) as u64, 4);
        t.append(":");
        let ghost head = t@;
        let mut k: usize = 0;
        while k < 16
            invariant
                row < 512,
                k <= 16,
                t@ == head + cmap_row_entries(self.palette@, row as int, k as int),
            decreases 16 - k,
        {
            t.append(" ");
            push_hex_digits(t, self.palette[row * 16 + k] as u64, 6);
            assert(t@ =~= head + cmap_row_entries(self.palette@, row as int, k + 1));
            k = k + 1;
        }
        t.append("\n");
        assert(t@ =~= old(t)@ + cmap_row_line(self.palette@, row as int));
    }

    fn push_header(&self, t: &mut String, label: &str)
        ensures
            final(t)@ + cmap_rows(self.palette@, 512) == old(t)@ + cmap_status_text(*self, label@),
    {
        t.append("=== ");
        t.append(label);
        t.append(" ===\n");
        t.append("  addr=");
        push_hex_digits(t, self.get_address() as u64, 4);
        t.append(" addr_lo=");
        push_hex_digits(t, self.addr_lo as u64, 2);
        t.append(" addr_hi=");
        push_hex_digits(t, self.addr_hi as u64, 2);
        t.append("\n");
        t.append("  rgb_counter=");
        push_decimal(t, self.rgb_counter as u64);
        t.append(" red_temp=");
        push_hex_digits(t, self.red_temp as u64, 2);
        t.append(" green_temp=");
        push_hex_digits(t, self.green_temp as u64, 2);
        t.append("\n");
        t.append("  command=");
        push_hex_digits(t, self.command as u64, 2);
        t.append(" revision=");
        push_hex_digits(t, self.revision as u64, 2);
        t.append("\n");
        t.append("  Palette (non-zero rows):\n");
        assert(t@ + cmap_rows(self.palette@, 512) =~= old(t)@ + cmap_status_text(*self, label@));
    }

    /// The status dump the monitor prints, headed by `label` (see
    /// `cmap_status_text`).
    pub fn status_text(&self, label: &str) -> (t: String)
        ensures
            t@ == cmap_status_text(*self, label@),
    {
        let mut t = String::new();
        self.push_header(&mut t, label);
        let ghost head = t@;
        let mut row: usize = 0;
        while row < 512
            invariant
                row <= 512,
                t@ == head + cmap_rows(self.palette@, row as int),
            decreases 512 - row,
        {
            let zero = self.palette_row_is_zero(row);
            if !zero {
                self.push_row(&mut t, row);
            }
            assert(t@ =~= head + cmap_rows(self.palette@, row + 1));
            row = row + 1;
        }
        t
    }
}

} // verus!

//! The RAMDAC's status dump: its registers, the palette rows that hold
//! colors, the overlay colors in use and the cursor colors, as the monitor
//! prints them.
use vstd::prelude::*;
use crate::bt445::{
    cmd0_text, cmd1_text, colored_indices, count_colored, is_black, Bt445, RDAC_SETUP_CMD1,
    RDAC_SETUP_MPX_RATE, RDAC_SETUP_PAL_BYPASS, RDAC_SETUP_PAL_BYPASSW, RDAC_SETUP_PIX_DEPTH,
    RDAC_SETUP_PIX_FMT, RDAC_SETUP_PIX_START, RDAC_SETUP_PLL_CTRL, RDAC_SETUP_PLL_RATE0,
    RDAC_SETUP_PLL_RATE1, RDAC_SETUP_VIDCLK_CTRL,
};
use crate::locks::{dec_text, push_decimal};
use crate::snapshot::{hex_text, push_hex_digits};

verus! {

/// Two lower-case hex digits (`format!("{:02x}")`).
pub open spec fn hex2(v: u8) -> Seq<char> {
    hex_text(v as nat, 2)
}

/// A color as six hex digits, red first.
pub open spec fn rgb_hex(e: [u8; 3]) -> Seq<char> {
    hex2(e[0]) + hex2(e[1]) + hex2(e[2])
}

/// Name of a power-down mode (command register 1, bits 4:3).
pub open spec fn power_name(p: u8) -> Seq<char> {
    if p == 0 {
        "normal (power-on default)"@
    } else if p == 1 {
        "DACs off (LUT→TTL outputs)"@
    } else if p == 2 {
        "DACs and RAM off"@
    } else if p == 3 {
        "internal clocking disabled"@
    } else {
        "?"@
    }
}

/// Name of a palette bypass mode (pixel format register, bits 1:0).
pub open spec fn bypass_name(p: u8) -> Seq<char> {
    if p == 0 {
        "always-use"@
    } else if p == 1 {
        "always-bypass"@
    } else if p == 2 {
        "pixel-field"@
    } else {
        "reserved"@
    }
}

/// `yes` or `no` text by a flag.
pub open spec fn pick(b: bool, yes: Seq<char>, no: Seq<char>) -> Seq<char> {
    if b {
        yes
    } else {
        no
    }
}

/// The first register lines of the dump: identity, address and command
/// registers.
pub open spec fn register_lines_a(s: Bt445) -> Seq<char> {
    let cmd1 = s.setup[RDAC_SETUP_CMD1 as int];
    "BT445 RAMDAC status:\n"@ + "  ID=0x3A  Revision=0xA0\n"@ + "  addr="@ + hex2(s.addr)
        + "  rgb_counter="@ + dec_text(s.rgb_counter as nat) + "\n"@ + "  CMD0="@ + hex2(s.cmd0)
        + "  "@ + cmd0_text(s.cmd0) + "\n"@ + "  CMD1="@ + hex2(cmd1) + "  "@ + cmd1_text(cmd1)
        + "\n"@
}

/// The sync-on-green line.
pub open spec fn sog_line(cmd1: u8) -> Seq<char> {
    "  Sync-on-Green (IOG): "@ + pick(cmd1 & 0x80 != 0, "ENABLED"@, "disabled (power-on default)"@)
        + "\n"@
}

/// The blanking pedestal line.
pub open spec fn pedestal_line(cmd1: u8) -> Seq<char> {
    "  Blanking pedestal: "@ + pick(cmd1 & 0x40 != 0, "7.5 IRE (power-on default)"@, "0 IRE"@)
        + "\n"@
}

/// The power mode line.
pub open spec fn power_line(cmd1: u8) -> Seq<char> {
    "  Power mode: "@ + power_name((cmd1 & 0x18) >> 3u8) + "\n"@
}

/// The pixel format line.
pub open spec fn pixfmt_line(pf: u8) -> Seq<char> {
    "  Pixel format ctrl="@ + hex2(pf) + ": unpack="@ + pick(pf & 0x80 != 0, "LSB"@, "MSB"@)
        + " cursor="@ + pick(pf & 0x20 != 0, "on"@, "off"@) + " ovl="@ + pick(
        pf & 0x08 != 0,
        "on"@,
        "off"@,
    ) + " pal_bypass="@ + bypass_name(pf & 0x03) + "\n"@
}

/// The register lines on sync, pedestal, power and pixel format.
pub open spec fn register_lines_b(s: Bt445) -> Seq<char> {
    let cmd1 = s.setup[RDAC_SETUP_CMD1 as int];
    sog_line(cmd1) + pedestal_line(cmd1) + power_line(cmd1) + pixfmt_line(
        s.setup[RDAC_SETUP_PIX_FMT as int],
    )
}

/// The enable registers line.
pub open spec fn enable_line(s: Bt445) -> Seq<char> {
    "  read_enable="@ + hex2(s.read_enable) + "  blink_enable="@ + hex2(s.blink_enable) + "\n"@
}

/// The PLL line.
pub open spec fn pll_line(s: Bt445) -> Seq<char> {
    "  PLL: rate0="@ + hex2(s.setup[RDAC_SETUP_PLL_RATE0 as int]) + " rate1="@ + hex2(
        s.setup[RDAC_SETUP_PLL_RATE1 as int],
    ) + " ctrl="@ + hex2(s.setup[RDAC_SETUP_PLL_CTRL as int]) + "\n"@
}

/// The pixel setup line.
pub open spec fn pix_line(s: Bt445) -> Seq<char> {
    "  Pix: start="@ + hex2(s.setup[RDAC_SETUP_PIX_START as int]) + " fmt="@ + hex2(
        s.setup[RDAC_SETUP_PIX_FMT as int],
    ) + " mpx_rate="@ + hex2(s.setup[RDAC_SETUP_MPX_RATE as int]) + " depth="@ + hex2(
        s.setup[RDAC_SETUP_PIX_DEPTH as int],
    ) + "\n"@
}

/// The video clock and palette bypass line.
pub open spec fn vidclk_line(s: Bt445) -> Seq<char> {
    "  VIDCLK_ctrl="@ + hex2(s.setup[RDAC_SETUP_VIDCLK_CTRL as int]) + "  pal_bypass_pos="@ + hex2(
        s.setup[RDAC_SETUP_PAL_BYPASS as int],
    ) + "  pal_bypass_width="@ + hex2(s.setup[RDAC_SETUP_PAL_BYPASSW as int]) + "\n"@
}

/// The register lines on enables, PLL, pixel setup and video clock.
pub open spec fn register_lines_c(s: Bt445) -> Seq<char> {
    enable_line(s) + pll_line(s) + pix_line(s) + vidclk_line(s)
}

/// The register lines of the dump.
pub open spec fn register_lines(s: Bt445) -> Seq<char> {
    register_lines_a(s) + register_lines_b(s) + register_lines_c(s)
}

/// Whether palette row `r` (entries `8r .. 8r + 8`) is all black.
pub open spec fn row_black(p: Seq<[u8; 3]>, r: int) -> bool {
    forall|i: int| 8 * r <= i < 8 * r + 8 ==> is_black(#[trigger] p[i])
}

/// The first `k` entries of palette row `r`, each two spaces and six hex
/// digits.
pub open spec fn row_entries(p: Seq<[u8; 3]>, r: int, k: int) -> Seq<char>
    decreases k,
{
    if k <= 0 {
        Seq::empty()
    } else {
        row_entries(p, r, k - 1) + "  "@ + rgb_hex(p[8 * r + k - 1])
    }
}

/// The dump line of palette row `r`.
pub open spec fn row_line(p: Seq<[u8; 3]>, r: int) -> Seq<char> {
    "  "@ + hex2((8 * r) as u8) + ":"@ + row_entries(p, r, 8) + "\n"@
}

/// The lines of the first `n` palette rows that hold a color.
pub open spec fn palette_rows(p: Seq<[u8; 3]>, n: int) -> Seq<char>
    decreases n,
{
    if n <= 0 {
        Seq::empty()
    } else {
        palette_rows(p, n - 1) + if row_black(p, n - 1) {
            Seq::empty()
        } else {
            row_line(p, n - 1)
        }
    }
}

/// The palette part of the dump.
pub open spec fn palette_lines(s: Bt445) -> Seq<char> {
    let n = count_colored(s.palette@, 256);
    if n == 0 {
        "  Palette: all zeros\n"@
    } else {
        "  Palette ("@ + dec_text(n) + " non-zero entries):\n"@ + palette_rows(s.palette@, 32)
    }
}

/// One shown overlay color: its index in one hex digit and the color.
pub open spec fn overlay_item(o: Seq<[u8; 3]>, i: usize) -> Seq<char> {
    "["@ + hex_text(i as nat, 1) + "]="@ + rgb_hex(o[i as int])
}

/// The first `n` of the overlay colors `idx`, two spaces apart.
pub open spec fn overlay_items(o: Seq<[u8; 3]>, idx: Seq<usize>, n: int) -> Seq<char>
    decreases n,
{
    if n <= 0 {
        Seq::empty()
    } else if n == 1 {
        overlay_item(o, idx[0])
    } else {
        overlay_items(o, idx, n - 1) + "  "@ + overlay_item(o, idx[n - 1])
    }
}

/// The overlay line of the dump: the colors in use.
pub open spec fn overlay_line(s: Bt445) -> Seq<char> {
    let idx = colored_indices(s.overlay@, 16);
    if idx.len() == 0 {
        "  Overlay palette: all zeros\n"@
    } else {
        "  Overlay palette: "@ + overlay_items(s.overlay@, idx, idx.len() as int) + "\n"@
    }
}

/// One cursor color: its index and the color.
pub open spec fn cursor_item(c: Seq<[u8; 3]>, i: int) -> Seq<char> {
    "["@ + dec_text(i as nat) + "]="@ + rgb_hex(c[i])
}

/// The first `n` cursor colors, two spaces apart.
pub open spec fn cursor_items(c: Seq<[u8; 3]>, n: int) -> Seq<char>
    decreases n,
{
    if n <= 0 {
        Seq::empty()
    } else if n == 1 {
        cursor_item(c, 0)
    } else {
        cursor_items(c, n - 1) + "  "@ + cursor_item(c, n - 1)
    }
}

/// The whole status dump of the RAMDAC.
pub open spec fn bt445_status_text(s: Bt445) -> Seq<char> {
    register_lines(s) + palette_lines(s) + overlay_line(s) + "  Cursor colors: "@ + cursor_items(
        s.cursor_color@,
        4,
    ) + "\n"@
}

fn push_hex2(t: &mut String, v: u8)
    ensures
        final(t)@ == old(t)@ + hex2(v),
{
    push_hex_digits(t, v as u64, 2);
}

fn push_rgb(t: &mut String, e: [u8; 3])
    ensures
        final(t)@ == old(t)@ + rgb_hex(e),
{
    push_hex2(t, e[0]);
    push_hex2(t, e[1]);
    push_hex2(t, e[2]);
    assert(t@ =~= old(t)@ + rgb_hex(e));
}

fn push_pick(t: &mut String, b: bool, yes: &str, no: &str)
    ensures
        final(t)@ == old(t)@ + pick(b, yes@, no@),
{
    if b {
        t.append(yes);
    } else {
        t.append(no);
    }
}

fn power_text(p: u8) -> (r: &'static str)
    ensures
        r@ == power_name(p),
{
    if p == 0 {
        "normal (power-on default)"
    } else if p == 1 {
        "DACs off (LUT→TTL outputs)"
    } else if p == 2 {
        "DACs and RAM off"
    } else if p == 3 {
        "internal clocking disabled"
    } else {
        "?"
    }
}

fn bypass_text(p: u8) -> (r: &'static str)
    ensures
        r@ == bypass_name(p),
{
    if p == 0 {
        "always-use"
    } else if p == 1 {
        "always-bypass"
    } else if p == 2 {
        "pixel-field"
    } else {
        "reserved"
    }
}

fn push_sog_line(t: &mut String, cmd1: u8)
    ensures
        final(t)@ == old(t)@ + sog_line(cmd1),
{
    t.append("  Sync-on-Green (IOG): ");
    push_pick(t, cmd1 & 0x80 != 0, "ENABLED", "disabled (power-on default)");
    t.append("\n");
    assert(t@ =~= old(t)@ + sog_line(cmd1));
}

fn push_pedestal_line(t: &mut String, cmd1: u8)
    ensures
        final(t)@ == old(t)@ + pedestal_line(cmd1),
{
    t.append("  Blanking pedestal: ");
    push_pick(t, cmd1 & 0x40 != 0, "7.5 IRE (power-on default)", "0 IRE");
    t.append("\n");
    assert(t@ =~= old(t)@ + pedestal_line(cmd1));
}

fn push_power_line(t: &mut String, cmd1: u8)
    ensures
        final(t)@ == old(t)@ + power_line(cmd1),
{
    t.append("  Power mode: ");
    t.append(power_text((cmd1 & 0x18) >> 3u8));
    t.append("\n");
    assert(t@ =~= old(t)@ + power_line(cmd1));
}

fn push_pixfmt_line(t: &mut String, pf: u8)
    ensures
        final(t)@ == old(t)@ + pixfmt_line(pf),
{
    t.append("  Pixel format ctrl=");
    push_hex2(t, pf);
    t.append(": unpack=");
    push_pick(t, pf & 0x80 != 0, "LSB", "MSB");
    t.append(" cursor=");
    push_pick(t, pf & 0x20 != 0, "on", "off");
    t.append(" ovl=");
    push_pick(t, pf & 0x08 != 0, "on", "off");
    t.append(" pal_bypass=");
    t.append(bypass_text(pf & 0x03));
    t.append("\n");
    assert(t@ =~= old(t)@ + pixfmt_line(pf));
}

impl Bt445 {
    fn push_registers_a(&self, t: &mut String)
        ensures
            final(t)@ == old(t)@ + register_lines_a(*self),
    {
        let cmd1 = self.setup[RDAC_SETUP_CMD1 as usize];
        t.append("BT445 RAMDAC status:\n");
        t.append("  ID=0x3A  Revision=0xA0\n");
        t.append("  addr=");
        push_hex2(t, self.addr);
        t.append("  rgb_counter=");
        push_decimal(t, self.rgb_counter as u64);
        t.append("\n");
        t.append("  CMD0=");
        push_hex2(t, self.cmd0);
        t.append("  ");
        let c0 = Bt445::decode_cmd0(self.cmd0);
        t.append(c0.as_str());
        t.append("\n");
        t.append("  CMD1=");
        push_hex2(t, cmd1);
        t.append("  ");
        let c1 = Bt445::decode_cmd1(cmd1);
        t.append(c1.as_str());
        t.append("\n");
        assert(t@ =~= old(t)@ + register_lines_a(*self));
    }

    fn push_registers_b(&self, t: &mut String)
        ensures
            final(t)@ == old(t)@ + register_lines_b(*self),
    {
        let cmd1 = self.setup[RDAC_SETUP_CMD1 as usize];
        let pf = self.setup[RDAC_SETUP_PIX_FMT as usize];
        let ghost t0 = t@;
        push_sog_line(t, cmd1);
        push_pedestal_line(t, cmd1);
        push_power_line(t, cmd1);
        push_pixfmt_line(t, pf);
        assert(t@ =~= t0 + register_lines_b(*self));
    }

    fn push_registers_c(&self, t: &mut String)
        ensures
            final(t)@ == old(t)@ + register_lines_c(*self),
    {
        let ghost t0 = t@;
        self.push_enable_line(t);
        self.push_pll_line(t);
        self.push_pix_line(t);
        self.push_vidclk_line(t);
        assert(t@ =~= t0 + register_lines_c(*self));
    }

    fn push_enable_line(&self, t: &mut String)
        ensures
            final(t)@ == old(t)@ + enable_line(*self),
    {
        t.append("  read_enable=");
        push_hex2(t, self.read_enable);
        t.append("  blink_enable=");
        push_hex2(t, self.blink_enable);
        t.append("\n");
        assert(t@ =~= old(t)@ + enable_line(*self));
    }

    fn push_pll_line(&self, t: &mut String)
        ensures
            final(t)@ == old(t)@ + pll_line(*self),
    {
        t.append("  PLL: rate0=");
        push_hex2(t, self.setup[RDAC_SETUP_PLL_RATE0 as usize]);
        t.append(" rate1=");
        push_hex2(t, self.setup[RDAC_SETUP_PLL_RATE1 as usize]);
        t.append(" ctrl=");
        push_hex2(t, self.setup[RDAC_SETUP_PLL_CTRL as usize]);
        t.append("\n");
        assert(t@ =~= old(t)@ + pll_line(*self));
    }

    fn push_pix_line(&self, t: &mut String)
        ensures
            final(t)@ == old(t)@ + pix_line(*self),
    {
        t.append("  Pix: start=");
        push_hex2(t, self.setup[RDAC_SETUP_PIX_START as usize]);
        t.append(" fmt=");
        push_hex2(t, self.setup[RDAC_SETUP_PIX_FMT as usize]);
        t.append(" mpx_rate=");
        push_hex2(t, self.setup[RDAC_SETUP_MPX_RATE as usize]);
        t.append(" depth=");
        push_hex2(t, self.setup[RDAC_SETUP_PIX_DEPTH as usize]);
        t.append("\n");
        assert(t@ =~= old(t)@ + pix_line(*self));
    }

    fn push_vidclk_line(&self, t: &mut String)
        ensures
            final(t)@ == old(t)@ + vidclk_line(*self),
    {
        t.append("  VIDCLK_ctrl=");
        push_hex2(t, self.setup[RDAC_SETUP_VIDCLK_CTRL as usize]);
        t.append("  pal_bypass_pos=");
        push_hex2(t, self.setup[RDAC_SETUP_PAL_BYPASS as usize]);
        t.append("  pal_bypass_width=");
        push_hex2(t, self.setup[RDAC_SETUP_PAL_BYPASSW as usize]);
        t.append("\n");
        assert(t@ =~= old(t)@ + vidclk_line(*self));
    }

    fn push_row(&self, t: &mut String, row: usize)
        requires
            row < 32,
        ensures
            final(t)@ == old(t)@ + row_line(self.palette@, row as int),
    {
        let base = row * 8;
        t.append("  ");
        push_hex2(t, base as u8);
        t.append(":");
        let ghost head = t@;
        let mut k: usize = 0;
        while k < 8
            invariant
                row < 32,
                k <= 8,
                t@ == head + row_entries(self.palette@, row as int, k as int),
            decreases 8 - k,
        {
            t.append("  ");
            push_rgb(t, self.palette[row * 8 + k]);
            assert(t@ =~= head + row_entries(self.palette@, row as int, k + 1));
            k = k + 1;
        }
        t.append("\n");
        assert(t@ =~= old(t)@ + row_line(self.palette@, row as int));
    }

    fn push_palette(&self, t: &mut String)
        ensures
            final(t)@ == old(t)@ + palette_lines(*self),
    {
        let n = self.palette_nonzero_count();
        if n == 0 {
            t.append("  Palette: all zeros\n");
        } else {
            t.append("  Palette (");
            push_decimal(t, n as u64);
            t.append(" non-zero entries):\n");
            let ghost head = t@;
            let mut row: usize = 0;
            while row < 32
                invariant
                    row <= 32,
                    t@ == head + palette_rows(self.palette@, row as int),
                decreases 32 - row,
            {
                let zero = self.palette_row_is_zero(row);
                proof {
                    assert(zero == row_black(self.palette@, row as int));
                }
                if !zero {
                    self.push_row(t, row);
                }
                assert(t@ =~= head + palette_rows(self.palette@, row + 1));
                row = row + 1;
            }
        }
        assert(t@ =~= old(t)@ + palette_lines(*self));
    }

    fn push_overlay(&self, t: &mut String)
        ensures
            final(t)@ == old(t)@ + overlay_line(*self),
    {
        let idx = self.overlay_nonzero();
        if idx.len() == 0 {
            t.append("  Overlay palette: all zeros\n");
        } else {
            t.append("  Overlay palette: ");
            let ghost head = t@;
            let mut k: usize = 0;
            while k < idx.len()
                invariant
                    k <= idx@.len(),
                    idx@ == colored_indices(self.overlay@, 16),
                    forall|j: int| 0 <= j < idx@.len() ==> #[trigger] idx@[j] < 16,
                    t@ == head + overlay_items(self.overlay@, idx@, k as int),
                decreases idx@.len() - k,
            {
                if k > 0 {
                    t.append("  ");
                }
                let i = idx[k];
                t.append("[");
                push_hex_digits(t, i as u64, 1);
                t.append("]=");
                push_rgb(t, self.overlay[i]);
                assert(t@ =~= head + overlay_items(self.overlay@, idx@, k + 1));
                k = k + 1;
            }
            t.append("\n");
        }
        assert(t@ =~= old(t)@ + overlay_line(*self));
    }

    fn push_cursors(&self, t: &mut String)
        ensures
            final(t)@ == old(t)@ + cursor_items(self.cursor_color@, 4),
    {
        let ghost head = t@;
        let mut k: usize = 0;
        while k < 4
            invariant
                k <= 4,
                t@ == head + cursor_items(self.cursor_color@, k as int),
            decreases 4 - k,
        {
            if k > 0 {
                t.append("  ");
            }
            t.append("[");
            push_decimal(t, k as u64);
            t.append("]=");
            push_rgb(t, self.cursor_color[k]);
            assert(t@ =~= head + cursor_items(self.cursor_color@, k + 1));
            k = k + 1;
        }
    }

    /// The status dump the monitor prints (see `bt445_status_text`).
    pub fn status_text(&self) -> (t: String)
        ensures
            t@ == bt445_status_text(*self),
    {
        let mut t = String::new();
        self.push_registers_a(&mut t);
        self.push_registers_b(&mut t);
        self.push_registers_c(&mut t);
        self.push_palette(&mut t);
        self.push_overlay(&mut t);
        t.append("  Cursor colors: ");
        self.push_cursors(&mut t);
        t.append("\n");
        assert(t@ =~= bt445_status_text(*self));
        t
    }
}

} // verus!

//! Brooktree Bt445 RAMDAC (150 MHz triple 256×8 RAMDAC); Newport uses its
//! main palette as a gamma ramp.
//!
//! The register-select field CRS[2:0] picks a register group; the 8-bit
//! address register picks a sub-register inside the group:
//!   CRS 0 — address register (palette accesses auto-increment it after blue)
//!   CRS 1 — primary color palette RAM (256 × RGB, loaded R, G, B)
//!   CRS 2 — control registers (ID, revision, command register 0, ...)
//!   CRS 3 — overlay color palette (16 × RGB)
//!   CRS 4 — reserved
//!   CRS 5 — pixel format registers
//!   CRS 6 — setup / PLL registers (command register 1 among them)
//!   CRS 7 — cursor color registers (4 × RGB)
use vstd::prelude::*;
use vstd::array::{spec_array_fill_for_copy_type, spec_array_update};
use crate::text::message;

pub mod status;

verus! {

broadcast use vstd::array::group_array_axioms;

pub const RDAC_CRS_ADDR_REG: u8 = 0;
pub const RDAC_CRS_PAL_RAM: u8 = 1;
pub const RDAC_CRS_CTRL: u8 = 2;
pub const RDAC_CRS_OVL_RAM: u8 = 3;
pub const RDAC_CRS_RESERVED: u8 = 4;
pub const RDAC_CRS_RGB_CTRL: u8 = 5;
pub const RDAC_CRS_SETUP: u8 = 6;
pub const RDAC_CRS_CURSOR: u8 = 7;

pub const RDAC_CTRL_ID: u8 = 0x00;
pub const RDAC_CTRL_REVISION: u8 = 0x01;
pub const RDAC_CTRL_RESERVED0: u8 = 0x02;
pub const RDAC_CTRL_RESERVED1: u8 = 0x03;
pub const RDAC_CTRL_READ_ENABLE: u8 = 0x04;
pub const RDAC_CTRL_BLINK_ENABLE: u8 = 0x05;
pub const RDAC_CTRL_CMD0: u8 = 0x06;
pub const RDAC_CTRL_TEST0: u8 = 0x07;

pub const CMD0_OVL_COLOR0_DISABLE: u8 = 0x40;
pub const CMD0_BLINK_RATE_MASK: u8 = 0x30;
pub const CMD0_OVL1_BLINK_EN: u8 = 0x08;
pub const CMD0_OVL0_BLINK_EN: u8 = 0x04;
pub const CMD0_OVL1_DISP_EN: u8 = 0x02;
pub const CMD0_OVL0_DISP_EN: u8 = 0x01;

pub const RDAC_RGB_RED_MSB_POS: u8 = 0x00;
pub const RDAC_RGB_RED_WIDTH: u8 = 0x01;
pub const RDAC_RGB_RED_DISP_EN: u8 = 0x02;
pub const RDAC_RGB_RED_BLINK: u8 = 0x03;
pub const RDAC_RGB_GRN_MSB_POS: u8 = 0x08;
pub const RDAC_RGB_GRN_WIDTH: u8 = 0x09;
pub const RDAC_RGB_GRN_DISP_EN: u8 = 0x0A;
pub const RDAC_RGB_GRN_BLINK: u8 = 0x0B;
pub const RDAC_RGB_BLU_MSB_POS: u8 = 0x10;
pub const RDAC_RGB_BLU_WIDTH: u8 = 0x11;
pub const RDAC_RGB_BLU_DISP_EN: u8 = 0x12;
pub const RDAC_RGB_BLU_BLINK: u8 = 0x13;
pub const RDAC_RGB_OVL_MSB_POS: u8 = 0x18;
pub const RDAC_RGB_OVL_WIDTH: u8 = 0x19;
pub const RDAC_RGB_OVL_DISP_EN: u8 = 0x1A;
pub const RDAC_RGB_OVL_BLINK: u8 = 0x1B;
pub const RDAC_RGB_CUR_MSB_POS: u8 = 0x20;
pub const RDAC_RGB_CUR_WIDTH: u8 = 0x21;
pub const RDAC_RGB_CUR_DISP_EN: u8 = 0x22;
pub const RDAC_RGB_CUR_BLINK: u8 = 0x23;

pub const RDAC_SETUP_TEST1: u8 = 0x00;
pub const RDAC_SETUP_CMD1: u8 = 0x01;
pub const RDAC_SETUP_DIGOUT_CTRL: u8 = 0x02;
pub const RDAC_SETUP_VIDCLK_CTRL: u8 = 0x03;
pub const RDAC_SETUP_PLL_RATE0: u8 = 0x05;
pub const RDAC_SETUP_PLL_RATE1: u8 = 0x06;
pub const RDAC_SETUP_PLL_CTRL: u8 = 0x07;
pub const RDAC_SETUP_PIX_LOAD: u8 = 0x08;
pub const RDAC_SETUP_PIX_START: u8 = 0x09;
pub const RDAC_SETUP_PIX_FMT: u8 = 0x0A;
pub const RDAC_SETUP_MPX_RATE: u8 = 0x0B;
pub const RDAC_SETUP_SIG_ANLYS: u8 = 0x0C;
pub const RDAC_SETUP_PIX_DEPTH: u8 = 0x0D;
pub const RDAC_SETUP_PAL_BYPASS: u8 = 0x0E;
pub const RDAC_SETUP_PAL_BYPASSW: u8 = 0x0F;

pub const CMD1_SOG_ENABLE: u8 = 0x80;
pub const CMD1_PEDESTAL_EN: u8 = 0x40;
pub const CMD1_PWRDOWN_MASK: u8 = 0x18;
pub const CMD1_PWRDOWN_SHIFT: u8 = 3;
pub const CMD1_PAL_ADDR_MODE: u8 = 0x04;
pub const CMD1_SAR_ENABLE: u8 = 0x02;
pub const CMD1_RESET_PIPE: u8 = 0x01;

pub const CMD1_PWR_NORMAL: u8 = 0;
pub const CMD1_PWR_DACS_OFF: u8 = 1;
pub const CMD1_PWR_DACS_RAM_OFF: u8 = 2;
pub const CMD1_PWR_CLK_OFF: u8 = 3;

pub const PIX_FMT_LSB_UNPACK: u8 = 0x80;
pub const PIX_FMT_CURSOR_EN: u8 = 0x20;
pub const PIX_FMT_CURSOR_C0EN: u8 = 0x10;
pub const PIX_FMT_OVERLAY_EN: u8 = 0x08;
pub const PIX_FMT_PAL_BYPASS_MASK: u8 = 0x03;

pub const BT445_PALETTE_SIZE: usize = 256;
pub const BT445_OVERLAY_SIZE: usize = 16;
pub const BT445_CURSOR_SIZE: usize = 4;

/// The RAMDAC's registers and color memories.
pub struct Bt445 {
    /// Primary color palette RAM (256 × RGB), the gamma ramp.
    pub palette: [[u8; 3]; 256],
    /// Overlay palette (16 × RGB).
    pub overlay: [[u8; 3]; 16],
    /// Cursor color registers (4 × RGB).
    pub cursor_color: [[u8; 3]; 4],
    /// Address register, shared by the palette, overlay and cursor groups.
    pub addr: u8,
    /// Which of R, G, B the next color access touches (0, 1, 2).
    pub rgb_counter: u8,
    pub read_enable: u8,
    pub blink_enable: u8,
    pub cmd0: u8,
    /// CRS 5 pixel format registers, by sub-address.
    pub rgb_ctrl: [u8; 0x28],
    /// CRS 6 setup / PLL registers, by sub-address.
    pub setup: [u8; 0x10],
    pub debug: bool,
    /// Set when palette, overlay or cursor colors change.
    pub dirty: bool,
    /// A change of sync-on-green made by a write to command register 1 and
    /// not yet reported: the new state.
    pub sog_change: Option<bool>,
}

/// `c` with channel `ch` (0 = R, 1 = G, 2 = B) replaced by `v`.
pub open spec fn with_channel(c: [u8; 3], ch: int, v: u8) -> [u8; 3] {
    [
        if ch == 0 {
            v
        } else {
            c[0]
        },
        if ch == 1 {
            v
        } else {
            c[1]
        },
        if ch == 2 {
            v
        } else {
            c[2]
        },
    ]
}

/// Table `t` with channel `ch` of entry `idx` replaced by `v`.
pub open spec fn set_channel<const N: usize>(t: [[u8; 3]; N], idx: int, ch: int, v: u8) -> [[u8; 3]; N] {
    spec_array_update(t, idx, with_channel(t[idx], ch, v))
}

/// The address register after an auto-increment (wraps at 256).
pub open spec fn next_addr(a: u8) -> u8 {
    ((a + 1) % 256) as u8
}

/// State after writing one channel of a color table entry through the
/// R, G, B sequence: the third write completes the entry, marks the
/// colors dirty and steps the address.
pub open spec fn color_write<const N: usize>(s: Bt445, t: [[u8; 3]; N], idx: int, val: u8) -> (
    [[u8; 3]; N],
    Bt445,
) {
    match s.rgb_counter {
        0 => (set_channel(t, idx, 0, val), Bt445 { rgb_counter: 1, ..s }),
        1 => (set_channel(t, idx, 1, val), Bt445 { rgb_counter: 2, ..s }),
        2 => (
            set_channel(t, idx, 2, val),
            Bt445 { dirty: true, addr: next_addr(s.addr), rgb_counter: 0, ..s },
        ),
        _ => (t, s),
    }
}

/// Whether a command register 1 value turns sync-on-green on.
pub open spec fn sog_bit(v: u8) -> bool {
    v & CMD1_SOG_ENABLE != 0
}

/// Register state after a byte write to CRS `crs`.
pub open spec fn write_crs_spec(s: Bt445, crs: u8, val: u8) -> Bt445 {
    if crs == RDAC_CRS_ADDR_REG {
        Bt445 { addr: val, rgb_counter: 0, ..s }
    } else if crs == RDAC_CRS_PAL_RAM {
        let (t, s2) = color_write(s, s.palette, s.addr as int, val);
        Bt445 { palette: t, ..s2 }
    } else if crs == RDAC_CRS_CTRL {
        if s.addr == RDAC_CTRL_READ_ENABLE {
            Bt445 { read_enable: val, ..s }
        } else if s.addr == RDAC_CTRL_BLINK_ENABLE {
            Bt445 { blink_enable: val, ..s }
        } else if s.addr == RDAC_CTRL_CMD0 {
            Bt445 { cmd0: val, ..s }
        } else {
            s
        }
    } else if crs == RDAC_CRS_OVL_RAM {
        let (t, s2) = color_write(s, s.overlay, (s.addr % 16) as int, val);
        Bt445 { overlay: t, ..s2 }
    } else if crs == RDAC_CRS_RGB_CTRL {
        if s.addr < 0x28 {
            Bt445 { rgb_ctrl: spec_array_update(s.rgb_ctrl, s.addr as int, val), ..s }
        } else {
            s
        }
    } else if crs == RDAC_CRS_SETUP {
        if s.addr < 0x10 {
            let s2 = Bt445 { setup: spec_array_update(s.setup, s.addr as int, val), ..s };
            if s.addr == RDAC_SETUP_CMD1 && sog_bit(s.setup[RDAC_SETUP_CMD1 as int]) != sog_bit(val) {
                Bt445 { sog_change: Some(sog_bit(val)), ..s2 }
            } else {
                s2
            }
        } else {
            s
        }
    } else if crs == RDAC_CRS_CURSOR {
        let (t, s2) = color_write(s, s.cursor_color, (s.addr % 4) as int, val);
        Bt445 { cursor_color: t, ..s2 }
    } else {
        s
    }
}

/// Value and state after reading one channel of a color table entry.
pub open spec fn color_read(s: Bt445, c: [u8; 3]) -> (u8, Bt445) {
    match s.rgb_counter {
        0 => (c[0], Bt445 { rgb_counter: 1, ..s }),
        1 => (c[1], Bt445 { rgb_counter: 2, ..s }),
        2 => (c[2], Bt445 { addr: next_addr(s.addr), rgb_counter: 0, ..s }),
        _ => (0, s),
    }
}

/// Value of a byte read from CRS `crs`, and the register state after it.
pub open spec fn read_crs_spec(s: Bt445, crs: u8) -> (u8, Bt445) {
    if crs == RDAC_CRS_ADDR_REG {
        (s.addr, s)
    } else if crs == RDAC_CRS_PAL_RAM {
        color_read(s, s.palette[s.addr as int])
    } else if crs == RDAC_CRS_CTRL {
        (
            if s.addr == RDAC_CTRL_ID {
                0x3A
            } else if s.addr == RDAC_CTRL_REVISION {
                0xA0
            } else if s.addr == RDAC_CTRL_RESERVED0 {
                0xFF
            } else if s.addr == RDAC_CTRL_READ_ENABLE {
                s.read_enable
            } else if s.addr == RDAC_CTRL_BLINK_ENABLE {
                s.blink_enable
            } else if s.addr == RDAC_CTRL_CMD0 {
                s.cmd0
            } else {
                0
            },
            s,
        )
    } else if crs == RDAC_CRS_OVL_RAM {
        color_read(s, s.overlay[(s.addr % 16) as int])
    } else if crs == RDAC_CRS_RGB_CTRL {
        (
            if s.addr < 0x28 {
                s.rgb_ctrl[s.addr as int]
            } else {
                0
            },
            s,
        )
    } else if crs == RDAC_CRS_SETUP {
        (
            if s.addr < 0x10 {
                s.setup[s.addr as int]
            } else {
                0
            },
            s,
        )
    } else if crs == RDAC_CRS_CURSOR {
        color_read(s, s.cursor_color[(s.addr % 4) as int])
    } else {
        (0, s)
    }
}

/// Register state after a 32-bit write: CRS 0 takes the address from bits
/// 7:0; CRS 1 loads a whole palette entry (R = bits 15:8, G = 23:16,
/// B = 31:24) and steps the address; other groups take the low byte.
pub open spec fn write32_spec(s: Bt445, crs: u8, data: u32) -> Bt445 {
    if crs == RDAC_CRS_ADDR_REG {
        Bt445 { addr: (data % 256) as u8, rgb_counter: 0, ..s }
    } else if crs == RDAC_CRS_PAL_RAM {
        Bt445 {
            palette: spec_array_update(
                s.palette,
                s.addr as int,
                [
                    ((data / 0x100) % 256) as u8,
                    ((data / 0x1_0000) % 256) as u8,
                    ((data / 0x100_0000) % 256) as u8,
                ],
            ),
            dirty: true,
            addr: next_addr(s.addr),
            rgb_counter: 0,
            ..s
        }
    } else {
        write_crs_spec(s, crs, (data % 256) as u8)
    }
}

pub open spec fn black() -> [u8; 3] {
    [0u8, 0u8, 0u8]
}

/// Power-on register values from the datasheet.
pub open spec fn reset_state(debug: bool) -> Bt445 {
    Bt445 {
        palette: spec_array_fill_for_copy_type(black()),
        overlay: spec_array_fill_for_copy_type(black()),
        cursor_color: spec_array_fill_for_copy_type(black()),
        addr: 0,
        rgb_counter: 0,
        read_enable: 0,
        blink_enable: 0,
        cmd0: 0x43,
        rgb_ctrl: [
            0x07, 0x08, 0xFF, 0, 0, 0, 0, 0,
            0x07, 0x08, 0xFF, 0, 0, 0, 0, 0,
            0x07, 0x08, 0xFF, 0, 0, 0, 0, 0,
            0x09, 0x02, 0x03, 0, 0, 0, 0, 0,
            0x00, 0x02, 0x03, 0, 0, 0, 0, 0,
        ],
        setup: [
            0x00, 0x40, 0x00, 0x03, 0x00, 0x19, 0x04, 0x00,
            0x04, 0x28, 0x08, 0x03, 0x00, 0x0A, 0x00, 0x01,
        ],
        debug,
        dirty: true,
        sog_change: None,
    }
}

proof fn lemma_eq_state(a: Bt445, b: Bt445)
    requires
        a.palette =~= b.palette,
        a.overlay =~= b.overlay,
        a.cursor_color =~= b.cursor_color,
        a.rgb_ctrl =~= b.rgb_ctrl,
        a.setup =~= b.setup,
        a.addr == b.addr,
        a.rgb_counter == b.rgb_counter,
        a.read_enable == b.read_enable,
        a.blink_enable == b.blink_enable,
        a.cmd0 == b.cmd0,
        a.debug == b.debug,
        a.dirty == b.dirty,
        a.sog_change == b.sog_change,
    ensures
        a == b,
{
}

impl Bt445 {
    /// A RAMDAC in its power-on state.
    pub fn new() -> (s: Self)
        ensures
            s == reset_state(false),
    {
        let mut s = Self {
            palette: [[0u8; 3]; 256],
            overlay: [[0u8; 3]; 16],
            cursor_color: [[0u8; 3]; 4],
            addr: 0,
            rgb_counter: 0,
            read_enable: 0,
            blink_enable: 0,
            cmd0: 0x43,
            rgb_ctrl: [0u8; 0x28],
            setup: [0u8; 0x10],
            debug: false,
            dirty: true,
            sog_change: None,
        };
        s.rgb_ctrl[RDAC_RGB_RED_MSB_POS as usize] = 0x07;
        s.rgb_ctrl[RDAC_RGB_RED_WIDTH as usize] = 0x08;
        s.rgb_ctrl[RDAC_RGB_RED_DISP_EN as usize] = 0xFF;
        s.rgb_ctrl[RDAC_RGB_GRN_MSB_POS as usize] = 0x07;
        s.rgb_ctrl[RDAC_RGB_GRN_WIDTH as usize] = 0x08;
        s.rgb_ctrl[RDAC_RGB_GRN_DISP_EN as usize] = 0xFF;
        s.rgb_ctrl[RDAC_RGB_BLU_MSB_POS as usize] = 0x07;
        s.rgb_ctrl[RDAC_RGB_BLU_WIDTH as usize] = 0x08;
        s.rgb_ctrl[RDAC_RGB_BLU_DISP_EN as usize] = 0xFF;
        s.rgb_ctrl[RDAC_RGB_OVL_MSB_POS as usize] = 0x09;
        s.rgb_ctrl[RDAC_RGB_OVL_WIDTH as usize] = 0x02;
        s.rgb_ctrl[RDAC_RGB_OVL_DISP_EN as usize] = 0x03;
        s.rgb_ctrl[RDAC_RGB_CUR_WIDTH as usize] = 0x02;
        s.rgb_ctrl[RDAC_RGB_CUR_DISP_EN as usize] = 0x03;
        s.setup[RDAC_SETUP_CMD1 as usize] = 0x40;
        s.setup[RDAC_SETUP_VIDCLK_CTRL as usize] = 0x03;
        s.setup[RDAC_SETUP_PLL_RATE0 as usize] = 0x19;
        s.setup[RDAC_SETUP_PLL_RATE1 as usize] = 0x04;
        s.setup[RDAC_SETUP_PIX_LOAD as usize] = 0x04;
        s.setup[RDAC_SETUP_PIX_START as usize] = 0x28;
        s.setup[RDAC_SETUP_PIX_FMT as usize] = 0x08;
        s.setup[RDAC_SETUP_MPX_RATE as usize] = 0x03;
        s.setup[RDAC_SETUP_PIX_DEPTH as usize] = 0x0A;
        s.setup[RDAC_SETUP_PAL_BYPASSW as usize] = 0x01;
        proof {
            let r = reset_state(false);
            assert forall|i: int| 0 <= i < 256 implies s.palette[i] == black() by {
                assert(s.palette[i] =~= black());
            }
            assert forall|i: int| 0 <= i < 16 implies s.overlay[i] == black() by {
                assert(s.overlay[i] =~= black());
            }
            assert forall|i: int| 0 <= i < 4 implies s.cursor_color[i] == black() by {
                assert(s.cursor_color[i] =~= black());
            }
            assert(s.palette =~= r.palette);
            assert(s.overlay =~= r.overlay);
            assert(s.cursor_color =~= r.cursor_color);
            assert(s.rgb_ctrl =~= r.rgb_ctrl);
            assert(s.setup =~= r.setup);
            lemma_eq_state(s, r);
        }
        s
    }

    fn cmd1(&self) -> (v: u8)
        ensures
            v == self.setup[RDAC_SETUP_CMD1 as int],
    {
        self.setup[RDAC_SETUP_CMD1 as usize]
    }

    fn set_addr(&mut self, val: u8)
        ensures
            *final(self) == (Bt445 { addr: val, rgb_counter: 0, ..*old(self) }),
    {
        self.addr = val;
        self.rgb_counter = 0;
    }

    fn inc_addr(&mut self)
        ensures
            *final(self) == (Bt445 { addr: next_addr(old(self).addr), rgb_counter: 0, ..*old(self) }),
    {
        self.addr = self.addr.wrapping_add(1);
        self.rgb_counter = 0;
    }

    /// Whether sync-on-green is enabled (command register 1, bit 7).
    pub fn sog_enabled(&self) -> (b: bool)
        ensures
            b == (self.setup[RDAC_SETUP_CMD1 as int] & CMD1_SOG_ENABLE != 0),
    {
        self.cmd1() & CMD1_SOG_ENABLE != 0
    }

    fn write_color<const N: usize>(table: &mut [[u8; 3]; N], idx: usize, ch: u8, val: u8)
        requires
            idx < N,
            ch < 3,
        ensures
            *final(table) == set_channel(*old(table), idx as int, ch as int, val),
    {
        table[idx][ch as usize] = val;
        proof {
            assert(table[idx as int] =~= with_channel(old(table)[idx as int], ch as int, val));
            assert(*table =~= set_channel(*old(table), idx as int, ch as int, val));
        }
    }

    /// Writes a byte to CRS `crs` (see `write_crs_spec`).
    pub fn write_crs(&mut self, crs: u8, val: u8)
        ensures
            *final(self) == write_crs_spec(*old(self), crs, val),
    {
        match crs {
            RDAC_CRS_ADDR_REG => {
                self.set_addr(val);
            },
            RDAC_CRS_PAL_RAM => {
                let idx = self.addr as usize;
                match self.rgb_counter {
                    0 => {
                        Self::write_color(&mut self.palette, idx, 0, val);
                        self.rgb_counter = 1;
                    },
                    1 => {
                        Self::write_color(&mut self.palette, idx, 1, val);
                        self.rgb_counter = 2;
                    },
                    2 => {
                        Self::write_color(&mut self.palette, idx, 2, val);
                        self.dirty = true;
                        self.addr = self.addr.wrapping_add(1);
                        self.rgb_counter = 0;
                    },
                    _ => {},
                }
            },
            RDAC_CRS_CTRL => {
                match self.addr {
                    RDAC_CTRL_READ_ENABLE => self.read_enable = val,
                    RDAC_CTRL_BLINK_ENABLE => self.blink_enable = val,
                    RDAC_CTRL_CMD0 => self.cmd0 = val,
                    _ => {},
                }
            },
            RDAC_CRS_OVL_RAM => {
                let idx = (self.addr & 0x0F) as usize;
                let a = self.addr;
                assert(a & 0x0F == a % 16) by (bit_vector);
                match self.rgb_counter {
                    0 => {
                        Self::write_color(&mut self.overlay, idx, 0, val);
                        self.rgb_counter = 1;
                    },
                    1 => {
                        Self::write_color(&mut self.overlay, idx, 1, val);
                        self.rgb_counter = 2;
                    },
                    2 => {
                        Self::write_color(&mut self.overlay, idx, 2, val);
                        self.dirty = true;
                        self.inc_addr();
                    },
                    _ => {},
                }
            },
            RDAC_CRS_RGB_CTRL => {
                let idx = self.addr as usize;
                if idx < 0x28 {
                    self.rgb_ctrl[idx] = val;
                    assert(self.rgb_ctrl =~= spec_array_update(old(self).rgb_ctrl, idx as int, val));
                }
            },
            RDAC_CRS_SETUP => {
                let idx = self.addr as usize;
                if idx < 0x10 {
                    let prev = self.setup[idx];
                    self.setup[idx] = val;
                    assert(self.setup =~= spec_array_update(old(self).setup, idx as int, val));
                    if idx == RDAC_SETUP_CMD1 as usize {
                        let prev_sog = prev & CMD1_SOG_ENABLE != 0;
                        let new_sog = val & CMD1_SOG_ENABLE != 0;
                        if prev_sog != new_sog {
                            self.sog_change = Some(new_sog);
                        }
                    }
                }
            },
            RDAC_CRS_CURSOR => {
                let idx = (self.addr & 0x03) as usize;
                let a = self.addr;
                assert(a & 0x03 == a % 4) by (bit_vector);
                match self.rgb_counter {
                    0 => {
                        Self::write_color(&mut self.cursor_color, idx, 0, val);
                        self.rgb_counter = 1;
                    },
                    1 => {
                        Self::write_color(&mut self.cursor_color, idx, 1, val);
                        self.rgb_counter = 2;
                    },
                    2 => {
                        Self::write_color(&mut self.cursor_color, idx, 2, val);
                        self.dirty = true;
                        self.inc_addr();
                    },
                    _ => {},
                }
            },
            _ => {},
        }
    }

    /// 32-bit write (see `write32_spec`).
    pub fn write32(&mut self, crs: u8, data: u32)
        ensures
            *final(self) == write32_spec(*old(self), crs, data),
    {
        match crs {
            RDAC_CRS_ADDR_REG => {
                assert(data as u8 == data % 256) by (bit_vector);
                self.set_addr(data as u8);
            },
            RDAC_CRS_PAL_RAM => {
                let idx = self.addr as usize;
                let r = (data >> 8u32) as u8;
                let g = (data >> 16u32) as u8;
                let b = (data >> 24u32) as u8;
                assert(r == (data / 0x100) % 256 && g == (data / 0x1_0000) % 256 && b == (data
                    / 0x100_0000) % 256) by (bit_vector)
                    requires
                        r == (data >> 8u32) as u8,
                        g == (data >> 16u32) as u8,
                        b == (data >> 24u32) as u8,
                ;
                self.palette[idx] = [r, g, b];
                self.dirty = true;
                self.addr = self.addr.wrapping_add(1);
                self.rgb_counter = 0;
                assert(self.palette =~= spec_array_update(old(self).palette, idx as int, [r, g, b]));
            },
            _ => {
                assert(data as u8 == data % 256) by (bit_vector);
                self.write_crs(crs, data as u8);
            },
        }
    }

    fn read_color(&mut self, c: [u8; 3]) -> (v: u8)
        ensures
            (v, *final(self)) == color_read(*old(self), c),
    {
        match self.rgb_counter {
            0 => {
                self.rgb_counter = 1;
                c[0]
            },
            1 => {
                self.rgb_counter = 2;
                c[1]
            },
            2 => {
                self.inc_addr();
                c[2]
            },
            _ => 0,
        }
    }

    /// Reads a byte from CRS `crs` (see `read_crs_spec`).
    pub fn read_crs(&mut self, crs: u8) -> (v: u8)
        ensures
            (v, *final(self)) == read_crs_spec(*old(self), crs),
    {
        match crs {
            RDAC_CRS_ADDR_REG => self.addr,
            RDAC_CRS_PAL_RAM => {
                let c = self.palette[self.addr as usize];
                self.read_color(c)
            },
            RDAC_CRS_CTRL => {
                match self.addr {
                    RDAC_CTRL_ID => 0x3A,
                    RDAC_CTRL_REVISION => 0xA0,
                    RDAC_CTRL_RESERVED0 => 0xFF,
                    RDAC_CTRL_READ_ENABLE => self.read_enable,
                    RDAC_CTRL_BLINK_ENABLE => self.blink_enable,
                    RDAC_CTRL_CMD0 => self.cmd0,
                    _ => 0,
                }
            },
            RDAC_CRS_OVL_RAM => {
                let a = self.addr;
                assert(a & 0x0F == a % 16) by (bit_vector);
                let c = self.overlay[(self.addr & 0x0F) as usize];
                self.read_color(c)
            },
            RDAC_CRS_RGB_CTRL => {
                let idx = self.addr as usize;
                if idx < 0x28 {
                    self.rgb_ctrl[idx]
                } else {
                    0
                }
            },
            RDAC_CRS_SETUP => {
                let idx = self.addr as usize;
                if idx < 0x10 {
                    self.setup[idx]
                } else {
                    0
                }
            },
            RDAC_CRS_CURSOR => {
                let a = self.addr;
                assert(a & 0x03 == a % 4) by (bit_vector);
                let c = self.cursor_color[(self.addr & 0x03) as usize];
                self.read_color(c)
            },
            _ => 0,
        }
    }

    /// The palette as 0x00RRGGBB words.
    pub fn palette_as_rgb(&self) -> (out: [u32; 256])
        ensures
            forall|i: int|
                0 <= i < 256 ==> #[trigger] out[i] == self.palette[i][0] as u32 * 0x1_0000
                    + self.palette[i][1] as u32 * 0x100 + self.palette[i][2] as u32,
    {
        let mut out = [0u32; 256];
        let mut i: usize = 0;
        while i < 256
            invariant
                i <= 256,
                forall|k: int|
                    0 <= k < i ==> #[trigger] out[k] == self.palette[k][0] as u32 * 0x1_0000
                        + self.palette[k][1] as u32 * 0x100 + self.palette[k][2] as u32,
            decreases 256 - i,
        {
            let rgb = self.palette[i];
            let (r, g, b) = (rgb[0] as u32, rgb[1] as u32, rgb[2] as u32);
            let w = (r << 16u32) | (g << 8u32) | b;
            assert(w == r * 0x1_0000 + g * 0x100 + b) by (bit_vector)
                requires
                    r < 256 && g < 256 && b < 256,
                    w == (r << 16u32) | (g << 8u32) | b,
            ;
            out[i] = w;
            i = i + 1;
        }
        out
    }

    /// Names the settings of command register 0, space separated.
    pub fn decode_cmd0(v: u8) -> (t: String)
        ensures
            t@ == cmd0_text(v),
    {
        let mut t = String::from_str(
            if v & CMD0_OVL_COLOR0_DISABLE != 0 {
                "OVL0→CMAP"
            } else {
                "OVL0→OVL_COLOR"
            },
        );
        let rate = (v & CMD0_BLINK_RATE_MASK) >> 4u8;
        assert((v & 0x30u8) >> 4u8 <= 3) by (bit_vector);
        t.append(
            if rate == 0 {
                " blink=16/48(25%)"
            } else if rate == 1 {
                " blink=16/16(50%)"
            } else if rate == 2 {
                " blink=32/32(50%)"
            } else {
                " blink=64/64(50%)"
            },
        );
        if v & CMD0_OVL1_BLINK_EN != 0 {
            t.append(" OVL1_BLINK");
        }
        if v & CMD0_OVL0_BLINK_EN != 0 {
            t.append(" OVL0_BLINK");
        }
        t.append(
            if v & CMD0_OVL1_DISP_EN != 0 {
                " OVL1_EN"
            } else {
                " OVL1_DIS"
            },
        );
        t.append(
            if v & CMD0_OVL0_DISP_EN != 0 {
                " OVL0_EN"
            } else {
                " OVL0_DIS"
            },
        );
        proof {
            reveal_strlit(" OVL1_BLINK");
            reveal_strlit(" OVL0_BLINK");
        }
        assert(t@ =~= cmd0_text(v));
        t
    }

    /// Names the settings of command register 1, space separated.
    pub fn decode_cmd1(v: u8) -> (t: String)
        ensures
            t@ == cmd1_text(v),
    {
        let mut t = String::from_str(
            if v & CMD1_SOG_ENABLE != 0 {
                "SOG=ON"
            } else {
                "SOG=off"
            },
        );
        t.append(
            if v & CMD1_PEDESTAL_EN != 0 {
                " pedestal=7.5IRE"
            } else {
                " pedestal=0IRE"
            },
        );
        let pwr = (v & CMD1_PWRDOWN_MASK) >> CMD1_PWRDOWN_SHIFT;
        t.append(
            if pwr == CMD1_PWR_NORMAL {
                " pwr=normal"
            } else if pwr == CMD1_PWR_DACS_OFF {
                " pwr=DACs_off"
            } else if pwr == CMD1_PWR_DACS_RAM_OFF {
                " pwr=DACs+RAM_off"
            } else {
                " pwr=clk_off"
            },
        );
        t.append(
            if v & CMD1_PAL_ADDR_MODE != 0 {
                " pal=contiguous"
            } else {
                " pal=sparse"
            },
        );
        if v & CMD1_SAR_ENABLE != 0 {
            t.append(" SAR");
        }
        if v & CMD1_RESET_PIPE != 0 {
            t.append(" RESET_PIPE");
        }
        assert(t@ =~= cmd1_text(v));
        t
    }

    /// Takes the pending sync-on-green change, if any: the new state, to be
    /// reported.
    pub fn take_sog_change(&mut self) -> (r: Option<bool>)
        ensures
            r == old(self).sog_change,
            *final(self) == (Bt445 { sog_change: None, ..*old(self) }),
    {
        let r = self.sog_change;
        self.sog_change = None;
        r
    }

    /// The report of a sync-on-green change to state `on`.
    pub fn sog_change_text(on: bool) -> (t: String)
        ensures
            t@ == "BT445: Sync-on-Green (IOG) "@ + (if on { "ENABLED"@ } else { "DISABLED"@ }),
    {
        let mut t = String::from_str("BT445: Sync-on-Green (IOG) ");
        if on {
            t.append("ENABLED");
        } else {
            t.append("DISABLED");
        }
        t
    }

    /// Returns the RAMDAC to its power-on state.
    pub fn reset(&mut self)
        ensures
            *final(self) == reset_state(false),
    {
        *self = Self::new();
    }

    /// Whether palette entries `8 * row .. 8 * row + 8` are all black (a row
    /// of the status dump).
    pub fn palette_row_is_zero(&self, row: usize) -> (b: bool)
        requires
            row < 32,
        ensures
            b == forall|i: int| 8 * row <= i < 8 * row + 8 ==> is_black(#[trigger] self.palette[i]),
    {
        let mut k: usize = 0;
        while k < 8
            invariant
                row < 32,
                k <= 8,
                forall|i: int| 8 * row <= i < 8 * row + k ==> is_black(#[trigger] self.palette[i]),
            decreases 8 - k,
        {
            let e = self.palette[8 * row + k];
            if e[0] != 0 || e[1] != 0 || e[2] != 0 {
                assert(!is_black(self.palette[8 * row + k]));
                return false;
            }
            k = k + 1;
        }
        true
    }

    /// How many palette entries are not black.
    pub fn palette_nonzero_count(&self) -> (n: usize)
        ensures
            n == count_colored(self.palette@, 256),
    {
        let mut n: usize = 0;
        let mut i: usize = 0;
        while i < 256
            invariant
                i <= 256,
                n == count_colored(self.palette@, i as int),
                n <= i,
            decreases 256 - i,
        {
            let e = self.palette[i];
            if e[0] != 0 || e[1] != 0 || e[2] != 0 {
                n = n + 1;
            }
            i = i + 1;
        }
        n
    }

    /// Indices of the overlay entries that are not black, in order.
    pub fn overlay_nonzero(&self) -> (v: Vec<usize>)
        ensures
            v@ == colored_indices(self.overlay@, 16),
            forall|j: int| 0 <= j < v@.len() ==> #[trigger] v@[j] < 16,
    {
        proof {
            lemma_colored_indices_below(self.overlay@, 16);
        }
        let mut v: Vec<usize> = Vec::new();
        let mut i: usize = 0;
        while i < 16
            invariant
                i <= 16,
                v@ == colored_indices(self.overlay@, i as int),
            decreases 16 - i,
        {
            let e = self.overlay[i];
            if e[0] != 0 || e[1] != 0 || e[2] != 0 {
                v.push(i);
            }
            i = i + 1;
        }
        v
    }
}

/// Whether a color entry is black.
pub open spec fn is_black(e: [u8; 3]) -> bool {
    e[0] == 0 && e[1] == 0 && e[2] == 0
}

/// How many of the first `n` entries are not black.
pub open spec fn count_colored(es: Seq<[u8; 3]>, n: int) -> nat
    decreases n,
{
    if n <= 0 {
        0
    } else {
        count_colored(es, n - 1) + if is_black(es[n - 1]) {
            0nat
        } else {
            1nat
        }
    }
}

proof fn lemma_colored_indices_below(es: Seq<[u8; 3]>, n: int)
    ensures
        forall|j: int|
            0 <= j < colored_indices(es, n).len() ==> #[trigger] colored_indices(es, n)[j] < n,
    decreases n,
{
    if n > 0 {
        lemma_colored_indices_below(es, n - 1);
        let prev = colored_indices(es, n - 1);
        let cur = colored_indices(es, n);
        assert forall|j: int| 0 <= j < cur.len() implies #[trigger] cur[j] < n by {
            if j < prev.len() {
                assert(cur[j] == prev[j]);
            }
        }
    }
}

/// Indices below `n` of the entries that are not black, in order.
pub open spec fn colored_indices(es: Seq<[u8; 3]>, n: int) -> Seq<usize>
    decreases n,
{
    if n <= 0 {
        Seq::empty()
    } else if is_black(es[n - 1]) {
        colored_indices(es, n - 1)
    } else {
        colored_indices(es, n - 1).push((n - 1) as usize)
    }
}

/// Text naming the settings of command register 0.
pub open spec fn cmd0_text(v: u8) -> Seq<char> {
    (if v & CMD0_OVL_COLOR0_DISABLE != 0 {
        "OVL0→CMAP"@
    } else {
        "OVL0→OVL_COLOR"@
    }) + (if (v & CMD0_BLINK_RATE_MASK) >> 4u8 == 0 {
        " blink=16/48(25%)"@
    } else if (v & CMD0_BLINK_RATE_MASK) >> 4u8 == 1 {
        " blink=16/16(50%)"@
    } else if (v & CMD0_BLINK_RATE_MASK) >> 4u8 == 2 {
        " blink=32/32(50%)"@
    } else {
        " blink=64/64(50%)"@
    }) + (if v & CMD0_OVL1_BLINK_EN != 0 {
        " OVL1_BLINK"@
    } else {
        Seq::empty()
    }) + (if v & CMD0_OVL0_BLINK_EN != 0 {
        " OVL0_BLINK"@
    } else {
        Seq::empty()
    }) + (if v & CMD0_OVL1_DISP_EN != 0 {
        " OVL1_EN"@
    } else {
        " OVL1_DIS"@
    }) + (if v & CMD0_OVL0_DISP_EN != 0 {
        " OVL0_EN"@
    } else {
        " OVL0_DIS"@
    })
}

/// Text naming the settings of command register 1.
pub open spec fn cmd1_text(v: u8) -> Seq<char> {
    (if v & CMD1_SOG_ENABLE != 0 {
        "SOG=ON"@
    } else {
        "SOG=off"@
    }) + (if v & CMD1_PEDESTAL_EN != 0 {
        " pedestal=7.5IRE"@
    } else {
        " pedestal=0IRE"@
    }) + (if (v & CMD1_PWRDOWN_MASK) >> CMD1_PWRDOWN_SHIFT == CMD1_PWR_NORMAL {
        " pwr=normal"@
    } else if (v & CMD1_PWRDOWN_MASK) >> CMD1_PWRDOWN_SHIFT == CMD1_PWR_DACS_OFF {
        " pwr=DACs_off"@
    } else if (v & CMD1_PWRDOWN_MASK) >> CMD1_PWRDOWN_SHIFT == CMD1_PWR_DACS_RAM_OFF {
        " pwr=DACs+RAM_off"@
    } else {
        " pwr=clk_off"@
    }) + (if v & CMD1_PAL_ADDR_MODE != 0 {
        " pal=contiguous"@
    } else {
        " pal=sparse"@
    }) + (if v & CMD1_SAR_ENABLE != 0 {
        " SAR"@
    } else {
        Seq::empty()
    }) + (if v & CMD1_RESET_PIPE != 0 {
        " RESET_PIPE"@
    } else {
        Seq::empty()
    })
}

/// With the color sequence at red, a 32-bit palette write leaves the same
/// state as writing its red, green and blue bytes one by one.
pub proof fn lemma_write32_palette_is_three_writes(s: Bt445, data: u32)
    requires
        s.rgb_counter == 0,
    ensures
        write32_spec(s, RDAC_CRS_PAL_RAM, data) == write_crs_spec(
            write_crs_spec(
                write_crs_spec(s, RDAC_CRS_PAL_RAM, ((data / 0x100) % 256) as u8),
                RDAC_CRS_PAL_RAM,
                ((data / 0x1_0000) % 256) as u8,
            ),
            RDAC_CRS_PAL_RAM,
            ((data / 0x100_0000) % 256) as u8,
        ),
{
    let r = ((data / 0x100) % 256) as u8;
    let g = ((data / 0x1_0000) % 256) as u8;
    let b = ((data / 0x100_0000) % 256) as u8;
    let s1 = write_crs_spec(s, RDAC_CRS_PAL_RAM, r);
    let s2 = write_crs_spec(s1, RDAC_CRS_PAL_RAM, g);
    let s3 = write_crs_spec(s2, RDAC_CRS_PAL_RAM, b);
    let w = write32_spec(s, RDAC_CRS_PAL_RAM, data);
    let i = s.addr as int;
    assert(s3.palette[i] =~= w.palette[i]);
    assert(s3.palette =~= w.palette);
    lemma_eq_state(s3, w);
}

/// Loading palette entry `a` with R, G, B and then reading entry `a` gives
/// back R, G, B, and the address register ends one past `a` either way.
pub proof fn lemma_palette_round_trip(s: Bt445, a: u8, r: u8, g: u8, b: u8)
    ensures
        ({
            let w0 = write_crs_spec(s, RDAC_CRS_ADDR_REG, a);
            let w1 = write_crs_spec(w0, RDAC_CRS_PAL_RAM, r);
            let w2 = write_crs_spec(w1, RDAC_CRS_PAL_RAM, g);
            let w3 = write_crs_spec(w2, RDAC_CRS_PAL_RAM, b);
            let q0 = write_crs_spec(w3, RDAC_CRS_ADDR_REG, a);
            let (v1, q1) = read_crs_spec(q0, RDAC_CRS_PAL_RAM);
            let (v2, q2) = read_crs_spec(q1, RDAC_CRS_PAL_RAM);
            let (v3, q3) = read_crs_spec(q2, RDAC_CRS_PAL_RAM);
            &&& v1 == r && v2 == g && v3 == b
            &&& w3.addr == next_addr(a) && q3.addr == next_addr(a)
            &&& q3.palette[a as int] == [r, g, b]
        }),
{
    let w0 = write_crs_spec(s, RDAC_CRS_ADDR_REG, a);
    let w1 = write_crs_spec(w0, RDAC_CRS_PAL_RAM, r);
    let w2 = write_crs_spec(w1, RDAC_CRS_PAL_RAM, g);
    let w3 = write_crs_spec(w2, RDAC_CRS_PAL_RAM, b);
    assert(w3.palette[a as int] =~= [r, g, b]);
}

/// The byte read from control register `a` (CRS 2 at address `a`) after
/// the address register is loaded with `a` on state `s`.
pub open spec fn control_reading(s: Bt445, a: u8) -> u8 {
    read_crs_spec(write_crs_spec(s, 0, a), 2).0
}

/// The control registers at addresses 4 (read enable), 5 (blink enable) and
/// 6 (command register 0) read back what was written to them, a write to
/// one leaves the others reading as before, and each is the register the
/// state keeps under that name. Addresses 0 and 1 read the chip's ID 0x3A
/// and revision 0xA0 whatever was written there.
pub proof fn lemma_control_registers(s: Bt445, a: u8, b: u8, v: u8)
    ensures
        ({
            let w = write_crs_spec(write_crs_spec(s, 0, a), 2, v);
            &&& (a == 4 || a == 5 || a == 6) ==> control_reading(w, a) == v
            &&& (a == 4 || a == 5 || a == 6) && b != a ==> control_reading(w, b) == control_reading(s, b)
            &&& a == 4 ==> w.read_enable == v
            &&& a == 5 ==> w.blink_enable == v
            &&& a == 6 ==> w.cmd0 == v
            &&& control_reading(w, 0) == 0x3A
            &&& control_reading(w, 1) == 0xA0
        }),
{
}

/// A pixel-format register (CRS 5, addresses below 0x28) or a setup register
/// (CRS 6, addresses below 0x10) reads back what was written to it, and a
/// write to one leaves every other register of its group reading as before.
pub proof fn lemma_format_and_setup_registers(s: Bt445, crs: u8, a: u8, b: u8, v: u8)
    requires
        (crs == 5 && a < 0x28) || (crs == 6 && a < 0x10),
    ensures
        ({
            let w = write_crs_spec(write_crs_spec(s, 0, a), crs, v);
            &&& read_crs_spec(write_crs_spec(w, 0, a), crs).0 == v
            &&& b != a ==> read_crs_spec(write_crs_spec(w, 0, b), crs).0 == read_crs_spec(
                write_crs_spec(s, 0, b),
                crs,
            ).0
        }),
{
}

/// Loading overlay color `a` (CRS 3) or cursor color `a` (CRS 7) with R, G,
/// B and reading it back gives R, G, B; the overlay has 16 entries and the
/// cursor 4, chosen by the low bits of the address.
pub proof fn lemma_overlay_and_cursor_round_trip(s: Bt445, crs: u8, a: u8, r: u8, g: u8, b: u8)
    requires
        crs == 3 || crs == 7,
    ensures
        ({
            let w0 = write_crs_spec(s, 0, a);
            let w1 = write_crs_spec(w0, crs, r);
            let w2 = write_crs_spec(w1, crs, g);
            let w3 = write_crs_spec(w2, crs, b);
            let q0 = write_crs_spec(w3, 0, a);
            let (v1, q1) = read_crs_spec(q0, crs);
            let (v2, q2) = read_crs_spec(q1, crs);
            let (v3, q3) = read_crs_spec(q2, crs);
            &&& v1 == r && v2 == g && v3 == b
            &&& crs == 3 ==> w3.overlay[(a % 16) as int] == [r, g, b]
            &&& crs == 7 ==> w3.cursor_color[(a % 4) as int] == [r, g, b]
        }),
{
    let w0 = write_crs_spec(s, 0, a);
    let w1 = write_crs_spec(w0, crs, r);
    let w2 = write_crs_spec(w1, crs, g);
    let w3 = write_crs_spec(w2, crs, b);
    if crs == 3 {
        assert(w3.overlay[(a % 16) as int] =~= [r, g, b]);
    } else {
        assert(w3.cursor_color[(a % 4) as int] =~= [r, g, b]);
    }
}

} // verus!

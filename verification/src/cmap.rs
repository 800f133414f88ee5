//! CMAP color map: 8192 palette entries behind a 13-bit address register
//! and an R, G, B load sequence.
use vstd::prelude::*;
use vstd::array::spec_array_update;

pub mod status;

verus! {

broadcast use vstd::array::group_array_axioms;

pub const CMAP_REG_ADDR_LO: u8 = 0;
pub const CMAP_REG_ADDR_HI: u8 = 1;
pub const CMAP_REG_PALETTE: u8 = 2;
pub const CMAP_REG_COMMAND: u8 = 3;
pub const CMAP_REG_STATUS: u8 = 4;
pub const CMAP_REG_COLOR_BUF: u8 = 5;
pub const CMAP_REG_REVISION: u8 = 6;
pub const CMAP_REG_READ_INIT: u8 = 7;

pub const CMAP_PALETTE_SIZE: usize = 8192;

pub struct Cmap {
    pub id: usize,
    /// Palette entries as 0x00BBGGRR.
    pub palette: [u32; 8192],
    pub addr_lo: u8,
    pub addr_hi: u8,
    /// Which of R, G, B the next palette access touches (0, 1, 2).
    pub rgb_counter: u8,
    pub red_temp: u8,
    pub green_temp: u8,
    pub command: u8,
    pub revision: u8,
    pub dirty: bool,
}

/// The address register: high byte, low byte.
pub open spec fn address(s: Cmap) -> int {
    s.addr_hi as int * 256 + s.addr_lo as int
}

/// The address register after an auto-increment (wraps within 13 bits).
pub open spec fn with_next_address(s: Cmap) -> Cmap {
    let a = (address(s) + 1) % 8192;
    Cmap { addr_lo: (a % 256) as u8, addr_hi: (a / 256) as u8, ..s }
}

/// A palette entry from its red, green and blue bytes.
pub open spec fn pack_color(r: u8, g: u8, b: u8) -> u32 {
    (b as int * 0x1_0000 + g as int * 0x100 + r as int) as u32
}

/// State after writing a byte to register `crs`.
pub open spec fn write_crs_spec(s0: Cmap, crs: u8, val: u8) -> Cmap {
    let s = Cmap { dirty: true, ..s0 };
    if crs == CMAP_REG_ADDR_LO {
        Cmap { addr_lo: val, rgb_counter: 0, ..s }
    } else if crs == CMAP_REG_ADDR_HI {
        Cmap { addr_hi: val, rgb_counter: 0, ..s }
    } else if crs == CMAP_REG_PALETTE {
        if s.rgb_counter == 0 {
            Cmap { red_temp: val, rgb_counter: 1, ..s }
        } else if s.rgb_counter == 1 {
            Cmap { green_temp: val, rgb_counter: 2, ..s }
        } else if s.rgb_counter == 2 {
            let stored = if address(s) < 8192 {
                Cmap {
                    palette: spec_array_update(
                        s.palette,
                        address(s),
                        pack_color(s.red_temp, s.green_temp, val),
                    ),
                    ..s
                }
            } else {
                s
            };
            with_next_address(Cmap { rgb_counter: 0, ..stored })
        } else {
            s
        }
    } else if crs == CMAP_REG_COMMAND {
        Cmap { command: val, ..s }
    } else if crs == CMAP_REG_READ_INIT {
        Cmap { rgb_counter: 0, ..s }
    } else {
        s
    }
}

/// Value of a byte read from register `crs`, and the state after it.
pub open spec fn read_crs_spec(s: Cmap, crs: u8) -> (u8, Cmap) {
    if crs == CMAP_REG_ADDR_LO {
        (s.addr_lo, s)
    } else if crs == CMAP_REG_ADDR_HI {
        (s.addr_hi, s)
    } else if crs == CMAP_REG_PALETTE {
        let color = s.palette[address(s)];
        if s.rgb_counter == 0 {
            ((color % 0x100) as u8, Cmap { rgb_counter: 1, ..s })
        } else if s.rgb_counter == 1 {
            (((color / 0x100) % 0x100) as u8, Cmap { rgb_counter: 2, ..s })
        } else if s.rgb_counter == 2 {
            (((color / 0x1_0000) % 0x100) as u8, with_next_address(Cmap { rgb_counter: 0, ..s }))
        } else {
            (0, s)
        }
    } else if crs == CMAP_REG_COMMAND {
        (s.command, s)
    } else if crs == CMAP_REG_STATUS {
        // bits 1:0 the load sequence position; FIFO empty (bit 2 low), not
        // half full and not full (bits 3, 4 high)
        (((s.rgb_counter % 4) + 0x18) as u8, s)
    } else if crs == CMAP_REG_COLOR_BUF {
        if s.rgb_counter == 0 {
            (s.red_temp, Cmap { rgb_counter: 1, ..s })
        } else if s.rgb_counter == 1 {
            (s.green_temp, s)
        } else {
            (0, s)
        }
    } else if crs == CMAP_REG_REVISION {
        (s.revision, s)
    } else {
        (0, s)
    }
}

proof fn lemma_eq_state(a: Cmap, b: Cmap)
    requires
        a.palette =~= b.palette,
        a.id == b.id,
        a.addr_lo == b.addr_lo,
        a.addr_hi == b.addr_hi,
        a.rgb_counter == b.rgb_counter,
        a.red_temp == b.red_temp,
        a.green_temp == b.green_temp,
        a.command == b.command,
        a.revision == b.revision,
        a.dirty == b.dirty,
    ensures
        a == b,
{
}

impl Cmap {
    /// A color map with an all-black palette; revision 2 (24-bit board).
    pub fn new(id: usize) -> (s: Self)
        ensures
            s.id == id,
            forall|i: int| 0 <= i < 8192 ==> s.palette[i] == 0,
            s.addr_lo == 0 && s.addr_hi == 0 && s.rgb_counter == 0,
            s.red_temp == 0 && s.green_temp == 0 && s.command == 0,
            s.revision == 0x02,
            s.dirty,
    {
        Self {
            id,
            palette: [0u32; 8192],
            addr_lo: 0,
            addr_hi: 0,
            rgb_counter: 0,
            red_temp: 0,
            green_temp: 0,
            command: 0,
            revision: 0x02,
            dirty: true,
        }
    }

    pub(crate) fn get_address(&self) -> (a: usize)
        ensures
            a == address(*self),
    {
        let hi = self.addr_hi as usize;
        let lo = self.addr_lo as usize;
        assert(((hi << 8usize) | lo) == hi * 256 + lo) by (bit_vector)
            requires
                hi < 256,
                lo < 256,
        ;
        (hi << 8usize) | lo
    }

    fn inc_address(&mut self)
        ensures
            *final(self) == with_next_address(*old(self)),
    {
        let a = self.get_address();
        let a1 = a + 1;
        let addr = a1 & 0x1FFF;
        assert(addr == a1 % 8192 && addr < 8192) by (bit_vector)
            requires
                addr == a1 & 0x1FFFusize,
        ;
        let lo = addr & 0xFF;
        let hi = (addr >> 8usize) & 0xFF;
        assert(lo == addr % 256 && hi == addr / 256) by (bit_vector)
            requires
                addr < 8192usize,
                lo == addr & 0xFFusize,
                hi == (addr >> 8usize) & 0xFFusize,
        ;
        self.addr_lo = lo as u8;
        self.addr_hi = hi as u8;
    }

    /// Reads a byte from register `crs` (see `read_crs_spec`).
    pub fn read_crs(&mut self, crs: u8) -> (v: u8)
        requires
            crs == CMAP_REG_PALETTE ==> address(*old(self)) < 8192,
        ensures
            (v, *final(self)) == read_crs_spec(*old(self), crs),
    {
        match crs {
            CMAP_REG_ADDR_LO => self.addr_lo,
            CMAP_REG_ADDR_HI => self.addr_hi,
            CMAP_REG_PALETTE => {
                let addr = self.get_address();
                let color = self.palette[addr];
                assert(color & 0xFF == color % 0x100 && (color >> 8u32) & 0xFF == (color / 0x100)
                    % 0x100 && (color >> 16u32) & 0xFF == (color / 0x1_0000) % 0x100) by (bit_vector);
                match self.rgb_counter {
                    0 => {
                        self.rgb_counter = 1;
                        (color & 0xFF) as u8
                    },
                    1 => {
                        self.rgb_counter = 2;
                        ((color >> 8u32) & 0xFF) as u8
                    },
                    2 => {
                        self.rgb_counter = 0;
                        self.inc_address();
                        ((color >> 16u32) & 0xFF) as u8
                    },
                    _ => 0,
                }
            },
            CMAP_REG_COMMAND => self.command,
            CMAP_REG_STATUS => {
                // SB0/SB1: load position; FIFO always empty (SB2 low), not
                // half full (SB3 high), not full (SB4 high)
                let c = self.rgb_counter;
                let status: u8 = (c & 3) | (1 << 3u8) | (1 << 4u8);
                assert(status == (c % 4) + 0x18) by (bit_vector)
                    requires
                        status == (c & 3) | (1u8 << 3u8) | (1u8 << 4u8),
                ;
                status
            },
            CMAP_REG_COLOR_BUF => {
                match self.rgb_counter {
                    0 => {
                        self.rgb_counter = 1;
                        self.red_temp
                    },
                    1 => self.green_temp,
                    _ => 0,
                }
            },
            CMAP_REG_REVISION => self.revision,
            CMAP_REG_READ_INIT => 0,
            _ => 0,
        }
    }

    /// Writes a byte to register `crs` (see `write_crs_spec`).
    pub fn write_crs(&mut self, crs: u8, val: u8)
        ensures
            *final(self) == write_crs_spec(*old(self), crs, val),
    {
        self.dirty = true;
        match crs {
            CMAP_REG_ADDR_LO => {
                self.addr_lo = val;
                self.rgb_counter = 0;
            },
            CMAP_REG_ADDR_HI => {
                self.addr_hi = val;
                self.rgb_counter = 0;
            },
            CMAP_REG_PALETTE => {
                match self.rgb_counter {
                    0 => {
                        self.red_temp = val;
                        self.rgb_counter = 1;
                    },
                    1 => {
                        self.green_temp = val;
                        self.rgb_counter = 2;
                    },
                    2 => {
                        let addr = self.get_address();
                        let (b, g, r) = (val as u32, self.green_temp as u32, self.red_temp as u32);
                        let color = (b << 16u32) | (g << 8u32) | r;
                        assert(color == b * 0x1_0000 + g * 0x100 + r) by (bit_vector)
                            requires
                                b < 256 && g < 256 && r < 256,
                                color == (b << 16u32) | (g << 8u32) | r,
                        ;
                        let ghost before = *self;
                        if addr < 8192 {
                            self.palette[addr] = color;
                            assert(self.palette =~= spec_array_update(
                                before.palette,
                                addr as int,
                                color,
                            ));
                        }
                        self.rgb_counter = 0;
                        self.inc_address();
                    },
                    _ => {},
                }
            },
            CMAP_REG_COMMAND => self.command = val,
            CMAP_REG_READ_INIT => {
                self.rgb_counter = 0;
            },
            _ => {},
        }
    }

    /// Whether palette entries `16 * row .. 16 * row + 16` are all zero (a
    /// row of the status dump).
    pub fn palette_row_is_zero(&self, row: usize) -> (b: bool)
        requires
            row < 512,
        ensures
            b == forall|i: int| 16 * row <= i < 16 * row + 16 ==> #[trigger] self.palette[i] == 0,
    {
        let mut k: usize = 0;
        while k < 16
            invariant
                row < 512,
                k <= 16,
                forall|i: int| 16 * row <= i < 16 * row + k ==> #[trigger] self.palette[i] == 0,
            decreases 16 - k,
        {
            if self.palette[16 * row + k] != 0 {
                return false;
            }
            k = k + 1;
        }
        true
    }
}

/// Loading entry `a` (below 8192) with R, G, B through the address and
/// palette registers stores `0x00BBGGRR` there and steps the address; reading
/// it back from `a` gives R, G, B.
pub proof fn lemma_palette_round_trip(s: Cmap, a: int, r: u8, g: u8, b: u8)
    requires
        0 <= a < 8192,
    ensures
        ({
            let w0 = write_crs_spec(s, CMAP_REG_ADDR_LO, (a % 256) as u8);
            let w1 = write_crs_spec(w0, CMAP_REG_ADDR_HI, (a / 256) as u8);
            let w2 = write_crs_spec(w1, CMAP_REG_PALETTE, r);
            let w3 = write_crs_spec(w2, CMAP_REG_PALETTE, g);
            let w4 = write_crs_spec(w3, CMAP_REG_PALETTE, b);
            let q0 = write_crs_spec(w4, CMAP_REG_ADDR_LO, (a % 256) as u8);
            let q1 = write_crs_spec(q0, CMAP_REG_ADDR_HI, (a / 256) as u8);
            let (v1, q2) = read_crs_spec(q1, CMAP_REG_PALETTE);
            let (v2, q3) = read_crs_spec(q2, CMAP_REG_PALETTE);
            let (v3, q4) = read_crs_spec(q3, CMAP_REG_PALETTE);
            &&& w4.palette[a] == pack_color(r, g, b)
            &&& address(w4) == (a + 1) % 8192
            &&& v1 == r && v2 == g && v3 == b
            &&& address(q4) == (a + 1) % 8192
        }),
{
    let w0 = write_crs_spec(s, CMAP_REG_ADDR_LO, (a % 256) as u8);
    let w1 = write_crs_spec(w0, CMAP_REG_ADDR_HI, (a / 256) as u8);
    assert(address(w1) == a);
    let c = pack_color(r, g, b);
    let cu = c as u32;
    let (ru, gu, bu) = (r as u32, g as u32, b as u32);
    assert(cu % 0x100 == ru && (cu / 0x100) % 0x100 == gu && (cu / 0x1_0000) % 0x100 == bu) by (nonlinear_arith)
        requires
            cu == bu * 0x1_0000 + gu * 0x100 + ru,
            ru < 256 && gu < 256 && bu < 256,
    ;
}

} // verus!

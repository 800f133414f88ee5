//! XMAP9 cross-map: display mode table (32 entries of 24 bits) and the
//! cursor / popup color map selects.
use vstd::prelude::*;
use vstd::array::spec_array_update;

pub mod status;

verus! {

broadcast use vstd::array::group_array_axioms;

pub const XMAP9_REG_CONFIG: u8 = 0x00;
pub const XMAP9_REG_REVISION: u8 = 0x01;
pub const XMAP9_REG_FIFO_AVAIL: u8 = 0x02;
pub const XMAP9_REG_CURSOR_CMAP_MSB: u8 = 0x03;
pub const XMAP9_REG_POPUP_CMAP_MSB: u8 = 0x04;
pub const XMAP9_REG_MODE_TABLE_WRITE: u8 = 0x05;
pub const XMAP9_REG_MODE_TABLE_READ: u8 = 0x05;
pub const XMAP9_REG_MODE_ADDR: u8 = 0x07;

pub struct Xmap9 {
    pub config: u8,
    pub cursor_cmap_msb: u8,
    pub popup_cmap_msb: u8,
    /// Mode table read address: entry in bits 6:2, byte in bits 1:0.
    pub mode_addr: u8,
    /// Mode table entries (24 bits each).
    pub mode_table: [u32; 32],
    /// Free FIFO entries (3 bits).
    pub fifo_avail: u8,
    pub dirty: bool,
}

/// Byte `sel` (0 = bits 7:0, 1 = 15:8, 2 = 23:16) of a mode table entry;
/// 0 for the reserved selector 3.
pub open spec fn entry_byte(entry: u32, sel: int) -> u8 {
    if sel == 0 {
        (entry % 0x100) as u8
    } else if sel == 1 {
        ((entry / 0x100) % 0x100) as u8
    } else if sel == 2 {
        ((entry / 0x1_0000) % 0x100) as u8
    } else {
        0
    }
}

/// Value of a byte read from register `crs`.
pub open spec fn read_crs_spec(s: Xmap9, crs: u8) -> u8 {
    if crs == XMAP9_REG_CONFIG {
        s.config
    } else if crs == XMAP9_REG_REVISION {
        3
    } else if crs == XMAP9_REG_FIFO_AVAIL {
        s.fifo_avail
    } else if crs == XMAP9_REG_CURSOR_CMAP_MSB {
        s.cursor_cmap_msb
    } else if crs == XMAP9_REG_POPUP_CMAP_MSB {
        s.popup_cmap_msb
    } else if crs == XMAP9_REG_MODE_TABLE_READ {
        entry_byte(s.mode_table[((s.mode_addr / 4) % 32) as int], (s.mode_addr % 4) as int)
    } else if crs == XMAP9_REG_MODE_ADDR {
        s.mode_addr
    } else {
        0
    }
}

/// State after writing `val` to register `crs`: byte registers take the low
/// byte; a mode table write carries the entry number in bits 28:24 and the
/// 24-bit entry in bits 23:0.
pub open spec fn write_crs_spec(s0: Xmap9, crs: u8, val: u32) -> Xmap9 {
    let s = Xmap9 { dirty: true, ..s0 };
    if crs == XMAP9_REG_CONFIG {
        Xmap9 { config: (val % 256) as u8, ..s }
    } else if crs == XMAP9_REG_CURSOR_CMAP_MSB {
        Xmap9 { cursor_cmap_msb: (val % 256) as u8, ..s }
    } else if crs == XMAP9_REG_POPUP_CMAP_MSB {
        Xmap9 { popup_cmap_msb: (val % 256) as u8, ..s }
    } else if crs == XMAP9_REG_MODE_TABLE_WRITE {
        Xmap9 {
            mode_table: spec_array_update(
                s.mode_table,
                ((val / 0x100_0000) % 32) as int,
                (val % 0x100_0000) as u32,
            ),
            ..s
        }
    } else if crs == XMAP9_REG_MODE_ADDR {
        Xmap9 { mode_addr: (val % 256) as u8, ..s }
    } else {
        s
    }
}

/// Fields of a mode table entry.
#[derive(Debug, Clone, Copy, PartialEq, Eq, Structural)]
pub struct ModeEntry {
    /// bit 0
    pub buf: u32,
    /// bit 1
    pub ovl: u32,
    /// bits 7:3
    pub msb: u32,
    /// bits 9:8: 0 CI, 1 RGB0, 2 RGB1, 3 RGB2
    pub pix_mode: u32,
    /// bits 11:10: 0 4bpp, 1 8bpp, 2 12bpp, 3 24bpp
    pub pix_size: u32,
    /// bits 18:16
    pub aux_pix: u32,
    /// bits 23:19
    pub aux_msb: u32,
    /// Color map base of a color-index mode: the MSB field times 256 (only
    /// bit 4 of it for 12 bpp); 0 for RGB modes.
    pub cmap_base: u32,
    /// Auxiliary color map base: the auxiliary MSB field times 256.
    pub aux_base: u32,
}


impl Xmap9 {
    pub fn new() -> (s: Self)
        ensures
            s.config == 0 && s.cursor_cmap_msb == 0 && s.popup_cmap_msb == 0 && s.mode_addr == 0,
            forall|i: int| 0 <= i < 32 ==> s.mode_table[i] == 0,
            s.fifo_avail == 2,
            s.dirty,
    {
        Self {
            config: 0,
            cursor_cmap_msb: 0,
            popup_cmap_msb: 0,
            mode_addr: 0,
            mode_table: [0u32; 32],
            fifo_avail: 2,
            dirty: true,
        }
    }

    /// Reads register `crs` (see `read_crs_spec`); the revision reads 3.
    pub fn read_crs(&mut self, crs: u8) -> (v: u8)
        ensures
            v == read_crs_spec(*old(self), crs),
            *final(self) == *old(self),
    {
        match crs {
            XMAP9_REG_CONFIG => self.config,
            XMAP9_REG_REVISION => 3,
            XMAP9_REG_FIFO_AVAIL => self.fifo_avail,
            XMAP9_REG_CURSOR_CMAP_MSB => self.cursor_cmap_msb,
            XMAP9_REG_POPUP_CMAP_MSB => self.popup_cmap_msb,
            XMAP9_REG_MODE_TABLE_READ => {
                let m = self.mode_addr;
                let entry_idx = (m >> 2u8) & 0x1F;
                let byte_sel = m & 0x3;
                assert(entry_idx == (m / 4) % 32 && byte_sel == m % 4) by (bit_vector)
                    requires
                        entry_idx == (m >> 2u8) & 0x1F,
                        byte_sel == m & 0x3,
                ;
                let entry = self.mode_table[entry_idx as usize];
                assert(entry & 0xFF == entry % 0x100 && (entry >> 8u32) & 0xFF == (entry / 0x100)
                    % 0x100 && (entry >> 16u32) & 0xFF == (entry / 0x1_0000) % 0x100) by (bit_vector);
                match byte_sel {
                    0 => (entry & 0xFF) as u8,
                    1 => ((entry >> 8u32) & 0xFF) as u8,
                    2 => ((entry >> 16u32) & 0xFF) as u8,
                    _ => 0,
                }
            },
            XMAP9_REG_MODE_ADDR => self.mode_addr,
            _ => 0,
        }
    }

    /// Writes register `crs` (see `write_crs_spec`).
    pub fn write_crs(&mut self, crs: u8, val: u32)
        ensures
            *final(self) == write_crs_spec(*old(self), crs, val),
    {
        self.dirty = true;
        assert(val as u8 == val % 256) by (bit_vector);
        match crs {
            XMAP9_REG_CONFIG => self.config = val as u8,
            XMAP9_REG_CURSOR_CMAP_MSB => self.cursor_cmap_msb = val as u8,
            XMAP9_REG_POPUP_CMAP_MSB => self.popup_cmap_msb = val as u8,
            XMAP9_REG_MODE_TABLE_WRITE => {
                let addr = (val >> 24u32) & 0x1F;
                let data = val & 0xFFFFFF;
                assert(addr == (val / 0x100_0000) % 32 && data == val % 0x100_0000) by (bit_vector)
                    requires
                        addr == (val >> 24u32) & 0x1F,
                        data == val & 0xFFFFFF,
                ;
                let ghost before = self.mode_table;
                self.mode_table[addr as usize] = data;
                assert(self.mode_table =~= spec_array_update(before, addr as int, data));
            },
            XMAP9_REG_MODE_ADDR => self.mode_addr = val as u8,
            _ => {},
        }
    }

    /// Splits a mode table entry into its fields.
    pub fn decode_mode_entry(raw: u32) -> (m: ModeEntry)
        ensures
            m.buf == raw % 2,
            m.ovl == (raw / 2) % 2,
            m.msb == (raw / 8) % 32,
            m.pix_mode == (raw / 0x100) % 4,
            m.pix_size == (raw / 0x400) % 4,
            m.aux_pix == (raw / 0x1_0000) % 8,
            m.aux_msb == (raw / 0x8_0000) % 32,
            m.cmap_base == (if m.pix_mode == 0 {
                if m.pix_size == 2 {
                    (m.msb / 16) * 16 * 256
                } else {
                    m.msb * 256
                }
            } else {
                0
            }),
            m.aux_base == m.aux_msb * 256,
    {
        let buf = raw & 0x1;
        let ovl = (raw >> 1u32) & 0x1;
        let msb = (raw >> 3u32) & 0x1F;
        let pix_mode = (raw >> 8u32) & 0x3;
        let pix_size = (raw >> 10u32) & 0x3;
        let aux_pix = (raw >> 16u32) & 0x7;
        let aux_msb = (raw >> 19u32) & 0x1F;
        assert(buf == raw % 2 && ovl == (raw / 2) % 2 && msb == (raw / 8) % 32 && pix_mode == (raw
            / 0x100) % 4 && pix_size == (raw / 0x400) % 4 && aux_pix == (raw / 0x1_0000) % 8
            && aux_msb == (raw / 0x8_0000) % 32) by (bit_vector)
            requires
                buf == raw & 0x1,
                ovl == (raw >> 1u32) & 0x1,
                msb == (raw >> 3u32) & 0x1F,
                pix_mode == (raw >> 8u32) & 0x3,
                pix_size == (raw >> 10u32) & 0x3,
                aux_pix == (raw >> 16u32) & 0x7,
                aux_msb == (raw >> 19u32) & 0x1F,
        ;
        let cmap_base = if pix_mode == 0 {
            if pix_size == 2 {
                (msb & 0x10) << 8u32
            } else {
                msb << 8u32
            }
        } else {
            0
        };
        assert(((msb & 0x10) << 8u32) == (msb / 16) * 16 * 256 && (msb << 8u32) == msb * 256)
            by (bit_vector)
            requires
                msb < 32,
        ;
        assert((aux_msb << 8u32) == aux_msb * 256) by (bit_vector)
            requires
                aux_msb < 32,
        ;
        ModeEntry {
            buf,
            ovl,
            msb,
            pix_mode,
            pix_size,
            aux_pix,
            aux_msb,
            cmap_base,
            aux_base: aux_msb << 8u32,
        }
    }
}

/// A mode table entry written through the mode table register reads back
/// byte by byte once the read address selects it.
pub proof fn lemma_mode_table_round_trip(s: Xmap9, entry: u8, data: u32, sel: u8)
    requires
        entry < 32,
        data < 0x100_0000,
        sel < 3,
    ensures
        ({
            let w = write_crs_spec(s, XMAP9_REG_MODE_TABLE_WRITE, (entry as u32 * 0x100_0000 + data) as u32);
            let a = write_crs_spec(w, XMAP9_REG_MODE_ADDR, (entry * 4 + sel) as u32);
            read_crs_spec(a, XMAP9_REG_MODE_TABLE_READ) == entry_byte(data, sel as int)
        }),
{
    let v = (entry as u32 * 0x100_0000 + data) as u32;
    assert((v / 0x100_0000) % 32 == entry as u32 && v % 0x100_0000 == data) by (nonlinear_arith)
        requires
            v == entry as u32 * 0x100_0000 + data,
            data < 0x100_0000,
            entry < 32,
    ;
}

} // verus!

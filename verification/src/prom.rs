//! Boot PROM: 1 MB of read-only memory at physical 0x1FC00000, stored as
//! big-endian 32-bit words.
use vstd::prelude::*;
use std::sync::atomic::{AtomicBool, AtomicU64, Ordering};
use std::sync::Arc;
use crate::traits::{BusDevice, BusStatus, Device};

verus! {

pub const PROM_BASE: u32 = 0x1FC00000;
pub const PROM_SIZE: u32 = 0x100000;

struct PromInner {
    data: Vec<u32>,
    clock: AtomicU64,
    running: AtomicBool,
}

/// Bus view of the PROM.
pub struct PromPort {
    inner: Arc<PromInner>,
}

/// The PROM device.
pub struct Prom {
    inner: Arc<PromInner>,
}

/// Byte `i` of `b`, or 0 past its end.
pub open spec fn byte_or_zero(b: Seq<u8>, i: int) -> u8 {
    if 0 <= i < b.len() {
        b[i]
    } else {
        0
    }
}

/// Word `i` of `b` read big-endian, the last word padded with zero bytes.
pub open spec fn be_word(b: Seq<u8>, i: int) -> u32 {
    (byte_or_zero(b, 4 * i) as int * 0x100_0000 + byte_or_zero(b, 4 * i + 1) as int * 0x1_0000
        + byte_or_zero(b, 4 * i + 2) as int * 0x100 + byte_or_zero(b, 4 * i + 3) as int) as u32
}

/// The ROM words an image of `b` holds.
pub open spec fn pack_words(b: Seq<u8>) -> Seq<u32> {
    Seq::new(((b.len() + 3) / 4) as nat, |i: int| be_word(b, i))
}

/// Whether `addr` lies in the PROM's 1 MB window.
pub open spec fn in_window(addr: u32) -> bool {
    PROM_BASE <= addr < PROM_BASE + PROM_SIZE
}

/// The ROM word at `addr`: all ones outside the window or past the image.
pub open spec fn word_at(data: Seq<u32>, addr: u32) -> u32 {
    if in_window(addr) && ((addr - PROM_BASE) / 4) < data.len() {
        data[(addr - PROM_BASE) / 4]
    } else {
        0xFFFF_FFFF
    }
}

/// Byte `k` (0 = most significant) of word `w`.
pub open spec fn word_byte(w: u32, k: int) -> u8 {
    if k == 0 {
        (w / 0x100_0000) as u8
    } else if k == 1 {
        ((w / 0x1_0000) % 0x100) as u8
    } else if k == 2 {
        ((w / 0x100) % 0x100) as u8
    } else {
        (w % 0x100) as u8
    }
}

/// The halfword of word `w` starting at byte `k` (0 to 2, big-endian).
pub open spec fn word_half(w: u32, k: int) -> u16 {
    if k == 0 {
        (w / 0x1_0000) as u16
    } else if k == 1 {
        ((w / 0x100) % 0x1_0000) as u16
    } else {
        (w % 0x1_0000) as u16
    }
}

/// The byte at `addr` (big-endian within the word): all ones outside the
/// window or past the image.
pub open spec fn byte_at(data: Seq<u32>, addr: u32) -> u8 {
    if in_window(addr) && ((addr - PROM_BASE) / 4) < data.len() {
        word_byte(data[(addr - PROM_BASE) / 4], (addr - PROM_BASE) % 4)
    } else {
        0xFF
    }
}

/// The halfword at `addr` (big-endian within the word): all ones outside
/// the window or past the image.
pub open spec fn half_at(data: Seq<u32>, addr: u32) -> u16 {
    if in_window(addr) && ((addr - PROM_BASE) / 4) < data.len() {
        word_half(data[(addr - PROM_BASE) / 4], (addr - PROM_BASE) % 4)
    } else {
        0xFFFF
    }
}

fn tick(inner: &PromInner) {
    inner.clock.fetch_add(1, Ordering::Relaxed);
}

impl Prom {
    /// The ROM words.
    pub closed spec fn data(&self) -> Seq<u32> {
        self.inner.data@
    }

    /// A PROM holding `bytes` packed into big-endian words.
    pub fn from_bytes(bytes: &[u8]) -> (p: Self)
        ensures
            p.data() == pack_words(bytes@),
    {
        let n = bytes.len();
        let nwords = n / 4 + if n % 4 != 0 {
            1
        } else {
            0
        };
        let mut data: Vec<u32> = Vec::new();
        let mut i: usize = 0;
        while i < nwords
            invariant
                n == bytes@.len(),
                nwords == (n + 3) / 4,
                i <= nwords,
                data@ =~= Seq::new(i as nat, |k: int| be_word(bytes@, k)),
            decreases nwords - i,
        {
            let mut buf: [u8; 4] = [0u8; 4];
            let mut j: usize = 0;
            while j < 4
                invariant
                    n == bytes@.len(),
                    i < nwords == (n + 3) / 4,
                    j <= 4,
                    forall|k: int| 0 <= k < j ==> buf[k] == byte_or_zero(bytes@, 4 * i + k),
                    forall|k: int| j <= k < 4 ==> buf[k] == 0,
                decreases 4 - j,
            {
                if 4 * i + j < n {
                    buf[j] = bytes[4 * i + j];
                }
                j = j + 1;
            }
            let (b0, b1, b2, b3) = (buf[0] as u32, buf[1] as u32, buf[2] as u32, buf[3] as u32);
            let w = (b0 << 24u32) | (b1 << 16u32) | (b2 << 8u32) | b3;
            assert(w == b0 * 0x100_0000 + b1 * 0x1_0000 + b2 * 0x100 + b3) by (bit_vector)
                requires
                    b0 < 256 && b1 < 256 && b2 < 256 && b3 < 256,
                    w == (b0 << 24u32) | (b1 << 16u32) | (b2 << 8u32) | b3,
            ;
            data.push(w);
            i = i + 1;
        }
        let p = Prom {
            inner: Arc::new(PromInner { data, clock: AtomicU64::new(0), running: AtomicBool::new(false) }),
        };
        assert(p.data() =~= pack_words(bytes@));
        p
    }

    /// A bus port sharing this PROM's memory.
    pub fn get_port(&self) -> (port: PromPort)
        ensures
            port.data() == self.data(),
    {
        PromPort { inner: self.inner.clone() }
    }
}

impl Device for Prom {
    fn step(&self, cycles: u64) {
        tick(&self.inner);
    }

    fn stop(&self) {
        self.inner.running.store(false, Ordering::SeqCst);
    }

    fn start(&self) {
        self.inner.running.store(true, Ordering::SeqCst);
    }

    fn is_running(&self) -> bool {
        self.inner.running.load(Ordering::SeqCst)
    }

    fn get_clock(&self) -> u64 {
        self.inner.clock.load(Ordering::Relaxed)
    }
}

impl PromPort {
    /// The ROM words.
    pub closed spec fn data(&self) -> Seq<u32> {
        self.inner.data@
    }
}

impl BusDevice for PromPort {
    /// A halfword read may not start at the last byte of a ROM word that the
    /// image holds.
    open spec fn read16_allowed(&self, addr: u32) -> bool {
        !(in_window(addr) && ((addr - PROM_BASE) / 4) < self.data().len() && (addr - PROM_BASE)
            % 4 == 3)
    }

    /// A doubleword read needs an address for its second word.
    open spec fn read64_allowed(&self, addr: u32) -> bool {
        addr <= 0xFFFF_FFFB
    }

    fn read8(&self, addr: u32) -> (r: BusStatus)
        ensures
            r == BusStatus::Data8(byte_at(self.data(), addr)),
    {
        tick(&self.inner);
        if addr < PROM_BASE || addr >= PROM_BASE + PROM_SIZE {
            return BusStatus::Data8(0xFF);
        }
        let offset = (addr - PROM_BASE) as usize;
        let word_index = offset / 4;
        let byte_offset = offset % 4;
        if word_index < self.inner.data.len() {
            let word = self.inner.data[word_index];
            let sh = (24 - byte_offset * 8) as u32;
            let byte = ((word >> sh) & 0xFF) as u8;
            assert(((word >> 24u32) & 0xFF) as u8 == word_byte(word, 0) && ((word >> 16u32) & 0xFF)
                as u8 == word_byte(word, 1) && ((word >> 8u32) & 0xFF) as u8 == word_byte(word, 2)
                && ((word >> 0u32) & 0xFF) as u8 == word_byte(word, 3)) by (bit_vector);
            BusStatus::Data8(byte)
        } else {
            BusStatus::Data8(0xFF)
        }
    }

    fn write8(&self, addr: u32, val: u8) -> (r: BusStatus)
        ensures
            r == BusStatus::Ready,
    {
        tick(&self.inner);
        BusStatus::Ready
    }

    fn read16(&self, addr: u32) -> (r: BusStatus)
        ensures
            r == BusStatus::Data16(half_at(self.data(), addr)),
    {
        tick(&self.inner);
        if addr < PROM_BASE || addr >= PROM_BASE + PROM_SIZE {
            return BusStatus::Data16(0xFFFF);
        }
        let offset = (addr - PROM_BASE) as usize;
        let word_index = offset / 4;
        let byte_offset = offset % 4;
        if word_index < self.inner.data.len() {
            let word = self.inner.data[word_index];
            let sh = (16 - byte_offset * 8) as u32;
            let half = ((word >> sh) & 0xFFFF) as u16;
            assert(((word >> 16u32) & 0xFFFF) as u16 == word_half(word, 0) && ((word >> 8u32)
                & 0xFFFF) as u16 == word_half(word, 1) && ((word >> 0u32) & 0xFFFF) as u16
                == word_half(word, 2)) by (bit_vector);
            BusStatus::Data16(half)
        } else {
            BusStatus::Data16(0xFFFF)
        }
    }

    fn write16(&self, addr: u32, val: u16) -> (r: BusStatus)
        ensures
            r == BusStatus::Ready,
    {
        tick(&self.inner);
        BusStatus::Ready
    }

    fn read32(&self, addr: u32) -> (r: BusStatus)
        ensures
            r == BusStatus::Data(word_at(self.data(), addr)),
    {
        tick(&self.inner);
        if addr < PROM_BASE || addr >= PROM_BASE + PROM_SIZE {
            return BusStatus::Data(0xFFFFFFFF);
        }
        let offset = (addr - PROM_BASE) as usize;
        let index = offset / 4;
        if index < self.inner.data.len() {
            BusStatus::Data(self.inner.data[index])
        } else {
            BusStatus::Data(0xFFFFFFFF)
        }
    }

    fn write32(&self, addr: u32, val: u32) -> (r: BusStatus)
        ensures
            r == BusStatus::Ready,
    {
        tick(&self.inner);
        BusStatus::Ready
    }

    fn read64(&self, addr: u32) -> (r: BusStatus)
        ensures
            r == BusStatus::Data64(
                (word_at(self.data(), addr) as int * 0x1_0000_0000 + word_at(
                    self.data(),
                    (addr + 4) as u32,
                ) as int) as u64,
            ),
    {
        tick(&self.inner);
        let high = match self.read32(addr) {
            BusStatus::Data(val) => val as u64,
            _ => 0xFFFFFFFF,
        };
        let low = match self.read32(addr + 4) {
            BusStatus::Data(val) => val as u64,
            _ => 0xFFFFFFFF,
        };
        assert((high << 32u64) | low == high * 0x1_0000_0000 + low) by (bit_vector)
            requires
                high < 0x1_0000_0000,
                low < 0x1_0000_0000,
        ;
        BusStatus::Data64((high << 32u64) | low)
    }

    fn write64(&self, addr: u32, val: u64) -> (r: BusStatus)
        ensures
            r == BusStatus::Ready,
    {
        tick(&self.inner);
        BusStatus::Ready
    }
}

} // verus!

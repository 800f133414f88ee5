//! Interfaces shared by the emulated devices.
use vstd::prelude::*;
use crate::snapshot::TomlValue;

verus! {

/// Outcome of a bus access.
#[derive(Debug, Clone, Copy, PartialEq, Eq, Structural)]
pub enum BusStatus {
    Ready,
    Busy,
    Error,
    Data(u32),
    Data64(u64),
    Data16(u16),
    Data8(u8),
    /// R4000 virtual coherency exception (VCEI/VCED).
    VirtualCoherencyException,
}

/// A line-level signal delivered to a device.
#[derive(Debug, Clone, Copy, PartialEq, Eq, Structural)]
pub enum Signal {
    Reset(bool),
    Interrupt(u32, bool),
}

/// Unified bus device interface supporting 8/16/32/64-bit accesses.
///
/// Devices implement only the widths they natively support; the others
/// answer `BusStatus::Error`.
pub trait BusDevice: Send + Sync {
    /// Whether this device answers a halfword read at `addr` (a read the
    /// device cannot take is left to its callers to avoid).
    open spec fn read16_allowed(&self, addr: u32) -> bool {
        true
    }

    /// Whether this device answers a doubleword read at `addr`.
    open spec fn read64_allowed(&self, addr: u32) -> bool {
        true
    }

    fn read8(&self, addr: u32) -> (r: BusStatus)
        default_ensures
            r == BusStatus::Error,
    {
        BusStatus::Error
    }

    fn write8(&self, addr: u32, val: u8) -> (r: BusStatus)
        default_ensures
            r == BusStatus::Error,
    {
        BusStatus::Error
    }

    /// A halfword access never straddles a word: its address is not the
    /// last byte of one.
    fn read16(&self, addr: u32) -> (r: BusStatus)
        requires
            self.read16_allowed(addr),
        default_ensures
            r == BusStatus::Error,
    {
        BusStatus::Error
    }

    fn write16(&self, addr: u32, val: u16) -> (r: BusStatus)
        default_ensures
            r == BusStatus::Error,
    {
        BusStatus::Error
    }

    fn read32(&self, addr: u32) -> (r: BusStatus)
        default_ensures
            r == BusStatus::Error,
    {
        BusStatus::Error
    }

    fn write32(&self, addr: u32, val: u32) -> (r: BusStatus)
        default_ensures
            r == BusStatus::Error,
    {
        BusStatus::Error
    }

    /// The two words of a doubleword access both have addresses.
    fn read64(&self, addr: u32) -> (r: BusStatus)
        requires
            self.read64_allowed(addr),
        default_ensures
            r == BusStatus::Error,
    {
        BusStatus::Error
    }

    fn write64(&self, addr: u32, val: u64) -> (r: BusStatus)
        default_ensures
            r == BusStatus::Error,
    {
        BusStatus::Error
    }
}

/// A byte FIFO a device exposes to another.
pub trait FifoDevice: Send + Sync {
    fn read_fifo(&self) -> u8;

    fn write_fifo(&self, val: u8, notify: bool);
}

/// Status bits returned by DMA read/write/advance operations.
#[derive(Clone, Copy, Default, PartialEq, Eq, Structural)]
pub struct DmaStatus(pub u32);

/// No flags: normal transfer.
pub const DMA_OK: u32 = 0x00;
/// End-of-packet descriptor boundary reached.
pub const DMA_EOP: u32 = 0x01;
/// End of chain: descriptor chain exhausted, channel deactivated.
pub const DMA_EOX: u32 = 0x02;
/// DMA interrupt raised (interrupt-on-end was set).
pub const DMA_IRQ: u32 = 0x04;
/// Transfer refused: channel not active.
pub const DMA_NOT_ACTIVE: u32 = 0x08;
/// Write refused: the host owns the descriptor.
pub const DMA_ROWN: u32 = 0x10;
/// Byte count exhausted mid-transfer.
pub const DMA_OVERFLOW: u32 = 0x20;

impl DmaStatus {
    pub const OK: u32 = 0x00;
    pub const EOP: u32 = 0x01;
    pub const EOX: u32 = 0x02;
    pub const IRQ: u32 = 0x04;
    pub const NOT_ACTIVE: u32 = 0x08;
    pub const ROWN: u32 = 0x10;
    pub const OVERFLOW: u32 = 0x20;

    pub fn ok() -> (s: Self)
        ensures
            s.0 == DMA_OK,
    {
        Self(DMA_OK)
    }

    pub fn is_ok(self) -> (b: bool)
        ensures
            b == (self.0 == DMA_OK),
    {
        self.0 == DMA_OK
    }

    pub fn eop(self) -> (b: bool)
        ensures
            b == (self.0 & DMA_EOP != 0),
    {
        self.0 & DMA_EOP != 0
    }

    pub fn eox(self) -> (b: bool)
        ensures
            b == (self.0 & DMA_EOX != 0),
    {
        self.0 & DMA_EOX != 0
    }

    pub fn irq(self) -> (b: bool)
        ensures
            b == (self.0 & DMA_IRQ != 0),
    {
        self.0 & DMA_IRQ != 0
    }

    /// Whether the transfer was refused (inactive channel, host-owned
    /// descriptor or overflow).
    pub fn refused(self) -> (b: bool)
        ensures
            b == (self.0 & (DMA_NOT_ACTIVE | DMA_ROWN | DMA_OVERFLOW) != 0),
    {
        self.0 & (DMA_NOT_ACTIVE | DMA_ROWN | DMA_OVERFLOW) != 0
    }
}

impl std::ops::BitOr for DmaStatus {
    type Output = Self;

    fn bitor(self, rhs: Self) -> (s: Self)
        ensures
            s.0 == self.0 | rhs.0,
    {
        Self(self.0 | rhs.0)
    }
}

impl vstd::std_specs::ops::BitOrSpecImpl for DmaStatus {
    open spec fn obeys_bitor_spec() -> bool {
        true
    }

    open spec fn bitor_req(self, rhs: Self) -> bool {
        true
    }

    open spec fn bitor_spec(self, rhs: Self) -> Self {
        DmaStatus(self.0 | rhs.0)
    }
}

impl std::ops::BitOrAssign for DmaStatus {
    fn bitor_assign(&mut self, rhs: Self)
        ensures
            final(self).0 == old(self).0 | rhs.0,
    {
        self.0 = self.0 | rhs.0;
    }
}

/// Combined flags are refused exactly when one of the parts is.
pub proof fn lemma_refused_union(a: DmaStatus, b: DmaStatus)
    ensures
        ((a.0 | b.0) & (DMA_NOT_ACTIVE | DMA_ROWN | DMA_OVERFLOW) != 0) == ((a.0 & (DMA_NOT_ACTIVE
            | DMA_ROWN | DMA_OVERFLOW) != 0) || (b.0 & (DMA_NOT_ACTIVE | DMA_ROWN | DMA_OVERFLOW)
            != 0)),
{
    let (x, y) = (a.0, b.0);
    assert(DMA_NOT_ACTIVE | DMA_ROWN | DMA_OVERFLOW == 0x38u32) by (bit_vector);
    assert(((x | y) & 0x38u32 != 0) == ((x & 0x38u32 != 0) || (y & 0x38u32 != 0))) by (bit_vector);
}

/// A DMA channel as seen by the device that drives it.
pub trait DmaClient: Send + Sync {
    /// Returns (value, status, writeback); the writeback is an optional
    /// (addr, val16) memory write the caller performs under its own lock.
    fn read(&self) -> Option<(u32, DmaStatus, Option<(u32, u16)>)>;

    /// Writes a value to the DMA channel; returns (status, writeback).
    fn write(&self, val: u32, eop: bool) -> (DmaStatus, Option<(u32, u16)>);
}

/// Asynchronous system-level events sent from devices to the machine loop.
#[derive(Debug, Clone, Copy, PartialEq, Eq, Structural)]
pub enum MachineEvent {
    /// Full system reset.
    HardReset,
    /// Soft power-off.
    PowerOff,
}

/// Restore hardware to its power-on state; called with all device threads
/// stopped.
pub trait Resettable {
    fn power_on(&self);
}

/// Device register state saved to and restored from a TOML value; bulk
/// memory is kept separately as raw bytes.
pub trait Saveable {
    fn save_state(&self) -> TomlValue;

    fn load_state(&self, v: &TomlValue) -> Result<(), String>;
}

/// A device of the machine: clocked, startable, and with monitor commands.
pub trait Device: Send + Sync {
    fn step(&self, cycles: u64);

    fn stop(&self);

    fn start(&self);

    fn is_running(&self) -> bool;

    fn get_clock(&self) -> u64;

    fn signal(&self, signal: Signal) {
    }

    /// (command, help text) pairs this device answers.
    fn register_commands(&self) -> (r: Vec<(String, String)>)
        default_ensures
            r@.len() == 0,
    {
        Vec::new()
    }

    /// Runs a monitor command; gives the text it prints, or an error.
    fn execute_command(&self, cmd: &str, args: &[&str]) -> (r: Result<String, String>)
        default_ensures
            r is Err && r->Err_0@ == "Command not found"@,
    {
        Err(String::from_str("Command not found"))
    }
}

} // verus!

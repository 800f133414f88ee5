//! Verified devices and debugger pieces of an SGI Indy emulator.
pub mod text;
pub mod traits;
pub mod mips;
pub mod exp;
pub mod hptimer;
pub mod bt445;
pub mod cmap;
pub mod xmap9;
pub mod prom;
pub mod jit;
pub mod platform;
pub mod timer;
pub mod snapshot;
pub mod monitor;
pub mod locks;

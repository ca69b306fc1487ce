//! Console device: a memory-mapped write-capture byte.
//!
//! The device claims a one-page region and watches the first byte of
//! it; every guest write there becomes one character on the host's
//! standard output.  Deciding which accesses produce a character, and
//! which character, is done here; the actual emission is the
//! harness's.

use vstd::prelude::*;

verus! {

/// Base of the page the console maps.
pub const CONSOLE_REGION_BASE: u64 = 0xFF000;

/// Size of the mapped console page.
pub const CONSOLE_REGION_SIZE: u64 = 4096;

/// First address whose accesses trigger output.
pub const CONSOLE_TRIGGER_BASE: u64 = 0xFF000;

/// One past the last triggering address: a single write-trigger byte.
pub const CONSOLE_TRIGGER_END: u64 = 0xFF001;

/// The console device.  Its only state lives in the engine (the mapped
/// region and the installed hook handle, both held by the harness);
/// the device itself is the decision logic.
pub struct ConsoleIO {
}

impl ConsoleIO {
    pub fn new() -> ConsoleIO {
        ConsoleIO {  }
    }

    /// The memory region this device claims: `(base, size)`.
    pub fn region(&self) -> (r: (u64, u64))
        ensures
            r.0 == CONSOLE_REGION_BASE,
            r.1 == CONSOLE_REGION_SIZE,
    {
        (CONSOLE_REGION_BASE, CONSOLE_REGION_SIZE)
    }

    /// What a guest access at `addr` carrying `value` produces: the
    /// low 8 bits as one output byte when the access hits the trigger
    /// byte, and nothing at all otherwise.
    pub fn handle_access(&self, addr: u64, value: u64) -> (r: Option<u8>)
        ensures
            r == if CONSOLE_TRIGGER_BASE <= addr < CONSOLE_TRIGGER_END {
                Some((value % 256) as u8)
            } else {
                None::<u8>
            },
    {
        if CONSOLE_TRIGGER_BASE <= addr && addr < CONSOLE_TRIGGER_END {
            Some((value % 256) as u8)
        } else {
            None
        }
    }

    /// The device's reported name.
    pub fn name(&self) -> (r: &'static str)
        ensures
            r@ == "ConsoleIO"@,
    {
        "ConsoleIO"
    }
}

} // verus!

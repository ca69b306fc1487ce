//! The device set and the trap dispatch rules.
//!
//! Each device claims a syscall-number range and/or a memory region.
//! The dispatcher reads the trap number and routes it to the owning
//! device; numbers nobody owns pass through silently.  Devices are a
//! closed set of variants, matched exhaustively — the running system
//! never identifies a device by its name string.

use vstd::prelude::*;
use crate::console::{ConsoleIO, CONSOLE_REGION_BASE, CONSOLE_REGION_SIZE};
use crate::dynmemory::DynamicMemoryAllocations;
use crate::filesystem::EmulatorDrive;

verus! {

/// The kinds of device the machine offers.
#[derive(Clone, Copy, PartialEq, Eq, Structural, Debug)]
pub enum DeviceKind {
    Drive,
    Heap,
    Gpu,
    Console,
}

/// Assigned syscall ranges, both ends inclusive.  The console claims
/// no syscalls: it is driven through its memory region.
pub const DRIVE_SYSCALL_LO: u32 = 0x00;

pub const DRIVE_SYSCALL_HI: u32 = 0x10;

pub const HEAP_SYSCALL_LO: u32 = 0x60;

pub const HEAP_SYSCALL_HI: u32 = 0x80;

pub const GPU_SYSCALL_LO: u32 = 0x160;

pub const GPU_SYSCALL_HI: u32 = 0x180;

/// Which device owns a syscall number.
pub open spec fn spec_owning_device(syscall: u32) -> Option<DeviceKind> {
    if DRIVE_SYSCALL_LO <= syscall <= DRIVE_SYSCALL_HI {
        Some(DeviceKind::Drive)
    } else if HEAP_SYSCALL_LO <= syscall <= HEAP_SYSCALL_HI {
        Some(DeviceKind::Heap)
    } else if GPU_SYSCALL_LO <= syscall <= GPU_SYSCALL_HI {
        Some(DeviceKind::Gpu)
    } else {
        None
    }
}

/// Routes a trap number to the device whose range holds it.
pub fn owning_device(syscall: u32) -> (r: Option<DeviceKind>)
    ensures
        r == spec_owning_device(syscall),
{
    if DRIVE_SYSCALL_LO <= syscall && syscall <= DRIVE_SYSCALL_HI {
        Some(DeviceKind::Drive)
    } else if HEAP_SYSCALL_LO <= syscall && syscall <= HEAP_SYSCALL_HI {
        Some(DeviceKind::Heap)
    } else if GPU_SYSCALL_LO <= syscall && syscall <= GPU_SYSCALL_HI {
        Some(DeviceKind::Gpu)
    } else {
        None
    }
}

/// Every allocation the heap hands out starts at or above the heap
/// origin.
pub proof fn lemma_records_above_origin(h: DynamicMemoryAllocations, i: int)
    requires
        h.wf(),
        0 <= i < h.records().len(),
    ensures
        h.records()[i].base >= h.heap_origin(),
    decreases i,
{
    if i > 0 {
        lemma_records_above_origin(h, i - 1);
    }
}

/// The console's fixed page and the heap's regions never overlap: the
/// heap origin sits above the console page whenever the loaded image
/// does (the origin is 4 MiB-aligned, so any nonzero origin is), and
/// every heap region starts at or above the origin.
pub proof fn lemma_console_heap_disjoint(h: DynamicMemoryAllocations, i: int)
    requires
        h.wf(),
        h.heap_origin() >= CONSOLE_REGION_BASE + CONSOLE_REGION_SIZE,
        0 <= i < h.records().len(),
    ensures
        h.records()[i].base >= CONSOLE_REGION_BASE + CONSOLE_REGION_SIZE,
{
    lemma_records_above_origin(h, i);
}

/// The machine's device set: a closed enumeration, dispatched by
/// exhaustive matching.  The GPU device is held apart by the run loop
/// (it is optional and generic in its backend).
pub enum Feature {
    Console(ConsoleIO),
    Drive(EmulatorDrive),
    Heap(DynamicMemoryAllocations),
}

impl Feature {
    /// The device's kind.
    pub fn kind(&self) -> (r: DeviceKind)
        ensures
            r == match self {
                Feature::Console(_) => DeviceKind::Console,
                Feature::Drive(_) => DeviceKind::Drive,
                Feature::Heap(_) => DeviceKind::Heap,
            },
    {
        match self {
            Feature::Console(_) => DeviceKind::Console,
            Feature::Drive(_) => DeviceKind::Drive,
            Feature::Heap(_) => DeviceKind::Heap,
        }
    }

    /// The device's reported name.
    pub fn name(&self) -> (r: &'static str)
        ensures
            self is Console ==> r@ == "ConsoleIO"@,
            self is Drive ==> r@ == "EmulatorDrive"@,
            self is Heap ==> r@ == "DynamicMemory"@,
    {
        match self {
            Feature::Console(c) => c.name(),
            Feature::Drive(d) => d.name(),
            Feature::Heap(_) => "DynamicMemory",
        }
    }
}

} // verus!

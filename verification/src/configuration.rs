//! Command-line options and the machine's device roster.

use vstd::prelude::*;
use crate::console::ConsoleIO;
use crate::dynmemory::{round_up_to, AllocationRecord, DynamicMemoryAllocations, HEAP_ORIGIN_ALIGN};
use crate::features::Feature;
use crate::filesystem::{Drive, EmulatorDrive};

verus! {

/// The program's options: the archive to boot from, and whether to
/// dump a disassembly when execution fails.
pub struct Arguments {
    pub iso: String,
    pub debug: bool,
}

/// Builds the device set, in its fixed order: console, drive, heap.
/// `mem_sz` is the loaded image's footprint, which fixes the heap
/// origin; `drive` is the already-built virtual filesystem.  The GPU
/// device is added separately by the run loop when a backend exists.
pub fn get_features(args: &Arguments, mem_sz: u64, drive: Drive) -> (v: Vec<Feature>)
    requires
        mem_sz <= 0xFFC0_0000,
    ensures
        v@.len() == 3,
        v@[0] is Console,
        (v@[1] matches Feature::Drive(d) && d.drive == drive),
        (v@[2] matches Feature::Heap(h) && h.wf() && h.records()
            == Seq::<AllocationRecord>::empty() && h.heap_origin() == round_up_to(
            mem_sz as int,
            HEAP_ORIGIN_ALIGN as int,
        )),
{
    let mut v: Vec<Feature> = Vec::new();
    v.push(Feature::Console(ConsoleIO::new()));
    v.push(Feature::Drive(EmulatorDrive::new(drive)));
    v.push(Feature::Heap(DynamicMemoryAllocations::new(mem_sz)));
    v
}

} // verus!

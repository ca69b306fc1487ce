//! Guest-visible dynamic memory: a monotonically growing bump allocator
//! exposed to the guest through the heap syscall range.

use vstd::prelude::*;
use vstd::arithmetic::power2::{lemma_pow2_pos, pow2};
use vstd::arithmetic::div_mod::{
    lemma_fundamental_div_mod, lemma_fundamental_div_mod_converse_div,
    lemma_mod_division_less_than_divisor, lemma_mod_multiples_basic,
};
use vstd::bits::{lemma_u32_shl_is_mul, lemma_u32_shr_is_div};

verus! {

/// Least multiple of `m` that is `>= v` (for `v >= 0`, `m > 0`).
pub open spec fn round_up_to(v: int, m: int) -> int
    recommends
        m > 0,
{
    ((v + m - 1) / m) * m
}

/// Rounds `value` up to the next multiple of `2^shift`.
///
/// This is the page-granularity helper every mapped region goes
/// through: requested sizes and candidate base addresses are always
/// rounded to a 4096-byte boundary before they reach the engine.
pub fn align(value: u32, shift: u32) -> (r: u32)
    requires
        shift < 32,
        value + pow2(shift as nat) - 1 <= u32::MAX,
    ensures
        r == round_up_to(value as int, pow2(shift as nat) as int),
        r >= value,
        r as int % (pow2(shift as nat) as int) == 0,
{
    proof {
        lemma_pow2_pos(shift as nat);
        lemma_u32_shr_is_div(value, shift);
    }
    let ghost m: int = pow2(shift as nat) as int;
    let ghost q: int = value as int / m;
    let b: u32 = value >> shift;
    proof {
        lemma_fundamental_div_mod(value as int, m);
        lemma_mod_division_less_than_divisor(value as int, m);
        assert(b == q);
        assert(q * m <= value < q * m + m) by (nonlinear_arith)
            requires
                m > 0,
                value as int == m * q + value as int % m,
                0 <= value as int % m < m,
        ;
        lemma_u32_shl_is_mul(b, shift);
    }
    if (b << shift) < value {
        proof {
            let rem = value as int % m;
            assert((q + 1) * m == q * m + m) by (nonlinear_arith);
            assert(value as int + m - 1 == (q + 1) * m + (rem - 1));
            lemma_fundamental_div_mod_converse_div(value as int + m - 1, m, q + 1, rem - 1);
            lemma_u32_shl_is_mul((b + 1) as u32, shift);
            lemma_mod_multiples_basic(q + 1, m);
        }
        (b + 1) << shift
    } else {
        proof {
            assert(value as int + m - 1 == q * m + (m - 1 + value as int % m));
            if value as int % m == 0 {
                lemma_fundamental_div_mod_converse_div(value as int + m - 1, m, q, m - 1);
            }
            lemma_mod_multiples_basic(q, m);
        }
        b << shift
    }
}

/// Heap allocation failure: the request or the frontier would run past
/// the end of the 32-bit guest address space.
#[derive(Clone, Copy, PartialEq, Eq, Structural, Debug)]
pub enum HeapError {
    AllocationExhausted,
}

/// One region handed out to the guest: `[base, base + size)`.
#[derive(Clone, Copy, PartialEq, Eq, Structural, Debug)]
pub struct AllocationRecord {
    pub base: u32,
    pub size: u32,
}

/// Page granularity of every mapped region.
pub const PAGE_SIZE: u32 = 4096;

/// The heap origin is the first untouched boundary of this granularity
/// above the loaded image.
pub const HEAP_ORIGIN_ALIGN: u32 = 0x400000;

/// Syscall number of the single heap request the guest can make.
pub const HEAP_ALLOCATE_SYSCALL: u32 = 0x60;

/// The bump allocator behind the heap syscall range.
///
/// It hands out page-rounded regions at ever-growing addresses, starting
/// at the first 4 MiB boundary above the loaded image, and keeps a
/// record of every region so that teardown can unmap them all.  Freed
/// space is never reused: there is no deallocation in the guest
/// protocol.
pub struct DynamicMemoryAllocations {
    pub memory_base: u32,
    pub allocations: Vec<AllocationRecord>,
}

impl DynamicMemoryAllocations {
    /// Internal consistency of the allocation table: every record is
    /// page-aligned, fits in the 32-bit address space, starts at or
    /// above the heap origin, and starts at or above the end of the
    /// record before it.
    pub open spec fn wf(self) -> bool {
        &&& self.memory_base as int % HEAP_ORIGIN_ALIGN as int == 0
        &&& forall|i: int|
            0 <= i < self.allocations@.len() ==> {
                &&& (#[trigger] self.allocations@[i]).base as int % PAGE_SIZE as int == 0
                &&& self.allocations@[i].size as int % PAGE_SIZE as int == 0
                &&& self.allocations@[i].base + self.allocations@[i].size <= 0x1_0000_0000
            }
        &&& forall|i: int|
            0 <= i < self.allocations@.len() - 1
                ==> (#[trigger] self.allocations@[i]).base + self.allocations@[i].size
                <= self.allocations@[i + 1].base
        &&& self.allocations@.len() > 0 ==> self.memory_base <= self.allocations@[0].base
    }

    /// The table of regions handed out so far, oldest first.
    pub open spec fn records(self) -> Seq<AllocationRecord> {
        self.allocations@
    }

    /// Where the heap starts for this allocator.
    pub open spec fn heap_origin(self) -> int {
        self.memory_base as int
    }

    /// The next candidate base: the end of the newest record, or the
    /// heap origin while the table is empty.
    pub open spec fn frontier(self) -> int {
        if self.allocations@.len() == 0 {
            self.memory_base as int
        } else {
            self.allocations@.last().base + self.allocations@.last().size
        }
    }

    /// Whether a request of `requested` bytes can still be served.
    pub open spec fn can_allocate(self, requested: u32) -> bool {
        &&& requested + PAGE_SIZE - 1 <= u32::MAX
        &&& self.frontier() <= u32::MAX
        &&& self.frontier() + round_up_to(requested as int, PAGE_SIZE as int) <= 0x1_0000_0000
    }

    /// Builds the allocator for an image of `mem_sz` bytes: the heap
    /// origin is the first 4 MiB boundary at or above the image end.
    pub fn new(mem_sz: u64) -> (r: DynamicMemoryAllocations)
        requires
            mem_sz <= 0xFFC0_0000,
        ensures
            r.wf(),
            r.records() == Seq::<AllocationRecord>::empty(),
            r.heap_origin() == round_up_to(mem_sz as int, HEAP_ORIGIN_ALIGN as int),
    {
        proof {
            vstd::arithmetic::power2::lemma2_to64();
        }
        let membase = align(mem_sz as u32, 22);
        let r = DynamicMemoryAllocations { memory_base: membase, allocations: Vec::new() };
        proof {
            assert(r.records() =~= Seq::<AllocationRecord>::empty());
            assert(membase as int % 0x400000 == 0) by {
                lemma_mod_multiples_basic(
                    (mem_sz as int + 0x400000 - 1) / 0x400000,
                    0x400000,
                );
            }
        }
        r
    }

    /// Serves one allocation request: rounds the size up to a page
    /// boundary, places the region at the page-rounded frontier, and
    /// records it.  Fails exactly when the rounded request no longer
    /// fits below the end of the guest address space.
    pub fn allocate(&mut self, requested: u32) -> (r: Result<AllocationRecord, HeapError>)
        requires
            old(self).wf(),
        ensures
            final(self).wf(),
            final(self).heap_origin() == old(self).heap_origin(),
            match r {
                Ok(rec) => {
                    &&& old(self).can_allocate(requested)
                    &&& final(self).records() == old(self).records().push(rec)
                    &&& rec.base == old(self).frontier()
                    &&& rec.size == round_up_to(requested as int, PAGE_SIZE as int)
                    &&& rec.base as int % PAGE_SIZE as int == 0
                },
                Err(e) => {
                    &&& !old(self).can_allocate(requested)
                    &&& e == HeapError::AllocationExhausted
                    &&& *final(self) == *old(self)
                },
            },
    {
        proof {
            vstd::arithmetic::power2::lemma2_to64();
        }
        if requested > 0xFFFF_F000 {
            return Err(HeapError::AllocationExhausted);
        }
        let size = align(requested, 12);
        let base64: u64 = if self.allocations.len() > 0 {
            let last = self.allocations[self.allocations.len() - 1];
            last.base as u64 + last.size as u64
        } else {
            self.memory_base as u64
        };
        if base64 > 0xFFFF_FFFF {
            return Err(HeapError::AllocationExhausted);
        }
        proof {
            if self.allocations@.len() == 0 {
                lemma_mod_breakdown_origin(self.memory_base as int);
            }
        }
        let base = align(base64 as u32, 12);
        assert(base == base64);
        if 0x1_0000_0000u64 - (base as u64) < size as u64 {
            return Err(HeapError::AllocationExhausted);
        }
        let rec = AllocationRecord { base, size };
        self.allocations.push(rec);
        Ok(rec)
    }

    /// The heap trap handler: acts on the allocate syscall, ignores
    /// every other number (those pass through with no effect).  On
    /// success the returned record's base is the value for the guest's
    /// return register, and the harness must map the region.
    pub fn handle_trap(&mut self, syscall: u32, r1: u32) -> (r: Result<
        Option<AllocationRecord>,
        HeapError,
    >)
        requires
            old(self).wf(),
        ensures
            final(self).wf(),
            final(self).heap_origin() == old(self).heap_origin(),
            syscall != HEAP_ALLOCATE_SYSCALL ==> r == Ok::<
                Option<AllocationRecord>,
                HeapError,
            >(None) && *final(self) == *old(self),
            syscall == HEAP_ALLOCATE_SYSCALL ==> match r {
                Ok(resp) => {
                    &&& old(self).can_allocate(r1)
                    &&& resp matches Some(rec)
                    &&& final(self).records() == old(self).records().push(rec)
                    &&& rec.base == old(self).frontier()
                    &&& rec.size == round_up_to(r1 as int, PAGE_SIZE as int)
                },
                Err(_) => {
                    &&& !old(self).can_allocate(r1)
                    &&& *final(self) == *old(self)
                },
            },
    {
        if syscall == HEAP_ALLOCATE_SYSCALL {
            match self.allocate(r1) {
                Ok(rec) => Ok(Some(rec)),
                Err(e) => Err(e),
            }
        } else {
            Ok(None)
        }
    }

    /// Teardown: hands back every recorded region, exactly once, so the
    /// harness can unmap them, and leaves the table empty.  Safe to call
    /// at any time, also on a table that is already empty.
    pub fn stop(&mut self) -> (regions: Vec<AllocationRecord>)
        ensures
            regions@ == old(self).records(),
            final(self).records() == Seq::<AllocationRecord>::empty(),
            final(self).heap_origin() == old(self).heap_origin(),
            old(self).wf() ==> final(self).wf(),
    {
        let mut regions: Vec<AllocationRecord> = Vec::new();
        core::mem::swap(&mut regions, &mut self.allocations);
        proof {
            assert(final(self).records() =~= Seq::<AllocationRecord>::empty());
        }
        regions
    }
}

/// A 4 MiB multiple is also a page multiple.
proof fn lemma_mod_breakdown_origin(v: int)
    requires
        v % HEAP_ORIGIN_ALIGN as int == 0,
        v >= 0,
    ensures
        v % PAGE_SIZE as int == 0,
{
    vstd::arithmetic::div_mod::lemma_mod_mod(v, PAGE_SIZE as int, 1024);
    assert(PAGE_SIZE as int * 1024 == HEAP_ORIGIN_ALIGN as int);
}

/// The frontier sits at or above the end of every recorded region, so
/// each new allocation's base is at or above every existing record's
/// end: the allocator only ever grows forward.
pub proof fn lemma_frontier_bounds_records(m: DynamicMemoryAllocations, i: int)
    requires
        m.wf(),
        0 <= i < m.records().len(),
    ensures
        m.records()[i].base + m.records()[i].size <= m.frontier(),
{
    if i < m.records().len() - 1 {
        lemma_allocations_disjoint(m, i, m.records().len() - 1);
    }
}

/// No two regions the allocator ever handed out overlap: a record
/// always ends at or before the next one begins, hence at or before
/// every later one begins.
pub proof fn lemma_allocations_disjoint(m: DynamicMemoryAllocations, i: int, j: int)
    requires
        m.wf(),
        0 <= i < j < m.records().len(),
    ensures
        m.records()[i].base + m.records()[i].size <= m.records()[j].base,
    decreases j - i,
{
    if j == i + 1 {
    } else {
        lemma_allocations_disjoint(m, i, j - 1);
    }
}

} // verus!

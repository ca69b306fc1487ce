//! Program loader: plans the guest memory image for an executable and
//! resolves its entry address.
//!
//! The loader works on an already-parsed picture of the binary: the
//! program segments and the symbol table, as plain values.  It computes
//! the memory footprint, the page-rounded size of the single region to
//! map, and the entry address; a separate routine plays the segment
//! copies onto a byte-array model of guest memory.

use vstd::prelude::*;
use crate::dynmemory::round_up_to;
use vstd::arithmetic::div_mod::{
    lemma_fundamental_div_mod, lemma_fundamental_div_mod_converse_div,
    lemma_mod_division_less_than_divisor,
};

verus! {

/// One program segment of the executable: `file_size` bytes at
/// `offset` in the binary, loaded at `vaddr`, occupying `mem_size`
/// bytes of guest memory (the tail past `file_size` stays zero).
#[derive(Clone, Copy, PartialEq, Eq, Structural, Debug)]
pub struct Segment {
    pub vaddr: u64,
    pub offset: u64,
    pub file_size: u64,
    pub mem_size: u64,
}

/// One entry of the binary's symbol table.
#[derive(Clone, PartialEq, Eq, Debug)]
pub struct SymbolEntry {
    pub name: Vec<u8>,
    pub value: u64,
}

/// The parsed executable: ordered program segments and the symbol
/// table.  Built once from the raw binary, consumed by the loader.
pub struct ExecutableImage {
    pub segments: Vec<Segment>,
    pub symbols: Vec<SymbolEntry>,
}

/// Why a load failed.
#[derive(Clone, Copy, PartialEq, Eq, Structural, Debug)]
pub enum LoadError {
    /// A segment reaches outside the binary or outside the address
    /// space, or claims more file bytes than guest memory.
    MalformedImage,
    /// No symbol with the entry name exists.
    MissingEntrySymbol,
}

/// What the harness must do to start the program: map
/// `[0, mapped_size)`, copy the segments, and jump to `entry`.
#[derive(Clone, Copy, PartialEq, Eq, Structural, Debug)]
pub struct LoadPlan {
    /// Highest guest address any segment touches.
    pub mem_size: u64,
    /// `mem_size` rounded up to the next page boundary; the size of the
    /// one region mapped for the image.
    pub mapped_size: u64,
    /// Initial program counter, from the entry symbol.
    pub entry: u64,
}

/// The name of the symbol where execution starts: `_start`.
pub open spec fn entry_name() -> Seq<u8> {
    seq![95u8, 115u8, 116u8, 97u8, 114u8, 116u8]
}

/// A segment the loader accepts: its guest range stays clear of the
/// top of the address space (so page rounding cannot wrap), its file
/// bytes lie inside the binary, and it does not claim more file bytes
/// than guest memory.
pub open spec fn seg_ok(s: Segment, blob_len: int) -> bool {
    &&& s.vaddr + s.mem_size <= u64::MAX - 4095
    &&& s.offset + s.file_size <= blob_len
    &&& s.file_size <= s.mem_size
}

/// Every loadable segment (all but the reserved first entry) is
/// acceptable.
pub open spec fn valid_image(segs: Seq<Segment>, blob_len: int) -> bool {
    forall|i: int| 1 <= i < segs.len() ==> seg_ok(#[trigger] segs[i], blob_len)
}

/// Highest `vaddr + mem_size` over the first `n` segments, the
/// reserved first entry excluded.
pub open spec fn footprint_upto(segs: Seq<Segment>, n: int) -> int
    decreases n,
{
    if n <= 1 {
        0
    } else {
        vstd::math::max(
            footprint_upto(segs, n - 1),
            segs[n - 1].vaddr + segs[n - 1].mem_size,
        )
    }
}

/// The guest memory footprint of the image.
pub open spec fn footprint(segs: Seq<Segment>) -> int {
    footprint_upto(segs, segs.len() as int)
}

/// `i` is the position of the first symbol bearing the entry name.
pub open spec fn is_first_entry(syms: Seq<SymbolEntry>, i: int) -> bool {
    &&& 0 <= i < syms.len()
    &&& syms[i].name@ == entry_name()
    &&& forall|j: int| 0 <= j < i ==> (#[trigger] syms[j]).name@ != entry_name()
}

/// Some symbol bears the entry name.
pub open spec fn has_entry(syms: Seq<SymbolEntry>) -> bool {
    exists|i: int| 0 <= i < syms.len() && (#[trigger] syms[i]).name@ == entry_name()
}

/// Whether `name` is the entry symbol's name.
fn is_entry_name(name: &Vec<u8>) -> (r: bool)
    ensures
        r == (name@ == entry_name()),
{
    let r = name.len() == 6 && name[0] == 95 && name[1] == 115 && name[2] == 116
        && name[3] == 97 && name[4] == 114 && name[5] == 116;
    proof {
        if r {
            assert(name@ =~= entry_name());
        } else {
            if name@.len() == 6 {
                assert(name@ != entry_name()) by {
                    if name@ == entry_name() {
                        assert(name@[0] == 95 && name@[1] == 115 && name@[2] == 116
                            && name@[3] == 97 && name@[4] == 114 && name@[5] == 116);
                    }
                }
            }
        }
    }
    r
}

/// Rounds `v` up to the next multiple of 4096, in 64-bit range.
fn round_up_page(v: u64) -> (r: u64)
    requires
        v <= u64::MAX - 4095,
    ensures
        r == round_up_to(v as int, 4096),
{
    proof {
        lemma_fundamental_div_mod(v as int, 4096);
        lemma_mod_division_less_than_divisor(v as int, 4096);
    }
    let q = v / 4096;
    let rem = v % 4096;
    if rem == 0 {
        proof {
            lemma_fundamental_div_mod_converse_div(v as int + 4095, 4096, q as int, 4095);
        }
        v
    } else {
        proof {
            assert((q + 1) * 4096 == q * 4096 + 4096) by (nonlinear_arith);
            lemma_fundamental_div_mod_converse_div(
                v as int + 4095,
                4096,
                q as int + 1,
                rem as int - 1,
            );
        }
        (q + 1) * 4096
    }
}

/// Plans the load of `image`, whose raw bytes are `blob`.
///
/// On success the plan carries the exact footprint, its page-rounded
/// mapped size, and the value recorded for the first `_start` symbol.
/// Fails with `MalformedImage` exactly when some loadable segment is
/// unacceptable, and with `MissingEntrySymbol` exactly when the image
/// is well-formed but no symbol bears the entry name.
pub fn load_executable(image: &ExecutableImage, blob: &Vec<u8>) -> (r: Result<
    LoadPlan,
    LoadError,
>)
    ensures
        match r {
            Ok(plan) => {
                &&& valid_image(image.segments@, blob@.len() as int)
                &&& plan.mem_size == footprint(image.segments@)
                &&& plan.mapped_size == round_up_to(plan.mem_size as int, 4096)
                &&& exists|i: int|
                    #[trigger] is_first_entry(image.symbols@, i) && plan.entry
                        == image.symbols@[i].value
            },
            Err(LoadError::MalformedImage) => !valid_image(
                image.segments@,
                blob@.len() as int,
            ),
            Err(LoadError::MissingEntrySymbol) => {
                &&& valid_image(image.segments@, blob@.len() as int)
                &&& !has_entry(image.symbols@)
            },
        },
{
    let blob_len: u64 = blob.len() as u64;
    let mut mem_sz: u64 = 0;
    let mut i: usize = 1;
    if image.segments.len() >= 1 {
        while i < image.segments.len()
            invariant
                1 <= i <= image.segments@.len(),
                mem_sz == footprint_upto(image.segments@, i as int),
                mem_sz <= u64::MAX - 4095,
                blob_len == blob@.len(),
                forall|k: int| 1 <= k < i ==> seg_ok(#[trigger] image.segments@[k], blob_len as int),
            decreases image.segments@.len() - i,
        {
            let s = image.segments[i];
            if s.mem_size > u64::MAX - 4095 || s.vaddr > u64::MAX - 4095 - s.mem_size {
                return Err(LoadError::MalformedImage);
            }
            if s.file_size > blob_len || s.offset > blob_len - s.file_size {
                return Err(LoadError::MalformedImage);
            }
            if s.file_size > s.mem_size {
                return Err(LoadError::MalformedImage);
            }
            let end = s.vaddr + s.mem_size;
            if end > mem_sz {
                mem_sz = end;
            }
            i = i + 1;
        }
    }
    assert(mem_sz == footprint(image.segments@));
    let mapped = round_up_page(mem_sz);

    let mut k: usize = 0;
    while k < image.symbols.len()
        invariant
            0 <= k <= image.symbols@.len(),
            forall|j: int| 0 <= j < k ==> (#[trigger] image.symbols@[j]).name@ != entry_name(),
            valid_image(image.segments@, blob@.len() as int),
            mem_sz == footprint(image.segments@),
            mapped == round_up_to(mem_sz as int, 4096),
        decreases image.symbols@.len() - k,
    {
        if is_entry_name(&image.symbols[k].name) {
            let plan = LoadPlan { mem_size: mem_sz, mapped_size: mapped, entry: image.symbols[k].value };
            proof {
                assert(is_first_entry(image.symbols@, k as int));
            }
            return Ok(plan);
        }
        k = k + 1;
    }
    Err(LoadError::MissingEntrySymbol)
}

/// `m` with the first `upto` file bytes of `seg` laid over it.
pub open spec fn overlay(m: Seq<u8>, seg: Segment, blob: Seq<u8>, upto: int) -> Seq<u8> {
    Seq::new(
        m.len(),
        |a: int|
            if seg.vaddr <= a < seg.vaddr + upto {
                blob[seg.offset + (a - seg.vaddr)]
            } else {
                m[a]
            },
    )
}

/// Guest memory after the copies of the first `n` segments, the
/// reserved first entry excluded.
pub open spec fn loaded_upto(m: Seq<u8>, segs: Seq<Segment>, blob: Seq<u8>, n: int) -> Seq<u8>
    decreases n,
{
    if n <= 1 {
        m
    } else {
        overlay(
            loaded_upto(m, segs, blob, n - 1),
            segs[n - 1],
            blob,
            segs[n - 1].file_size as int,
        )
    }
}

/// Guest memory after every segment copy.
pub open spec fn loaded(m: Seq<u8>, segs: Seq<Segment>, blob: Seq<u8>) -> Seq<u8> {
    loaded_upto(m, segs, blob, segs.len() as int)
}

/// No two loadable segments write the same guest byte.
pub open spec fn segments_disjoint(segs: Seq<Segment>) -> bool {
    forall|i: int, j: int|
        1 <= i < j < segs.len() ==> (#[trigger] segs[i]).vaddr + segs[i].file_size
            <= (#[trigger] segs[j]).vaddr || segs[j].vaddr + segs[j].file_size <= segs[i].vaddr
}

proof fn lemma_footprint_upto_monotone(segs: Seq<Segment>, a: int, b: int)
    requires
        a <= b,
    ensures
        footprint_upto(segs, a) <= footprint_upto(segs, b),
    decreases b - a,
{
    if a < b {
        lemma_footprint_upto_monotone(segs, a, b - 1);
    }
}

/// Every loadable segment ends at or below the footprint.
pub proof fn lemma_footprint_covers(segs: Seq<Segment>, i: int)
    requires
        1 <= i < segs.len(),
    ensures
        segs[i].vaddr + segs[i].mem_size <= footprint(segs),
    decreases segs.len() - i,
{
    lemma_footprint_upto_monotone(segs, i + 1, segs.len() as int);
}

proof fn lemma_loaded_upto_len(m: Seq<u8>, segs: Seq<Segment>, blob: Seq<u8>, n: int)
    ensures
        loaded_upto(m, segs, blob, n).len() == m.len(),
    decreases n,
{
    if n > 1 {
        lemma_loaded_upto_len(m, segs, blob, n - 1);
    }
}

/// Plays the loader's segment copies onto a byte-array picture of the
/// freshly mapped guest region: for every loadable segment, its file
/// bytes land at its guest address; everything else keeps its prior
/// (zero-filled) value.  This is the whole effect, stated by
/// `loaded`.
pub fn apply_segments(mem: &mut Vec<u8>, image: &ExecutableImage, blob: &Vec<u8>)
    requires
        valid_image(image.segments@, blob@.len() as int),
        footprint(image.segments@) <= old(mem)@.len(),
    ensures
        final(mem)@ == loaded(old(mem)@, image.segments@, blob@),
{
    let ghost m0 = mem@;
    let mut i: usize = 1;
    if image.segments.len() >= 1 {
        while i < image.segments.len()
            invariant
                1 <= i <= image.segments@.len(),
                mem@ == loaded_upto(m0, image.segments@, blob@, i as int),
                mem@.len() == m0.len(),
                valid_image(image.segments@, blob@.len() as int),
                footprint(image.segments@) <= m0.len(),
            decreases image.segments@.len() - i,
        {
            let s = image.segments[i];
            let memlen: usize = mem.len();
            let blen: usize = blob.len();
            proof {
                lemma_footprint_covers(image.segments@, i as int);
                assert(s.vaddr + s.mem_size <= memlen);
                assert(s.offset + s.file_size <= blen);
            }
            let va: usize = s.vaddr as usize;
            let off: usize = s.offset as usize;
            let fs: usize = s.file_size as usize;
            let ghost m1 = mem@;
            let mut k: usize = 0;
            while k < fs
                invariant
                    0 <= k <= fs,
                    va == s.vaddr,
                    off == s.offset,
                    fs == s.file_size,
                    memlen == mem@.len(),
                    blen == blob@.len(),
                    s == image.segments@[i as int],
                    1 <= i < image.segments@.len(),
                    valid_image(image.segments@, blob@.len() as int),
                    s.vaddr + s.mem_size <= m1.len(),
                    s.file_size <= s.mem_size,
                    s.offset + s.file_size <= blob@.len(),
                    mem@ == overlay(m1, s, blob@, k as int),
                    mem@.len() == m1.len(),
                decreases fs - k,
            {
                let byte = blob[off + k];
                mem.set(va + k, byte);
                proof {
                    assert(mem@ =~= overlay(m1, s, blob@, k as int + 1));
                }
                k = k + 1;
            }
            proof {
                assert(mem@ =~= loaded_upto(m0, image.segments@, blob@, i as int + 1));
            }
            i = i + 1;
        }
    }
    proof {
        assert(mem@ =~= loaded(m0, image.segments@, blob@));
    }
}

proof fn lemma_loaded_value_after(
    m0: Seq<u8>,
    segs: Seq<Segment>,
    blob: Seq<u8>,
    i: int,
    a: int,
    n: int,
)
    requires
        segments_disjoint(segs),
        footprint(segs) <= m0.len(),
        valid_image(segs, blob.len() as int),
        1 <= i < segs.len(),
        0 <= a < segs[i].file_size,
        i < n <= segs.len(),
    ensures
        loaded_upto(m0, segs, blob, n)[segs[i].vaddr + a] == blob[segs[i].offset + a],
    decreases n,
{
    lemma_loaded_upto_len(m0, segs, blob, n - 1);
    lemma_footprint_covers(segs, i);
    if n == i + 1 {
    } else {
        lemma_loaded_value_after(m0, segs, blob, i, a, n - 1);
    }
}

/// Loading is exact on the copied ranges: after the segment copies,
/// the guest bytes `[vaddr, vaddr + file_size)` of every loadable
/// segment equal the binary's bytes `[offset, offset + file_size)` —
/// for any image whose segments do not write the same byte twice.
pub proof fn lemma_load_copies_segment_bytes(
    m0: Seq<u8>,
    segs: Seq<Segment>,
    blob: Seq<u8>,
    i: int,
    a: int,
)
    requires
        segments_disjoint(segs),
        footprint(segs) <= m0.len(),
        valid_image(segs, blob.len() as int),
        1 <= i < segs.len(),
        0 <= a < segs[i].file_size,
    ensures
        loaded(m0, segs, blob)[segs[i].vaddr + a] == blob[segs[i].offset + a],
{
    lemma_loaded_value_after(m0, segs, blob, i, a, segs.len() as int);
}

/// Loading touches nothing else: a guest byte no loadable segment's
/// file range covers keeps its prior value, so the zero-filled tail of
/// every segment (and all gaps) stay zero.
pub proof fn lemma_load_leaves_rest(m0: Seq<u8>, segs: Seq<Segment>, blob: Seq<u8>, a: int)
    requires
        0 <= a < m0.len(),
        forall|i: int|
            1 <= i < segs.len() ==> !((#[trigger] segs[i]).vaddr <= a < segs[i].vaddr
                + segs[i].file_size),
    ensures
        loaded(m0, segs, blob)[a] == m0[a],
{
    lemma_loaded_rest_upto(m0, segs, blob, a, segs.len() as int);
}

proof fn lemma_loaded_rest_upto(m0: Seq<u8>, segs: Seq<Segment>, blob: Seq<u8>, a: int, n: int)
    requires
        0 <= a < m0.len(),
        forall|i: int|
            1 <= i < segs.len() ==> !((#[trigger] segs[i]).vaddr <= a < segs[i].vaddr
                + segs[i].file_size),
        n <= segs.len(),
    ensures
        loaded_upto(m0, segs, blob, n)[a] == m0[a],
    decreases n,
{
    if n > 1 {
        lemma_loaded_rest_upto(m0, segs, blob, a, n - 1);
        lemma_loaded_upto_len(m0, segs, blob, n - 1);
    }
}

} // verus!

//! GPU device: the draw-submission protocol and the backend contract.
//!
//! The guest submits a draw list as raw bytes: 32 bytes per vertex
//! (eight little-endian 32-bit words — four clip-space position
//! components, then four color components) and 2 bytes per index
//! (little-endian 16-bit).  The device decodes them, buffers at most
//! one outstanding frame (a later submission replaces an earlier one
//! that was never presented), and hands the frame to its backend on
//! the next per-iteration update.  Backends are swappable at
//! construction time only; the word values are bit patterns of 32-bit
//! floats, which only a backend interprets.

use vstd::prelude::*;
use vstd::bytes::{spec_u16_from_le_bytes, spec_u32_from_le_bytes, u16_from_le_bytes, u32_from_le_bytes};
use vstd::slice::slice_subrange;

verus! {

/// Syscall numbers the GPU serves.
pub const GPU_SUBMIT_SYSCALL: u32 = 0x160;

/// Reserved for a frame-pacing signal; a no-op until its contract is
/// specified.
pub const GPU_VSYNC_SYSCALL: u32 = 0x161;

/// One vertex of a submission: eight 32-bit words, position then
/// color, each the bit pattern of a 32-bit float.
#[derive(Clone, Copy, PartialEq, Eq, Debug)]
pub struct GpuVertex {
    pub words: [u32; 8],
}

/// One decoded submission: the vertex array and the index array.
pub struct GpuFrame {
    pub vertices: Vec<GpuVertex>,
    pub indices: Vec<u16>,
}

/// Word `j` of vertex `i` in the raw vertex bytes.
pub open spec fn vertex_word(b: Seq<u8>, i: int, j: int) -> u32 {
    spec_u32_from_le_bytes(b.subrange(i * 32 + 4 * j, i * 32 + 4 * j + 4))
}

/// Index `k` in the raw index bytes.
pub open spec fn index_at(b: Seq<u8>, k: int) -> u16 {
    spec_u16_from_le_bytes(b.subrange(2 * k, 2 * k + 2))
}

/// Decodes `count` vertices from their 32-byte wire form.
pub fn decode_vertices(bytes: &Vec<u8>, count: u32) -> (r: Vec<GpuVertex>)
    requires
        bytes@.len() == count * 32,
    ensures
        r@.len() == count,
        forall|i: int, j: int|
            0 <= i < count && 0 <= j < 8 ==> r@[i].words[j] == #[trigger] vertex_word(
                bytes@,
                i,
                j,
            ),
{
    let mut r: Vec<GpuVertex> = Vec::new();
    let mut i: usize = 0;
    while i < count as usize
        invariant
            0 <= i <= count,
            bytes@.len() == count * 32,
            r@.len() == i,
            forall|k: int, j: int|
                0 <= k < i && 0 <= j < 8 ==> r@[k].words[j] == #[trigger] vertex_word(
                    bytes@,
                    k,
                    j,
                ),
        decreases count - i,
    {
        let blen: usize = bytes.len();
        proof {
            assert((i as int) * 32 + 32 <= (count as int) * 32) by (nonlinear_arith)
                requires
                    i < count,
            ;
        }
        let base = i * 32;
        let w0 = u32_from_le_bytes(slice_subrange(bytes.as_slice(), base, base + 4));
        let w1 = u32_from_le_bytes(slice_subrange(bytes.as_slice(), base + 4, base + 8));
        let w2 = u32_from_le_bytes(slice_subrange(bytes.as_slice(), base + 8, base + 12));
        let w3 = u32_from_le_bytes(slice_subrange(bytes.as_slice(), base + 12, base + 16));
        let w4 = u32_from_le_bytes(slice_subrange(bytes.as_slice(), base + 16, base + 20));
        let w5 = u32_from_le_bytes(slice_subrange(bytes.as_slice(), base + 20, base + 24));
        let w6 = u32_from_le_bytes(slice_subrange(bytes.as_slice(), base + 24, base + 28));
        let w7 = u32_from_le_bytes(slice_subrange(bytes.as_slice(), base + 28, base + 32));
        let v = GpuVertex { words: [w0, w1, w2, w3, w4, w5, w6, w7] };
        r.push(v);
        i = i + 1;
    }
    r
}

/// Decodes `count` indices from their 2-byte wire form.
pub fn decode_indices(bytes: &Vec<u8>, count: u32) -> (r: Vec<u16>)
    requires
        bytes@.len() == count * 2,
    ensures
        r@.len() == count,
        forall|k: int| 0 <= k < count ==> r@[k] == index_at(bytes@, k),
{
    let mut r: Vec<u16> = Vec::new();
    let mut i: usize = 0;
    while i < count as usize
        invariant
            0 <= i <= count,
            bytes@.len() == count * 2,
            r@.len() == i,
            forall|k: int| 0 <= k < i ==> r@[k] == index_at(bytes@, k),
        decreases count - i,
    {
        let blen: usize = bytes.len();
        proof {
            assert((i as int) * 2 + 2 <= (count as int) * 2) by (nonlinear_arith)
                requires
                    i < count,
            ;
        }
        let base = i * 2;
        let w = u16_from_le_bytes(slice_subrange(bytes.as_slice(), base, base + 2));
        r.push(w);
        i = i + 1;
    }
    r
}

/// A rendering backend.  It accepts one submission at a time,
/// retaining it until the next `update`, which presents it and clears
/// it; a submission arriving before the next present replaces the
/// held one.  `pending` is the held submission, `presented` the one
/// shown last, `open` whether the presentation surface still exists.
pub trait GPUBackend: Sized {
    /// The submission held for the next presentation.
    spec fn pending(&self) -> Option<(Seq<GpuVertex>, Seq<u16>)>;

    /// The submission presented last.
    spec fn presented(&self) -> Option<(Seq<GpuVertex>, Seq<u16>)>;

    /// Whether the presentation surface is still open.
    spec fn open(&self) -> bool;

    /// Accepts a submission, replacing any held one.
    fn load_vertices(&mut self, vertices: Vec<GpuVertex>, indexes: Vec<u16>)
        ensures
            final(self).pending() == Some((vertices@, indexes@)),
            final(self).presented() == old(self).presented(),
            final(self).open() == old(self).open(),
    ;

    /// Presents the held submission, if any, and clears it; pumps the
    /// platform's events, which may close the surface.
    fn update(&mut self)
        ensures
            final(self).pending() is None,
            final(self).presented() == if old(self).pending() is Some {
                old(self).pending()
            } else {
                old(self).presented()
            },
    ;

    /// Reports whether the surface is open.
    fn is_open(&self) -> (r: bool)
        ensures
            r == self.open(),
    ;
}

/// A backend with no window: it records what it is handed.  It backs
/// the device in surroundings without a display, and shows that the
/// backend contract is satisfiable.
pub struct HeadlessBackend {
    pub frame: Option<GpuFrame>,
    pub shown: Option<GpuFrame>,
    pub window_open: bool,
}

impl HeadlessBackend {
    /// A fresh headless backend; its surface reports `open_now`.
    pub fn new(open_now: bool) -> (r: HeadlessBackend)
        ensures
            r.frame is None,
            r.shown is None,
            r.window_open == open_now,
    {
        HeadlessBackend { frame: None, shown: None, window_open: open_now }
    }
}

/// The held or shown frame of a headless backend, as sequences.
pub open spec fn frame_model(f: Option<GpuFrame>) -> Option<(Seq<GpuVertex>, Seq<u16>)> {
    match f {
        Some(fr) => Some((fr.vertices@, fr.indices@)),
        None => None,
    }
}

impl GPUBackend for HeadlessBackend {
    open spec fn pending(&self) -> Option<(Seq<GpuVertex>, Seq<u16>)> {
        frame_model(self.frame)
    }

    open spec fn presented(&self) -> Option<(Seq<GpuVertex>, Seq<u16>)> {
        frame_model(self.shown)
    }

    open spec fn open(&self) -> bool {
        self.window_open
    }

    fn load_vertices(&mut self, vertices: Vec<GpuVertex>, indexes: Vec<u16>) {
        self.frame = Some(GpuFrame { vertices, indices: indexes });
    }

    fn update(&mut self) {
        let cur = self.frame.take();
        match cur {
            Some(f) => {
                self.shown = Some(f);
            },
            None => {},
        }
    }

    fn is_open(&self) -> (r: bool) {
        self.window_open
    }
}

/// The GPU device: the trap-side half of the protocol.  It buffers at
/// most one outstanding frame and owns exactly one backend.
pub struct GPUFeature<B: GPUBackend> {
    pub backend: B,
    pub pending: Option<GpuFrame>,
}

impl<B: GPUBackend> GPUFeature<B> {
    /// Between traps and updates nothing sits in the backend: the one
    /// outstanding frame, if any, is the device's own.
    pub open spec fn wf(self) -> bool {
        self.backend.pending() is None
    }
}

/// What a GPU trap number means to the device.
#[derive(Clone, Copy, PartialEq, Eq, Structural, Debug)]
pub enum GpuTrap {
    /// Decode and buffer a draw list.
    SubmitDrawList,
    /// The reserved pacing signal: accepted, no effect.
    Vsync,
    /// Not a request this device serves: no effect.
    Pass,
}

/// What the harness must read for a draw-list submission: the
/// registers give the two guest arrays' addresses and element counts.
#[derive(Clone, Copy, PartialEq, Eq, Structural, Debug)]
pub struct SubmitRequest {
    pub vertex_addr: u32,
    pub vertex_bytes: u64,
    pub index_addr: u32,
    pub index_bytes: u64,
}

/// Decodes the submission registers: vertex array address and count,
/// then index array address and count; 32 bytes per vertex, 2 per
/// index.
pub fn submit_request(r1: u32, r2: u32, r3: u32, r4: u32) -> (r: SubmitRequest)
    ensures
        r.vertex_addr == r1,
        r.vertex_bytes == r2 * 32,
        r.index_addr == r3,
        r.index_bytes == r4 * 2,
{
    SubmitRequest {
        vertex_addr: r1,
        vertex_bytes: r2 as u64 * 32,
        index_addr: r3,
        index_bytes: r4 as u64 * 2,
    }
}

impl<B: GPUBackend> GPUFeature<B> {
    /// Wraps the backend; nothing is buffered yet.
    pub fn new(backend: B) -> (r: GPUFeature<B>)
        requires
            backend.pending() is None,
        ensures
            r.backend == backend,
            r.pending is None,
            r.wf(),
    {
        GPUFeature { backend, pending: None }
    }

    /// What a trap number means to this device.
    pub fn trap_kind(syscall: u32) -> (r: GpuTrap)
        ensures
            r == if syscall == GPU_SUBMIT_SYSCALL {
                GpuTrap::SubmitDrawList
            } else if syscall == GPU_VSYNC_SYSCALL {
                GpuTrap::Vsync
            } else {
                GpuTrap::Pass
            },
    {
        if syscall == GPU_SUBMIT_SYSCALL {
            GpuTrap::SubmitDrawList
        } else if syscall == GPU_VSYNC_SYSCALL {
            GpuTrap::Vsync
        } else {
            GpuTrap::Pass
        }
    }

    /// Buffers a decoded submission.  Whatever was pending is fully
    /// replaced: at most one frame is ever outstanding, and an
    /// unpresented one is silently discarded.
    pub fn submit_frame(&mut self, vertices: Vec<GpuVertex>, indexes: Vec<u16>)
        ensures
            (final(self).pending matches Some(f) && f.vertices@ == vertices@ && f.indices@
                == indexes@),
            final(self).backend == old(self).backend,
            old(self).wf() ==> final(self).wf(),
    {
        self.pending = Some(GpuFrame { vertices, indices: indexes });
    }

    /// The draw-list trap: decodes the raw guest bytes of both arrays
    /// and buffers the frame, replacing any pending one.
    pub fn copy_vertex_from_memory(
        &mut self,
        vertex_bytes: &Vec<u8>,
        vertex_count: u32,
        index_bytes: &Vec<u8>,
        index_count: u32,
    )
        requires
            vertex_bytes@.len() == vertex_count * 32,
            index_bytes@.len() == index_count * 2,
        ensures
            (final(self).pending matches Some(f) && {
                &&& f.vertices@.len() == vertex_count
                &&& forall|i: int, j: int|
                    0 <= i < vertex_count && 0 <= j < 8 ==> f.vertices@[i].words[j]
                        == #[trigger] vertex_word(vertex_bytes@, i, j)
                &&& f.indices@.len() == index_count
                &&& forall|k: int| 0 <= k < index_count ==> f.indices@[k] == index_at(index_bytes@, k)
            }),
            final(self).backend == old(self).backend,
            old(self).wf() ==> final(self).wf(),
    {
        let vertices = decode_vertices(vertex_bytes, vertex_count);
        let indices = decode_indices(index_bytes, index_count);
        self.submit_frame(vertices, indices);
    }

    /// Per-iteration service: hands the buffered frame, if any, to the
    /// backend and presents.  Afterwards nothing is buffered anywhere,
    /// and what the backend presented is exactly the frame that was
    /// pending (or its last frame again, when none was).
    pub fn update(&mut self)
        requires
            old(self).wf(),
        ensures
            final(self).pending is None,
            final(self).wf(),
            old(self).pending matches Some(f) ==> final(self).backend.presented() == Some(
                (f.vertices@, f.indices@),
            ),
            old(self).pending is None ==> final(self).backend.presented() == old(
                self,
            ).backend.presented(),
    {
        let cur = self.pending.take();
        match cur {
            Some(f) => {
                self.backend.load_vertices(f.vertices, f.indices);
            },
            None => {},
        }
        self.backend.update();
    }

    /// Whether the backend's surface is still open: the run loop's
    /// continue signal.
    pub fn is_open(&self) -> (r: bool)
        ensures
            r == self.backend.open(),
    {
        self.backend.is_open()
    }

    /// The device's reported name.
    pub fn name(&self) -> (r: &'static str)
        ensures
            r@ == "GPUFeature"@,
    {
        "GPUFeature"
    }
}

/// A rendering strategy the machine can be built with.
#[derive(Clone, Copy, PartialEq, Eq, Structural, Debug)]
pub enum BackendKind {
    /// Pure software rasterizer.
    Software,
    /// Hardware-accelerated pipeline.
    Accelerated,
    /// No window at all: the recording backend.
    Headless,
}

/// Why no backend could be chosen.
#[derive(Clone, Copy, PartialEq, Eq, Structural, Debug)]
pub enum GpuError {
    NoBackendsAvailable,
    BackendUnavailable(BackendKind),
}

/// Chooses the rendering backend the GPU device is built with: the
/// stated preference if it is available, else a failure; with no
/// preference, the first available one.  The harness constructs the
/// chosen backend (a window is a side effect) and wraps it in
/// `GPUFeature::new`.
pub fn create_feature(preference: Option<BackendKind>, available: &Vec<BackendKind>) -> (r: Result<
    BackendKind,
    GpuError,
>)
    ensures
        match r {
            Ok(k) => match preference {
                None => available@.len() > 0 && k == available@[0],
                Some(p) => k == p && available@.contains(p),
            },
            Err(GpuError::NoBackendsAvailable) => preference is None && available@.len() == 0,
            Err(GpuError::BackendUnavailable(k)) => preference == Some(k) && !available@.contains(
                k,
            ),
        },
{
    match preference {
        None => {
            if available.len() > 0 {
                Ok(available[0])
            } else {
                Err(GpuError::NoBackendsAvailable)
            }
        },
        Some(p) => {
            let mut i: usize = 0;
            while i < available.len()
                invariant
                    0 <= i <= available@.len(),
                    preference == Some(p),
                    forall|k: int| 0 <= k < i ==> available@[k] != p,
                decreases available@.len() - i,
            {
                if available[i] == p {
                    proof {
                        assert(available@.contains(p));
                    }
                    return Ok(p);
                }
                i = i + 1;
            }
            Err(GpuError::BackendUnavailable(p))
        },
    }
}

} // verus!

//! Drive device: a read-only virtual filesystem served over traps.
//!
//! The drive is built once from the archive's directory tree, handed
//! over as plain values: a depth-first walk (skipping the self and
//! parent entries) yields a flat, order-stable listing of absolute
//! paths with their contents.  Afterwards the device answers the file
//! syscalls purely from that listing and the guest's registers.
//!
//! Path lookup mirrors the archive reader's resolution: a path is
//! split on `/`, empty components and `.` steps vanish, and the
//! remaining components are compared ASCII-case-insensitively.  Parent
//! (`..`) steps are not resolved: a path carrying one finds no file.

use vstd::prelude::*;
use vstd::slice::slice_to_vec;

verus! {

/// How a drive request fails.
#[derive(Clone, Copy, PartialEq, Eq, Structural, Debug)]
pub enum DriveError {
    /// The path names nothing, or names a directory.
    NotAFile,
    /// A numeric index lies outside the listing.
    BoundsError,
    /// No terminator was found inside the bounded path window.
    UnterminatedPath,
}

/// One file of the drive: its absolute path and its contents.
#[derive(Clone, PartialEq, Eq, Debug)]
pub struct DriveFile {
    pub path: Vec<u8>,
    pub data: Vec<u8>,
}

/// The mathematical picture of a file.
pub struct FileModel {
    pub path: Seq<u8>,
    pub data: Seq<u8>,
}

impl View for DriveFile {
    type V = FileModel;

    open spec fn view(&self) -> FileModel {
        FileModel { path: self.path@, data: self.data@ }
    }
}

impl DeepView for DriveFile {
    type V = FileModel;

    open spec fn deep_view(&self) -> FileModel {
        self@
    }
}

/// A node of the archive's directory tree, as the archive reader
/// reports it.  The self (`.`) and parent (`..`) entries may appear as
/// childless directories; the walk skips them.
pub enum ArchiveNode {
    File { name: Vec<u8>, data: Vec<u8> },
    Directory { name: Vec<u8>, entries: Vec<ArchiveNode> },
}

/// The path separator.
pub open spec fn sep() -> u8 {
    47u8
}

/// The self entry's name, `.`.
pub open spec fn dot_name() -> Seq<u8> {
    seq![46u8]
}

/// The parent entry's name, `..`.
pub open spec fn dotdot_name() -> Seq<u8> {
    seq![46u8, 46u8]
}

/// `abs` and `name` joined with a separator.
pub open spec fn joined(abs: Seq<u8>, name: Seq<u8>) -> Seq<u8> {
    abs + seq![sep()] + name
}

/// The files one node contributes to the listing, depth first: a file
/// is one entry under `abs`; a directory contributes its descendants,
/// unless it is the self or parent entry, which contribute nothing.
pub open spec fn walk_entry(n: ArchiveNode, abs: Seq<u8>) -> Seq<FileModel>
    decreases n, 1int,
{
    match n {
        ArchiveNode::File { name, data } => seq![
            FileModel { path: joined(abs, name@), data: data@ },
        ],
        ArchiveNode::Directory { name, entries } => {
            if name@ == dot_name() || name@ == dotdot_name() {
                Seq::empty()
            } else {
                walk_entries(entries@, joined(abs, name@))
            }
        },
    }
}

/// The files a directory's contents contribute, in order.
pub open spec fn walk_entries(s: Seq<ArchiveNode>, abs: Seq<u8>) -> Seq<FileModel>
    decreases s, 0int,
{
    if s.len() == 0 {
        Seq::empty()
    } else {
        walk_entries(s.subrange(0, s.len() - 1), abs) + walk_entry(s[s.len() - 1], abs)
    }
}

/// Copies a byte vector.
fn copy_bytes(src: &Vec<u8>) -> (r: Vec<u8>)
    ensures
        r@ == src@,
{
    slice_to_vec(src.as_slice())
}

/// `abs`, a separator, then `name`, as a fresh vector.
fn join_path(abs: &Vec<u8>, name: &Vec<u8>) -> (r: Vec<u8>)
    ensures
        r@ == joined(abs@, name@),
{
    let mut r = copy_bytes(abs);
    r.push(47u8);
    let mut i: usize = 0;
    while i < name.len()
        invariant
            0 <= i <= name@.len(),
            r@ == abs@ + seq![47u8] + name@.subrange(0, i as int),
        decreases name@.len() - i,
    {
        r.push(name[i]);
        proof {
            assert(abs@ + seq![47u8] + name@.subrange(0, i as int + 1) =~= (abs@ + seq![47u8]
                + name@.subrange(0, i as int)).push(name@[i as int]));
        }
        i = i + 1;
    }
    proof {
        assert(name@.subrange(0, name@.len() as int) =~= name@);
    }
    r
}

/// Whether `name` is the self or the parent entry's name.
fn is_dot_entry(name: &Vec<u8>) -> (r: bool)
    ensures
        r == (name@ == dot_name() || name@ == dotdot_name()),
{
    let r = (name.len() == 1 && name[0] == 46) || (name.len() == 2 && name[0] == 46 && name[1]
        == 46);
    proof {
        if name@.len() == 1 {
            assert(name@ =~= dot_name() <==> name@[0] == 46);
        }
        if name@.len() == 2 {
            assert(name@ =~= dotdot_name() <==> (name@[0] == 46 && name@[1] == 46));
        }
    }
    r
}

/// The read-only drive: the flat file listing, order-stable, built
/// once from the archive's tree.
pub struct Drive {
    pub files: Vec<DriveFile>,
}

impl Drive {
    /// Builds the drive from the archive's root directory: the listing
    /// is the depth-first walk of the root's contents, with the root's
    /// own name as the leading path prefix.
    pub fn new(root: &ArchiveNode) -> (r: Drive)
        requires
            root is Directory,
        ensures
            r.files.deep_view() == walk_entries(root->Directory_entries@, root->Directory_name@),
    {
        match root {
            ArchiveNode::Directory { name, entries } => {
                let mut vec: Vec<DriveFile> = Vec::new();
                Self::traverse_directory(&mut vec, entries, name);
                proof {
                    assert(vec.deep_view() =~= walk_entries(entries@, name@));
                }
                Drive { files: vec }
            },
            ArchiveNode::File { .. } => {
                proof {
                    assert(false);
                }
                Drive { files: Vec::new() }
            },
        }
    }

    /// The flat listing.
    pub fn get_listing(&self) -> (r: &Vec<DriveFile>)
        ensures
            r == &self.files,
    {
        &self.files
    }

    /// Whether every listing entry and the listing itself fit the
    /// 32-bit guest protocol.
    pub open spec fn wf(self) -> bool {
        &&& self.files@.len() <= u32::MAX
        &&& forall|i: int|
            0 <= i < self.files@.len() ==> (#[trigger] self.files@[i]).path@.len() <= u32::MAX
                && self.files@[i].data@.len() <= u32::MAX
    }

    /// Runtime check of `wf`, for callers outside the proof.
    pub fn is_wf(&self) -> (r: bool)
        ensures
            r == self.wf(),
    {
        if self.files.len() > u32::MAX as usize {
            return false;
        }
        let mut i: usize = 0;
        while i < self.files.len()
            invariant
                0 <= i <= self.files@.len(),
                self.files@.len() <= u32::MAX,
                forall|k: int|
                    0 <= k < i ==> (#[trigger] self.files@[k]).path@.len() <= u32::MAX
                        && self.files@[k].data@.len() <= u32::MAX,
            decreases self.files@.len() - i,
        {
            if self.files[i].path.len() > u32::MAX as usize || self.files[i].data.len()
                > u32::MAX as usize {
                return false;
            }
            i = i + 1;
        }
        true
    }

    /// Walks one directory's contents depth first, appending every
    /// file found under `abs_dir` to `vec`, exactly as `walk_entries`
    /// describes.
    fn traverse_directory(vec: &mut Vec<DriveFile>, entries: &Vec<ArchiveNode>, abs_dir: &Vec<u8>)
        ensures
            final(vec).deep_view() == old(vec).deep_view() + walk_entries(entries@, abs_dir@),
        decreases entries@,
    {
        let ghost dv0 = vec.deep_view();
        let mut j: usize = 0;
        while j < entries.len()
            invariant
                0 <= j <= entries@.len(),
                vec.deep_view() == dv0 + walk_entries(entries@.subrange(0, j as int), abs_dir@),
            decreases entries@.len() - j,
        {
            let ghost dv_before = vec.deep_view();
            match &entries[j] {
                ArchiveNode::File { name, data } => {
                    let path = join_path(abs_dir, name);
                    let file = DriveFile { path, data: copy_bytes(data) };
                    vec.push(file);
                    proof {
                        assert(vec.deep_view() =~= dv_before + walk_entry(
                            entries@[j as int],
                            abs_dir@,
                        ));
                    }
                },
                ArchiveNode::Directory { name, entries: sub } => {
                    if !is_dot_entry(name) {
                        let abs = join_path(abs_dir, name);
                        proof {
                            assert(decreases_to!(entries@ => entries@[j as int]));
                            assert(decreases_to!(entries@[j as int] => sub@));
                        }
                        Self::traverse_directory(vec, sub, &abs);
                    }
                    proof {
                        assert(vec.deep_view() =~= dv_before + walk_entry(
                            entries@[j as int],
                            abs_dir@,
                        ));
                    }
                },
            }
            proof {
                assert(entries@.subrange(0, j as int + 1).subrange(0, j as int) =~= entries@
                    .subrange(0, j as int));
                assert(entries@.subrange(0, j as int + 1)[j as int] == entries@[j as int]);
                assert(vec.deep_view() =~= dv0 + walk_entries(
                    entries@.subrange(0, j as int + 1),
                    abs_dir@,
                ));
            }
            j = j + 1;
        }
        proof {
            assert(entries@.subrange(0, entries@.len() as int) =~= entries@);
        }
    }
}

/// ASCII upper case folded to lower case; lookups compare folded
/// bytes, as the archive reader does.
pub open spec fn fold_byte(b: u8) -> u8 {
    if 65 <= b <= 90 {
        (b + 32) as u8
    } else {
        b
    }
}

/// A path component that survives resolution: nonempty and not the
/// self step.
pub open spec fn keep_component(c: Seq<u8>) -> bool {
    c.len() > 0 && c != dot_name()
}

/// The canonical components of the remaining path bytes `p`, with
/// `cur` the (already folded) component under construction.
pub open spec fn canon_acc(p: Seq<u8>, cur: Seq<u8>) -> Seq<Seq<u8>>
    decreases p.len(),
{
    if p.len() == 0 {
        if keep_component(cur) {
            seq![cur]
        } else {
            Seq::empty()
        }
    } else if p[0] == sep() {
        if keep_component(cur) {
            seq![cur] + canon_acc(p.subrange(1, p.len() as int), Seq::empty())
        } else {
            canon_acc(p.subrange(1, p.len() as int), Seq::empty())
        }
    } else {
        canon_acc(p.subrange(1, p.len() as int), cur.push(fold_byte(p[0])))
    }
}

/// The canonical form a path is looked up under: its components,
/// case-folded, with empty and self steps gone.
pub open spec fn canon(p: Seq<u8>) -> Seq<Seq<u8>> {
    canon_acc(p, Seq::empty())
}

/// Two paths name the same entry.
pub open spec fn path_matches(stored: Seq<u8>, q: Seq<u8>) -> bool {
    canon(stored) == canon(q)
}

/// `i` is the position of the first listing entry whose path matches
/// `q`.
pub open spec fn is_first_match(fs: Seq<FileModel>, q: Seq<u8>, i: int) -> bool {
    &&& 0 <= i < fs.len()
    &&& path_matches(fs[i].path, q)
    &&& forall|j: int| 0 <= j < i ==> !path_matches((#[trigger] fs[j]).path, q)
}

/// Some listing entry matches `q`.
pub open spec fn has_match(fs: Seq<FileModel>, q: Seq<u8>) -> bool {
    exists|i: int| 0 <= i < fs.len() && path_matches((#[trigger] fs[i]).path, q)
}

fn fold_byte_exec(b: u8) -> (r: u8)
    ensures
        r == fold_byte(b),
{
    if 65 <= b && b <= 90 {
        b + 32
    } else {
        b
    }
}

/// Whether the component under construction survives resolution.
fn keeps(cur: &Vec<u8>) -> (r: bool)
    ensures
        r == keep_component(cur@),
{
    let r = cur.len() >= 1 && !(cur.len() == 1 && cur[0] == 46);
    proof {
        if cur@.len() == 1 {
            assert(cur@ =~= dot_name() <==> cur@[0] == 46);
        }
    }
    r
}

/// The canonical components of `path`.
fn canon_of(path: &Vec<u8>) -> (r: Vec<Vec<u8>>)
    ensures
        r.deep_view() == canon(path@),
{
    let mut comps: Vec<Vec<u8>> = Vec::new();
    let mut cur: Vec<u8> = Vec::new();
    let mut i: usize = 0;
    proof {
        assert(path@.subrange(0, path@.len() as int) =~= path@);
        assert(canon(path@) =~~= comps.deep_view() + canon_acc(path@, cur@));
    }
    while i < path.len()
        invariant
            0 <= i <= path@.len(),
            canon(path@) == comps.deep_view() + canon_acc(
                path@.subrange(i as int, path@.len() as int),
                cur@,
            ),
        decreases path@.len() - i,
    {
        let ghost rest = path@.subrange(i as int, path@.len() as int);
        proof {
            assert(rest.subrange(1, rest.len() as int) =~= path@.subrange(
                i as int + 1,
                path@.len() as int,
            ));
        }
        let b = path[i];
        if b == 47 {
            if keeps(&cur) {
                let ghost cv = cur@;
                let ghost dv_before = comps.deep_view();
                comps.push(cur);
                proof {
                    assert(comps.deep_view() =~~= dv_before.push(cv));
                }
                cur = Vec::new();
            } else {
                cur = Vec::new();
            }
        } else {
            let f = fold_byte_exec(b);
            cur.push(f);
        }
        proof {
            assert(canon(path@) =~~= comps.deep_view() + canon_acc(
                path@.subrange(i as int + 1, path@.len() as int),
                cur@,
            ));
        }
        i = i + 1;
    }
    if keeps(&cur) {
        let ghost cv = cur@;
        let ghost dv_before = comps.deep_view();
        comps.push(cur);
        proof {
            assert(comps.deep_view() =~~= dv_before.push(cv));
            assert(path@.subrange(path@.len() as int, path@.len() as int).len() == 0);
            assert(canon(path@) =~~= comps.deep_view());
        }
    } else {
        proof {
            assert(path@.subrange(path@.len() as int, path@.len() as int).len() == 0);
            assert(canon(path@) =~~= comps.deep_view());
        }
    }
    comps
}

/// Whether two byte vectors hold the same bytes.
fn bytes_equal(a: &Vec<u8>, b: &Vec<u8>) -> (r: bool)
    ensures
        r == (a@ == b@),
{
    if a.len() != b.len() {
        return false;
    }
    let mut i: usize = 0;
    while i < a.len()
        invariant
            0 <= i <= a@.len(),
            a@.len() == b@.len(),
            forall|k: int| 0 <= k < i ==> a@[k] == b@[k],
        decreases a@.len() - i,
    {
        if a[i] != b[i] {
            return false;
        }
        i = i + 1;
    }
    proof {
        assert(a@ =~= b@);
    }
    true
}

/// Whether two component lists are the same.
fn components_equal(a: &Vec<Vec<u8>>, b: &Vec<Vec<u8>>) -> (r: bool)
    ensures
        r == (a.deep_view() == b.deep_view()),
{
    if a.len() != b.len() {
        proof {
            assert(a.deep_view().len() != b.deep_view().len());
        }
        return false;
    }
    let mut i: usize = 0;
    while i < a.len()
        invariant
            0 <= i <= a@.len(),
            a@.len() == b@.len(),
            forall|k: int| 0 <= k < i ==> a.deep_view()[k] == b.deep_view()[k],
        decreases a@.len() - i,
    {
        if !bytes_equal(&a[i], &b[i]) {
            proof {
                assert(a@[i as int].deep_view() =~= a@[i as int]@);
                assert(b@[i as int].deep_view() =~= b@[i as int]@);
                assert(a.deep_view()[i as int] != b.deep_view()[i as int]);
            }
            return false;
        }
        proof {
            assert(a@[i as int].deep_view() =~= a@[i as int]@);
            assert(b@[i as int].deep_view() =~= b@[i as int]@);
        }
        i = i + 1;
    }
    proof {
        assert(a.deep_view() =~= b.deep_view());
    }
    true
}

/// The bytes `read_file_region` yields: `count` bytes from `index`,
/// clipped to the file's end (so a read past the end shortens, and a
/// start past the end is empty).
pub open spec fn region_of(data: Seq<u8>, index: int, count: int) -> Seq<u8> {
    let start = if index <= data.len() {
        index
    } else {
        data.len() as int
    };
    let end = if index + count <= data.len() {
        index + count
    } else {
        data.len() as int
    };
    data.subrange(start, end)
}

impl Drive {
    /// The first listing entry matching `path`, if any.
    fn find_file(&self, path: &Vec<u8>) -> (r: Option<usize>)
        ensures
            match r {
                Some(i) => is_first_match(self.files.deep_view(), path@, i as int),
                None => !has_match(self.files.deep_view(), path@),
            },
    {
        let q = canon_of(path);
        let mut j: usize = 0;
        while j < self.files.len()
            invariant
                0 <= j <= self.files@.len(),
                q.deep_view() == canon(path@),
                forall|k: int|
                    0 <= k < j ==> !path_matches(
                        (#[trigger] self.files.deep_view()[k]).path,
                        path@,
                    ),
        decreases self.files@.len() - j,
        {
            let c = canon_of(&self.files[j].path);
            if components_equal(&c, &q) {
                proof {
                    assert(self.files.deep_view()[j as int].path == self.files@[j as int].path@);
                    assert(is_first_match(self.files.deep_view(), path@, j as int));
                }
                return Some(j);
            }
            proof {
                assert(self.files.deep_view()[j as int].path == self.files@[j as int].path@);
            }
            j = j + 1;
        }
        proof {
            assert(!has_match(self.files.deep_view(), path@));
        }
        None
    }

    /// The whole contents of the file `path` names, or `NotAFile` when
    /// nothing (or a directory prefix) bears that name.
    pub fn read_file(&self, path: &Vec<u8>) -> (r: Result<Vec<u8>, DriveError>)
        ensures
            match r {
                Ok(d) => exists|i: int|
                    #[trigger] is_first_match(self.files.deep_view(), path@, i) && d@
                        == self.files.deep_view()[i].data,
                Err(e) => e == DriveError::NotAFile && !has_match(self.files.deep_view(), path@),
            },
    {
        match self.find_file(path) {
            Some(i) => Ok(copy_bytes(&self.files[i].data)),
            None => Err(DriveError::NotAFile),
        }
    }

    /// `count` bytes of the named file starting at `index`, clipped to
    /// the file's end.
    pub fn read_file_region(&self, path: &Vec<u8>, index: u32, count: u32) -> (r: Result<
        Vec<u8>,
        DriveError,
    >)
        ensures
            match r {
                Ok(d) => exists|i: int|
                    #[trigger] is_first_match(self.files.deep_view(), path@, i) && d@ == region_of(
                        self.files.deep_view()[i].data,
                        index as int,
                        count as int,
                    ),
                Err(e) => e == DriveError::NotAFile && !has_match(self.files.deep_view(), path@),
            },
    {
        match self.find_file(path) {
            Some(i) => {
                let data = &self.files[i].data;
                let dlen = data.len();
                let start: usize = if (index as u64) <= (dlen as u64) {
                    index as usize
                } else {
                    dlen
                };
                let end64: u64 = index as u64 + count as u64;
                let end: usize = if end64 <= dlen as u64 {
                    end64 as usize
                } else {
                    dlen
                };
                let piece = vstd::slice::slice_subrange(data.as_slice(), start, end);
                Ok(slice_to_vec(piece))
            },
            None => Err(DriveError::NotAFile),
        }
    }

    /// The byte size of the named file.
    pub fn file_size(&self, path: &Vec<u8>) -> (r: Result<u32, DriveError>)
        requires
            self.wf(),
        ensures
            match r {
                Ok(sz) => exists|i: int|
                    #[trigger] is_first_match(self.files.deep_view(), path@, i) && sz
                        == self.files.deep_view()[i].data.len(),
                Err(e) => e == DriveError::NotAFile && !has_match(self.files.deep_view(), path@),
            },
    {
        match self.find_file(path) {
            Some(i) => Ok(self.files[i].data.len() as u32),
            None => Err(DriveError::NotAFile),
        }
    }
}

/// Syscall numbers the drive serves.
pub const DRIVE_FILE_COUNT_SYSCALL: u32 = 0x00;

pub const DRIVE_FILENAME_LEN_SYSCALL: u32 = 0x01;

pub const DRIVE_FILENAME_INDEX_SYSCALL: u32 = 0x02;

pub const DRIVE_FILE_SIZE_SYSCALL: u32 = 0x03;

pub const DRIVE_READ_FILE_SYSCALL: u32 = 0x04;

/// How many guest bytes at most are scanned for a path terminator.
/// The harness reads a window of at most this size; a longer
/// unterminated string fails instead of looping.
pub const PATH_SCAN_LIMIT: u32 = 4096;

/// `n` is the position of the first terminator in the window.
pub open spec fn is_first_nul(w: Seq<u8>, n: int) -> bool {
    &&& 0 <= n < w.len()
    &&& w[n] == 0
    &&& forall|j: int| 0 <= j < n ==> w[j] != 0
}

/// The window holds no terminator at all.
pub open spec fn nul_free(w: Seq<u8>) -> bool {
    forall|j: int| 0 <= j < w.len() ==> w[j] != 0
}

/// The bytes of `w` before its first terminator.
fn parse_path(window: &Vec<u8>) -> (r: Result<Vec<u8>, DriveError>)
    ensures
        match r {
            Ok(p) => exists|n: int|
                #[trigger] is_first_nul(window@, n) && p@ == window@.subrange(0, n),
            Err(e) => e == DriveError::UnterminatedPath && nul_free(window@),
        },
{
    let mut i: usize = 0;
    while i < window.len()
        invariant
            0 <= i <= window@.len(),
            forall|j: int| 0 <= j < i ==> window@[j] != 0,
        decreases window@.len() - i,
    {
        if window[i] == 0 {
            let piece = vstd::slice::slice_subrange(window.as_slice(), 0, i);
            let p = slice_to_vec(piece);
            proof {
                assert(is_first_nul(window@, i as int));
            }
            return Ok(p);
        }
        i = i + 1;
    }
    Err(DriveError::UnterminatedPath)
}

/// What a drive trap asks the harness to do.
pub enum DriveResponse {
    /// Write this value to the guest's return register.
    Value(u32),
    /// Write these bytes into guest memory at `addr`.
    MemWrite { addr: u32, bytes: Vec<u8> },
    /// Not a request this device serves: no effect at all.
    Pass,
}

/// The drive device: the drive plus the register-level protocol of its
/// syscall range.
pub struct EmulatorDrive {
    pub drive: Drive,
}

impl EmulatorDrive {
    /// Wraps an already-built drive.
    pub fn new(drive: Drive) -> (r: EmulatorDrive)
        ensures
            r.drive == drive,
    {
        EmulatorDrive { drive }
    }

    /// How many files the drive lists.
    pub fn file_count(&self) -> (r: u32)
        requires
            self.drive.wf(),
        ensures
            r == self.drive.files@.len(),
    {
        self.drive.files.len() as u32
    }

    /// The byte length of the path at `index` in the listing.
    pub fn filename_len(&self, index: u32) -> (r: Result<u32, DriveError>)
        requires
            self.drive.wf(),
        ensures
            match r {
                Ok(l) => index < self.drive.files@.len() && l == self.drive.files@[
                    index as int
                ].path@.len(),
                Err(e) => e == DriveError::BoundsError && index >= self.drive.files@.len(),
            },
    {
        if (index as usize) < self.drive.files.len() {
            Ok(self.drive.files[index as usize].path.len() as u32)
        } else {
            Err(DriveError::BoundsError)
        }
    }

    /// One byte of the path at `index`: the guest pulls filenames one
    /// character at a time.
    pub fn filename_index(&self, index: u32, char_index: u32) -> (r: Result<u32, DriveError>)
        requires
            self.drive.wf(),
        ensures
            match r {
                Ok(c) => {
                    &&& index < self.drive.files@.len()
                    &&& char_index < self.drive.files@[index as int].path@.len()
                    &&& c == self.drive.files@[index as int].path@[char_index as int]
                },
                Err(e) => e == DriveError::BoundsError && (index >= self.drive.files@.len()
                    || (index < self.drive.files@.len() && char_index >= self.drive.files@[
                    index as int
                ].path@.len())),
            },
    {
        if (index as usize) < self.drive.files.len() {
            let path = &self.drive.files[index as usize].path;
            if (char_index as usize) < path.len() {
                Ok(path[char_index as usize] as u32)
            } else {
                Err(DriveError::BoundsError)
            }
        } else {
            Err(DriveError::BoundsError)
        }
    }

    /// The size of the file whose terminated name sits in `window`.
    pub fn file_size(&self, window: &Vec<u8>) -> (r: Result<u32, DriveError>)
        requires
            self.drive.wf(),
        ensures
            match r {
                Ok(sz) => exists|n: int|
                    #[trigger] is_first_nul(window@, n) && exists|i: int|
                        #[trigger] is_first_match(
                            self.drive.files.deep_view(),
                            window@.subrange(0, n),
                            i,
                        ) && sz == self.drive.files.deep_view()[i].data.len(),
                Err(DriveError::UnterminatedPath) => nul_free(window@),
                Err(DriveError::NotAFile) => exists|n: int|
                    #[trigger] is_first_nul(window@, n) && !has_match(
                        self.drive.files.deep_view(),
                        window@.subrange(0, n),
                    ),
                Err(DriveError::BoundsError) => false,
            },
    {
        let path = match parse_path(window) {
            Ok(p) => p,
            Err(e) => {
                return Err(e);
            },
        };
        self.drive.file_size(&path)
    }

    /// `count` bytes at `offset` of the named file, to be written into
    /// guest memory at `dest`.
    pub fn read_file(&self, window: &Vec<u8>, offset: u32, count: u32, dest: u32) -> (r: Result<
        DriveResponse,
        DriveError,
    >)
        requires
            self.drive.wf(),
        ensures
            match r {
                Ok(resp) => {
                    &&& resp matches DriveResponse::MemWrite { addr, bytes }
                    &&& addr == dest
                    &&& exists|n: int|
                        #[trigger] is_first_nul(window@, n) && exists|i: int|
                            #[trigger] is_first_match(
                                self.drive.files.deep_view(),
                                window@.subrange(0, n),
                                i,
                            ) && bytes@ == region_of(
                                self.drive.files.deep_view()[i].data,
                                offset as int,
                                count as int,
                            )
                },
                Err(DriveError::UnterminatedPath) => nul_free(window@),
                Err(DriveError::NotAFile) => exists|n: int|
                    #[trigger] is_first_nul(window@, n) && !has_match(
                        self.drive.files.deep_view(),
                        window@.subrange(0, n),
                    ),
                Err(DriveError::BoundsError) => false,
            },
    {
        let path = match parse_path(window) {
            Ok(p) => p,
            Err(e) => {
                return Err(e);
            },
        };
        match self.drive.read_file_region(&path, offset, count) {
            Ok(bytes) => Ok(DriveResponse::MemWrite { addr: dest, bytes }),
            Err(e) => Err(e),
        }
    }

    /// The drive's trap handler.
    ///
    /// Dispatches on the syscall number: listing queries answer from
    /// the registers alone; the path-taking requests read the
    /// terminated name from `window`, the guest bytes the harness read
    /// at the address in the first parameter register.  Numbers the
    /// drive does not serve pass through with no effect.
    pub fn handle_trap(
        &self,
        syscall: u32,
        r1: u32,
        r2: u32,
        r3: u32,
        r4: u32,
        window: &Vec<u8>,
    ) -> (r: Result<DriveResponse, DriveError>)
        requires
            self.drive.wf(),
        ensures
            syscall == DRIVE_FILE_COUNT_SYSCALL ==> (r matches Ok(DriveResponse::Value(v)) && v
                == self.drive.files@.len()),
            syscall == DRIVE_FILENAME_LEN_SYSCALL ==> match r {
                Ok(resp) => resp matches DriveResponse::Value(v) && r1 < self.drive.files@.len()
                    && v == self.drive.files@[r1 as int].path@.len(),
                Err(e) => e == DriveError::BoundsError && r1 >= self.drive.files@.len(),
            },
            syscall == DRIVE_FILENAME_INDEX_SYSCALL ==> match r {
                Ok(resp) => {
                    &&& resp matches DriveResponse::Value(v)
                    &&& r1 < self.drive.files@.len()
                    &&& r2 < self.drive.files@[r1 as int].path@.len()
                    &&& v == self.drive.files@[r1 as int].path@[r2 as int]
                },
                Err(e) => e == DriveError::BoundsError && (r1 >= self.drive.files@.len() || (r1
                    < self.drive.files@.len() && r2 >= self.drive.files@[r1 as int].path@.len())),
            },
            syscall == DRIVE_FILE_SIZE_SYSCALL ==> match r {
                Ok(resp) => resp matches DriveResponse::Value(v) && exists|n: int|
                    #[trigger] is_first_nul(window@, n) && exists|i: int|
                        #[trigger] is_first_match(
                            self.drive.files.deep_view(),
                            window@.subrange(0, n),
                            i,
                        ) && v == self.drive.files.deep_view()[i].data.len(),
                Err(DriveError::UnterminatedPath) => nul_free(window@),
                Err(DriveError::NotAFile) => exists|n: int|
                    #[trigger] is_first_nul(window@, n) && !has_match(
                        self.drive.files.deep_view(),
                        window@.subrange(0, n),
                    ),
                Err(DriveError::BoundsError) => false,
            },
            syscall == DRIVE_READ_FILE_SYSCALL ==> match r {
                Ok(resp) => {
                    &&& resp matches DriveResponse::MemWrite { addr, bytes }
                    &&& addr == r4
                    &&& exists|n: int|
                        #[trigger] is_first_nul(window@, n) && exists|i: int|
                            #[trigger] is_first_match(
                                self.drive.files.deep_view(),
                                window@.subrange(0, n),
                                i,
                            ) && bytes@ == region_of(
                                self.drive.files.deep_view()[i].data,
                                r2 as int,
                                r3 as int,
                            )
                },
                Err(DriveError::UnterminatedPath) => nul_free(window@),
                Err(DriveError::NotAFile) => exists|n: int|
                    #[trigger] is_first_nul(window@, n) && !has_match(
                        self.drive.files.deep_view(),
                        window@.subrange(0, n),
                    ),
                Err(DriveError::BoundsError) => false,
            },
            syscall > DRIVE_READ_FILE_SYSCALL ==> (r matches Ok(resp) && resp is Pass),
    {
        if syscall == DRIVE_FILE_COUNT_SYSCALL {
            Ok(DriveResponse::Value(self.file_count()))
        } else if syscall == DRIVE_FILENAME_LEN_SYSCALL {
            match self.filename_len(r1) {
                Ok(v) => Ok(DriveResponse::Value(v)),
                Err(e) => Err(e),
            }
        } else if syscall == DRIVE_FILENAME_INDEX_SYSCALL {
            match self.filename_index(r1, r2) {
                Ok(v) => Ok(DriveResponse::Value(v)),
                Err(e) => Err(e),
            }
        } else if syscall == DRIVE_FILE_SIZE_SYSCALL {
            match self.file_size(window) {
                Ok(v) => Ok(DriveResponse::Value(v)),
                Err(e) => Err(e),
            }
        } else if syscall == DRIVE_READ_FILE_SYSCALL {
            match self.read_file(window, r2, r3, r4) {
                Ok(resp) => Ok(resp),
                Err(e) => Err(e),
            }
        } else {
            Ok(DriveResponse::Pass)
        }
    }

    /// The device's reported name.
    pub fn name(&self) -> (r: &'static str)
        ensures
            r@ == "EmulatorDrive"@,
    {
        "EmulatorDrive"
    }

    /// Whether this syscall needs the path window read from guest
    /// memory at the address in the first parameter register.
    pub fn needs_path_window(syscall: u32) -> (r: bool)
        ensures
            r == (syscall == DRIVE_FILE_SIZE_SYSCALL || syscall == DRIVE_READ_FILE_SYSCALL),
    {
        syscall == DRIVE_FILE_SIZE_SYSCALL || syscall == DRIVE_READ_FILE_SYSCALL
    }
}

} // verus!

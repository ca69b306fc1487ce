use armchine::configuration::{get_features, Arguments};
use armchine::console::ConsoleIO;
use armchine::dynmemory::{align, DynamicMemoryAllocations, HeapError};
use armchine::features::{owning_device, DeviceKind, Feature};
use armchine::filesystem::{
    ArchiveNode, Drive, DriveError, DriveFile, DriveResponse, EmulatorDrive,
};
use armchine::input::InputButton;

fn file(name: &str, data: &[u8]) -> ArchiveNode {
    ArchiveNode::File {
        name: name.as_bytes().to_vec(),
        data: data.to_vec(),
    }
}

fn dir(name: &str, entries: Vec<ArchiveNode>) -> ArchiveNode {
    ArchiveNode::Directory {
        name: name.as_bytes().to_vec(),
        entries,
    }
}

/// The sample drive: `/a.txt` holding `abcd` and `/dir/b.bin` empty,
/// with self and parent entries present as the archive reports them.
fn sample_drive() -> Drive {
    let root = dir(
        "",
        vec![
            dir(".", vec![]),
            dir("..", vec![]),
            file("a.txt", b"abcd"),
            dir("dir", vec![dir(".", vec![]), dir("..", vec![]), file("b.bin", b"")]),
        ],
    );
    Drive::new(&root)
}

fn nul_window(path: &str) -> Vec<u8> {
    let mut w = path.as_bytes().to_vec();
    w.push(0);
    w
}

#[test]
fn listing_is_flat_ordered_and_skips_dot_entries() {
    let drive = sample_drive();
    let listing = drive.get_listing();
    assert_eq!(listing.len(), 2);
    assert_eq!(listing[0].path, b"/a.txt".to_vec());
    assert_eq!(listing[0].data, b"abcd".to_vec());
    assert_eq!(listing[1].path, b"/dir/b.bin".to_vec());
    assert_eq!(listing[1].data, Vec::<u8>::new());
}

#[test]
fn listing_order_is_depth_first() {
    let root = dir(
        "",
        vec![
            file("a.txt", b"1"),
            dir(
                "inner",
                vec![file("x.bin", b"2"), dir("deep", vec![file("y.bin", b"3")])],
            ),
            file("z.txt", b"4"),
        ],
    );
    let drive = Drive::new(&root);
    let paths: Vec<&[u8]> = drive.get_listing().iter().map(|f| f.path.as_slice()).collect();
    assert_eq!(
        paths,
        vec![
            b"/a.txt".as_slice(),
            b"/inner/x.bin".as_slice(),
            b"/inner/deep/y.bin".as_slice(),
            b"/z.txt".as_slice(),
        ]
    );
}

#[test]
fn drive_scenario_over_traps() {
    let ed = EmulatorDrive::new(sample_drive());
    assert!(ed.drive.is_wf());

    // file_count
    assert_eq!(ed.file_count(), 2);
    match ed.handle_trap(0, 0, 0, 0, 0, &vec![]) {
        Ok(DriveResponse::Value(v)) => assert_eq!(v, 2),
        _ => panic!("file_count trap misbehaved"),
    }

    // filename_len(0) is the path length of /a.txt
    assert_eq!(ed.filename_len(0), Ok(6));

    // filename_index spells the path out one byte at a time
    let mut name = Vec::new();
    for k in 0..6 {
        name.push(ed.filename_index(0, k).unwrap() as u8);
    }
    assert_eq!(name, b"/a.txt".to_vec());

    // file_size("/a.txt") == 4
    match ed.handle_trap(3, 0, 0, 0, 0, &nul_window("/a.txt")) {
        Ok(DriveResponse::Value(v)) => assert_eq!(v, 4),
        _ => panic!("file_size trap misbehaved"),
    }

    // read_file("/a.txt", 0, 4, dest) writes exactly a,b,c,d at dest
    match ed.handle_trap(4, 0, 0, 4, 0x8000, &nul_window("/a.txt")) {
        Ok(DriveResponse::MemWrite { addr, bytes }) => {
            assert_eq!(addr, 0x8000);
            assert_eq!(bytes, b"abcd".to_vec());
        }
        _ => panic!("read_file trap misbehaved"),
    }

    // the empty file reads empty
    match ed.handle_trap(3, 0, 0, 0, 0, &nul_window("/dir/b.bin")) {
        Ok(DriveResponse::Value(v)) => assert_eq!(v, 0),
        _ => panic!("file_size of empty file misbehaved"),
    }
}

#[test]
fn drive_lookup_is_case_insensitive_and_skips_self_steps() {
    let drive = sample_drive();
    assert_eq!(drive.read_file(&b"/A.TXT".to_vec()).unwrap(), b"abcd".to_vec());
    assert_eq!(drive.read_file(&b"./a.txt".to_vec()).unwrap(), b"abcd".to_vec());
    assert_eq!(drive.read_file(&b"a.txt".to_vec()).unwrap(), b"abcd".to_vec());
    assert_eq!(drive.read_file(&b"//dir/./B.BIN".to_vec()).unwrap(), Vec::<u8>::new());
}

#[test]
fn drive_errors_are_distinct() {
    let ed = EmulatorDrive::new(sample_drive());
    // unknown path, directory path, parent step: one NotAFile condition
    assert_eq!(
        ed.drive.file_size(&b"/missing.txt".to_vec()),
        Err(DriveError::NotAFile)
    );
    assert_eq!(ed.drive.file_size(&b"/dir".to_vec()), Err(DriveError::NotAFile));
    assert_eq!(
        ed.drive.file_size(&b"/dir/../a.txt".to_vec()),
        Err(DriveError::NotAFile)
    );
    // listing indexes are bounds-checked
    assert_eq!(ed.filename_len(2), Err(DriveError::BoundsError));
    assert_eq!(ed.filename_index(0, 6), Err(DriveError::BoundsError));
    assert_eq!(ed.filename_index(9, 0), Err(DriveError::BoundsError));
    // a window with no terminator fails distinctly instead of scanning on
    let unterminated = b"/a.txt".to_vec();
    match ed.handle_trap(3, 0, 0, 0, 0, &unterminated) {
        Err(DriveError::UnterminatedPath) => {}
        _ => panic!("unterminated path must fail distinctly"),
    }
}

#[test]
fn drive_region_reads_clip_to_the_file() {
    let drive = sample_drive();
    let p = b"/a.txt".to_vec();
    assert_eq!(drive.read_file_region(&p, 0, 4).unwrap(), b"abcd".to_vec());
    assert_eq!(drive.read_file_region(&p, 1, 2).unwrap(), b"bc".to_vec());
    assert_eq!(drive.read_file_region(&p, 2, 100).unwrap(), b"cd".to_vec());
    assert_eq!(drive.read_file_region(&p, 9, 3).unwrap(), Vec::<u8>::new());
}

#[test]
fn drive_ignores_foreign_syscalls() {
    let ed = EmulatorDrive::new(sample_drive());
    match ed.handle_trap(0x60, 1, 2, 3, 4, &vec![]) {
        Ok(DriveResponse::Pass) => {}
        _ => panic!("a foreign syscall must pass through"),
    }
    match ed.handle_trap(0x10, 0, 0, 0, 0, &vec![]) {
        Ok(DriveResponse::Pass) => {}
        _ => panic!("an owned but unassigned number must pass through"),
    }
}

#[test]
fn align_rounds_up_to_the_boundary() {
    assert_eq!(align(0, 12), 0);
    assert_eq!(align(1, 12), 4096);
    assert_eq!(align(4095, 12), 4096);
    assert_eq!(align(4096, 12), 4096);
    assert_eq!(align(4097, 12), 8192);
    assert_eq!(align(3, 2), 4);
    assert_eq!(align(0xFFFF_F000, 12), 0xFFFF_F000);
}

#[test]
fn heap_bases_are_pages_and_never_overlap() {
    let mut h = DynamicMemoryAllocations::new(0x1000);
    // heap origin: first 4 MiB boundary above the image
    assert_eq!(h.memory_base, 0x40_0000);
    let mut recs = Vec::new();
    for req in [100u32, 4096, 1, 0x2000, 4097] {
        recs.push(h.allocate(req).unwrap());
    }
    for r in &recs {
        assert_eq!(r.base % 4096, 0);
        assert_eq!(r.size % 4096, 0);
    }
    for i in 0..recs.len() {
        for j in 0..recs.len() {
            if i != j {
                let (a, b) = (&recs[i], &recs[j]);
                let disjoint = a.base as u64 + a.size as u64 <= b.base as u64
                    || b.base as u64 + b.size as u64 <= a.base as u64;
                assert!(disjoint, "regions {} and {} overlap", i, j);
            }
        }
    }
    // sizes are the requests rounded up to pages
    assert_eq!(recs[0].size, 4096);
    assert_eq!(recs[3].size, 0x2000);
    assert_eq!(recs[4].size, 0x2000);
    // the allocator only grows
    assert_eq!(recs[0].base, 0x40_0000);
    assert_eq!(recs[1].base, 0x40_1000);
}

#[test]
fn heap_trap_serves_only_its_number() {
    let mut h = DynamicMemoryAllocations::new(0);
    let r = h.handle_trap(0x60, 123).unwrap();
    let rec = r.expect("the allocate syscall must allocate");
    assert_eq!(rec.base, 0);
    assert_eq!(rec.size, 4096);
    // an owned but unassigned number does nothing
    assert_eq!(h.handle_trap(0x61, 123), Ok(None));
    assert_eq!(h.allocations.len(), 1);
}

#[test]
fn heap_exhaustion_is_detected() {
    let mut h = DynamicMemoryAllocations::new(0x1000);
    assert_eq!(h.allocate(0xFFFF_F001), Err(HeapError::AllocationExhausted));
    assert!(h.allocations.is_empty());
    // fill the address space to its very top, then any more must fail
    h.allocate(0xFFBF_0000).unwrap();
    let last = h.allocate(0x1_0000).unwrap();
    assert_eq!(last.base as u64 + last.size as u64, 1u64 << 32);
    assert_eq!(h.allocate(1), Err(HeapError::AllocationExhausted));
}

#[test]
fn heap_teardown_returns_every_region_and_clears() {
    let mut h = DynamicMemoryAllocations::new(0);
    let a = h.allocate(1).unwrap();
    let b = h.allocate(0x1000).unwrap();
    let regions = h.stop();
    assert_eq!(regions, vec![a, b]);
    assert!(h.allocations.is_empty());
    // teardown is safe to repeat
    assert_eq!(h.stop(), Vec::new());
}

#[test]
fn console_echoes_exactly_one_trigger_byte() {
    let con = ConsoleIO::new();
    // writing 65 to the trigger byte produces 'A'
    let out = con.handle_access(0xFF000, 65);
    assert_eq!(out, Some(65));
    assert_eq!(out.unwrap() as char, 'A');
    // everything else in (and out of) the page produces nothing
    assert_eq!(con.handle_access(0xFF001, 65), None);
    assert_eq!(con.handle_access(0xFEFFF, 65), None);
    assert_eq!(con.handle_access(0x100000, 65), None);
    // only the low 8 bits count
    assert_eq!(con.handle_access(0xFF000, 0x141), Some(0x41));
    assert_eq!(con.region(), (0xFF000, 4096));
}

#[test]
fn trap_routing_follows_the_assigned_ranges() {
    assert_eq!(owning_device(0x00), Some(DeviceKind::Drive));
    assert_eq!(owning_device(0x10), Some(DeviceKind::Drive));
    assert_eq!(owning_device(0x11), None);
    assert_eq!(owning_device(0x5F), None);
    assert_eq!(owning_device(0x60), Some(DeviceKind::Heap));
    assert_eq!(owning_device(0x80), Some(DeviceKind::Heap));
    assert_eq!(owning_device(0x81), None);
    assert_eq!(owning_device(0x160), Some(DeviceKind::Gpu));
    assert_eq!(owning_device(0x180), Some(DeviceKind::Gpu));
    assert_eq!(owning_device(0x181), None);
}

#[test]
fn device_roster_holds_console_drive_heap_in_order() {
    let args = Arguments {
        iso: String::from("game.iso"),
        debug: false,
    };
    let features = get_features(&args, 0x2000, sample_drive());
    assert_eq!(features.len(), 3);
    assert_eq!(features[0].name(), "ConsoleIO");
    assert_eq!(features[1].name(), "EmulatorDrive");
    assert_eq!(features[2].name(), "DynamicMemory");
    assert_eq!(features[0].kind(), DeviceKind::Console);
    assert_eq!(features[1].kind(), DeviceKind::Drive);
    assert_eq!(features[2].kind(), DeviceKind::Heap);
    match &features[2] {
        Feature::Heap(h) => assert_eq!(h.memory_base, 0x40_0000),
        _ => panic!("the heap device must sit last"),
    }
}

#[test]
fn input_buttons_carry_their_group_codes() {
    assert_eq!(InputButton::DirectionBase.code(), 0x20);
    assert_eq!(InputButton::Up.code(), 0x21);
    assert_eq!(InputButton::Down.code(), 0x22);
    assert_eq!(InputButton::Left.code(), 0x23);
    assert_eq!(InputButton::Right.code(), 0x24);
    assert_eq!(InputButton::ButtonBase.code(), 0xB0);
    assert_eq!(InputButton::A.code(), 0xB1);
    assert_eq!(InputButton::B.code(), 0xB2);
    assert_eq!(InputButton::C.code(), 0xB3);
    assert_eq!(InputButton::D.code(), 0xB4);
}

#[test]
fn drive_listing_fits_in_drivefile_values() {
    let f = DriveFile {
        path: b"/x".to_vec(),
        data: vec![1, 2, 3],
    };
    assert_eq!(f.path.len(), 2);
    assert_eq!(f.data, vec![1, 2, 3]);
}

use armchine::emulator::{
    apply_segments, load_executable, ExecutableImage, LoadError, Segment, SymbolEntry,
};

fn seg(vaddr: u64, offset: u64, file_size: u64, mem_size: u64) -> Segment {
    Segment {
        vaddr,
        offset,
        file_size,
        mem_size,
    }
}

fn sym(name: &str, value: u64) -> SymbolEntry {
    SymbolEntry {
        name: name.as_bytes().to_vec(),
        value,
    }
}

/// A small well-formed image: a reserved first segment, then two
/// loadable ones.
fn sample_image() -> (ExecutableImage, Vec<u8>) {
    let blob: Vec<u8> = (0u8..64).collect();
    let image = ExecutableImage {
        segments: vec![
            seg(0xdead, 0xdead, 0xdead, 0xdead), // reserved first entry, never read
            seg(0x100, 8, 4, 16),                // bytes 8..12 at 0x100, zero tail to 0x110
            seg(0x200, 32, 8, 8),                // bytes 32..40 at 0x200
        ],
        symbols: vec![sym("main", 0x50), sym("_start", 0x104), sym("_start", 0x999)],
    };
    (image, blob)
}

#[test]
fn load_resolves_entry_and_footprint() {
    let (image, blob) = sample_image();
    let plan = load_executable(&image, &blob).unwrap();
    // footprint: max(0x100 + 16, 0x200 + 8) = 0x208
    assert_eq!(plan.mem_size, 0x208);
    assert_eq!(plan.mapped_size, 0x1000);
    // entry: the value of the FIRST symbol named _start
    assert_eq!(plan.entry, 0x104);
}

#[test]
fn load_rounds_exact_page_to_itself() {
    let blob: Vec<u8> = vec![0; 16];
    let image = ExecutableImage {
        segments: vec![seg(0, 0, 0, 0), seg(0, 0, 16, 0x1000)],
        symbols: vec![sym("_start", 0)],
    };
    let plan = load_executable(&image, &blob).unwrap();
    assert_eq!(plan.mem_size, 0x1000);
    assert_eq!(plan.mapped_size, 0x1000);
}

#[test]
fn load_fails_without_entry_symbol() {
    let (mut image, blob) = sample_image();
    image.symbols = vec![sym("start", 1), sym("_Start", 2)];
    assert_eq!(
        load_executable(&image, &blob),
        Err(LoadError::MissingEntrySymbol)
    );
}

#[test]
fn load_fails_on_segment_outside_binary() {
    let (mut image, blob) = sample_image();
    image.segments[2] = seg(0x200, 60, 8, 8); // 60 + 8 > 64
    assert_eq!(load_executable(&image, &blob), Err(LoadError::MalformedImage));
}

#[test]
fn load_fails_on_file_size_past_mem_size() {
    let (mut image, blob) = sample_image();
    image.segments[1] = seg(0x100, 8, 16, 4);
    assert_eq!(load_executable(&image, &blob), Err(LoadError::MalformedImage));
}

#[test]
fn loaded_memory_matches_file_bytes_exactly() {
    let (image, blob) = sample_image();
    let plan = load_executable(&image, &blob).unwrap();
    let mut mem: Vec<u8> = vec![0; plan.mapped_size as usize];
    apply_segments(&mut mem, &image, &blob);
    // every loadable segment's file bytes landed at its guest address
    for k in 0..4 {
        assert_eq!(mem[0x100 + k], blob[8 + k]);
    }
    for k in 0..8 {
        assert_eq!(mem[0x200 + k], blob[32 + k]);
    }
    // everything else is still zero: the zero-filled tail and the gaps
    for a in 0..mem.len() {
        let in_first = (0x100..0x104).contains(&a);
        let in_second = (0x200..0x208).contains(&a);
        if !in_first && !in_second {
            assert_eq!(mem[a], 0, "byte at {:#x} was touched", a);
        }
    }
}

#[test]
fn empty_image_plans_nothing() {
    let image = ExecutableImage {
        segments: vec![],
        symbols: vec![sym("_start", 0x40)],
    };
    let blob = vec![];
    let plan = load_executable(&image, &blob).unwrap();
    assert_eq!(plan.mem_size, 0);
    assert_eq!(plan.mapped_size, 0);
    assert_eq!(plan.entry, 0x40);
}

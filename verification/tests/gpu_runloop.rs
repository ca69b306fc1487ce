use armchine::gpu::{
    create_feature, decode_indices, decode_vertices, submit_request, BackendKind, GPUBackend,
    GPUFeature, GpuError, GpuTrap, GpuVertex, HeadlessBackend,
};
use armchine::runloop::{
    initial_registers, BurstOutcome, LoopAction, RunLoop, RunState, INITIAL_STACK_POINTER,
};

fn le_bytes_of_words(words: &[u32]) -> Vec<u8> {
    let mut v = Vec::new();
    for w in words {
        v.extend_from_slice(&w.to_le_bytes());
    }
    v
}

fn le_bytes_of_indices(idx: &[u16]) -> Vec<u8> {
    let mut v = Vec::new();
    for w in idx {
        v.extend_from_slice(&w.to_le_bytes());
    }
    v
}

/// Three vertices with distinct word patterns, as the guest would
/// submit them: position components first, then color components.
fn three_vertices() -> (Vec<u8>, Vec<GpuVertex>) {
    let mut words = Vec::new();
    let mut expect = Vec::new();
    for i in 0u32..3 {
        let mut w = [0u32; 8];
        for j in 0u32..8 {
            w[j as usize] = 0x3f80_0000 + i * 8 + j; // bit patterns of small floats
        }
        words.extend_from_slice(&w);
        expect.push(GpuVertex { words: w });
    }
    (le_bytes_of_words(&words), expect)
}

#[test]
fn vertex_decode_is_byte_exact() {
    let (bytes, expect) = three_vertices();
    assert_eq!(bytes.len(), 96);
    let got = decode_vertices(&bytes, 3);
    assert_eq!(got, expect);
}

#[test]
fn index_decode_is_little_endian() {
    let bytes = le_bytes_of_indices(&[0, 1, 2]);
    assert_eq!(bytes, vec![0, 0, 1, 0, 2, 0]);
    assert_eq!(decode_indices(&bytes, 3), vec![0, 1, 2]);
    let bytes2 = vec![0x34, 0x12];
    assert_eq!(decode_indices(&bytes2, 1), vec![0x1234]);
}

#[test]
fn submission_reaches_the_backend_on_update() {
    let (vbytes, expect) = three_vertices();
    let ibytes = le_bytes_of_indices(&[0, 1, 2]);
    let mut gpu = GPUFeature::new(HeadlessBackend::new(true));
    gpu.copy_vertex_from_memory(&vbytes, 3, &ibytes, 3);
    assert!(gpu.backend.shown.is_none(), "nothing presented before update");
    gpu.update();
    let shown = gpu.backend.shown.as_ref().expect("update must present the frame");
    assert_eq!(shown.vertices, expect);
    assert_eq!(shown.indices, vec![0, 1, 2]);
    assert!(gpu.pending.is_none());
    assert!(gpu.backend.frame.is_none());
}

#[test]
fn later_submission_replaces_the_pending_frame() {
    let (vbytes, expect) = three_vertices();
    let ibytes = le_bytes_of_indices(&[0, 1, 2]);
    let mut gpu = GPUFeature::new(HeadlessBackend::new(true));
    // first submission, never presented
    gpu.copy_vertex_from_memory(&vbytes, 3, &ibytes, 3);
    // second submission before any update: one vertex, one index
    let vbytes2 = le_bytes_of_words(&[9, 8, 7, 6, 5, 4, 3, 2]);
    let ibytes2 = le_bytes_of_indices(&[0]);
    gpu.copy_vertex_from_memory(&vbytes2, 1, &ibytes2, 1);
    gpu.update();
    let shown = gpu.backend.shown.as_ref().unwrap();
    assert_eq!(shown.vertices.len(), 1, "the replacement is total, not appended");
    assert_eq!(shown.vertices[0].words, [9, 8, 7, 6, 5, 4, 3, 2]);
    assert_eq!(shown.indices, vec![0]);
    assert_ne!(shown.vertices, expect);
    // an update with nothing pending keeps the last presented frame
    gpu.update();
    assert_eq!(gpu.backend.shown.as_ref().unwrap().indices, vec![0]);
}

#[test]
fn submission_registers_give_byte_counts() {
    let req = submit_request(0x9000, 3, 0xA000, 3);
    assert_eq!(req.vertex_addr, 0x9000);
    assert_eq!(req.vertex_bytes, 96);
    assert_eq!(req.index_addr, 0xA000);
    assert_eq!(req.index_bytes, 6);
}

#[test]
fn gpu_trap_numbers() {
    assert_eq!(
        GPUFeature::<HeadlessBackend>::trap_kind(0x160),
        GpuTrap::SubmitDrawList
    );
    assert_eq!(GPUFeature::<HeadlessBackend>::trap_kind(0x161), GpuTrap::Vsync);
    assert_eq!(GPUFeature::<HeadlessBackend>::trap_kind(0x162), GpuTrap::Pass);
    assert_eq!(GPUFeature::<HeadlessBackend>::trap_kind(0x00), GpuTrap::Pass);
}

#[test]
fn gpu_reports_its_surface() {
    let gpu = GPUFeature::new(HeadlessBackend::new(true));
    assert!(gpu.is_open());
    assert_eq!(gpu.name(), "GPUFeature");
    let gpu2 = GPUFeature::new(HeadlessBackend::new(false));
    assert!(!gpu2.is_open());
}

#[test]
fn backend_choice_honors_preference_and_availability() {
    let avail = vec![BackendKind::Software, BackendKind::Accelerated];
    assert_eq!(create_feature(None, &avail), Ok(BackendKind::Software));
    assert_eq!(
        create_feature(Some(BackendKind::Accelerated), &avail),
        Ok(BackendKind::Accelerated)
    );
    assert_eq!(
        create_feature(Some(BackendKind::Headless), &avail),
        Err(GpuError::BackendUnavailable(BackendKind::Headless))
    );
    assert_eq!(
        create_feature(None, &Vec::new()),
        Err(GpuError::NoBackendsAvailable)
    );
}

#[test]
fn entry_registers_use_the_fixed_stack() {
    let (sp, pc) = initial_registers(0x104);
    assert_eq!(sp, INITIAL_STACK_POINTER);
    assert_eq!(sp, 0x10000);
    assert_eq!(pc, 0x104);
}

#[test]
fn closed_surface_stops_before_the_next_burst() {
    let mut rl = RunLoop::new();
    assert_eq!(rl.state, RunState::Loaded);
    rl.begin_burst();
    rl.burst_ended(BurstOutcome::Trapped);
    // the backend reported its window closed: terminate, no further burst
    let action = rl.service_and_decide(Some(false));
    assert_eq!(action, LoopAction::Stop);
    assert_eq!(rl.state, RunState::Stopped);
}

#[test]
fn open_surface_keeps_the_loop_running() {
    let mut rl = RunLoop::new();
    rl.begin_burst();
    rl.burst_ended(BurstOutcome::Trapped);
    assert_eq!(rl.service_and_decide(Some(true)), LoopAction::RunCpu);
    rl.begin_burst();
    rl.burst_ended(BurstOutcome::Trapped);
    // with no GPU device at all the loop never stops on its own
    assert_eq!(rl.service_and_decide(None), LoopAction::RunCpu);
    rl.begin_burst();
    rl.burst_ended(BurstOutcome::Faulted);
    assert_eq!(rl.service_and_decide(None), LoopAction::Stop);
    assert_eq!(rl.state, RunState::Stopped);
}

use samply_core::stack::{
    fold_recursive_prefix, get_sample_stack, CpuMode, SampleStackInput, StackFrame, StackMode, UnwoundFrame,
    UserUnwind, PERF_CONTEXT_KERNEL, PERF_CONTEXT_USER,
};

fn input(ip: Option<u64>, cpu_mode: CpuMode, callchain: Option<Vec<u64>>) -> SampleStackInput {
    SampleStackInput { ip, cpu_mode, callchain }
}

#[test]
fn fold_collapses_repeated_base() {
    let a = StackFrame::InstructionPointer(0xa, StackMode::User);
    let b = StackFrame::ReturnAddress(0xb, StackMode::User);
    let mut stack = vec![a, b, b, b];
    fold_recursive_prefix(&mut stack);
    assert_eq!(stack, vec![a, b]);
}

#[test]
fn fold_enabled_in_sample_stack() {
    let s = get_sample_stack(&input(None, CpuMode::User, Some(vec![0xa, 0xb, 0xb, 0xb])), None, true);
    assert_eq!(
        s,
        vec![StackFrame::InstructionPointer(0xa, StackMode::User), StackFrame::ReturnAddress(0xb, StackMode::User)]
    );
    let unfolded = get_sample_stack(&input(None, CpuMode::User, Some(vec![0xa, 0xb, 0xb, 0xb])), None, false);
    assert_eq!(unfolded.len(), 4);
}

#[test]
fn ip_only_gives_one_frame() {
    let s = get_sample_stack(&input(Some(0x400500), CpuMode::User, None), None, false);
    assert_eq!(s, vec![StackFrame::InstructionPointer(0x400500, StackMode::User)]);
    let k = get_sample_stack(&input(Some(0xffff0000), CpuMode::Kernel, None), None, true);
    assert_eq!(k, vec![StackFrame::InstructionPointer(0xffff0000, StackMode::Kernel)]);
}

#[test]
fn empty_sample_gives_empty_stack() {
    let s = get_sample_stack(&input(None, CpuMode::User, Some(vec![])), None, false);
    assert!(s.is_empty());
}

#[test]
fn user_callchain_round_trip() {
    let chain = vec![0x1000, 0x2000, 0x3000];
    let s = get_sample_stack(&input(Some(0x9999), CpuMode::User, Some(chain)), None, false);
    assert_eq!(
        s,
        vec![
            StackFrame::InstructionPointer(0x1000, StackMode::User),
            StackFrame::ReturnAddress(0x2000, StackMode::User),
            StackFrame::ReturnAddress(0x3000, StackMode::User),
        ]
    );
}

#[test]
fn context_markers_switch_mode() {
    let chain = vec![PERF_CONTEXT_KERNEL, 0xffff_8000, 0xffff_9000, PERF_CONTEXT_USER, 0x4000];
    let s = get_sample_stack(&input(None, CpuMode::User, Some(chain)), None, false);
    assert_eq!(
        s,
        vec![
            StackFrame::InstructionPointer(0xffff_8000, StackMode::Kernel),
            StackFrame::ReturnAddress(0xffff_9000, StackMode::Kernel),
            StackFrame::ReturnAddress(0x4000, StackMode::User),
        ]
    );
}

#[test]
fn unwound_frames_follow_callchain() {
    let unwind = UserUnwind {
        frames: vec![UnwoundFrame::InstructionPointer(0x10), UnwoundFrame::ReturnAddress(0x20)],
        failed: true,
    };
    let s = get_sample_stack(&input(None, CpuMode::Kernel, Some(vec![0xffff_1000])), Some(&unwind), false);
    assert_eq!(
        s,
        vec![
            StackFrame::InstructionPointer(0xffff_1000, StackMode::Kernel),
            StackFrame::InstructionPointer(0x10, StackMode::User),
            StackFrame::ReturnAddress(0x20, StackMode::User),
            StackFrame::TruncatedStackMarker,
        ]
    );
}

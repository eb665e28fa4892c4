//! Reconstruction of a sample's stack from the kernel callchain and the
//! frames that user-space unwinding produced.
use vstd::prelude::*;

verus! {

/// Whether a frame's address belongs to user space or to the kernel.
#[derive(Clone, Copy, Debug, PartialEq, Eq, Structural)]
pub enum StackMode {
    User,
    Kernel,
}

/// One frame of an unresolved stack.
#[derive(Clone, Copy, Debug, PartialEq, Eq, Structural)]
pub enum StackFrame {
    InstructionPointer(u64, StackMode),
    ReturnAddress(u64, StackMode),
    TruncatedStackMarker,
}

/// The processor mode that a record was taken in.
#[derive(Clone, Copy, Debug, PartialEq, Eq, Structural)]
pub enum CpuMode {
    Unknown,
    Kernel,
    User,
    Hypervisor,
    GuestKernel,
    GuestUser,
}

/// A frame as the user-space unwinder reports it.
#[derive(Clone, Copy, Debug, PartialEq, Eq, Structural)]
pub enum UnwoundFrame {
    InstructionPointer(u64),
    ReturnAddress(u64),
}

/// What user-space unwinding of one sample produced: its frames, innermost
/// first, and whether the walk stopped on an error.
#[derive(Clone, Debug)]
pub struct UserUnwind {
    pub frames: Vec<UnwoundFrame>,
    pub failed: bool,
}

/// Callchain entries at or above this value are context markers, not addresses.
pub const PERF_CONTEXT_MAX: u64 = 0xffff_ffff_ffff_f001;
pub const PERF_CONTEXT_KERNEL: u64 = 0xffff_ffff_ffff_ff80;
pub const PERF_CONTEXT_USER: u64 = 0xffff_ffff_ffff_fe00;
pub const PERF_CONTEXT_GUEST_KERNEL: u64 = 0xffff_ffff_ffff_f780;
pub const PERF_CONTEXT_GUEST_USER: u64 = 0xffff_ffff_ffff_f600;

pub open spec fn spec_mode_of_cpu_mode(m: CpuMode) -> StackMode {
    match m {
        CpuMode::Kernel | CpuMode::GuestKernel => StackMode::Kernel,
        _ => StackMode::User,
    }
}

pub open spec fn spec_mode_of_context(frame: u64) -> Option<StackMode> {
    if frame == PERF_CONTEXT_KERNEL || frame == PERF_CONTEXT_GUEST_KERNEL {
        Some(StackMode::Kernel)
    } else if frame == PERF_CONTEXT_USER || frame == PERF_CONTEXT_GUEST_USER {
        Some(StackMode::User)
    } else {
        None
    }
}

impl StackMode {
    pub fn from_cpu_mode(m: CpuMode) -> (r: StackMode)
        ensures
            r == spec_mode_of_cpu_mode(m),
    {
        match m {
            CpuMode::Kernel | CpuMode::GuestKernel => StackMode::Kernel,
            _ => StackMode::User,
        }
    }

    /// The mode that a callchain context marker switches to, if it names one.
    pub fn from_context_frame(frame: u64) -> (r: Option<StackMode>)
        ensures
            r == spec_mode_of_context(frame),
    {
        if frame == PERF_CONTEXT_KERNEL || frame == PERF_CONTEXT_GUEST_KERNEL {
            Some(StackMode::Kernel)
        } else if frame == PERF_CONTEXT_USER || frame == PERF_CONTEXT_GUEST_USER {
            Some(StackMode::User)
        } else {
            None
        }
    }
}

/// The frames that a callchain contributes, starting in `mode`; `first` says
/// whether no address has been emitted yet.
pub open spec fn callchain_frames_from(chain: Seq<u64>, mode: StackMode, first: bool) -> Seq<StackFrame>
    decreases chain.len(),
{
    if chain.len() == 0 {
        Seq::empty()
    } else {
        let a = chain[0];
        if a >= PERF_CONTEXT_MAX {
            let m = match spec_mode_of_context(a) {
                Some(m) => m,
                None => mode,
            };
            callchain_frames_from(chain.drop_first(), m, first)
        } else {
            let f = if first { StackFrame::InstructionPointer(a, mode) } else { StackFrame::ReturnAddress(a, mode) };
            seq![f] + callchain_frames_from(chain.drop_first(), mode, false)
        }
    }
}

pub open spec fn unwound_frame(f: UnwoundFrame) -> StackFrame {
    match f {
        UnwoundFrame::InstructionPointer(a) => StackFrame::InstructionPointer(a, StackMode::User),
        UnwoundFrame::ReturnAddress(a) => StackFrame::ReturnAddress(a, StackMode::User),
    }
}

/// The frames that user-space unwinding contributes.
pub open spec fn unwound_frames(u: UserUnwind) -> Seq<StackFrame> {
    let frames = u.frames@.map_values(|f: UnwoundFrame| unwound_frame(f));
    if u.failed { frames.push(StackFrame::TruncatedStackMarker) } else { frames }
}

/// `s` with repeated copies of its last frame collapsed into one.
pub open spec fn fold_recursive(s: Seq<StackFrame>) -> Seq<StackFrame>
    decreases s.len(),
{
    if s.len() >= 2 && s[s.len() - 2] == s[s.len() - 1] {
        fold_recursive(s.drop_last())
    } else {
        s
    }
}

/// The inputs of one sample that its stack is built from.
#[derive(Clone, Debug)]
pub struct SampleStackInput {
    pub ip: Option<u64>,
    pub cpu_mode: CpuMode,
    pub callchain: Option<Vec<u64>>,
}

/// The stack of a sample, innermost frame first: callchain frames, then
/// unwound user frames; a lone `ip` when both are empty; optionally folded.
pub open spec fn sample_stack(input: SampleStackInput, unwind: Option<UserUnwind>, fold: bool) -> Seq<StackFrame> {
    let mode = spec_mode_of_cpu_mode(input.cpu_mode);
    let chain = match input.callchain {
        Some(c) => callchain_frames_from(c@, mode, true),
        None => Seq::empty(),
    };
    let user = match unwind {
        Some(u) => unwound_frames(u),
        None => Seq::empty(),
    };
    let all = chain + user;
    if all.len() == 0 {
        match input.ip {
            Some(ip) => seq![StackFrame::InstructionPointer(ip, mode)],
            None => Seq::empty(),
        }
    } else if fold {
        fold_recursive(all)
    } else {
        all
    }
}

proof fn lemma_callchain_step(chain: Seq<u64>, i: int, mode: StackMode, first: bool)
    requires
        0 <= i < chain.len(),
    ensures
        callchain_frames_from(chain.subrange(i, chain.len() as int), mode, first) == ({
            let a = chain[i];
            let rest = chain.subrange(i + 1, chain.len() as int);
            if a >= PERF_CONTEXT_MAX {
                let m = match spec_mode_of_context(a) {
                    Some(m) => m,
                    None => mode,
                };
                callchain_frames_from(rest, m, first)
            } else {
                let f = if first { StackFrame::InstructionPointer(a, mode) } else { StackFrame::ReturnAddress(a, mode) };
                seq![f] + callchain_frames_from(rest, mode, false)
            }
        }),
{
    let s = chain.subrange(i, chain.len() as int);
    assert(s.drop_first() =~= chain.subrange(i + 1, chain.len() as int));
    assert(s[0] == chain[i]);
}

/// Appends the frames of a kernel callchain to `stack`.
fn push_callchain_frames(chain: &Vec<u64>, mode0: StackMode, stack: &mut Vec<StackFrame>)
    ensures
        final(stack)@ == old(stack)@ + callchain_frames_from(chain@, mode0, true),
{
    let mut mode = mode0;
    let mut is_first = true;
    let mut i: usize = 0;
    proof {
        assert(chain@.subrange(0, chain@.len() as int) =~= chain@);
    }
    while i < chain.len()
        invariant
            0 <= i <= chain@.len(),
            old(stack)@ + callchain_frames_from(chain@, mode0, true)
                == stack@ + callchain_frames_from(chain@.subrange(i as int, chain@.len() as int), mode, is_first),
        decreases chain@.len() - i,
    {
        let address = chain[i];
        proof {
            lemma_callchain_step(chain@, i as int, mode, is_first);
        }
        if address >= PERF_CONTEXT_MAX {
            if let Some(new_mode) = StackMode::from_context_frame(address) {
                mode = new_mode;
            }
        } else {
            let frame = if is_first {
                StackFrame::InstructionPointer(address, mode)
            } else {
                StackFrame::ReturnAddress(address, mode)
            };
            proof {
                let rest = callchain_frames_from(chain@.subrange(i + 1, chain@.len() as int), mode, false);
                assert(stack@ + (seq![frame] + rest) =~= stack@.push(frame) + rest);
            }
            stack.push(frame);
            is_first = false;
        }
        i = i + 1;
    }
    proof {
        assert(chain@.subrange(chain@.len() as int, chain@.len() as int) =~= Seq::<u64>::empty());
        assert(stack@ + Seq::<StackFrame>::empty() =~= stack@);
    }
}

/// Appends the frames of user-space unwinding to `stack`.
fn push_unwound_frames(unwind: &UserUnwind, stack: &mut Vec<StackFrame>)
    ensures
        final(stack)@ == old(stack)@ + unwound_frames(*unwind),
{
    let mut i: usize = 0;
    while i < unwind.frames.len()
        invariant
            0 <= i <= unwind.frames@.len(),
            stack@ == old(stack)@ + unwind.frames@.subrange(0, i as int).map_values(|f: UnwoundFrame| unwound_frame(f)),
        decreases unwind.frames@.len() - i,
    {
        let frame = match unwind.frames[i] {
            UnwoundFrame::InstructionPointer(a) => StackFrame::InstructionPointer(a, StackMode::User),
            UnwoundFrame::ReturnAddress(a) => StackFrame::ReturnAddress(a, StackMode::User),
        };
        stack.push(frame);
        i = i + 1;
        proof {
            assert(unwind.frames@.subrange(0, i as int).map_values(|f: UnwoundFrame| unwound_frame(f))
                =~= unwind.frames@.subrange(0, i - 1).map_values(|f: UnwoundFrame| unwound_frame(f)).push(frame));
        }
    }
    proof {
        assert(unwind.frames@.subrange(0, i as int) =~= unwind.frames@);
    }
    if unwind.failed {
        stack.push(StackFrame::TruncatedStackMarker);
        proof {
            let frames = unwind.frames@.map_values(|f: UnwoundFrame| unwound_frame(f));
            assert(old(stack)@ + frames.push(StackFrame::TruncatedStackMarker) =~= (old(stack)@ + frames).push(StackFrame::TruncatedStackMarker));
        }
    }
}

/// Collapses repeated copies of the last frame of `stack` into one.
pub fn fold_recursive_prefix(stack: &mut Vec<StackFrame>)
    ensures
        final(stack)@ == fold_recursive(old(stack)@),
{
    if stack.len() == 0 {
        return;
    }
    let last_frame = stack[stack.len() - 1];
    while stack.len() >= 2 && stack[stack.len() - 2] == last_frame
        invariant
            stack@.len() >= 1,
            stack@[stack@.len() - 1] == last_frame,
            fold_recursive(stack@) == fold_recursive(old(stack)@),
        decreases stack@.len(),
    {
        stack.pop();
    }
}

/// Builds the stack of a sample, innermost frame first.
///
/// The callchain's frames come first (context markers switch the mode and
/// are dropped; the first address is the instruction pointer, the others
/// return addresses), then the frames of user-space unwinding, followed by
/// a truncation marker if the unwinder failed. If that leaves the stack
/// empty, the sample's own `ip` is the only frame. Otherwise, if `fold` is
/// set, repeated copies of the outermost frame are collapsed into one.
pub fn get_sample_stack(input: &SampleStackInput, unwind: Option<&UserUnwind>, fold: bool) -> (r: Vec<StackFrame>)
    ensures
        r@ == sample_stack(*input, match unwind { Some(u) => Some(*u), None => None }, fold),
{
    let mut stack: Vec<StackFrame> = Vec::new();
    let mode = StackMode::from_cpu_mode(input.cpu_mode);
    if let Some(chain) = &input.callchain {
        push_callchain_frames(chain, mode, &mut stack);
    }
    proof {
        assert(stack@ == match input.callchain {
            Some(c) => callchain_frames_from(c@, mode, true),
            None => Seq::<StackFrame>::empty(),
        }) by {
            if input.callchain is Some {
                assert(Seq::<StackFrame>::empty() + callchain_frames_from(input.callchain->0@, mode, true)
                    =~= callchain_frames_from(input.callchain->0@, mode, true));
            }
        }
    }
    if let Some(u) = unwind {
        push_unwound_frames(u, &mut stack);
    } else {
        proof {
            assert(stack@ + Seq::<StackFrame>::empty() =~= stack@);
        }
    }
    if stack.len() == 0 {
        if let Some(ip) = input.ip {
            stack.push(StackFrame::InstructionPointer(ip, mode));
        }
    } else if fold {
        fold_recursive_prefix(&mut stack);
    }
    stack
}

/// The frames of a callchain without context markers, in `mode`.
pub open spec fn plain_callchain_frames(chain: Seq<u64>, mode: StackMode) -> Seq<StackFrame> {
    Seq::new(chain.len(), |i: int| if i == 0 {
        StackFrame::InstructionPointer(chain[0], mode)
    } else {
        StackFrame::ReturnAddress(chain[i], mode)
    })
}

proof fn lemma_plain_callchain(chain: Seq<u64>, mode: StackMode, first: bool)
    requires
        forall|i: int| 0 <= i < chain.len() ==> #[trigger] chain[i] < PERF_CONTEXT_MAX,
    ensures
        callchain_frames_from(chain, mode, first).len() == chain.len(),
        forall|i: int| 0 <= i < chain.len() ==> #[trigger] callchain_frames_from(chain, mode, first)[i] == (
            if i == 0 && first { StackFrame::InstructionPointer(chain[i], mode) } else { StackFrame::ReturnAddress(chain[i], mode) }),
    decreases chain.len(),
{
    if chain.len() > 0 {
        let rest = chain.drop_first();
        assert forall|i: int| 0 <= i < rest.len() implies #[trigger] rest[i] < PERF_CONTEXT_MAX by {
            assert(rest[i] == chain[i + 1]);
        }
        lemma_plain_callchain(rest, mode, false);
        let f = if first { StackFrame::InstructionPointer(chain[0], mode) } else { StackFrame::ReturnAddress(chain[0], mode) };
        assert(callchain_frames_from(chain, mode, first) == seq![f] + callchain_frames_from(rest, mode, false));
        assert forall|i: int| 0 <= i < chain.len() implies #[trigger] callchain_frames_from(chain, mode, first)[i] == (
            if i == 0 && first { StackFrame::InstructionPointer(chain[i], mode) } else { StackFrame::ReturnAddress(chain[i], mode) }) by {
            if i > 0 {
                assert(callchain_frames_from(chain, mode, first)[i] == callchain_frames_from(rest, mode, false)[i - 1]);
                assert(rest[i - 1] == chain[i]);
            }
        }
    }
}

/// A user-mode sample whose callchain holds addresses only, without user
/// unwinding and without folding, has the callchain as its stack: the first
/// address as the instruction pointer, the others as return addresses.
pub proof fn lemma_user_callchain_round_trip(input: SampleStackInput)
    requires
        input.callchain is Some,
        input.callchain->0@.len() > 0,
        forall|i: int| 0 <= i < input.callchain->0@.len() ==> #[trigger] input.callchain->0@[i] < PERF_CONTEXT_MAX,
        spec_mode_of_cpu_mode(input.cpu_mode) == StackMode::User,
    ensures
        sample_stack(input, None, false) == plain_callchain_frames(input.callchain->0@, StackMode::User),
{
    let chain = input.callchain->0@;
    lemma_plain_callchain(chain, StackMode::User, true);
    let s = sample_stack(input, None, false);
    assert(callchain_frames_from(chain, StackMode::User, true) + Seq::<StackFrame>::empty()
        =~= callchain_frames_from(chain, StackMode::User, true));
    assert(s =~= plain_callchain_frames(chain, StackMode::User));
}

/// A sample with neither callchain nor user unwinding has the single frame
/// of its `ip`, if it has one.
pub proof fn lemma_ip_only_stack(input: SampleStackInput, fold: bool)
    requires
        input.callchain is None,
        input.ip is Some,
    ensures
        sample_stack(input, None, fold) == seq![StackFrame::InstructionPointer(input.ip->0, spec_mode_of_cpu_mode(input.cpu_mode))],
{
    assert(Seq::<StackFrame>::empty() + Seq::<StackFrame>::empty() =~= Seq::<StackFrame>::empty());
}

} // verus!

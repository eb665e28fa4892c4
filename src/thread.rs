//! Threads, the samples they emit, and how samples and context switches
//! change a thread's state.
use vstd::prelude::*;
use crate::context_switch::{
    after_running, after_switch_out, ContextSwitchHandler, OffCpuSampleGroup, ThreadContextSwitchData,
    ThreadState,
};
use crate::stacks::UnresolvedStackHandle;

verus! {

/// Maps source timestamps to nanoseconds since a reference timestamp.
#[derive(Clone, Copy, Debug)]
pub struct TimestampConverter {
    pub reference_raw: u64,
}

pub open spec fn spec_convert_time(reference_raw: u64, raw: u64) -> u64 {
    if raw >= reference_raw { (raw - reference_raw) as u64 } else { 0 }
}

impl TimestampConverter {
    pub fn with_reference_timestamp(reference_raw: u64) -> (r: Self)
        ensures
            r.reference_raw == reference_raw,
    {
        TimestampConverter { reference_raw }
    }

    /// Nanoseconds from the reference to `raw`; zero for timestamps before it.
    pub fn convert_time(&self, raw: u64) -> (r: u64)
        ensures
            r == spec_convert_time(self.reference_raw, raw),
    {
        if raw >= self.reference_raw { raw - self.reference_raw } else { 0 }
    }
}

/// A sample waiting to be written to the profile.
#[derive(Clone, Copy, Debug, PartialEq, Eq, Structural)]
pub struct UnresolvedSample {
    /// Index of the profile thread.
    pub thread: usize,
    /// Nanoseconds since the converter's reference timestamp.
    pub profile_timestamp: u64,
    /// The source timestamp.
    pub timestamp: u64,
    pub stack: UnresolvedStackHandle,
    pub cpu_delta_ns: u64,
    pub weight: i32,
}

/// A thread of a process.
#[derive(Debug)]
pub struct Thread {
    pub tid: i32,
    /// Index of the profile thread.
    pub profile_thread: usize,
    pub context_switch_data: ThreadContextSwitchData,
    /// Source timestamp of the last sample taken of this thread.
    pub last_sample_timestamp: Option<u64>,
    /// The stack at the last switch-out, until a sample or a switch-in consumes it.
    pub off_cpu_stack: Option<UnresolvedStackHandle>,
    pub name: Option<String>,
}

/// The weight of the second sample of an off-CPU group: one per remaining tick.
pub open spec fn rest_weight(sample_count: u64, weight_per_sample: i32) -> i32 {
    if sample_count - 1 <= i32::MAX { ((sample_count - 1) * weight_per_sample) as i32 } else { 0 }
}

/// The synthetic samples of an off-CPU group: one at its start carrying
/// `cpu_delta_ns`, and, for more than one tick, one at its end for the rest.
pub open spec fn off_cpu_samples(
    g: OffCpuSampleGroup,
    thread: usize,
    cpu_delta_ns: u64,
    reference_raw: u64,
    weight_per_sample: i32,
    stack: UnresolvedStackHandle,
) -> Seq<UnresolvedSample> {
    let first = UnresolvedSample {
        thread,
        profile_timestamp: spec_convert_time(reference_raw, g.begin_timestamp),
        timestamp: g.begin_timestamp,
        stack,
        cpu_delta_ns,
        weight: weight_per_sample,
    };
    if g.sample_count > 1 {
        seq![first, UnresolvedSample {
            thread,
            profile_timestamp: spec_convert_time(reference_raw, g.end_timestamp),
            timestamp: g.begin_timestamp,
            stack,
            cpu_delta_ns: 0,
            weight: rest_weight(g.sample_count, weight_per_sample),
        }]
    } else {
        seq![first]
    }
}

/// Appends the synthetic samples of an off-CPU group to `samples`.
pub fn process_off_cpu_sample_group(
    off_cpu_sample: OffCpuSampleGroup,
    thread_handle: usize,
    cpu_delta_ns: u64,
    timestamp_converter: &TimestampConverter,
    off_cpu_weight_per_sample: i32,
    off_cpu_stack: UnresolvedStackHandle,
    samples: &mut Vec<UnresolvedSample>,
)
    requires
        0 <= off_cpu_weight_per_sample <= 1,
    ensures
        final(samples)@ == old(samples)@ + off_cpu_samples(
            off_cpu_sample,
            thread_handle,
            cpu_delta_ns,
            timestamp_converter.reference_raw,
            off_cpu_weight_per_sample,
            off_cpu_stack,
        ),
{
    let begin = off_cpu_sample.begin_timestamp;
    samples.push(UnresolvedSample {
        thread: thread_handle,
        profile_timestamp: timestamp_converter.convert_time(begin),
        timestamp: begin,
        stack: off_cpu_stack,
        cpu_delta_ns,
        weight: off_cpu_weight_per_sample,
    });
    if off_cpu_sample.sample_count > 1 {
        let rest = off_cpu_sample.sample_count - 1;
        let ticks: i32 = if rest <= i32::MAX as u64 { rest as i32 } else { 0 };
        proof {
            assert(0 <= ticks * off_cpu_weight_per_sample <= ticks) by (nonlinear_arith)
                requires 0 <= off_cpu_weight_per_sample <= 1, 0 <= ticks;
        }
        samples.push(UnresolvedSample {
            thread: thread_handle,
            profile_timestamp: timestamp_converter.convert_time(off_cpu_sample.end_timestamp),
            timestamp: begin,
            stack: off_cpu_stack,
            cpu_delta_ns: 0,
            weight: ticks * off_cpu_weight_per_sample,
        });
    }
    proof {
        let s = off_cpu_samples(
            off_cpu_sample,
            thread_handle,
            cpu_delta_ns,
            timestamp_converter.reference_raw,
            off_cpu_weight_per_sample,
            off_cpu_stack,
        );
        if off_cpu_sample.sample_count > 1 {
            assert(final(samples)@ =~= old(samples)@ + s);
        } else {
            assert(final(samples)@ =~= old(samples)@ + s);
        }
    }
}

/// The thread and the samples emitted after the thread is seen running at
/// `ts` (a sample or a switch-in): an off-CPU group that ends here is
/// emitted with the saved off-CPU stack, if there is one; the saved stack
/// is cleared either way.
pub open spec fn resume_step(
    t: Thread,
    interval: u64,
    reference_raw: u64,
    weight_per_sample: i32,
    ts: u64,
) -> (Thread, Seq<UnresolvedSample>) {
    let (d, g) = after_running(t.context_switch_data, interval, ts);
    match (g, t.off_cpu_stack) {
        (Some(g), Some(s)) => (
            Thread { context_switch_data: ThreadContextSwitchData { on_cpu_ns: 0, ..d }, off_cpu_stack: None, ..t },
            off_cpu_samples(g, t.profile_thread, d.on_cpu_ns, reference_raw, weight_per_sample, s),
        ),
        _ => (Thread { context_switch_data: d, off_cpu_stack: None, ..t }, Seq::empty()),
    }
}

/// The thread and the samples emitted for a sample taken at `ts`.
///
/// A second sample at the timestamp of the thread's last one is dropped.
/// Otherwise any off-CPU group that ends here is emitted first, then the
/// sample itself with weight one, whose CPU delta is the consumed on-CPU
/// time when context switches are recorded, else the sample's period.
pub open spec fn sample_step(
    t: Thread,
    interval: u64,
    reference_raw: u64,
    weight_per_sample: i32,
    have_context_switches: bool,
    ts: u64,
    period: Option<u64>,
    stack: UnresolvedStackHandle,
) -> (Thread, Seq<UnresolvedSample>) {
    if t.last_sample_timestamp == Some(ts) {
        (t, Seq::empty())
    } else {
        let (t1, off) = resume_step(Thread { last_sample_timestamp: Some(ts), ..t }, interval, reference_raw, weight_per_sample, ts);
        let cpu_delta_ns: u64 = if have_context_switches {
            t1.context_switch_data.on_cpu_ns
        } else {
            match period {
                Some(p) => p,
                None => 0,
            }
        };
        let t2 = if have_context_switches {
            Thread { context_switch_data: ThreadContextSwitchData { on_cpu_ns: 0, ..t1.context_switch_data }, ..t1 }
        } else {
            t1
        };
        let own = UnresolvedSample {
            thread: t.profile_thread,
            profile_timestamp: spec_convert_time(reference_raw, ts),
            timestamp: ts,
            stack,
            cpu_delta_ns,
            weight: 1,
        };
        (t2, off.push(own))
    }
}

/// The thread after a switch-out at `ts`.
pub open spec fn switch_out_step(t: Thread, ts: u64) -> Thread {
    Thread { context_switch_data: after_switch_out(t.context_switch_data, ts), ..t }
}

impl Thread {
    pub fn new(tid: i32, profile_thread: usize) -> (r: Self)
        ensures
            r.tid == tid,
            r.profile_thread == profile_thread,
            r.context_switch_data == (ThreadContextSwitchData { state: ThreadState::Unknown, on_cpu_ns: 0 }),
            r.last_sample_timestamp is None,
            r.off_cpu_stack is None,
            r.name is None,
    {
        Thread {
            tid,
            profile_thread,
            context_switch_data: ThreadContextSwitchData::new(),
            last_sample_timestamp: None,
            off_cpu_stack: None,
            name: None,
        }
    }

    /// Clears what a thread keeps of the run it took part in when it ends.
    pub fn on_remove(&mut self)
        ensures
            final(self).context_switch_data == (ThreadContextSwitchData { state: ThreadState::Unknown, on_cpu_ns: 0 }),
            final(self).last_sample_timestamp is None,
            final(self).off_cpu_stack is None,
            final(self).tid == old(self).tid,
            final(self).profile_thread == old(self).profile_thread,
            final(self).name == old(self).name,
    {
        self.context_switch_data = ThreadContextSwitchData::new();
        self.last_sample_timestamp = None;
        self.off_cpu_stack = None;
    }

    /// Gives a pooled thread the identity of the thread that adopts it.
    pub fn reset_for_reuse(&mut self, tid: i32)
        ensures
            *final(self) == (Thread { tid, ..*old(self) }),
    {
        self.tid = tid;
    }

    fn resume(
        &mut self,
        handler: &ContextSwitchHandler,
        timestamp_converter: &TimestampConverter,
        weight_per_sample: i32,
        ts: u64,
        samples: &mut Vec<UnresolvedSample>,
    )
        requires
            handler.wf(),
            0 <= weight_per_sample <= 1,
        ensures
            ({
                let (t, out) = resume_step(
                    *old(self),
                    handler.off_cpu_sampling_interval_ns,
                    timestamp_converter.reference_raw,
                    weight_per_sample,
                    ts,
                );
                *final(self) == t && final(samples)@ == old(samples)@ + out
            }),
    {
        let group = handler.handle_sample(ts, &mut self.context_switch_data);
        let stack = self.off_cpu_stack.take();
        match (group, stack) {
            (Some(g), Some(s)) => {
                let cpu_delta_ns = handler.consume_cpu_delta(&mut self.context_switch_data);
                process_off_cpu_sample_group(g, self.profile_thread, cpu_delta_ns, timestamp_converter, weight_per_sample, s, samples);
            },
            _ => {
                proof {
                    assert(samples@ + Seq::<UnresolvedSample>::empty() =~= samples@);
                }
            },
        }
    }

    /// Records a sample of this thread at `ts` and appends the samples that it
    /// emits to `samples` (see `sample_step`).
    pub fn handle_sample(
        &mut self,
        handler: &ContextSwitchHandler,
        timestamp_converter: &TimestampConverter,
        weight_per_sample: i32,
        have_context_switches: bool,
        ts: u64,
        period: Option<u64>,
        stack: UnresolvedStackHandle,
        samples: &mut Vec<UnresolvedSample>,
    )
        requires
            handler.wf(),
            0 <= weight_per_sample <= 1,
        ensures
            ({
                let (t, out) = sample_step(
                    *old(self),
                    handler.off_cpu_sampling_interval_ns,
                    timestamp_converter.reference_raw,
                    weight_per_sample,
                    have_context_switches,
                    ts,
                    period,
                    stack,
                );
                *final(self) == t && final(samples)@ == old(samples)@ + out
            }),
    {
        if self.last_sample_timestamp == Some(ts) {
            proof {
                assert(samples@ + Seq::<UnresolvedSample>::empty() =~= samples@);
            }
            return;
        }
        self.last_sample_timestamp = Some(ts);
        self.resume(handler, timestamp_converter, weight_per_sample, ts, samples);
        let cpu_delta_ns = if have_context_switches {
            handler.consume_cpu_delta(&mut self.context_switch_data)
        } else {
            match period {
                Some(p) => p,
                None => 0,
            }
        };
        let ghost before = samples@;
        samples.push(UnresolvedSample {
            thread: self.profile_thread,
            profile_timestamp: timestamp_converter.convert_time(ts),
            timestamp: ts,
            stack,
            cpu_delta_ns,
            weight: 1,
        });
        proof {
            let (t1, off) = resume_step(
                Thread { last_sample_timestamp: Some(ts), ..*old(self) },
                handler.off_cpu_sampling_interval_ns,
                timestamp_converter.reference_raw,
                weight_per_sample,
                ts,
            );
            assert(samples@ =~= old(samples)@ + off.push(samples@.last()));
        }
    }

    /// Records a switch-in of this thread at `ts` and appends the off-CPU
    /// samples that it emits to `samples`.
    pub fn handle_switch_in(
        &mut self,
        handler: &ContextSwitchHandler,
        timestamp_converter: &TimestampConverter,
        weight_per_sample: i32,
        ts: u64,
        samples: &mut Vec<UnresolvedSample>,
    )
        requires
            handler.wf(),
            0 <= weight_per_sample <= 1,
        ensures
            ({
                let (t, out) = resume_step(
                    *old(self),
                    handler.off_cpu_sampling_interval_ns,
                    timestamp_converter.reference_raw,
                    weight_per_sample,
                    ts,
                );
                *final(self) == t && final(samples)@ == old(samples)@ + out
            }),
    {
        self.resume(handler, timestamp_converter, weight_per_sample, ts, samples);
    }

    /// Records a switch-out of this thread at `ts`.
    pub fn handle_switch_out(&mut self, handler: &ContextSwitchHandler, ts: u64)
        ensures
            *final(self) == switch_out_step(*old(self), ts),
    {
        handler.handle_switch_out(ts, &mut self.context_switch_data);
    }
}

/// The profile timestamp before sample `i` of `out`, given that the last
/// sample emitted before `out` was at `prev`.
pub open spec fn previous_profile_timestamp(out: Seq<UnresolvedSample>, prev: int, i: int) -> int {
    if i == 0 { prev } else { out[i - 1].profile_timestamp as int }
}

/// Each sample of `out` carries no more CPU time than the profile time since
/// the sample before it.
pub open spec fn cpu_deltas_within_elapsed(out: Seq<UnresolvedSample>, prev: int) -> bool {
    forall|i: int| 0 <= i < out.len() ==>
        (#[trigger] out[i]).cpu_delta_ns as int <= out[i].profile_timestamp - previous_profile_timestamp(out, prev, i)
}

/// The profile timestamp of the last sample emitted, `prev` if `out` is empty.
pub open spec fn last_profile_timestamp(out: Seq<UnresolvedSample>, prev: int) -> int {
    if out.len() == 0 { prev } else { out.last().profile_timestamp as int }
}

/// The thread's accumulated on-CPU time fits between the last emitted sample,
/// at profile time `prev`, and the last state change.
pub open spec fn on_cpu_time_bounded(t: Thread, reference_raw: u64, prev: int) -> bool {
    match t.context_switch_data.state {
        ThreadState::Unknown => t.context_switch_data.on_cpu_ns == 0,
        ThreadState::On { since } | ThreadState::Off { since } => {
            &&& since >= reference_raw
            &&& prev <= since - reference_raw
            &&& t.context_switch_data.on_cpu_ns <= since - reference_raw - prev
        },
    }
}

/// `ts` comes no earlier than the thread's last state change, the reference,
/// and the last emitted sample.
pub open spec fn in_time_order(t: Thread, reference_raw: u64, prev: int, ts: u64) -> bool {
    &&& ts >= reference_raw
    &&& prev <= ts - reference_raw
    &&& match t.context_switch_data.state {
        ThreadState::On { since } | ThreadState::Off { since } => since <= ts,
        ThreadState::Unknown => true,
    }
}

/// Sampling a thread twice at one source timestamp: the second sample is
/// dropped and leaves the thread as it was.
pub proof fn lemma_duplicate_sample_dropped(
    t: Thread,
    interval: u64,
    reference_raw: u64,
    weight_per_sample: i32,
    have_context_switches: bool,
    ts: u64,
    period1: Option<u64>,
    stack1: UnresolvedStackHandle,
    period2: Option<u64>,
    stack2: UnresolvedStackHandle,
)
    ensures
        ({
            let (t1, _) = sample_step(t, interval, reference_raw, weight_per_sample, have_context_switches, ts, period1, stack1);
            let (t2, out2) = sample_step(t1, interval, reference_raw, weight_per_sample, have_context_switches, ts, period2, stack2);
            t1.last_sample_timestamp == Some(ts) && out2.len() == 0 && t2 == t1
        }),
{
}

/// A new thread satisfies the on-CPU time bound for any previous sample time.
pub proof fn lemma_new_thread_bounded(t: Thread, reference_raw: u64, prev: int)
    requires
        t.context_switch_data == (ThreadContextSwitchData { state: ThreadState::Unknown, on_cpu_ns: 0 }),
    ensures
        on_cpu_time_bounded(t, reference_raw, prev),
{
}

/// With context switches recorded and events in time order, a sample's
/// emitted samples (off-CPU ones included) each carry no more CPU time than
/// the profile time since the previous sample of the thread, and the bound
/// carries over to the next event.
pub proof fn lemma_sample_cpu_delta_within_elapsed(
    t: Thread,
    interval: u64,
    reference_raw: u64,
    weight_per_sample: i32,
    ts: u64,
    period: Option<u64>,
    stack: UnresolvedStackHandle,
    prev: int,
)
    requires
        interval > 0,
        on_cpu_time_bounded(t, reference_raw, prev),
        in_time_order(t, reference_raw, prev, ts),
    ensures
        ({
            let (t2, out) = sample_step(t, interval, reference_raw, weight_per_sample, true, ts, period, stack);
            cpu_deltas_within_elapsed(out, prev)
                && on_cpu_time_bounded(t2, reference_raw, last_profile_timestamp(out, prev))
                && in_time_order(t2, reference_raw, last_profile_timestamp(out, prev), ts)
        }),
{
    let (t2, out) = sample_step(t, interval, reference_raw, weight_per_sample, true, ts, period, stack);
    if t.last_sample_timestamp != Some(ts) {
        let t0 = Thread { last_sample_timestamp: Some(ts), ..t };
        lemma_resume_cpu_delta_within_elapsed(t0, interval, reference_raw, weight_per_sample, ts, prev);
        let (t1, off) = resume_step(t0, interval, reference_raw, weight_per_sample, ts);
        let p1 = last_profile_timestamp(off, prev);
        assert(out == off.push(out.last()));
        assert(forall|i: int| 0 <= i < off.len() ==> #[trigger] out[i] == off[i]);
        assert(cpu_deltas_within_elapsed(out, prev)) by {
            assert forall|i: int| 0 <= i < out.len() implies
                (#[trigger] out[i]).cpu_delta_ns as int <= out[i].profile_timestamp - previous_profile_timestamp(out, prev, i) by {
                if i < off.len() {
                    assert(off[i] == out[i]);
                    if i > 0 {
                        assert(off[i - 1] == out[i - 1]);
                    }
                } else {
                    assert(previous_profile_timestamp(out, prev, i) == p1);
                }
            }
        }
    }
}

/// As for a sample: a switch-in's off-CPU samples carry no more CPU time than
/// the profile time since the previous sample, and the bound carries over.
pub proof fn lemma_resume_cpu_delta_within_elapsed(
    t: Thread,
    interval: u64,
    reference_raw: u64,
    weight_per_sample: i32,
    ts: u64,
    prev: int,
)
    requires
        interval > 0,
        on_cpu_time_bounded(t, reference_raw, prev),
        in_time_order(t, reference_raw, prev, ts),
    ensures
        ({
            let (t2, out) = resume_step(t, interval, reference_raw, weight_per_sample, ts);
            cpu_deltas_within_elapsed(out, prev)
                && on_cpu_time_bounded(t2, reference_raw, last_profile_timestamp(out, prev))
                && in_time_order(t2, reference_raw, last_profile_timestamp(out, prev), ts)
                && t2.last_sample_timestamp == t.last_sample_timestamp
                && t2.profile_thread == t.profile_thread
        }),
{
    let (t2, out) = resume_step(t, interval, reference_raw, weight_per_sample, ts);
    let (d, g) = after_running(t.context_switch_data, interval, ts);
    if let (Some(g), Some(s)) = (g, t.off_cpu_stack) {
        if let ThreadState::Off { since } = t.context_switch_data.state {
            assert(g.begin_timestamp == since && g.end_timestamp == ts);
            assert(out[0].profile_timestamp == since - reference_raw);
            if g.sample_count > 1 {
                assert(out[1].profile_timestamp == ts - reference_raw);
            }
        }
    }
}

/// A switch-out keeps the on-CPU time bound.
pub proof fn lemma_switch_out_keeps_bound(t: Thread, reference_raw: u64, ts: u64, prev: int)
    requires
        on_cpu_time_bounded(t, reference_raw, prev),
        in_time_order(t, reference_raw, prev, ts),
    ensures
        on_cpu_time_bounded(switch_out_step(t, ts), reference_raw, prev),
        in_time_order(switch_out_step(t, ts), reference_raw, prev, ts),
{
}

/// A sample of a thread that is already running ends no off-CPU group: it
/// emits exactly its own sample.
pub proof fn lemma_running_sample_emits_one(
    t: Thread,
    interval: u64,
    reference_raw: u64,
    weight_per_sample: i32,
    have_context_switches: bool,
    ts: u64,
    period: Option<u64>,
    stack: UnresolvedStackHandle,
)
    requires
        t.context_switch_data.state is On,
        t.last_sample_timestamp != Some(ts),
    ensures
        ({
            let (t2, out) = sample_step(t, interval, reference_raw, weight_per_sample, have_context_switches, ts, period, stack);
            out.len() == 1 && out[0].timestamp == ts && out[0].weight == 1 && t2.context_switch_data.state == (ThreadState::On { since: ts })
        }),
{
}

/// A switch-in with no saved off-CPU stack emits no samples.
pub proof fn lemma_switch_in_without_stack_emits_nothing(
    t: Thread,
    interval: u64,
    reference_raw: u64,
    weight_per_sample: i32,
    ts: u64,
)
    requires
        t.off_cpu_stack is None,
    ensures
        resume_step(t, interval, reference_raw, weight_per_sample, ts).1.len() == 0,
{
}

/// An off-CPU group of a single tick yields exactly one synthetic sample, at
/// the group's start.
pub proof fn lemma_single_tick_group_one_sample(
    g: OffCpuSampleGroup,
    thread: usize,
    cpu_delta_ns: u64,
    reference_raw: u64,
    weight_per_sample: i32,
    stack: UnresolvedStackHandle,
)
    requires
        g.sample_count == 1,
    ensures
        off_cpu_samples(g, thread, cpu_delta_ns, reference_raw, weight_per_sample, stack).len() == 1,
        off_cpu_samples(g, thread, cpu_delta_ns, reference_raw, weight_per_sample, stack)[0].timestamp == g.begin_timestamp,
{
}

} // verus!

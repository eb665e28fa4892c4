//! Per-thread on-CPU / off-CPU tracking driven by samples and context switches.
use vstd::prelude::*;

verus! {

/// Whether a thread is known to be running, and since when.
#[derive(Clone, Copy, Debug, PartialEq, Eq, Structural)]
pub enum ThreadState {
    /// No sample or context switch has been seen for the thread yet.
    Unknown,
    /// The thread is on a CPU; `since` is when this was last observed.
    On { since: u64 },
    /// The thread was switched out at `since` and has not run since.
    Off { since: u64 },
}

/// The context-switch bookkeeping of one thread.
#[derive(Clone, Copy, Debug, PartialEq, Eq, Structural)]
pub struct ThreadContextSwitchData {
    pub state: ThreadState,
    /// On-CPU nanoseconds accumulated since the last time they were consumed.
    pub on_cpu_ns: u64,
}

/// A run of synthetic off-CPU samples: `sample_count` ticks of the off-CPU
/// interval between a switch-out at `begin_timestamp` and the moment the
/// thread ran again at `end_timestamp`.
#[derive(Clone, Copy, Debug, PartialEq, Eq, Structural)]
pub struct OffCpuSampleGroup {
    pub begin_timestamp: u64,
    pub end_timestamp: u64,
    pub sample_count: u64,
}

/// Derives off-CPU sample groups and on-CPU deltas from context switches.
#[derive(Clone, Copy, Debug)]
pub struct ContextSwitchHandler {
    pub off_cpu_sampling_interval_ns: u64,
}

pub open spec fn elapsed(from: u64, to: u64) -> int {
    if to > from { to - from } else { 0 }
}

pub open spec fn saturating_sum(a: u64, b: int) -> u64 {
    if a + b > u64::MAX { u64::MAX } else { (a + b) as u64 }
}

/// The group of off-CPU samples for a thread that was off from `off_since` until `ts`.
pub open spec fn off_cpu_group(interval: u64, off_since: u64, ts: u64) -> Option<OffCpuSampleGroup> {
    let count = elapsed(off_since, ts) / (interval as int);
    if count == 0 {
        None
    } else {
        Some(OffCpuSampleGroup { begin_timestamp: off_since, end_timestamp: ts, sample_count: count as u64 })
    }
}

/// The bookkeeping after the thread is seen running at `ts` (a sample or a
/// switch-in), and the off-CPU group that this ends, if any.
pub open spec fn after_running(d: ThreadContextSwitchData, interval: u64, ts: u64) -> (ThreadContextSwitchData, Option<OffCpuSampleGroup>) {
    match d.state {
        ThreadState::On { since } => (
            ThreadContextSwitchData { state: ThreadState::On { since: ts }, on_cpu_ns: saturating_sum(d.on_cpu_ns, elapsed(since, ts)) },
            None,
        ),
        ThreadState::Off { since } => (
            ThreadContextSwitchData { state: ThreadState::On { since: ts }, on_cpu_ns: d.on_cpu_ns },
            off_cpu_group(interval, since, ts),
        ),
        ThreadState::Unknown => (
            ThreadContextSwitchData { state: ThreadState::On { since: ts }, on_cpu_ns: d.on_cpu_ns },
            None,
        ),
    }
}

/// The bookkeeping after the thread is switched out at `ts`. A thread that is
/// already switched out keeps its earlier switch-out time: it has been off
/// the CPU since then.
pub open spec fn after_switch_out(d: ThreadContextSwitchData, ts: u64) -> ThreadContextSwitchData {
    match d.state {
        ThreadState::On { since } => ThreadContextSwitchData {
            state: ThreadState::Off { since: ts },
            on_cpu_ns: saturating_sum(d.on_cpu_ns, elapsed(since, ts)),
        },
        ThreadState::Off { .. } => d,
        ThreadState::Unknown => ThreadContextSwitchData { state: ThreadState::Off { since: ts }, on_cpu_ns: d.on_cpu_ns },
    }
}

impl ThreadContextSwitchData {
    pub fn new() -> (r: Self)
        ensures
            r.state == ThreadState::Unknown,
            r.on_cpu_ns == 0,
    {
        ThreadContextSwitchData { state: ThreadState::Unknown, on_cpu_ns: 0 }
    }
}

fn elapsed_ns(from: u64, to: u64) -> (r: u64)
    ensures
        r == elapsed(from, to),
{
    if to > from { to - from } else { 0 }
}

impl ContextSwitchHandler {
    pub open spec fn wf(&self) -> bool {
        self.off_cpu_sampling_interval_ns > 0
    }

    pub fn new(off_cpu_sampling_interval_ns: u64) -> (r: Self)
        requires
            off_cpu_sampling_interval_ns > 0,
        ensures
            r.wf(),
            r.off_cpu_sampling_interval_ns == off_cpu_sampling_interval_ns,
    {
        ContextSwitchHandler { off_cpu_sampling_interval_ns }
    }

    fn off_cpu_group_between(&self, off_since: u64, ts: u64) -> (r: Option<OffCpuSampleGroup>)
        requires
            self.wf(),
        ensures
            r == off_cpu_group(self.off_cpu_sampling_interval_ns, off_since, ts),
    {
        let count = elapsed_ns(off_since, ts) / self.off_cpu_sampling_interval_ns;
        if count == 0 {
            None
        } else {
            Some(OffCpuSampleGroup { begin_timestamp: off_since, end_timestamp: ts, sample_count: count })
        }
    }

    fn on_running(&self, timestamp: u64, thread: &mut ThreadContextSwitchData) -> (r: Option<OffCpuSampleGroup>)
        requires
            self.wf(),
        ensures
            (*final(thread), r) == after_running(*old(thread), self.off_cpu_sampling_interval_ns, timestamp),
    {
        match thread.state {
            ThreadState::On { since } => {
                thread.on_cpu_ns = thread.on_cpu_ns.saturating_add(elapsed_ns(since, timestamp));
                thread.state = ThreadState::On { since: timestamp };
                None
            },
            ThreadState::Off { since } => {
                thread.state = ThreadState::On { since: timestamp };
                self.off_cpu_group_between(since, timestamp)
            },
            ThreadState::Unknown => {
                thread.state = ThreadState::On { since: timestamp };
                None
            },
        }
    }

    /// A sample was taken of the thread at `timestamp`: the thread is running.
    /// Returns the off-CPU group that ends here, if the thread was switched out.
    pub fn handle_sample(&self, timestamp: u64, thread: &mut ThreadContextSwitchData) -> (r: Option<OffCpuSampleGroup>)
        requires
            self.wf(),
        ensures
            (*final(thread), r) == after_running(*old(thread), self.off_cpu_sampling_interval_ns, timestamp),
    {
        self.on_running(timestamp, thread)
    }

    /// The thread was switched in at `timestamp`.
    /// Returns the off-CPU group that ends here, if the thread was switched out.
    pub fn handle_switch_in(&self, timestamp: u64, thread: &mut ThreadContextSwitchData) -> (r: Option<OffCpuSampleGroup>)
        requires
            self.wf(),
        ensures
            (*final(thread), r) == after_running(*old(thread), self.off_cpu_sampling_interval_ns, timestamp),
    {
        self.on_running(timestamp, thread)
    }

    /// The thread was switched out at `timestamp`.
    pub fn handle_switch_out(&self, timestamp: u64, thread: &mut ThreadContextSwitchData)
        ensures
            *final(thread) == after_switch_out(*old(thread), timestamp),
    {
        match thread.state {
            ThreadState::On { since } => {
                thread.on_cpu_ns = thread.on_cpu_ns.saturating_add(elapsed_ns(since, timestamp));
                thread.state = ThreadState::Off { since: timestamp };
            },
            ThreadState::Off { .. } => {},
            ThreadState::Unknown => {
                thread.state = ThreadState::Off { since: timestamp };
            },
        }
    }

    /// Returns the accumulated on-CPU time and resets it to zero.
    pub fn consume_cpu_delta(&self, thread: &mut ThreadContextSwitchData) -> (r: u64)
        ensures
            r == old(thread).on_cpu_ns,
            final(thread).on_cpu_ns == 0,
            final(thread).state == old(thread).state,
    {
        let r = thread.on_cpu_ns;
        thread.on_cpu_ns = 0;
        r
    }
}

} // verus!

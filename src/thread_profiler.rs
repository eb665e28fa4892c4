//! Decisions of a thread sampler that polls one thread's CPU time and stack.
use vstd::prelude::*;
use crate::profile_log::{ProfileLog, ProfileOp};

verus! {

/// A duration as seconds and microseconds.
#[derive(Clone, Copy, Debug, PartialEq, Eq, Structural)]
pub struct TimeValue {
    pub seconds: i32,
    pub microseconds: i32,
}

/// The duration in microseconds.
pub fn time_value_to_microseconds(tv: &TimeValue) -> (r: u64)
    requires
        tv.seconds >= 0,
        tv.microseconds >= 0,
    ensures
        r == tv.seconds * 1_000_000 + tv.microseconds,
{
    tv.seconds as u64 * 1_000_000 + tv.microseconds as u64
}

/// Why sampling a thread failed.
#[derive(Clone, Copy, Debug, PartialEq, Eq, Structural)]
pub enum SamplingError {
    /// The thread is gone.
    ThreadTerminated,
    /// An unexpected failure that sampling goes on after.
    Ignorable,
    /// Any other failure.
    Fatal,
}

/// What to do with the thread's stack at a tick.
#[derive(Clone, Copy, Debug, PartialEq, Eq, Structural)]
pub enum TickAction {
    /// Walk the stack and add a sample with this CPU delta.
    WalkStack { cpu_delta_us: u64 },
    /// The thread did not run: repeat the previous stack with no CPU time.
    SameStackZeroCpu,
}

/// Ignorable errors after which a thread is taken to be gone.
pub const MAX_IGNORED_ERRORS: usize = 10;

/// The sampling state of one thread.
pub struct ThreadProfiler {
    pub tid: u32,
    pub name: Option<String>,
    /// Index of the profile thread.
    pub profile_thread: usize,
    pub tick_count: usize,
    pub previous_sample_cpu_time_us: u64,
    pub ignored_errors: usize,
}

impl ThreadProfiler {
    pub fn new(tid: u32, profile_thread: usize) -> (r: Self)
        ensures
            r.tid == tid,
            r.profile_thread == profile_thread,
            r.name is None,
            r.tick_count == 0,
            r.previous_sample_cpu_time_us == 0,
            r.ignored_errors == 0,
    {
        ThreadProfiler { tid, name: None, profile_thread, tick_count: 0, previous_sample_cpu_time_us: 0, ignored_errors: 0 }
    }

    /// Starts a tick; returns whether to look up the thread's name (every
    /// tenth tick, from the first, until it has one).
    pub fn begin_tick(&mut self) -> (r: bool)
        ensures
            final(self).tick_count == vstd::wrapping::usize_specs::wrapping_add(old(self).tick_count, 1),
            r == (old(self).name is None && final(self).tick_count % 10 == 1),
            final(self).name == old(self).name,
            final(self).previous_sample_cpu_time_us == old(self).previous_sample_cpu_time_us,
            final(self).ignored_errors == old(self).ignored_errors,
    {
        self.tick_count = self.tick_count.wrapping_add(1);
        self.name.is_none() && self.tick_count % 10 == 1
    }

    /// Takes the thread's CPU time so far (user and system) and decides the
    /// tick: a sample with the CPU time since the previous tick, or, when
    /// none passed, the previous stack again.
    pub fn on_cpu_time(&mut self, user_us: u64, system_us: u64) -> (r: TickAction)
        ensures
            ({
                let now = vstd::wrapping::u64_specs::wrapping_add(user_us, system_us);
                let delta = if now >= old(self).previous_sample_cpu_time_us { now - old(self).previous_sample_cpu_time_us } else { 0 };
                &&& final(self).previous_sample_cpu_time_us == now
                &&& r == if delta != 0 || old(self).tick_count == 0 {
                    TickAction::WalkStack { cpu_delta_us: delta as u64 }
                } else {
                    TickAction::SameStackZeroCpu
                }
            }),
            final(self).tick_count == old(self).tick_count,
            final(self).name == old(self).name,
            final(self).ignored_errors == old(self).ignored_errors,
    {
        let now = user_us.wrapping_add(system_us);
        let delta = now.saturating_sub(self.previous_sample_cpu_time_us);
        self.previous_sample_cpu_time_us = now;
        if delta != 0 || self.tick_count == 0 {
            TickAction::WalkStack { cpu_delta_us: delta }
        } else {
            TickAction::SameStackZeroCpu
        }
    }

    /// The outcome of a tick: `Ok(true)` while the thread lives, `Ok(false)`
    /// once it is gone (terminated, or after `MAX_IGNORED_ERRORS` ignorable
    /// errors), and other errors passed on.
    pub fn sample(&mut self, outcome: Result<(), SamplingError>) -> (r: Result<bool, SamplingError>)
        ensures
            match outcome {
                Ok(()) => r == Ok::<bool, SamplingError>(true) && final(self).ignored_errors == old(self).ignored_errors,
                Err(SamplingError::ThreadTerminated) => r == Ok::<bool, SamplingError>(false),
                Err(SamplingError::Ignorable) => {
                    &&& final(self).ignored_errors == (if old(self).ignored_errors < usize::MAX { (old(self).ignored_errors + 1) as usize } else { old(self).ignored_errors })
                    &&& r == Ok::<bool, SamplingError>(final(self).ignored_errors < MAX_IGNORED_ERRORS)
                },
                Err(SamplingError::Fatal) => r == Err::<bool, SamplingError>(SamplingError::Fatal),
            },
    {
        match outcome {
            Ok(()) => Ok(true),
            Err(SamplingError::ThreadTerminated) => Ok(false),
            Err(SamplingError::Ignorable) => {
                self.ignored_errors = self.ignored_errors.saturating_add(1);
                Ok(self.ignored_errors < MAX_IGNORED_ERRORS)
            },
            Err(SamplingError::Fatal) => Err(SamplingError::Fatal),
        }
    }

    /// The thread ended at `end_time`.
    pub fn notify_dead(&mut self, end_time: u64, log: &mut ProfileLog)
        ensures
            final(log).ops@ == old(log).ops@.push(ProfileOp::SetThreadEndTime { thread: old(self).profile_thread, time: end_time }),
    {
        log.push(ProfileOp::SetThreadEndTime { thread: self.profile_thread, time: end_time });
    }
}

} // verus!

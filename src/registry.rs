//! Live processes and threads, and the pools of ended ones kept for reuse.
use vstd::prelude::*;
use crate::profile_log::{
    LibMappingAdd, LibMappingInfo, LibMappingOp, LibMappingOpEntry, MarkerRecord, ProcessSampleData, ProfileLog,
    ProfileOp,
};
use crate::mappings::LibMappingOpQueue;
use crate::thread::{Thread, UnresolvedSample};

verus! {

broadcast use vstd::string::to_string_from_display_ensures_for_str;

/// Which thread of a process: the main thread, or entry `i` of the thread table.
#[derive(Clone, Copy, Debug, PartialEq, Eq, Structural)]
pub enum ThreadSlot {
    Main,
    Other(usize),
}

/// The threads of one process.
pub struct ProcessThreads {
    pub pid: i32,
    pub profile_process: usize,
    pub main_thread: Thread,
    /// Live threads other than the main thread.
    pub threads: Vec<Thread>,
    /// Ended named threads, oldest first, that a new thread of the same name may adopt.
    pub ended_threads: Vec<Thread>,
}

pub open spec fn tids_unique(threads: Seq<Thread>) -> bool {
    forall|i: int, j: int| 0 <= i < threads.len() && 0 <= j < threads.len() && i != j ==> threads[i].tid != threads[j].tid
}

pub open spec fn has_tid(threads: Seq<Thread>, tid: i32) -> bool {
    exists|i: int| 0 <= i < threads.len() && #[trigger] threads[i].tid == tid
}

pub open spec fn same_name(a: Option<String>, name: Seq<char>) -> bool {
    match a {
        Some(s) => s@ == name,
        None => false,
    }
}

/// A thread as it is kept after it ends: its run state cleared.
pub open spec fn ended_thread(t: Thread) -> Thread {
    Thread {
        context_switch_data: crate::context_switch::ThreadContextSwitchData {
            state: crate::context_switch::ThreadState::Unknown,
            on_cpu_ns: 0,
        },
        last_sample_timestamp: None,
        off_cpu_stack: None,
        ..t
    }
}

/// The threads of `ts` that join the pool when they all end: the named
/// ones, in order, with their run state cleared.
pub open spec fn pooled_threads(ts: Seq<Thread>) -> Seq<Thread>
    decreases ts.len(),
{
    if ts.len() == 0 {
        Seq::empty()
    } else {
        (if ts[0].name is Some { seq![ended_thread(ts[0])] } else { Seq::empty() }) + pooled_threads(ts.drop_first())
    }
}

fn name_is(a: &Option<String>, name: &String) -> (r: bool)
    ensures
        r == same_name(*a, name@),
{
    match a {
        Some(s) => s.eq(name),
        None => false,
    }
}

impl ProcessThreads {
    pub open spec fn wf(&self) -> bool {
        &&& tids_unique(self.threads@)
        &&& !has_tid(self.threads@, self.pid)
    }

    pub open spec fn spec_thread(&self, slot: ThreadSlot) -> Thread {
        match slot {
            ThreadSlot::Main => self.main_thread,
            ThreadSlot::Other(i) => self.threads@[i as int],
        }
    }

    pub open spec fn slot_valid(&self, slot: ThreadSlot) -> bool {
        match slot {
            ThreadSlot::Main => true,
            ThreadSlot::Other(i) => i < self.threads@.len(),
        }
    }

    /// The slot of live thread `tid`, if there is one.
    pub open spec fn spec_lookup(&self, tid: i32) -> Option<ThreadSlot> {
        if tid == self.pid {
            Some(ThreadSlot::Main)
        } else if has_tid(self.threads@, tid) {
            Some(ThreadSlot::Other(choose|i: usize| i < self.threads@.len() && #[trigger] self.threads@[i as int].tid == tid))
        } else {
            None
        }
    }

    pub fn new(pid: i32, profile_process: usize, main_thread: Thread) -> (r: Self)
        ensures
            r.wf(),
            r.pid == pid,
            r.profile_process == profile_process,
            r.main_thread == main_thread,
            r.threads@.len() == 0,
            r.ended_threads@.len() == 0,
    {
        ProcessThreads { pid, profile_process, main_thread, threads: Vec::new(), ended_threads: Vec::new() }
    }

    fn find(&self, tid: i32) -> (r: Option<usize>)
        ensures
            match r {
                Some(i) => i < self.threads@.len() && self.threads@[i as int].tid == tid,
                None => !has_tid(self.threads@, tid),
            },
    {
        let mut i: usize = 0;
        while i < self.threads.len()
            invariant
                0 <= i <= self.threads@.len(),
                forall|j: int| 0 <= j < i ==> self.threads@[j].tid != tid,
            decreases self.threads@.len() - i,
        {
            if self.threads[i].tid == tid {
                return Some(i);
            }
            i = i + 1;
        }
        None
    }

    /// Mutable access to the thread in `slot`.
    pub fn thread_mut(&mut self, slot: ThreadSlot) -> (r: &mut Thread)
        requires
            old(self).slot_valid(slot),
        ensures
            *r == old(self).spec_thread(slot),
            final(self).pid == old(self).pid,
            final(self).profile_process == old(self).profile_process,
            final(self).ended_threads@ == old(self).ended_threads@,
            final(self).main_thread == (if slot == ThreadSlot::Main { *final(r) } else { old(self).main_thread }),
            final(self).threads@ == (match slot {
                ThreadSlot::Main => old(self).threads@,
                ThreadSlot::Other(i) => old(self).threads@.update(i as int, *final(r)),
            }),
    {
        match slot {
            ThreadSlot::Main => &mut self.main_thread,
            ThreadSlot::Other(i) => &mut self.threads[i],
        }
    }

    /// The thread in `slot`.
    pub fn thread_ref(&self, slot: ThreadSlot) -> (r: &Thread)
        requires
            self.slot_valid(slot),
        ensures
            *r == self.spec_thread(slot),
    {
        match slot {
            ThreadSlot::Main => &self.main_thread,
            ThreadSlot::Other(i) => &self.threads[i],
        }
    }

    /// The main thread.
    pub fn get_main_thread(&mut self) -> (r: &mut Thread)
        ensures
            *r == old(self).main_thread,
            *final(self) == (ProcessThreads { main_thread: *final(r), ..*old(self) }),
    {
        &mut self.main_thread
    }

    /// The slot of thread `tid`; a thread that is not live yet is created.
    pub fn get_thread_by_tid(&mut self, tid: i32, log: &mut ProfileLog) -> (r: ThreadSlot)
        requires
            old(self).wf(),
        ensures
            final(self).wf(),
            final(self).slot_valid(r),
            final(self).spec_thread(r).tid == tid || (r == ThreadSlot::Main && tid == old(self).pid),
            final(self).pid == old(self).pid,
            final(self).profile_process == old(self).profile_process,
            final(self).main_thread == old(self).main_thread,
            final(self).ended_threads@ == old(self).ended_threads@,
            old(self).spec_lookup(tid) is Some ==> {
                &&& r == old(self).spec_lookup(tid)->0
                &&& final(self).threads@ == old(self).threads@
                &&& final(log).ops@ == old(log).ops@
            },
            old(self).spec_lookup(tid) is None ==> {
                &&& r == ThreadSlot::Other(old(self).threads@.len() as usize)
                &&& final(self).threads@ == old(self).threads@.push(Thread::spec_new(tid, old(log).ops@.len() as usize))
                &&& final(log).ops@ == old(log).ops@.push(ProfileOp::AddThread { process: old(self).profile_process, tid, is_main: false })
            },
    {
        if tid == self.pid {
            return ThreadSlot::Main;
        }
        match self.find(tid) {
            Some(i) => {
                proof {
                    let c = choose|j: usize| j < self.threads@.len() && #[trigger] self.threads@[j as int].tid == tid;
                    assert(c == i) by {
                        if c != i {
                            assert(self.threads@[c as int].tid != self.threads@[i as int].tid);
                        }
                    }
                }
                ThreadSlot::Other(i)
            },
            None => {
                let handle = log.push(ProfileOp::AddThread { process: self.profile_process, tid, is_main: false });
                let ghost before = self.threads@;
                self.threads.push(Thread::new(tid, handle));
                proof {
                    assert(forall|j: int| 0 <= j < before.len() ==> self.threads@[j] == before[j]);
                    assert(!has_tid(self.threads@, self.pid)) by {
                        if has_tid(self.threads@, self.pid) {
                            let j = choose|j: int| 0 <= j < self.threads@.len() && #[trigger] self.threads@[j].tid == self.pid;
                            assert(before[j].tid == self.pid);
                        }
                    }
                }
                ThreadSlot::Other((self.threads.len() - 1) as usize)
            },
        }
    }

    /// If no live thread has `tid` and an ended thread is named `name`, the
    /// oldest such thread becomes live again as `tid`.
    pub fn attempt_thread_reuse(&mut self, tid: i32, name: &String) -> (r: bool)
        requires
            old(self).wf(),
        ensures
            final(self).wf(),
            final(self).pid == old(self).pid,
            final(self).profile_process == old(self).profile_process,
            final(self).main_thread == old(self).main_thread,
            r ==> !has_tid(old(self).threads@, tid) && tid != old(self).pid && final(self).spec_lookup(tid) is Some,
            !r ==> final(self).threads@ == old(self).threads@ && final(self).ended_threads@ == old(self).ended_threads@,
            r == (tid != old(self).pid && !has_tid(old(self).threads@, tid)
                && exists|k: int| 0 <= k < old(self).ended_threads@.len() && same_name(#[trigger] old(self).ended_threads@[k].name, name@)),
            r ==> exists|k: int| {
                &&& 0 <= k < old(self).ended_threads@.len()
                &&& same_name(#[trigger] old(self).ended_threads@[k].name, name@)
                &&& forall|j: int| 0 <= j < k ==> !same_name(#[trigger] old(self).ended_threads@[j].name, name@)
                &&& final(self).threads@ == old(self).threads@.push(Thread { tid, ..old(self).ended_threads@[k] })
                &&& final(self).ended_threads@ == old(self).ended_threads@.remove(k)
            },
    {
        if tid == self.pid || self.find(tid).is_some() {
            return false;
        }
        let mut k: usize = 0;
        while k < self.ended_threads.len()
            invariant
                0 <= k <= self.ended_threads@.len(),
                forall|j: int| 0 <= j < k ==> !same_name(#[trigger] self.ended_threads@[j].name, name@),
                self.threads@ == old(self).threads@,
                self.ended_threads@ == old(self).ended_threads@,
                self.pid == old(self).pid,
                self.profile_process == old(self).profile_process,
                self.main_thread == old(self).main_thread,
                self.wf(),
                tid != self.pid,
                !has_tid(self.threads@, tid),
            decreases self.ended_threads@.len() - k,
        {
            if name_is(&self.ended_threads[k].name, name) {
                let ghost pool = self.ended_threads@;
                let mut thread = self.ended_threads.remove(k);
                thread.reset_for_reuse(tid);
                proof {
                    assert(pool[k as int] == old(self).ended_threads@[k as int]);
                    assert(same_name(old(self).ended_threads@[k as int].name, name@));
                }
                let ghost before = self.threads@;
                self.threads.push(thread);
                proof {
                    assert(forall|j: int| 0 <= j < before.len() ==> self.threads@[j] == before[j]);
                    assert(self.threads@[before.len() as int].tid == tid);
                    assert(!has_tid(self.threads@, self.pid)) by {
                        if has_tid(self.threads@, self.pid) {
                            let j = choose|j: int| 0 <= j < self.threads@.len() && #[trigger] self.threads@[j].tid == self.pid;
                            if j < before.len() {
                                assert(before[j].tid == self.pid);
                            }
                        }
                    }
                    assert(tids_unique(self.threads@)) by {
                        assert forall|a: int, b: int| 0 <= a < self.threads@.len() && 0 <= b < self.threads@.len() && a != b
                            implies self.threads@[a].tid != self.threads@[b].tid by {
                            if a < before.len() && b < before.len() {
                            } else if a < before.len() {
                                assert(before[a].tid != tid);
                            } else {
                                assert(before[b].tid != tid);
                            }
                        }
                    }
                    assert(has_tid(self.threads@, tid));
                }
                return true;
            }
            k = k + 1;
        }
        false
    }

    /// Ends thread `tid` at `time`: it leaves the live table, and, with reuse
    /// allowed and a name, joins the pool of ended threads.
    pub fn remove_non_main_thread(&mut self, tid: i32, time: u64, allow_reuse: bool, log: &mut ProfileLog)
        requires
            old(self).wf(),
        ensures
            final(self).wf(),
            final(self).pid == old(self).pid,
            final(self).profile_process == old(self).profile_process,
            final(self).main_thread == old(self).main_thread,
            !has_tid(final(self).threads@, tid),
            !has_tid(old(self).threads@, tid) ==> final(self).threads@ == old(self).threads@ && final(log).ops@ == old(log).ops@
                && final(self).ended_threads@ == old(self).ended_threads@,
            forall|i: int| 0 <= i < old(self).threads@.len() && #[trigger] old(self).threads@[i].tid == tid ==> {
                let t = old(self).threads@[i];
                &&& final(self).threads@ == old(self).threads@.remove(i)
                &&& final(log).ops@ == old(log).ops@.push(ProfileOp::SetThreadEndTime { thread: t.profile_thread, time })
                &&& final(self).ended_threads@ == if allow_reuse && t.name is Some {
                    old(self).ended_threads@.push(ended_thread(t))
                } else {
                    old(self).ended_threads@
                }
            },
    {
        let i = match self.find(tid) {
            Some(i) => i,
            None => return,
        };
        let ghost before = self.threads@;
        let mut thread = self.threads.remove(i);
        proof {
            assert forall|j: int| 0 <= j < self.threads@.len() implies #[trigger] self.threads@[j].tid != tid by {
                if j < i {
                    assert(self.threads@[j] == before[j]);
                } else {
                    assert(self.threads@[j] == before[j + 1]);
                }
            }
            assert(tids_unique(self.threads@)) by {
                assert forall|a: int, b: int| 0 <= a < self.threads@.len() && 0 <= b < self.threads@.len() && a != b
                    implies self.threads@[a].tid != self.threads@[b].tid by {
                    let a2 = if a < i { a } else { a + 1 };
                    let b2 = if b < i { b } else { b + 1 };
                    assert(self.threads@[a] == before[a2]);
                    assert(self.threads@[b] == before[b2]);
                }
            }
            assert(!has_tid(self.threads@, self.pid)) by {
                if has_tid(self.threads@, self.pid) {
                    let j = choose|j: int| 0 <= j < self.threads@.len() && #[trigger] self.threads@[j].tid == self.pid;
                    let j2 = if j < i { j } else { j + 1 };
                    assert(self.threads@[j] == before[j2]);
                }
            }
        }
        log.push(ProfileOp::SetThreadEndTime { thread: thread.profile_thread, time });
        thread.on_remove();
        if allow_reuse && thread.name.is_some() {
            self.ended_threads.push(thread);
        }
    }

    /// Ends all non-main threads; the named ones join the pool of ended threads.
    pub fn prepare_for_reuse(&mut self)
        requires
            old(self).wf(),
        ensures
            final(self).wf(),
            final(self).threads@.len() == 0,
            final(self).pid == old(self).pid,
            final(self).profile_process == old(self).profile_process,
            final(self).main_thread == old(self).main_thread,
            final(self).ended_threads@ == old(self).ended_threads@ + pooled_threads(old(self).threads@),
    {
        proof {
            assert(old(self).ended_threads@ + pooled_threads(old(self).threads@)
                =~= self.ended_threads@ + pooled_threads(self.threads@));
        }
        while self.threads.len() > 0
            invariant
                self.pid == old(self).pid,
                self.profile_process == old(self).profile_process,
                self.main_thread == old(self).main_thread,
                self.ended_threads@ + pooled_threads(self.threads@) == old(self).ended_threads@ + pooled_threads(old(self).threads@),
            decreases self.threads@.len(),
        {
            let ghost ts = self.threads@;
            let ghost ended = self.ended_threads@;
            let mut thread = self.threads.remove(0);
            proof {
                assert(ts.drop_first() =~= self.threads@);
                assert(ts[0] == thread);
            }
            thread.on_remove();
            if thread.name.is_some() {
                self.ended_threads.push(thread);
                proof {
                    assert(thread == ended_thread(ts[0]));
                    assert(ended + pooled_threads(ts) =~= self.ended_threads@ + pooled_threads(self.threads@));
                }
            } else {
                proof {
                    assert(ended + pooled_threads(ts) =~= self.ended_threads@ + pooled_threads(self.threads@));
                }
            }
        }
        proof {
            assert(self.ended_threads@ + pooled_threads(self.threads@) =~= self.ended_threads@);
        }
    }
}

impl Thread {
    pub open spec fn spec_new(tid: i32, profile_thread: usize) -> Thread {
        Thread {
            tid,
            profile_thread,
            context_switch_data: crate::context_switch::ThreadContextSwitchData {
                state: crate::context_switch::ThreadState::Unknown,
                on_cpu_ns: 0,
            },
            last_sample_timestamp: None,
            off_cpu_stack: None,
            name: None,
        }
    }
}

/// A process: its threads, and what it has collected for the profile.
pub struct Process {
    pub pid: i32,
    pub profile_process: usize,
    pub name: Option<String>,
    pub threads: ProcessThreads,
    pub samples: Vec<UnresolvedSample>,
    pub markers: Vec<MarkerRecord>,
    pub lib_mapping_ops: LibMappingOpQueue,
    /// Jitdump files that the process mapped.
    pub jitdump_paths: Vec<Vec<u8>>,
    pub prev_mm_filepages_size: i64,
    pub prev_mm_anonpages_size: i64,
    pub prev_mm_swapents_size: i64,
    pub prev_mm_shmempages_size: i64,
    /// Index of the process's memory counter in the profile log, once made.
    pub mem_counter: Option<usize>,
}

impl Process {
    pub open spec fn wf(&self) -> bool {
        &&& self.threads.wf()
        &&& self.threads.pid == self.pid
        &&& self.threads.profile_process == self.profile_process
        &&& self.lib_mapping_ops.wf()
    }

    /// A new process with pid `pid` and its main thread, registered in `log`.
    pub fn new(pid: i32, log: &mut ProfileLog) -> (r: Self)
        ensures
            r.wf(),
            is_fresh_process(r, pid),
            r.profile_process == old(log).ops@.len(),
            r.threads.main_thread.profile_thread == old(log).ops@.len() + 1,
            final(log).ops@ == old(log).ops@
                .push(ProfileOp::AddProcess { pid })
                .push(ProfileOp::AddThread { process: old(log).ops@.len() as usize, tid: pid, is_main: true }),
    {
        let profile_process = log.push(ProfileOp::AddProcess { pid });
        let profile_thread = log.push(ProfileOp::AddThread { process: profile_process, tid: pid, is_main: true });
        Process {
            pid,
            profile_process,
            name: None,
            threads: ProcessThreads::new(pid, profile_process, Thread::new(pid, profile_thread)),
            samples: Vec::new(),
            markers: Vec::new(),
            lib_mapping_ops: LibMappingOpQueue::new(),
            jitdump_paths: Vec::new(),
            prev_mm_filepages_size: 0,
            prev_mm_anonpages_size: 0,
            prev_mm_swapents_size: 0,
            prev_mm_shmempages_size: 0,
            mem_counter: None,
        }
    }

    /// Gives a pooled process the pid of the process that adopts it.
    pub fn reset_for_reuse(&mut self, new_pid: i32)
        requires
            old(self).wf(),
            old(self).threads.threads@.len() == 0,
        ensures
            final(self).wf(),
            *final(self) == reused_process(*old(self), new_pid),
    {
        self.pid = new_pid;
        self.threads.pid = new_pid;
        proof {
            assert(!has_tid(self.threads.threads@, new_pid));
        }
    }

    /// Ends the process: its unwinder is dropped, its non-main threads end
    /// (pooled when `allow_thread_reuse`), and what it collected is handed out.
    pub fn on_remove(&mut self, allow_thread_reuse: bool, log: &mut ProfileLog) -> (r: ProcessSampleData)
        requires
            old(self).wf(),
        ensures
            final(self).wf(),
            final(self).pid == old(self).pid,
            final(self).name == old(self).name,
            final(self).profile_process == old(self).profile_process,
            allow_thread_reuse ==> final(self).threads.threads@.len() == 0
                && final(self).threads.ended_threads@ == old(self).threads.ended_threads@ + pooled_threads(old(self).threads.threads@),
            !allow_thread_reuse ==> final(self).threads == old(self).threads,
            final(self).lib_mapping_ops.ops@.len() == 0,
            final(self).markers@.len() == 0,
            final(self).jitdump_paths@.len() == 0,
            data_of(r, *old(self)),
            r.pid == old(self).pid,
            r.process == old(self).profile_process,
            r.samples@ == old(self).samples@,
            r.markers@ == old(self).markers@,
            r.lib_mapping_ops@ == old(self).lib_mapping_ops.ops@,
            r.jitdump_paths@ == old(self).jitdump_paths@,
            final(self).samples@.len() == 0,
            final(log).ops@ == old(log).ops@.push(ProfileOp::DropUnwinder { pid: old(self).pid }),
    {
        log.push(ProfileOp::DropUnwinder { pid: self.pid });
        if allow_thread_reuse {
            self.threads.prepare_for_reuse();
        }
        let mut samples: Vec<UnresolvedSample> = Vec::new();
        let mut markers: Vec<MarkerRecord> = Vec::new();
        let mut jitdump_paths: Vec<Vec<u8>> = Vec::new();
        std::mem::swap(&mut samples, &mut self.samples);
        std::mem::swap(&mut markers, &mut self.markers);
        let lib_mapping_ops = self.lib_mapping_ops.take_ops();
        std::mem::swap(&mut jitdump_paths, &mut self.jitdump_paths);
        ProcessSampleData { pid: self.pid, process: self.profile_process, samples, markers, lib_mapping_ops, jitdump_paths }
    }

    /// Adds a mapping of library `lib` over `[start_address, end_address)`.
    pub fn add_regular_lib_mapping(
        &mut self,
        timestamp: u64,
        start_address: u64,
        end_address: u64,
        relative_address_at_start: u32,
        lib: usize,
    )
        requires
            old(self).wf(),
        ensures
            final(self).wf(),
            final(self).lib_mapping_ops.ops@.len() > old(self).lib_mapping_ops.ops@.len(),
            final(self).lib_mapping_ops.ops@.subrange(0, old(self).lib_mapping_ops.ops@.len() as int)
                == old(self).lib_mapping_ops.ops@,
            final(self).lib_mapping_ops.ops@.last() == (LibMappingOpEntry {
                timestamp,
                op: LibMappingOp::Add(LibMappingAdd {
                    start_avma: start_address,
                    end_avma: end_address,
                    relative_address_at_start,
                    info: LibMappingInfo::Lib { lib },
                }),
            }),
            (forall|i: int| 0 <= i < old(self).lib_mapping_ops.live@.len() ==> !crate::mappings::overlaps(
                #[trigger] old(self).lib_mapping_ops.live@[i],
                crate::mappings::AvmaRange { start_avma: start_address, end_avma: end_address },
            )) ==> final(self).lib_mapping_ops.ops@ == old(self).lib_mapping_ops.ops@.push(LibMappingOpEntry {
                timestamp,
                op: LibMappingOp::Add(LibMappingAdd {
                    start_avma: start_address,
                    end_avma: end_address,
                    relative_address_at_start,
                    info: LibMappingInfo::Lib { lib },
                }),
            }),
            final(self).pid == old(self).pid,
            final(self).profile_process == old(self).profile_process,
            final(self).threads == old(self).threads,
            final(self).name == old(self).name,
    {
        self.lib_mapping_ops.push_add(timestamp, LibMappingAdd {
            start_avma: start_address,
            end_avma: end_address,
            relative_address_at_start,
            info: LibMappingInfo::Lib { lib },
        });
    }

    /// Adds a mapping of a library that holds one JIT-compiled function named
    /// `symbol_name`, and a marker of its arrival on the main thread.
    pub fn add_lib_mapping_for_injected_jit_lib(
        &mut self,
        timestamp: u64,
        profile_timestamp: u64,
        symbol_name: Option<String>,
        start_address: u64,
        end_address: u64,
        relative_address_at_start: u32,
        lib: usize,
        log: &mut ProfileLog,
    )
        requires
            old(self).wf(),
        ensures
            final(self).wf(),
            final(self).lib_mapping_ops.ops@.len() > old(self).lib_mapping_ops.ops@.len(),
            final(self).lib_mapping_ops.ops@.subrange(0, old(self).lib_mapping_ops.ops@.len() as int)
                == old(self).lib_mapping_ops.ops@,
            final(self).lib_mapping_ops.ops@.last() == (LibMappingOpEntry {
                timestamp,
                op: LibMappingOp::Add(LibMappingAdd {
                    start_avma: start_address,
                    end_avma: end_address,
                    relative_address_at_start,
                    info: LibMappingInfo::JitFunction { lib, symbol_name },
                }),
            }),
            (forall|i: int| 0 <= i < old(self).lib_mapping_ops.live@.len() ==> !crate::mappings::overlaps(
                #[trigger] old(self).lib_mapping_ops.live@[i],
                crate::mappings::AvmaRange { start_avma: start_address, end_avma: end_address },
            )) ==> final(self).lib_mapping_ops.ops@ == old(self).lib_mapping_ops.ops@.push(LibMappingOpEntry {
                timestamp,
                op: LibMappingOp::Add(LibMappingAdd {
                    start_avma: start_address,
                    end_avma: end_address,
                    relative_address_at_start,
                    info: LibMappingInfo::JitFunction { lib, symbol_name },
                }),
            }),
            final(log).ops@.len() == old(log).ops@.len() + 1,
            final(log).ops@.drop_last() == old(log).ops@,
            final(log).ops@.last() matches ProfileOp::JitFunctionAddMarker { thread, time, name }
                && thread == old(self).threads.main_thread.profile_thread && time == profile_timestamp
                && name@ == match symbol_name {
                    Some(n) => n@,
                    None => "<unknown>"@,
                },
            final(self).pid == old(self).pid,
            final(self).profile_process == old(self).profile_process,
            final(self).threads == old(self).threads,
            final(self).name == old(self).name,
    {
        let marker_name = match &symbol_name {
            Some(n) => n.clone(),
            None => "<unknown>".to_string(),
        };
        let ghost before = log.ops@;
        log.push(ProfileOp::JitFunctionAddMarker {
            thread: self.threads.main_thread.profile_thread,
            time: profile_timestamp,
            name: marker_name,
        });
        proof {
            assert(log.ops@.drop_last() =~= before);
        }
        self.lib_mapping_ops.push_add(timestamp, LibMappingAdd {
            start_avma: start_address,
            end_avma: end_address,
            relative_address_at_start,
            info: LibMappingInfo::JitFunction { lib, symbol_name },
        });
    }

    /// The process's memory counter, made on first use.
    pub fn get_or_make_mem_counter(&mut self, log: &mut ProfileLog) -> (r: usize)
        ensures
            *final(self) == (Process { mem_counter: Some(r), ..*old(self) }),
            old(self).mem_counter is Some ==> r == old(self).mem_counter->0 && final(log).ops@ == old(log).ops@,
            old(self).mem_counter is None ==> r == old(log).ops@.len()
                && final(log).ops@ == old(log).ops@.push(ProfileOp::AddCounter { process: old(self).profile_process }),
    {
        match self.mem_counter {
            Some(c) => c,
            None => {
                let c = log.push(ProfileOp::AddCounter { process: self.profile_process });
                self.mem_counter = Some(c);
                c
            },
        }
    }
}

/// A process as it is made when its pid is first seen: named `<pid>`, with
/// only its main thread, and nothing collected yet.
pub open spec fn is_fresh_process(p: Process, pid: i32) -> bool {
    &&& has_fresh_contents(p, pid)
    &&& p.threads.threads@.len() == 0
    &&& p.threads.main_thread == Thread::spec_new(pid, p.threads.main_thread.profile_thread)
}

/// Everything but the live threads of a process is as when it was made.
pub open spec fn has_fresh_contents(p: Process, pid: i32) -> bool {
    &&& p.pid == pid
    &&& p.name is None
    &&& p.samples@.len() == 0
    &&& p.markers@.len() == 0
    &&& p.lib_mapping_ops.ops@.len() == 0
    &&& p.lib_mapping_ops.live@.len() == 0
    &&& p.jitdump_paths@.len() == 0
    &&& p.prev_mm_filepages_size == 0
    &&& p.prev_mm_anonpages_size == 0
    &&& p.prev_mm_swapents_size == 0
    &&& p.prev_mm_shmempages_size == 0
    &&& p.mem_counter is None
    &&& p.threads.pid == pid
    &&& p.threads.profile_process == p.profile_process
    &&& p.threads.ended_threads@.len() == 0
}

/// A pooled process given the pid of the process that adopts it.
pub open spec fn reused_process(p: Process, pid: i32) -> Process {
    Process { pid, threads: ProcessThreads { pid, ..p.threads }, ..p }
}

/// `d` is what process `p` leaves for the profile when it is removed.
pub open spec fn data_of(d: ProcessSampleData, p: Process) -> bool {
    &&& d.pid == p.pid
    &&& d.process == p.profile_process
    &&& d.samples@ == p.samples@
    &&& d.markers@ == p.markers@
    &&& d.lib_mapping_ops@ == p.lib_mapping_ops.ops@
    &&& d.jitdump_paths@ == p.jitdump_paths@
}

/// Whether process `p` leaves anything for the profile.
pub open spec fn has_data(p: Process) -> bool {
    p.samples@.len() != 0 || p.markers@.len() != 0 || p.lib_mapping_ops.ops@.len() != 0 || p.jitdump_paths@.len() != 0
}

/// The processes of `ps` that leave anything for the profile, in order.
pub open spec fn with_data(ps: Seq<Process>) -> Seq<Process>
    decreases ps.len(),
{
    if ps.len() == 0 {
        Seq::empty()
    } else {
        (if has_data(ps[0]) { seq![ps[0]] } else { Seq::empty() }) + with_data(ps.drop_first())
    }
}

/// The live processes, the pool of ended ones, and what removed processes left.
pub struct Processes {
    pub processes: Vec<Process>,
    /// Ended named processes, oldest first, that a new process of the same name may adopt.
    pub ended_processes: Vec<Process>,
    pub process_sample_datas: Vec<ProcessSampleData>,
    pub allow_reuse: bool,
}

pub open spec fn pids_unique(ps: Seq<Process>) -> bool {
    forall|i: int, j: int| 0 <= i < ps.len() && 0 <= j < ps.len() && i != j ==> ps[i].pid != ps[j].pid
}

pub open spec fn has_pid(ps: Seq<Process>, pid: i32) -> bool {
    exists|i: int| 0 <= i < ps.len() && #[trigger] ps[i].pid == pid
}

pub open spec fn all_wf(ps: Seq<Process>) -> bool {
    forall|i: int| 0 <= i < ps.len() ==> (#[trigger] ps[i]).wf()
}

impl Processes {
    pub open spec fn wf(&self) -> bool {
        &&& pids_unique(self.processes@)
        &&& all_wf(self.processes@)
        &&& all_wf(self.ended_processes@)
        &&& forall|i: int| 0 <= i < self.ended_processes@.len() ==> (#[trigger] self.ended_processes@[i]).threads.threads@.len() == 0
    }

    pub fn new(allow_reuse: bool) -> (r: Self)
        ensures
            r.wf(),
            r.allow_reuse == allow_reuse,
            r.processes@.len() == 0,
            r.ended_processes@.len() == 0,
            r.process_sample_datas@.len() == 0,
    {
        Processes { processes: Vec::new(), ended_processes: Vec::new(), process_sample_datas: Vec::new(), allow_reuse }
    }

    fn find(&self, pid: i32) -> (r: Option<usize>)
        ensures
            match r {
                Some(i) => i < self.processes@.len() && self.processes@[i as int].pid == pid,
                None => !has_pid(self.processes@, pid),
            },
    {
        let mut i: usize = 0;
        while i < self.processes.len()
            invariant
                0 <= i <= self.processes@.len(),
                forall|j: int| 0 <= j < i ==> self.processes@[j].pid != pid,
            decreases self.processes@.len() - i,
        {
            if self.processes[i].pid == pid {
                return Some(i);
            }
            i = i + 1;
        }
        None
    }

    /// The live process with pid `pid`, if any.
    pub open spec fn spec_process(&self, pid: i32) -> Option<Process> {
        if has_pid(self.processes@, pid) {
            Some(self.processes@[choose|i: int| 0 <= i < self.processes@.len() && #[trigger] self.processes@[i].pid == pid])
        } else {
            None
        }
    }

    /// Mutable access to live process `i`.
    pub fn process_mut(&mut self, i: usize) -> (r: &mut Process)
        requires
            i < old(self).processes@.len(),
        ensures
            *r == old(self).processes@[i as int],
            final(self).processes@ == old(self).processes@.update(i as int, *final(r)),
            final(self).ended_processes@ == old(self).ended_processes@,
            final(self).process_sample_datas@ == old(self).process_sample_datas@,
            final(self).allow_reuse == old(self).allow_reuse,
    {
        &mut self.processes[i]
    }

    /// The index of live process `pid`; one that is not live yet is created.
    pub fn get_by_pid(&mut self, pid: i32, log: &mut ProfileLog) -> (r: usize)
        requires
            old(self).wf(),
        ensures
            final(self).wf(),
            r < final(self).processes@.len(),
            final(self).processes@[r as int].pid == pid,
            final(self).ended_processes@ == old(self).ended_processes@,
            final(self).process_sample_datas@ == old(self).process_sample_datas@,
            final(self).allow_reuse == old(self).allow_reuse,
            has_pid(old(self).processes@, pid) ==> final(self).processes@ == old(self).processes@ && final(log).ops@ == old(log).ops@,
            !has_pid(old(self).processes@, pid) ==> {
                &&& final(self).processes@.len() == old(self).processes@.len() + 1
                &&& final(self).processes@.subrange(0, old(self).processes@.len() as int) == old(self).processes@
                &&& r == old(self).processes@.len()
                &&& is_fresh_process(final(self).processes@[r as int], pid)
                &&& final(self).processes@[r as int].profile_process == old(log).ops@.len()
                &&& final(self).processes@[r as int].threads.main_thread.profile_thread == old(log).ops@.len() + 1
                &&& final(log).ops@ == old(log).ops@
                    .push(ProfileOp::AddProcess { pid })
                    .push(ProfileOp::AddThread { process: old(log).ops@.len() as usize, tid: pid, is_main: true })
            },
    {
        if let Some(i) = self.find(pid) {
            return i;
        }
        let p = Process::new(pid, log);
        let ghost before = self.processes@;
        self.processes.push(p);
        proof {
            assert(forall|j: int| 0 <= j < before.len() ==> self.processes@[j] == before[j]);
            assert(self.processes@.subrange(0, before.len() as int) =~= before);
        }
        self.processes.len() - 1
    }

    /// If `pid` is not live and an ended process is named `name`, the oldest
    /// such process becomes live again as `pid`.
    pub fn attempt_reuse(&mut self, pid: i32, name: &String) -> (r: bool)
        requires
            old(self).wf(),
        ensures
            final(self).wf(),
            final(self).process_sample_datas@ == old(self).process_sample_datas@,
            final(self).allow_reuse == old(self).allow_reuse,
            r == (!has_pid(old(self).processes@, pid)
                && exists|k: int| 0 <= k < old(self).ended_processes@.len() && same_name(#[trigger] old(self).ended_processes@[k].name, name@)),
            r ==> has_pid(final(self).processes@, pid),
            !r ==> final(self).processes@ == old(self).processes@ && final(self).ended_processes@ == old(self).ended_processes@,
            r ==> exists|k: int| {
                &&& 0 <= k < old(self).ended_processes@.len()
                &&& same_name(#[trigger] old(self).ended_processes@[k].name, name@)
                &&& forall|j: int| 0 <= j < k ==> !same_name(#[trigger] old(self).ended_processes@[j].name, name@)
                &&& final(self).processes@ == old(self).processes@.push(reused_process(old(self).ended_processes@[k], pid))
                &&& final(self).ended_processes@ == old(self).ended_processes@.remove(k)
            },
    {
        if self.find(pid).is_some() {
            return false;
        }
        let mut k: usize = 0;
        while k < self.ended_processes.len()
            invariant
                0 <= k <= self.ended_processes@.len(),
                forall|j: int| 0 <= j < k ==> !same_name(#[trigger] self.ended_processes@[j].name, name@),
                self.processes@ == old(self).processes@,
                self.ended_processes@ == old(self).ended_processes@,
                self.process_sample_datas@ == old(self).process_sample_datas@,
                self.allow_reuse == old(self).allow_reuse,
                self.wf(),
                !has_pid(self.processes@, pid),
            decreases self.ended_processes@.len() - k,
        {
            if name_is(&self.ended_processes[k].name, name) {
                let ghost ended_before = self.ended_processes@;
                let mut process = self.ended_processes.remove(k);
                proof {
                    assert(ended_before == old(self).ended_processes@);
                    assert(same_name(ended_before[k as int].name, name@));
                }
                proof {
                    assert(ended_before[k as int] == process);
                    assert forall|i: int| 0 <= i < self.ended_processes@.len() implies
                        (#[trigger] self.ended_processes@[i]).wf() && self.ended_processes@[i].threads.threads@.len() == 0 by {
                        if i < k {
                            assert(self.ended_processes@[i] == ended_before[i]);
                        } else {
                            assert(self.ended_processes@[i] == ended_before[i + 1]);
                        }
                    }
                }
                process.reset_for_reuse(pid);
                let ghost before = self.processes@;
                self.processes.push(process);
                proof {
                    assert(forall|j: int| 0 <= j < before.len() ==> self.processes@[j] == before[j]);
                    assert(self.processes@[before.len() as int].pid == pid);
                    assert(pids_unique(self.processes@)) by {
                        assert forall|a: int, b: int| 0 <= a < self.processes@.len() && 0 <= b < self.processes@.len() && a != b
                            implies self.processes@[a].pid != self.processes@[b].pid by {
                            if a < before.len() && b < before.len() {
                            } else if a < before.len() {
                                assert(before[a].pid != pid);
                            } else {
                                assert(before[b].pid != pid);
                            }
                        }
                    }
                }
                return true;
            }
            k = k + 1;
        }
        false
    }

    /// Removes live process `pid`, ending it at `time`. What it collected is
    /// kept for the profile; with reuse allowed, a named process joins the pool.
    pub fn remove(&mut self, pid: i32, time: u64, log: &mut ProfileLog)
        requires
            old(self).wf(),
        ensures
            final(self).wf(),
            final(self).allow_reuse == old(self).allow_reuse,
            !has_pid(final(self).processes@, pid),
            !has_pid(old(self).processes@, pid) ==> final(self).processes@ == old(self).processes@
                && final(self).process_sample_datas@ == old(self).process_sample_datas@
                && final(self).ended_processes@ == old(self).ended_processes@
                && final(log).ops@ == old(log).ops@,
            has_pid(old(self).processes@, pid) ==> exists|i: int| {
                let p = old(self).processes@[i];
                &&& 0 <= i < old(self).processes@.len()
                &&& #[trigger] old(self).processes@[i].pid == pid
                &&& final(self).processes@ == old(self).processes@.remove(i)
                &&& final(log).ops@ == old(log).ops@
                    .push(ProfileOp::SetProcessEndTime { process: p.profile_process, time })
                    .push(ProfileOp::DropUnwinder { pid })
                &&& has_data(p) ==> final(self).process_sample_datas@.len() == old(self).process_sample_datas@.len() + 1
                    && final(self).process_sample_datas@.drop_last() == old(self).process_sample_datas@
                    && data_of(final(self).process_sample_datas@.last(), p)
                &&& !has_data(p) ==> final(self).process_sample_datas@ == old(self).process_sample_datas@
                &&& (old(self).allow_reuse && p.name is Some) ==> final(self).ended_processes@.len() == old(self).ended_processes@.len() + 1
                    && final(self).ended_processes@.drop_last() == old(self).ended_processes@
                    && final(self).ended_processes@.last().name == p.name
                    && final(self).ended_processes@.last().profile_process == p.profile_process
                &&& !(old(self).allow_reuse && p.name is Some) ==> final(self).ended_processes@ == old(self).ended_processes@
            },
    {
        let i = match self.find(pid) {
            Some(i) => i,
            None => return,
        };
        let ghost before = self.processes@;
        let mut process = self.processes.remove(i);
        proof {
            assert(before[i as int] == process);
            assert forall|j: int| 0 <= j < self.processes@.len() implies
                (#[trigger] self.processes@[j]).pid != pid && self.processes@[j].wf() by {
                if j < i {
                    assert(self.processes@[j] == before[j]);
                } else {
                    assert(self.processes@[j] == before[j + 1]);
                }
            }
            assert(pids_unique(self.processes@)) by {
                assert forall|a: int, b: int| 0 <= a < self.processes@.len() && 0 <= b < self.processes@.len() && a != b
                    implies self.processes@[a].pid != self.processes@[b].pid by {
                    let a2 = if a < i { a } else { a + 1 };
                    let b2 = if b < i { b } else { b + 1 };
                    assert(self.processes@[a] == before[a2]);
                    assert(self.processes@[b] == before[b2]);
                }
            }
        }
        log.push(ProfileOp::SetProcessEndTime { process: process.profile_process, time });
        let data = process.on_remove(self.allow_reuse, log);
        if !data.is_empty() {
            self.process_sample_datas.push(data);
        }
        if self.allow_reuse && process.name.is_some() {
            self.ended_processes.push(process);
            proof {
                assert forall|j: int| 0 <= j < self.ended_processes@.len() implies
                    (#[trigger] self.ended_processes@[j]).wf() && self.ended_processes@[j].threads.threads@.len() == 0 by {
                    if j < self.ended_processes@.len() - 1 {
                        assert(self.ended_processes@[j] == old(self).ended_processes@[j]);
                    }
                }
            }
        }
    }

    /// Ends all live processes and returns what every removed process left
    /// for the profile, in the order of removal.
    pub fn finish(self, log: &mut ProfileLog) -> (r: Vec<ProcessSampleData>)
        requires
            self.wf(),
        ensures
            r@.len() >= self.process_sample_datas@.len(),
            r@.subrange(0, self.process_sample_datas@.len() as int) == self.process_sample_datas@,
            self.processes@.len() == 0 ==> r@ == self.process_sample_datas@ && final(log).ops@ == old(log).ops@,
            r@.len() == self.process_sample_datas@.len() + with_data(self.processes@).len(),
            forall|j: int| 0 <= j < with_data(self.processes@).len() ==>
                data_of(#[trigger] r@[self.process_sample_datas@.len() + j], with_data(self.processes@)[j]),
    {
        let Processes { processes, ended_processes: _, process_sample_datas, allow_reuse } = self;
        let mut datas = process_sample_datas;
        let mut live = processes;
        let ghost stored = datas@;
        let ghost none_live = live@.len() == 0;
        let ghost all = live@;
        let ghost mut done: Seq<Process> = Seq::empty();
        proof {
            assert(datas@.subrange(0, stored.len() as int) =~= stored);
            assert(with_data(all) =~= done + with_data(live@));
        }
        while live.len() > 0
            invariant
                all_wf(live@),
                with_data(all) == done + with_data(live@),
                datas@.len() == stored.len() + done.len(),
                forall|j: int| 0 <= j < done.len() ==> data_of(#[trigger] datas@[stored.len() + j], done[j]),
                datas@.len() >= stored.len(),
                datas@.subrange(0, stored.len() as int) == stored,
                none_live ==> datas@ == stored && live@.len() == 0 && log.ops@ == old(log).ops@,
            decreases live@.len(),
        {
            let ghost before = live@;
            let mut process = live.remove(0);
            proof {
                assert(before[0] == process);
                assert forall|j: int| 0 <= j < live@.len() implies (#[trigger] live@[j]).wf() by {
                    assert(live@[j] == before[j + 1]);
                }
            }
            let ghost p0 = process;
            proof {
                assert(before.drop_first() =~= live@);
            }
            let data = process.on_remove(allow_reuse, log);
            if !data.is_empty() {
                let ghost prev = datas@;
                datas.push(data);
                proof {
                    assert(datas@.subrange(0, stored.len() as int) =~= prev.subrange(0, stored.len() as int));
                    assert(has_data(p0));
                    assert(with_data(before) == seq![p0] + with_data(live@));
                    assert(with_data(all) =~= done.push(p0) + with_data(live@));
                    assert forall|j: int| 0 <= j < done.len() + 1 implies data_of(#[trigger] datas@[stored.len() + j], done.push(p0)[j]) by {
                        if j < done.len() {
                            assert(datas@[stored.len() + j] == prev[stored.len() + j]);
                        }
                    }
                    done = done.push(p0);
                }
            } else {
                proof {
                    assert(!has_data(p0));
                    assert(with_data(before) =~= with_data(live@));
                }
            }
        }
        proof {
            assert(with_data(live@) =~= Seq::<Process>::empty());
            assert(done =~= with_data(all));
        }
        datas
    }
}

/// Replacing the thread in a slot by one with the same tid keeps the table well formed.
pub proof fn lemma_thread_update_keeps_wf(before: ProcessThreads, after: ProcessThreads)
    requires
        before.wf(),
        after.pid == before.pid,
        after.threads@.len() == before.threads@.len(),
        forall|k: int| 0 <= k < before.threads@.len() ==> #[trigger] after.threads@[k].tid == before.threads@[k].tid,
    ensures
        after.wf(),
{
    assert(!has_tid(after.threads@, after.pid)) by {
        if has_tid(after.threads@, after.pid) {
            let k = choose|k: int| 0 <= k < after.threads@.len() && #[trigger] after.threads@[k].tid == after.pid;
            assert(before.threads@[k].tid == after.pid);
        }
    }
}

/// A live thread's slot is what lookup by its tid finds.
pub proof fn lemma_lookup_slot(threads: ProcessThreads, slot: ThreadSlot, tid: i32)
    requires
        threads.wf(),
        threads.slot_valid(slot),
        slot == ThreadSlot::Main ==> tid == threads.pid,
        slot != ThreadSlot::Main ==> threads.spec_thread(slot).tid == tid,
    ensures
        threads.spec_lookup(tid) == Some(slot),
{
    if let ThreadSlot::Other(i) = slot {
        assert(threads.threads@[i as int].tid == tid);
        assert(tid != threads.pid);
        let c = choose|j: usize| j < threads.threads@.len() && #[trigger] threads.threads@[j as int].tid == tid;
        assert(c == i) by {
            if c != i {
                assert(threads.threads@[c as int].tid != threads.threads@[i as int].tid);
            }
        }
    }
}

/// Replacing live process `i` by a well-formed one with the same pid keeps
/// the registry well formed, and lookup by that pid finds the new process.
pub proof fn lemma_process_update_keeps_wf(before: Processes, after: Processes, i: int)
    requires
        before.wf(),
        0 <= i < before.processes@.len(),
        after.processes@ == before.processes@.update(i, after.processes@[i]),
        after.processes@[i].pid == before.processes@[i].pid,
        after.processes@[i].wf(),
        after.ended_processes@ == before.ended_processes@,
    ensures
        after.wf(),
        after.spec_process(after.processes@[i].pid) == Some(after.processes@[i]),
{
    let ps = after.processes@;
    assert(pids_unique(ps)) by {
        assert forall|a: int, b: int| 0 <= a < ps.len() && 0 <= b < ps.len() && a != b implies ps[a].pid != ps[b].pid by {
            assert(before.processes@[a].pid == ps[a].pid);
            assert(before.processes@[b].pid == ps[b].pid);
        }
    }
    assert(all_wf(ps)) by {
        assert forall|k: int| 0 <= k < ps.len() implies (#[trigger] ps[k]).wf() by {
            if k != i {
                assert(ps[k] == before.processes@[k]);
            }
        }
    }
    lemma_process_lookup(after, i);
}

/// Live process `i` is what lookup by its pid finds.
pub proof fn lemma_process_lookup(ps: Processes, i: int)
    requires
        pids_unique(ps.processes@),
        0 <= i < ps.processes@.len(),
    ensures
        ps.spec_process(ps.processes@[i].pid) == Some(ps.processes@[i]),
{
    let pid = ps.processes@[i].pid;
    assert(has_pid(ps.processes@, pid));
    let c = choose|k: int| 0 <= k < ps.processes@.len() && #[trigger] ps.processes@[k].pid == pid;
    assert(c == i);
}

} // verus!

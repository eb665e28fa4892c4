//! The record dispatcher: routes each record to the process and thread it
//! concerns and keeps their state.
use vstd::prelude::*;
use crate::context_switch::ContextSwitchHandler;
use crate::mappings::{lemma_pairwise_disjoint_pairs, live_mappings, overlaps};
use crate::profile_log::{MarkerRecord, ProcessSampleData, ProfileLog, ProfileOp};
use crate::registry::{
    has_pid, same_name, lemma_lookup_slot, lemma_process_lookup, lemma_process_update_keeps_wf, lemma_thread_update_keeps_wf,
    Process, Processes, ThreadSlot,
};
use crate::rss::{spec_member_of, spec_rss_stat, Endianness, RssStat, RssStatMember};
use crate::stack::{get_sample_stack, sample_stack, SampleStackInput, UserUnwind};
use crate::stacks::{reversed_frames, without_kernel, UnresolvedStackHandle, UnresolvedStacks};
use crate::thread::{resume_step, sample_step, switch_out_step, Thread, TimestampConverter, UnresolvedSample};

verus! {

broadcast use vstd::string::to_string_from_display_ensures_for_str;

/// Off-CPU sampling interval when the main event is not time based: 1 ms.
pub const DEFAULT_OFF_CPU_SAMPLING_INTERVAL_NS: u64 = 1_000_000;

/// The fields of a sample record that conversion reads.
#[derive(Clone, Debug)]
pub struct SampleInput {
    pub pid: i32,
    pub tid: Option<i32>,
    pub timestamp: Option<u64>,
    pub period: Option<u64>,
    pub stack: SampleStackInput,
}

/// A FORK or EXIT record.
#[derive(Clone, Copy, Debug)]
pub struct ForkOrExitInput {
    pub pid: i32,
    pub ppid: i32,
    pub tid: i32,
    pub ptid: i32,
    pub timestamp: u64,
}

/// A COMM record: a thread got a new name, by exec or by renaming itself.
#[derive(Clone, Debug)]
pub struct CommOrExecInput {
    pub pid: i32,
    pub tid: i32,
    pub name: String,
    pub is_execve: bool,
}

fn clone_name(n: &Option<String>) -> (r: Option<String>)
    ensures
        r == *n,
{
    match n {
        Some(s) => Some(s.clone()),
        None => None,
    }
}

/// What a conversion run leaves for the profile.
pub struct ConversionOutput {
    pub log: ProfileLog,
    pub stacks: UnresolvedStacks,
    pub process_sample_datas: Vec<ProcessSampleData>,
}

/// `ops` extends `old` by operations that create processes and threads only.
pub open spec fn only_creations(old: Seq<ProfileOp>, ops: Seq<ProfileOp>) -> bool {
    &&& old.len() <= ops.len()
    &&& ops.subrange(0, old.len() as int) == old
    &&& forall|k: int| old.len() <= k < ops.len() ==> (#[trigger] ops[k] is AddProcess || ops[k] is AddThread)
}

proof fn lemma_creations_same(o: Seq<ProfileOp>)
    ensures
        only_creations(o, o),
{
    assert(o.subrange(0, o.len() as int) =~= o);
}

proof fn lemma_creations_push(o: Seq<ProfileOp>, n: Seq<ProfileOp>, op: ProfileOp)
    requires
        only_creations(o, n),
        op is AddProcess || op is AddThread,
    ensures
        only_creations(o, n.push(op)),
{
    assert(n.push(op).subrange(0, o.len() as int) =~= n.subrange(0, o.len() as int));
    assert forall|k: int| o.len() <= k < n.push(op).len() implies (#[trigger] n.push(op)[k] is AddProcess || n.push(op)[k] is AddThread) by {
        if k < n.len() {
            assert(n.push(op)[k] == n[k]);
        }
    }
}

proof fn lemma_creations_trans(a: Seq<ProfileOp>, b: Seq<ProfileOp>, c: Seq<ProfileOp>)
    requires
        only_creations(a, b),
        only_creations(b, c),
    ensures
        only_creations(a, c),
{
    assert(c.subrange(0, a.len() as int) =~= b.subrange(0, a.len() as int)) by {
        assert forall|k: int| 0 <= k < a.len() implies c[k] == b[k] by {
            assert(c.subrange(0, b.len() as int)[k] == c[k]);
        }
    }
    assert forall|k: int| a.len() <= k < c.len() implies (#[trigger] c[k] is AddProcess || c[k] is AddThread) by {
        if k < b.len() {
            assert(c.subrange(0, b.len() as int)[k] == c[k]);
        }
    }
}

/// The log after process `pid` was looked up: unchanged if it was live,
/// else with its process and main thread added.
proof fn lemma_get_by_pid_log(o: Seq<ProfileOp>, n: Seq<ProfileOp>, pid: i32)
    requires
        n == o || n == o.push(ProfileOp::AddProcess { pid }).push(ProfileOp::AddThread { process: o.len() as usize, tid: pid, is_main: true }),
    ensures
        only_creations(o, n),
{
    lemma_creations_same(o);
    if n != o {
        lemma_creations_push(o, o, ProfileOp::AddProcess { pid });
        lemma_creations_push(o, o.push(ProfileOp::AddProcess { pid }), ProfileOp::AddThread { process: o.len() as usize, tid: pid, is_main: true });
    }
}

/// The operations that naming a thread logs: its name, the process's name
/// for a main thread, start times for a thread that has just come to be,
/// and the product name when it is due.
pub open spec fn name_ops(
    thread: usize,
    process: usize,
    name: String,
    is_main: bool,
    creation: bool,
    time: u64,
    product: bool,
) -> Seq<ProfileOp> {
    seq![ProfileOp::SetThreadName { thread, name }]
        + (if is_main { seq![ProfileOp::SetProcessName { process, name }] } else { Seq::empty() })
        + (if creation {
            seq![ProfileOp::SetThreadStartTime { thread, time }]
                + (if is_main { seq![ProfileOp::SetProcessStartTime { process, time }] } else { Seq::empty() })
        } else {
            Seq::empty()
        })
        + (if product { seq![ProfileOp::SetProductFromName { name }] } else { Seq::empty() })
}

/// The operation naming a thread, if it has a name.
pub open spec fn thread_name_op(thread: usize, name: Option<String>) -> Seq<ProfileOp> {
    match name {
        Some(n) => seq![ProfileOp::SetThreadName { thread, name: n }],
        None => Seq::empty(),
    }
}

/// `ops` is `old` extended by creations, then by `tail`.
pub open spec fn ends_with_after_creations(old: Seq<ProfileOp>, ops: Seq<ProfileOp>, tail: Seq<ProfileOp>) -> bool {
    &&& ops.len() >= tail.len()
    &&& ops.subrange(ops.len() - tail.len(), ops.len() as int) == tail
    &&& only_creations(old, ops.subrange(0, ops.len() - tail.len()))
}

proof fn lemma_ends_with_trans(o: Seq<ProfileOp>, l: Seq<ProfileOp>, f: Seq<ProfileOp>, tail: Seq<ProfileOp>)
    requires
        only_creations(o, l),
        ends_with_after_creations(l, f, tail),
    ensures
        ends_with_after_creations(o, f, tail),
{
    lemma_creations_trans(o, l, f.subrange(0, f.len() - tail.len()));
}

/// Whether a thread of `pool` has the name `name`.
pub open spec fn has_pooled(pool: Seq<Thread>, name: Option<String>) -> bool {
    match name {
        Some(n) => exists|k: int| 0 <= k < pool.len() && same_name(#[trigger] pool[k].name, n@),
        None => false,
    }
}

/// `t` is the oldest thread of `pool` named `name`, adopted as `tid`.
pub open spec fn adopted_from(pool: Seq<Thread>, name: Option<String>, t: Thread, tid: i32) -> bool {
    exists|k: int| {
        &&& 0 <= k < pool.len()
        &&& same_name(#[trigger] pool[k].name, name->0@)
        &&& forall|j: int| 0 <= j < k ==> !same_name(#[trigger] pool[j].name, name->0@)
        &&& t == (Thread { tid, name, ..pool[k] })
    }
}

/// The ended threads kept for reuse by process `pid`; none if it is not live.
pub open spec fn thread_pool_of(c: Converter, pid: i32) -> Seq<Thread> {
    match c.processes.spec_process(pid) {
        Some(p) => p.threads.ended_threads@,
        None => Seq::empty(),
    }
}

/// The name of thread `tid` of process `pid`; none if it is not live.
pub open spec fn thread_name_of(c: Converter, pid: i32, tid: i32) -> Option<String> {
    match c.spec_thread(pid, tid) {
        Some(t) => t.name,
        None => None,
    }
}

/// Thread `tid` of the process whose threads were `th`, after `fork_thread`
/// in a converter whose log was `log`: named `name`; the oldest pooled thread
/// of that name adopted when `tid` was new, with nothing logged; otherwise
/// its name and start time logged.
pub open spec fn fork_thread_effect(
    th: crate::registry::ProcessThreads,
    log: Seq<ProfileOp>,
    new: Converter,
    tid: i32,
    name: Option<String>,
    start_time: u64,
) -> bool {
    let t = new.spec_thread(th.pid, tid)->0;
    let reusable = tid != th.pid && !crate::registry::has_tid(th.threads@, tid) && has_pooled(th.ended_threads@, name);
    &&& new.spec_thread(th.pid, tid) is Some
    &&& t.name == name
    &&& reusable ==> new.log.ops@ == log && adopted_from(th.ended_threads@, name, t, tid)
    &&& !reusable ==> ends_with_after_creations(log, new.log.ops@,
        thread_name_op(t.profile_thread, name) + seq![ProfileOp::SetThreadStartTime { thread: t.profile_thread, time: start_time }])
}

/// What a FORK record does when the forked thread joins the forking
/// process: the thread has the forking thread's name; when its id is new and
/// a pooled thread has that name, the oldest such thread is adopted and only
/// creations are logged; otherwise its name and start time are logged.
pub open spec fn thread_fork_effect(old: Converter, new: Converter, e: ForkOrExitInput) -> bool {
    let name = thread_name_of(old, e.ppid, e.ptid);
    let time = crate::thread::spec_convert_time(old.timestamp_converter.reference_raw, e.timestamp);
    let t = new.spec_thread(e.pid, e.tid)->0;
    let pool = thread_pool_of(old, e.pid);
    let adopt = e.tid != e.pid && e.tid != e.ptid && old.spec_thread(e.pid, e.tid) is None && has_pooled(pool, name);
    &&& new.spec_thread(e.pid, e.tid) is Some
    &&& t.name == name
    &&& adopt ==> adopted_from(pool, name, t, e.tid) && only_creations(old.log.ops@, new.log.ops@)
    &&& !adopt ==> ends_with_after_creations(old.log.ops@, new.log.ops@,
        thread_name_op(t.profile_thread, name) + seq![ProfileOp::SetThreadStartTime { thread: t.profile_thread, time }])
}

proof fn lemma_thread_fork_effect(
    old: Converter,
    log: Seq<ProfileOp>,
    th: crate::registry::ProcessThreads,
    new: Converter,
    e: ForkOrExitInput,
    name: Option<String>,
    start_time: u64,
)
    requires
        fork_thread_effect(th, log, new, e.tid, name, start_time),
        th.pid == e.pid,
        th.ended_threads@ == thread_pool_of(old, e.pid),
        name == thread_name_of(old, e.ppid, e.ptid),
        start_time == crate::thread::spec_convert_time(old.timestamp_converter.reference_raw, e.timestamp),
        only_creations(old.log.ops@, log),
        (e.tid != th.pid && !crate::registry::has_tid(th.threads@, e.tid) && has_pooled(th.ended_threads@, name))
            == (e.tid != e.pid && e.tid != e.ptid && old.spec_thread(e.pid, e.tid) is None && has_pooled(th.ended_threads@, name)),
    ensures
        thread_fork_effect(old, new, e),
{
    let t = new.spec_thread(e.pid, e.tid)->0;
    let tail = thread_name_op(t.profile_thread, name) + seq![ProfileOp::SetThreadStartTime { thread: t.profile_thread, time: start_time }];
    if ends_with_after_creations(log, new.log.ops@, tail) {
        lemma_ends_with_trans(old.log.ops@, log, new.log.ops@, tail);
    }
    lemma_creations_same(log);
}

/// The converter: all state of one conversion run.
pub struct Converter {
    pub processes: Processes,
    pub stacks: UnresolvedStacks,
    pub log: ProfileLog,
    pub timestamp_converter: TimestampConverter,
    pub context_switch_handler: ContextSwitchHandler,
    /// Source timestamp of the latest sample seen.
    pub current_sample_time: u64,
    /// 1 when the main event is time based, else 0.
    pub off_cpu_weight_per_sample: i32,
    pub have_context_switches: bool,
    /// Whether a new thread may adopt an ended thread of the same name.
    pub merge_threads: bool,
    /// Whether repeated frames at the base of a stack are folded into one.
    pub fold_recursive_prefix: bool,
    /// Whether the product name is still to be derived from the first thread name.
    pub has_delayed_product_name: bool,
    /// Byte order of the record stream.
    pub endian: Endianness,
    /// Mappings of PE headers, by increasing start address.
    pub suspected_pe_mappings: Vec<crate::modules::SuspectedPeMapping>,
    /// The kernel version string, as bytes.
    pub linux_version: Option<Vec<u8>>,
    pub kernel_symbols: Option<crate::modules::KernelSymbolsInfo>,
}

/// The size last reported for `member`.
pub open spec fn previous_rss_size(p: Process, member: RssStatMember) -> i64 {
    match member {
        RssStatMember::ResidentFileMappingPages => p.prev_mm_filepages_size,
        RssStatMember::ResidentAnonymousPages => p.prev_mm_anonpages_size,
        RssStatMember::AnonymousSwapEntries => p.prev_mm_swapents_size,
        RssStatMember::ResidentSharedMemoryPages => p.prev_mm_shmempages_size,
    }
}

impl Converter {
    pub open spec fn wf(&self) -> bool {
        &&& self.processes.wf()
        &&& self.stacks.wf()
        &&& self.context_switch_handler.wf()
        &&& 0 <= self.off_cpu_weight_per_sample <= 1
        &&& crate::modules::pe_mappings_sorted(self.suspected_pe_mappings@)
    }

    /// The live thread `tid` of process `pid`, if both are live.
    pub open spec fn spec_thread(&self, pid: i32, tid: i32) -> Option<Thread> {
        match self.processes.spec_process(pid) {
            Some(p) => match p.threads.spec_lookup(tid) {
                Some(slot) => Some(p.threads.spec_thread(slot)),
                None => None,
            },
            None => None,
        }
    }

    /// The settings of the run are those of `old`: they never change after
    /// construction.
    pub open spec fn keeps_settings(&self, old: &Converter) -> bool {
        &&& self.context_switch_handler == old.context_switch_handler
        &&& self.timestamp_converter == old.timestamp_converter
        &&& self.off_cpu_weight_per_sample == old.off_cpu_weight_per_sample
        &&& self.have_context_switches == old.have_context_switches
        &&& self.fold_recursive_prefix == old.fold_recursive_prefix
        &&& self.merge_threads == old.merge_threads
        &&& self.endian == old.endian
        &&& self.linux_version == old.linux_version
        &&& self.kernel_symbols == old.kernel_symbols
        &&& self.processes.allow_reuse == old.processes.allow_reuse
    }

    /// `t0` is thread `tid` of process `pid` as a call starts from: the live
    /// thread, or a new one if there is none.
    pub open spec fn thread_start(&self, pid: i32, tid: i32, t0: Thread) -> bool {
        match self.spec_thread(pid, tid) {
            Some(t) => t0 == t,
            None => t0 == Thread::spec_new(tid, t0.profile_thread),
        }
    }

    /// The markers that live process `pid` holds; none if it is not live.
    pub open spec fn spec_markers(&self, pid: i32) -> Seq<MarkerRecord> {
        match self.processes.spec_process(pid) {
            Some(p) => p.markers@,
            None => Seq::empty(),
        }
    }

    /// The samples that live process `pid` holds; none if it is not live.
    pub open spec fn spec_samples(&self, pid: i32) -> Seq<UnresolvedSample> {
        match self.processes.spec_process(pid) {
            Some(p) => p.samples@,
            None => Seq::empty(),
        }
    }

    /// Handles a sample of the main event.
    ///
    /// The sample's stack is reconstructed and interned; a second sample of a
    /// thread at the same timestamp is dropped; otherwise the thread's off-CPU
    /// group, if any, and the sample itself go to the process's samples.
    pub fn handle_sample(&mut self, e: &SampleInput, unwind: Option<&UserUnwind>)
        requires
            old(self).wf(),
            e.tid is Some,
            e.timestamp is Some,
        ensures
            final(self).wf(),
            final(self).keeps_settings(&old(self)),
            has_pid(final(self).processes.processes@, e.pid),
            final(self).stacks.extends(&old(self).stacks),
            final(self).current_sample_time == e.timestamp->0,
            final(self).spec_markers(e.pid) == old(self).spec_markers(e.pid),
            ({
                let u = match unwind { Some(u) => Some(*u), None => None };
                exists|t0: Thread, h: UnresolvedStackHandle|
                    #![trigger old(self).thread_start(e.pid, e.tid->0, t0), final(self).stacks.frames(h)]
                {
                    let (t1, out) = sample_step(
                        t0,
                        old(self).context_switch_handler.off_cpu_sampling_interval_ns,
                        old(self).timestamp_converter.reference_raw,
                        old(self).off_cpu_weight_per_sample,
                        old(self).have_context_switches,
                        e.timestamp->0,
                        e.period,
                        h,
                    );
                    &&& old(self).thread_start(e.pid, e.tid->0, t0)
                    &&& final(self).stacks.frames(h) == sample_stack(e.stack, u, old(self).fold_recursive_prefix).reverse()
                    &&& final(self).spec_thread(e.pid, e.tid->0) == Some(t1)
                    &&& final(self).spec_samples(e.pid) == old(self).spec_samples(e.pid) + out
                    &&& old(self).have_context_switches ==> forall|prev: int|
                        #![trigger crate::thread::cpu_deltas_within_elapsed(out, prev)]
                        crate::thread::on_cpu_time_bounded(t0, old(self).timestamp_converter.reference_raw, prev)
                        && crate::thread::in_time_order(t0, old(self).timestamp_converter.reference_raw, prev, e.timestamp->0)
                        ==> crate::thread::cpu_deltas_within_elapsed(out, prev)
                            && crate::thread::on_cpu_time_bounded(t1, old(self).timestamp_converter.reference_raw,
                                crate::thread::last_profile_timestamp(out, prev))
                }
            }),
    {
        let tid = e.tid.unwrap();
        let ts = e.timestamp.unwrap();
        self.current_sample_time = ts;
        let stack = get_sample_stack(&e.stack, unwind, self.fold_recursive_prefix);
        let frames = reversed_frames(&stack);
        let (i, slot) = self.locate_thread(e.pid, tid);
        let h = self.stacks.convert(&frames);
        let handler = self.context_switch_handler;
        let converter = self.timestamp_converter;
        let weight = self.off_cpu_weight_per_sample;
        let have_cs = self.have_context_switches;
        let ghost mid = self.processes;
        let p = self.processes.process_mut(i);
        let ghost threads_mid = p.threads;
        let t = p.threads.thread_mut(slot);
        t.handle_sample(&handler, &converter, weight, have_cs, ts, e.period, h, &mut p.samples);
        proof {
            let pf = self.processes.processes@[i as int];
            lemma_thread_update_keeps_wf(threads_mid, pf.threads);
            lemma_process_update_keeps_wf(mid, self.processes, i as int);
            lemma_lookup_slot(pf.threads, slot, tid);
            let u = match unwind { Some(u) => Some(*u), None => None };
            assert(self.stacks.frames(h) == sample_stack(e.stack, u, old(self).fold_recursive_prefix).reverse());
            assert(final(self).spec_samples(e.pid) == pf.samples@);
            assert(old(self).spec_samples(e.pid) == mid.processes@[i as int].samples@);
            assert(final(self).spec_markers(e.pid) == old(self).spec_markers(e.pid));
            assert(final(self).spec_thread(e.pid, tid) == Some(pf.threads.spec_thread(slot)));
            let t0 = threads_mid.spec_thread(slot);
            assert(old(self).thread_start(e.pid, tid, t0));
            let (t1, out) = sample_step(t0, handler.off_cpu_sampling_interval_ns, converter.reference_raw, weight, have_cs, ts, e.period, h);
            assert(pf.threads.spec_thread(slot) == t1);
            assert(pf.samples@ == mid.processes@[i as int].samples@ + out);
            if have_cs {
                assert forall|prev: int|
                    crate::thread::on_cpu_time_bounded(t0, converter.reference_raw, prev)
                    && crate::thread::in_time_order(t0, converter.reference_raw, prev, ts)
                    implies #[trigger] crate::thread::cpu_deltas_within_elapsed(out, prev)
                        && crate::thread::on_cpu_time_bounded(t1, converter.reference_raw, crate::thread::last_profile_timestamp(out, prev)) by {
                    crate::thread::lemma_sample_cpu_delta_within_elapsed(t0, handler.off_cpu_sampling_interval_ns, converter.reference_raw, weight, ts, e.period, h, prev);
                }
            }
        }
    }

    /// The process `pid` and its thread `tid`, made live if they are not.
    pub(crate) fn locate_thread(&mut self, pid: i32, tid: i32) -> (r: (usize, ThreadSlot))
        requires
            old(self).wf(),
        ensures
            final(self).wf(),
            final(self).keeps_settings(&old(self)),
            final(self).stacks == old(self).stacks,
            final(self).timestamp_converter == old(self).timestamp_converter,
            final(self).context_switch_handler == old(self).context_switch_handler,
            final(self).off_cpu_weight_per_sample == old(self).off_cpu_weight_per_sample,
            final(self).have_context_switches == old(self).have_context_switches,
            final(self).fold_recursive_prefix == old(self).fold_recursive_prefix,
            final(self).merge_threads == old(self).merge_threads,
            final(self).current_sample_time == old(self).current_sample_time,
            final(self).has_delayed_product_name == old(self).has_delayed_product_name,
            r.0 < final(self).processes.processes@.len(),
            final(self).processes.processes@[r.0 as int].pid == pid,
            final(self).processes.processes@[r.0 as int].threads.slot_valid(r.1),
            final(self).processes.processes@[r.0 as int].threads.spec_lookup(tid) == Some(r.1),
            final(self).processes.spec_process(pid) == Some(final(self).processes.processes@[r.0 as int]),
            r.1 != ThreadSlot::Main ==> final(self).processes.processes@[r.0 as int].threads.spec_thread(r.1).tid == tid,
            r.1 == ThreadSlot::Main ==> tid == pid,
            old(self).thread_start(pid, tid, final(self).processes.processes@[r.0 as int].threads.spec_thread(r.1)),
            old(self).spec_thread(pid, tid) is Some ==> final(self).log.ops@ == old(self).log.ops@,
            only_creations(old(self).log.ops@, final(self).log.ops@),
            final(self).suspected_pe_mappings == old(self).suspected_pe_mappings,
            final(self).linux_version == old(self).linux_version,
            final(self).kernel_symbols == old(self).kernel_symbols,
            final(self).endian == old(self).endian,
            old(self).processes.spec_process(pid) matches Some(p0) ==>
                final(self).processes.processes@[r.0 as int] == (Process { threads: final(self).processes.processes@[r.0 as int].threads, ..p0 })
                && final(self).processes.processes@[r.0 as int].threads.ended_threads@ == p0.threads.ended_threads@
                && final(self).processes.processes@[r.0 as int].threads.main_thread == p0.threads.main_thread,
            old(self).processes.spec_process(pid) is None ==>
                crate::registry::has_fresh_contents(final(self).processes.processes@[r.0 as int], pid),
            final(self).processes.ended_processes@ == old(self).processes.ended_processes@,
            final(self).processes.process_sample_datas@ == old(self).processes.process_sample_datas@,
            final(self).processes.allow_reuse == old(self).processes.allow_reuse,
            forall|q: i32| q != pid ==> (#[trigger] has_pid(final(self).processes.processes@, q) == has_pid(old(self).processes.processes@, q)),
            ({
                let ts = final(self).processes.processes@[r.0 as int].threads.threads@;
                &&& old(self).processes.spec_process(pid) matches Some(p0) ==>
                    ts == p0.threads.threads@ || (ts == p0.threads.threads@.push(ts.last()) && ts.last().tid == tid)
                &&& old(self).processes.spec_process(pid) is None ==>
                    ts.len() == 0 || (ts.len() == 1 && ts[0].tid == tid)
            }),
    {
        let ghost old_procs = self.processes;
        let i = self.processes.get_by_pid(pid, &mut self.log);
        let ghost mid_procs = self.processes;
        let ghost mid_log = self.log.ops@;
        proof {
            lemma_get_by_pid_log(old(self).log.ops@, self.log.ops@, pid);
            lemma_process_lookup(mid_procs, i as int);
            if has_pid(old_procs.processes@, pid) {
                lemma_process_lookup(old_procs, i as int);
            }
        }
        let p = self.processes.process_mut(i);
        let slot = p.threads.get_thread_by_tid(tid, &mut self.log);
        proof {
            lemma_creations_same(mid_log);
            if self.log.ops@ != mid_log {
                lemma_creations_push(mid_log, mid_log, self.log.ops@.last());
                assert(self.log.ops@ == mid_log.push(self.log.ops@.last()));
            }
            lemma_creations_trans(old(self).log.ops@, mid_log, self.log.ops@);
            let ps = self.processes.processes@;
            assert forall|q: i32| q != pid implies
                (#[trigger] has_pid(ps, q) == has_pid(old_procs.processes@, q)) by {
                assert(forall|j: int| 0 <= j < ps.len() ==> ps[j].pid == mid_procs.processes@[j].pid);
                if has_pid(ps, q) {
                    let j = choose|j: int| 0 <= j < ps.len() && #[trigger] ps[j].pid == q;
                    if j < old_procs.processes@.len() {
                        assert(mid_procs.processes@[j] == old_procs.processes@[j]);
                    }
                }
                if has_pid(old_procs.processes@, q) {
                    let j = choose|j: int| 0 <= j < old_procs.processes@.len() && #[trigger] old_procs.processes@[j].pid == q;
                    assert(mid_procs.processes@[j] == old_procs.processes@[j]);
                    assert(ps[j].pid == q);
                }
            }
            let pf = self.processes.processes@[i as int];
            lemma_process_update_keeps_wf(mid_procs, self.processes, i as int);
            lemma_lookup_slot(pf.threads, slot, tid);
            if old(self).spec_thread(pid, tid) is Some {
                assert(mid_procs.processes@ == old_procs.processes@);
            }
        }
        (i, slot)
    }

    /// Handles a sample of the scheduler's switch tracepoint: its stack,
    /// without kernel frames, becomes the thread's saved off-CPU stack.
    pub fn handle_sched_switch(&mut self, e: &SampleInput, unwind: Option<&UserUnwind>)
        requires
            old(self).wf(),
            e.tid is Some,
        ensures
            final(self).wf(),
            final(self).keeps_settings(&old(self)),
            final(self).stacks.extends(&old(self).stacks),
            final(self).spec_samples(e.pid) == old(self).spec_samples(e.pid),
            final(self).spec_markers(e.pid) == old(self).spec_markers(e.pid),
            ({
                let u = match unwind { Some(u) => Some(*u), None => None };
                exists|t0: Thread, h: UnresolvedStackHandle|
                    #![trigger old(self).thread_start(e.pid, e.tid->0, t0), final(self).stacks.frames(h)]
                {
                    &&& old(self).thread_start(e.pid, e.tid->0, t0)
                    &&& final(self).stacks.frames(h) == without_kernel(sample_stack(e.stack, u, old(self).fold_recursive_prefix).reverse())
                    &&& final(self).spec_thread(e.pid, e.tid->0) == Some(Thread { off_cpu_stack: Some(h), ..t0 })
                }
            }),
    {
        let tid = e.tid.unwrap();
        let stack = get_sample_stack(&e.stack, unwind, self.fold_recursive_prefix);
        let frames = reversed_frames(&stack);
        let (i, slot) = self.locate_thread(e.pid, tid);
        let h = self.stacks.convert_no_kernel(&frames);
        let ghost mid = self.processes;
        let p = self.processes.process_mut(i);
        let ghost threads_mid = p.threads;
        let t = p.threads.thread_mut(slot);
        t.off_cpu_stack = Some(h);
        proof {
            let pf = self.processes.processes@[i as int];
            lemma_thread_update_keeps_wf(threads_mid, pf.threads);
            lemma_process_update_keeps_wf(mid, self.processes, i as int);
            lemma_lookup_slot(pf.threads, slot, tid);
            assert(self.processes.spec_process(e.pid) == Some(pf));
            assert(pf.threads.spec_thread(slot) == Thread { off_cpu_stack: Some(h), ..threads_mid.spec_thread(slot) });
            let u = match unwind { Some(u) => Some(*u), None => None };
            assert(self.stacks.frames(h) == without_kernel(sample_stack(e.stack, u, old(self).fold_recursive_prefix).reverse()));
            assert(final(self).spec_samples(e.pid) == old(self).spec_samples(e.pid));
            assert(final(self).spec_markers(e.pid) == old(self).spec_markers(e.pid));
        }
    }

    /// Handles a context switch of thread `tid` at `timestamp`: a switch-in
    /// emits the off-CPU samples of the time the thread was switched out. A
    /// switch-out of a thread that is already switched out changes nothing:
    /// the earlier switch-out time stands.
    pub fn handle_context_switch(&mut self, pid: i32, tid: i32, timestamp: u64, switch_in: bool)
        requires
            old(self).wf(),
        ensures
            final(self).wf(),
            final(self).keeps_settings(&old(self)),
            final(self).stacks == old(self).stacks,
            final(self).spec_markers(pid) == old(self).spec_markers(pid),
            exists|t0: Thread| #![trigger old(self).thread_start(pid, tid, t0)] {
                let (t2, out) = resume_step(
                    t0,
                    old(self).context_switch_handler.off_cpu_sampling_interval_ns,
                    old(self).timestamp_converter.reference_raw,
                    old(self).off_cpu_weight_per_sample,
                    timestamp,
                );
                &&& old(self).thread_start(pid, tid, t0)
                &&& switch_in ==> final(self).spec_thread(pid, tid) == Some(t2)
                    && final(self).spec_samples(pid) == old(self).spec_samples(pid) + out
                &&& !switch_in ==> final(self).spec_thread(pid, tid) == Some(switch_out_step(t0, timestamp))
                    && final(self).spec_samples(pid) == old(self).spec_samples(pid)
                &&& (!switch_in && t0.context_switch_data.state is Off) ==> final(self).spec_thread(pid, tid) == Some(t0)
                &&& switch_in ==> forall|prev: int|
                    #![trigger crate::thread::cpu_deltas_within_elapsed(out, prev)]
                    crate::thread::on_cpu_time_bounded(t0, old(self).timestamp_converter.reference_raw, prev)
                    && crate::thread::in_time_order(t0, old(self).timestamp_converter.reference_raw, prev, timestamp)
                    && old(self).context_switch_handler.off_cpu_sampling_interval_ns > 0
                    ==> crate::thread::cpu_deltas_within_elapsed(out, prev)
                        && crate::thread::on_cpu_time_bounded(t2, old(self).timestamp_converter.reference_raw,
                            crate::thread::last_profile_timestamp(out, prev))
                &&& !switch_in ==> forall|prev: int|
                    #![trigger crate::thread::on_cpu_time_bounded(switch_out_step(t0, timestamp), old(self).timestamp_converter.reference_raw, prev)]
                    crate::thread::on_cpu_time_bounded(t0, old(self).timestamp_converter.reference_raw, prev)
                    && crate::thread::in_time_order(t0, old(self).timestamp_converter.reference_raw, prev, timestamp)
                    ==> crate::thread::on_cpu_time_bounded(switch_out_step(t0, timestamp), old(self).timestamp_converter.reference_raw, prev)
            },
    {
        let (i, slot) = self.locate_thread(pid, tid);
        let handler = self.context_switch_handler;
        let converter = self.timestamp_converter;
        let weight = self.off_cpu_weight_per_sample;
        let ghost mid = self.processes;
        let p = self.processes.process_mut(i);
        let ghost threads_mid = p.threads;
        let t = p.threads.thread_mut(slot);
        if switch_in {
            t.handle_switch_in(&handler, &converter, weight, timestamp, &mut p.samples);
        } else {
            t.handle_switch_out(&handler, timestamp);
        }
        proof {
            let pf = self.processes.processes@[i as int];
            lemma_thread_update_keeps_wf(threads_mid, pf.threads);
            lemma_process_update_keeps_wf(mid, self.processes, i as int);
            lemma_lookup_slot(pf.threads, slot, tid);
            assert(final(self).spec_thread(pid, tid) == Some(pf.threads.spec_thread(slot)));
            assert(old(self).thread_start(pid, tid, threads_mid.spec_thread(slot)));
            let t0 = threads_mid.spec_thread(slot);
            let (t2, out) = resume_step(t0, handler.off_cpu_sampling_interval_ns, converter.reference_raw, weight, timestamp);
            assert forall|prev: int|
                crate::thread::on_cpu_time_bounded(t0, converter.reference_raw, prev)
                && crate::thread::in_time_order(t0, converter.reference_raw, prev, timestamp)
                && handler.off_cpu_sampling_interval_ns > 0
                implies #[trigger] crate::thread::cpu_deltas_within_elapsed(out, prev)
                    && crate::thread::on_cpu_time_bounded(t2, converter.reference_raw, crate::thread::last_profile_timestamp(out, prev)) by {
                crate::thread::lemma_resume_cpu_delta_within_elapsed(t0, handler.off_cpu_sampling_interval_ns, converter.reference_raw, weight, timestamp, prev);
            }
            assert forall|prev: int|
                crate::thread::on_cpu_time_bounded(t0, converter.reference_raw, prev)
                && crate::thread::in_time_order(t0, converter.reference_raw, prev, timestamp)
                implies #[trigger] crate::thread::on_cpu_time_bounded(switch_out_step(t0, timestamp), converter.reference_raw, prev) by {
                crate::thread::lemma_switch_out_keeps_bound(t0, converter.reference_raw, timestamp, prev);
            }
            assert(final(self).spec_samples(pid) == pf.samples@);
            assert(old(self).spec_samples(pid) == mid.processes@[i as int].samples@);
            assert(final(self).spec_markers(pid) == old(self).spec_markers(pid));
        }
    }

    /// Logs the operations of naming a thread (see `name_ops`) and clears the
    /// product-name flag once the product name is due.
    fn log_name_ops(&mut self, thread: usize, process: usize, name: &String, is_main: bool, creation: bool)
        ensures
            final(self).log.ops@ == old(self).log.ops@ + name_ops(
                thread,
                process,
                *name,
                is_main,
                creation,
                crate::thread::spec_convert_time(old(self).timestamp_converter.reference_raw, old(self).current_sample_time),
                old(self).has_delayed_product_name && name@ != "perf-exec"@,
            ),
            final(self).has_delayed_product_name == (old(self).has_delayed_product_name && name@ == "perf-exec"@),
            final(self).processes == old(self).processes,
            final(self).stacks == old(self).stacks,
            final(self).suspected_pe_mappings == old(self).suspected_pe_mappings,
            final(self).current_sample_time == old(self).current_sample_time,
            final(self).keeps_settings(&old(self)),
    {
        let ghost start = self.log.ops@;
        self.log.push(ProfileOp::SetThreadName { thread, name: name.clone() });
        if is_main {
            self.log.push(ProfileOp::SetProcessName { process, name: name.clone() });
        }
        if creation {
            let time = self.timestamp_converter.convert_time(self.current_sample_time);
            self.log.push(ProfileOp::SetThreadStartTime { thread, time });
            if is_main {
                self.log.push(ProfileOp::SetProcessStartTime { process, time });
            }
        }
        let sentinel = "perf-exec".to_string();
        proof {
            reveal_strlit("perf-exec");
        }
        if self.has_delayed_product_name && !name.eq(&sentinel) {
            self.log.push(ProfileOp::SetProductFromName { name: name.clone() });
            self.has_delayed_product_name = false;
        }
        proof {
            let tail = name_ops(
                thread,
                process,
                *name,
                is_main,
                creation,
                crate::thread::spec_convert_time(old(self).timestamp_converter.reference_raw, old(self).current_sample_time),
                old(self).has_delayed_product_name && name@ != "perf-exec"@,
            );
            assert(self.log.ops@ =~= start + tail);
        }
    }

    /// Names thread `tid` of process `pid` (and the process, for its main
    /// thread). For a thread that has just come to be, its start (and the
    /// process's, for a main thread) is set to the latest sample time. The
    /// first name other than `perf-exec` derives the delayed product name.
    #[verifier::rlimit(100)]
    #[verifier::spinoff_prover]
    pub fn set_thread_name(&mut self, pid: i32, tid: i32, name: &String, is_thread_creation: bool)
        requires
            old(self).wf(),
        ensures
            final(self).wf(),
            final(self).keeps_settings(&old(self)),
            final(self).spec_thread(pid, tid) is Some,
            final(self).spec_thread(pid, tid)->0.name == Some(*name),
            pid == tid ==> final(self).processes.spec_process(pid)->0.name == Some(*name),
            final(self).has_delayed_product_name == (old(self).has_delayed_product_name && name@ == "perf-exec"@),
            final(self).processes.process_sample_datas@ == old(self).processes.process_sample_datas@,
            final(self).processes.ended_processes@ == old(self).processes.ended_processes@,
            exists|t0: Thread| #[trigger] old(self).thread_start(pid, tid, t0)
                && final(self).spec_thread(pid, tid) == Some(Thread { name: Some(*name), ..t0 }),
            ends_with_after_creations(old(self).log.ops@, final(self).log.ops@, name_ops(
                final(self).spec_thread(pid, tid)->0.profile_thread,
                final(self).processes.spec_process(pid)->0.profile_process,
                *name,
                pid == tid,
                is_thread_creation,
                crate::thread::spec_convert_time(old(self).timestamp_converter.reference_raw, old(self).current_sample_time),
                old(self).has_delayed_product_name && name@ != "perf-exec"@,
            )),
            old(self).spec_thread(pid, tid) is Some ==> final(self).log.ops@.subrange(0, old(self).log.ops@.len() as int) == old(self).log.ops@
                && final(self).log.ops@.len() == old(self).log.ops@.len() + name_ops(
                    final(self).spec_thread(pid, tid)->0.profile_thread,
                    final(self).processes.spec_process(pid)->0.profile_process,
                    *name,
                    pid == tid,
                    is_thread_creation,
                    crate::thread::spec_convert_time(old(self).timestamp_converter.reference_raw, old(self).current_sample_time),
                    old(self).has_delayed_product_name && name@ != "perf-exec"@,
                ).len(),
    {
        let (i, slot) = self.locate_thread(pid, tid);
        let ghost after_locate = self.log.ops@;
        let is_main = pid == tid;
        let ghost mid = self.processes;
        let p = self.processes.process_mut(i);
        let process_handle = p.profile_process;
        let ghost threads_mid = p.threads;
        let t = p.threads.thread_mut(slot);
        let thread_handle = t.profile_thread;
        t.name = Some(name.clone());
        if is_main {
            p.name = Some(name.clone());
        }
        proof {
            let pf = self.processes.processes@[i as int];
            lemma_thread_update_keeps_wf(threads_mid, pf.threads);
            lemma_process_update_keeps_wf(mid, self.processes, i as int);
            lemma_lookup_slot(pf.threads, slot, tid);
            assert(old(self).thread_start(pid, tid, threads_mid.spec_thread(slot)));
        }
        let ghost pf = self.processes.processes@[i as int];
        self.log_name_ops(thread_handle, process_handle, name, is_main, is_thread_creation);
        proof {
            let tail = name_ops(
                thread_handle,
                process_handle,
                *name,
                pid == tid,
                is_thread_creation,
                crate::thread::spec_convert_time(old(self).timestamp_converter.reference_raw, old(self).current_sample_time),
                old(self).has_delayed_product_name && name@ != "perf-exec"@,
            );
            assert(self.log.ops@ =~= after_locate + tail);
            assert(self.log.ops@.subrange(0, self.log.ops@.len() - tail.len()) =~= after_locate);
            assert(self.log.ops@.subrange(self.log.ops@.len() - tail.len(), self.log.ops@.len() as int) =~= tail);
            assert(final(self).spec_thread(pid, tid) == Some(pf.threads.spec_thread(slot)));
            if old(self).spec_thread(pid, tid) is Some {
                assert(self.log.ops@.subrange(0, old(self).log.ops@.len() as int) =~= old(self).log.ops@);
            }
        }
    }

    /// Starts thread `tid` in live process `i` with the name `name`. If `tid`
    /// is not live and a pooled thread has that name, the oldest such thread is
    /// adopted and nothing is logged; otherwise the thread's name and start
    /// time `start_time` are logged.
    #[verifier::rlimit(100)]
    #[verifier::spinoff_prover]
    fn fork_thread(&mut self, i: usize, tid: i32, name: Option<String>, start_time: u64)
        requires
            old(self).wf(),
            i < old(self).processes.processes@.len(),
        ensures
            final(self).wf(),
            final(self).keeps_settings(&old(self)),
            final(self).processes.processes@.len() == old(self).processes.processes@.len(),
            final(self).processes.processes@[i as int].pid == old(self).processes.processes@[i as int].pid,
            final(self).processes.spec_process(old(self).processes.processes@[i as int].pid)
                == Some(final(self).processes.processes@[i as int]),
            fork_thread_effect(old(self).processes.processes@[i as int].threads, old(self).log.ops@, *final(self), tid, name, start_time),
    {
        let ghost mid = self.processes;
        let ghost th = self.processes.processes@[i as int].threads;
        let ghost nm = name;
        let p = self.processes.process_mut(i);
        let is_reused = match &name {
            Some(n) => p.threads.attempt_thread_reuse(tid, n),
            None => false,
        };
        let ghost after_reuse = p.threads;
        let slot = p.threads.get_thread_by_tid(tid, &mut self.log);
        let ghost after_get = self.log.ops@;
        proof {
            lemma_creations_same(old(self).log.ops@);
            if after_get != old(self).log.ops@ {
                lemma_creations_push(old(self).log.ops@, old(self).log.ops@, after_get.last());
                assert(after_get == old(self).log.ops@.push(after_get.last()));
            }
        }
        let ghost threads_mid = p.threads;
        let t = p.threads.thread_mut(slot);
        t.name = clone_name(&name);
        let thread_handle = t.profile_thread;
        proof {
            let pf = self.processes.processes@[i as int];
            lemma_thread_update_keeps_wf(threads_mid, pf.threads);
            lemma_process_update_keeps_wf(mid, self.processes, i as int);
            lemma_lookup_slot(pf.threads, slot, tid);
            assert(pf.pid == th.pid);
            assert(self.processes.spec_process(th.pid) == Some(pf));
            assert(self.spec_thread(th.pid, tid) == Some(pf.threads.spec_thread(slot)));
            if is_reused {
                let last = after_reuse.threads@.len() - 1;
                assert(after_reuse.threads@[last].tid == tid);
                assert(after_reuse.spec_lookup(tid) == Some(slot));
                if let ThreadSlot::Other(c) = slot {
                    assert(after_reuse.threads@[c as int].tid == tid);
                    assert(c as int == last) by {
                        if c as int != last {
                            assert(after_reuse.threads@[c as int].tid != after_reuse.threads@[last].tid);
                        }
                    }
                }
                assert(threads_mid.spec_thread(slot) == after_reuse.threads@[last]);
            }
        }
        if !is_reused {
            if let Some(thread_name) = name {
                self.log.push(ProfileOp::SetThreadName { thread: thread_handle, name: thread_name });
            }
            self.log.push(ProfileOp::SetThreadStartTime { thread: thread_handle, time: start_time });
            proof {
                let name_part = match nm {
                    Some(n) => seq![ProfileOp::SetThreadName { thread: thread_handle, name: n }],
                    None => Seq::<ProfileOp>::empty(),
                };
                let tail = name_part + seq![ProfileOp::SetThreadStartTime { thread: thread_handle, time: start_time }];
                assert(self.log.ops@ =~= after_get + tail);
                assert(self.log.ops@.subrange(0, self.log.ops@.len() - tail.len()) =~= after_get);
                assert(self.log.ops@.subrange(self.log.ops@.len() - tail.len(), self.log.ops@.len() as int) =~= tail);
            }
        }
    }

    /// Handles a FORK record: a new thread, or a new process whose main
    /// thread is the forked one. Names come from the forking process and
    /// thread; with reuse allowed, an ended process or thread of that name
    /// may be adopted, and only a fresh one gets a start time.
    #[verifier::rlimit(100)]
    #[verifier::spinoff_prover]
    pub fn handle_thread_start(&mut self, e: ForkOrExitInput)
        requires
            old(self).wf(),
        ensures
            final(self).wf(),
            final(self).keeps_settings(&old(self)),
            has_pid(final(self).processes.processes@, e.pid),
            ({
                let parent_thread_name = match old(self).spec_thread(e.ppid, e.ptid) {
                    Some(t) => t.name,
                    None => None,
                };
                let parent_process_name = match old(self).processes.spec_process(e.ppid) {
                    Some(p) => p.name,
                    None => None,
                };
                let time = crate::thread::spec_convert_time(old(self).timestamp_converter.reference_raw, e.timestamp);
                e.pid != e.ppid ==> {
                    let after = final(self).processes.spec_process(e.pid)->0;
                    let pool = old(self).processes.ended_processes@;
                    let adopted = !has_pid(old(self).processes.processes@, e.pid) && match parent_process_name {
                        Some(n) => exists|k: int| 0 <= k < pool.len() && same_name(#[trigger] pool[k].name, n@),
                        None => false,
                    };
                    &&& after.name == parent_process_name
                    &&& final(self).spec_thread(e.pid, e.pid) is Some
                    &&& final(self).spec_thread(e.pid, e.pid)->0.name == parent_thread_name
                    &&& adopted ==> exists|k: int| {
                        &&& 0 <= k < pool.len()
                        &&& #[trigger] pool[k].profile_process == after.profile_process
                        &&& same_name(pool[k].name, parent_process_name->0@)
                        &&& forall|j: int| 0 <= j < k ==> !same_name(#[trigger] pool[j].name, parent_process_name->0@)
                    }
                    &&& ends_with_after_creations(old(self).log.ops@, final(self).log.ops@,
                        thread_name_op(after.threads.main_thread.profile_thread, parent_thread_name) + if adopted {
                            Seq::<ProfileOp>::empty()
                        } else {
                            seq![
                                ProfileOp::SetProcessStartTime { process: after.profile_process, time },
                                ProfileOp::SetThreadStartTime { thread: after.threads.main_thread.profile_thread, time },
                            ]
                        })
                }
            }),
            e.pid == e.ppid ==> thread_fork_effect(*old(self), *final(self), e),
    {
        let start_time = self.timestamp_converter.convert_time(e.timestamp);
        let (pi, parent_slot) = self.locate_thread(e.ppid, e.ptid);
        let ghost after_locate = self.log.ops@;
        let ghost procs_locate = self.processes;
        let parent_thread_name = clone_name(&self.processes.processes[pi].threads.thread_ref(parent_slot).name);
        let ghost ptn = parent_thread_name;
        proof {
            let tstart = procs_locate.processes@[pi as int].threads.spec_thread(parent_slot);
            assert(old(self).thread_start(e.ppid, e.ptid, tstart));
            assert(ptn == tstart.name);
            assert(ptn == match old(self).spec_thread(e.ppid, e.ptid) {
                Some(t) => t.name,
                None => None,
            });
        }
        if e.pid != e.ppid {
            let parent_process_name = clone_name(&self.processes.processes[pi].name);
            let is_reused = match &parent_process_name {
                Some(name) => self.processes.attempt_reuse(e.pid, name),
                None => false,
            };
            let ghost procs_reuse = self.processes;
            let i = self.processes.get_by_pid(e.pid, &mut self.log);
            let ghost mid = self.processes;
            let ghost after_get = self.log.ops@;
            proof {
                lemma_get_by_pid_log(after_locate, after_get, e.pid);
                lemma_creations_trans(old(self).log.ops@, after_locate, after_get);
                if is_reused {
                    let k = choose|k: int| {
                        &&& 0 <= k < procs_locate.ended_processes@.len()
                        &&& same_name(#[trigger] procs_locate.ended_processes@[k].name, parent_process_name->0@)
                        &&& forall|j: int| 0 <= j < k ==> !same_name(#[trigger] procs_locate.ended_processes@[j].name, parent_process_name->0@)
                        &&& procs_reuse.processes@ == procs_locate.processes@.push(crate::registry::reused_process(procs_locate.ended_processes@[k], e.pid))
                        &&& procs_reuse.ended_processes@ == procs_locate.ended_processes@.remove(k)
                    };
                    let last = procs_reuse.processes@.len() - 1;
                    assert(procs_reuse.processes@[last].pid == e.pid);
                    assert(i == last) by {
                        if i != last {
                            assert(procs_reuse.processes@[i as int].pid != procs_reuse.processes@[last].pid);
                        }
                    }
                    assert(procs_locate.ended_processes@[k].profile_process == mid.processes@[i as int].profile_process);
                }
            }
            let p = self.processes.process_mut(i);
            p.name = parent_process_name;
            let process_handle = p.profile_process;
            let thread_handle = p.threads.main_thread.profile_thread;
            p.threads.main_thread.name = clone_name(&parent_thread_name);
            proof {
                lemma_process_update_keeps_wf(mid, self.processes, i as int);
                let pf = self.processes.processes@[i as int];
                crate::registry::lemma_lookup_slot(pf.threads, ThreadSlot::Main, e.pid);
            }
            if let Some(thread_name) = parent_thread_name {
                self.log.push(ProfileOp::SetThreadName { thread: thread_handle, name: thread_name });
            }
            if !is_reused {
                self.log.push(ProfileOp::SetProcessStartTime { process: process_handle, time: start_time });
                self.log.push(ProfileOp::SetThreadStartTime { thread: thread_handle, time: start_time });
            }
            proof {
                let name_part = match ptn {
                    Some(n) => seq![ProfileOp::SetThreadName { thread: thread_handle, name: n }],
                    None => Seq::<ProfileOp>::empty(),
                };
                let tail = name_part + if is_reused {
                    Seq::<ProfileOp>::empty()
                } else {
                    seq![
                        ProfileOp::SetProcessStartTime { process: process_handle, time: start_time },
                        ProfileOp::SetThreadStartTime { thread: thread_handle, time: start_time },
                    ]
                };
                assert(self.log.ops@ =~= after_get + tail);
                assert(self.log.ops@.subrange(0, self.log.ops@.len() - tail.len()) =~= after_get);
                assert(self.log.ops@.subrange(self.log.ops@.len() - tail.len(), self.log.ops@.len() as int) =~= tail);
                let pf = self.processes.processes@[i as int];
                assert(final(self).processes.spec_process(e.pid) == Some(pf));
                assert(has_pid(old(self).processes.processes@, e.pid) == has_pid(procs_locate.processes@, e.pid));
            }
        } else {
            let ghost mid = self.processes;
            proof {
                let pre = procs_locate.processes@[pi as int].threads;
                let pool = match old(self).processes.spec_process(e.pid) {
                    Some(p) => p.threads.ended_threads@,
                    None => Seq::<Thread>::empty(),
                };
                assert(pre.ended_threads@ == pool);
                assert(pre.pid == e.pid);
                if e.tid != e.pid && e.tid != e.ptid && old(self).spec_thread(e.pid, e.tid) is None {
                    assert(!crate::registry::has_tid(pre.threads@, e.tid)) by {
                        if crate::registry::has_tid(pre.threads@, e.tid) {
                            let j = choose|j: int| 0 <= j < pre.threads@.len() && #[trigger] pre.threads@[j].tid == e.tid;
                            match old(self).processes.spec_process(e.pid) {
                                Some(p0) => {
                                    if pre.threads@ != p0.threads.threads@ {
                                        assert(j < p0.threads.threads@.len());
                                        assert(pre.threads@[j] == p0.threads.threads@[j]);
                                    }
                                    assert(crate::registry::has_tid(p0.threads.threads@, e.tid));
                                    assert(p0.threads.spec_lookup(e.tid) is Some);
                                }
                                None => {}
                            }
                        }
                    }
                }
            }
            let ghost pre = procs_locate.processes@[pi as int].threads;
            proof {
                let th = pre;
                let reusable = e.tid != th.pid && !crate::registry::has_tid(th.threads@, e.tid) && match ptn {
                    Some(n) => exists|k: int| 0 <= k < th.ended_threads@.len() && same_name(#[trigger] th.ended_threads@[k].name, n@),
                    None => false,
                };
                if reusable {
                    assert(e.tid != e.ptid) by {
                        if e.tid == e.ptid {
                            assert(pre.spec_lookup(e.ptid) == Some(parent_slot));
                            if let ThreadSlot::Other(j) = parent_slot {
                                assert(pre.spec_thread(parent_slot).tid == e.ptid);
                                assert(pre.threads@[j as int].tid == e.tid);
                            }
                        }
                    }
                    assert(old(self).spec_thread(e.pid, e.tid) is None) by {
                        match old(self).processes.spec_process(e.pid) {
                            Some(p0) => {
                                if p0.threads.spec_lookup(e.tid) is Some {
                                    assert(crate::registry::has_tid(p0.threads.threads@, e.tid));
                                    let j = choose|j: int| 0 <= j < p0.threads.threads@.len() && #[trigger] p0.threads.threads@[j].tid == e.tid;
                                    assert(pre.threads@[j] == p0.threads.threads@[j]);
                                }
                            }
                            None => {}
                        }
                    }
                }
            }
            self.fork_thread(pi, e.tid, parent_thread_name, start_time);
            proof {
                let pooled0 = has_pooled(pre.ended_threads@, ptn);
                assert(pre.ended_threads@ == thread_pool_of(*old(self), e.pid));
                assert(ptn == thread_name_of(*old(self), e.ppid, e.ptid));
                let fresh0 = e.tid != e.pid && e.tid != e.ptid && old(self).spec_thread(e.pid, e.tid) is None;
                if pooled0 && fresh0 {
                    assert(!crate::registry::has_tid(pre.threads@, e.tid));
                }
                lemma_thread_fork_effect(*old(self), after_locate, pre, *self, e, ptn, start_time);
            }
        }
    }

    /// Handles an EXIT record: the end of a main thread removes its process,
    /// the end of another thread removes that thread.
    pub fn handle_thread_end(&mut self, e: ForkOrExitInput)
        requires
            old(self).wf(),
        ensures
            final(self).wf(),
            final(self).keeps_settings(&old(self)),
            e.pid == e.tid ==> !has_pid(final(self).processes.processes@, e.pid),
            e.pid != e.tid ==> final(self).spec_thread(e.pid, e.tid) is None && has_pid(final(self).processes.processes@, e.pid),
            ({
                let time = crate::thread::spec_convert_time(old(self).timestamp_converter.reference_raw, e.timestamp);
                &&& e.pid == e.tid ==> (old(self).processes.spec_process(e.pid) matches Some(p) ==> {
                    &&& final(self).log.ops@ == old(self).log.ops@
                        .push(ProfileOp::SetProcessEndTime { process: p.profile_process, time })
                        .push(ProfileOp::DropUnwinder { pid: e.pid })
                    &&& crate::registry::has_data(p) ==>
                        final(self).processes.process_sample_datas@.drop_last() == old(self).processes.process_sample_datas@
                        && crate::registry::data_of(final(self).processes.process_sample_datas@.last(), p)
                    &&& !crate::registry::has_data(p) ==>
                        final(self).processes.process_sample_datas@ == old(self).processes.process_sample_datas@
                    &&& (old(self).processes.allow_reuse && p.name is Some) ==>
                        final(self).processes.ended_processes@.drop_last() == old(self).processes.ended_processes@
                        && final(self).processes.ended_processes@.last().profile_process == p.profile_process
                    &&& !(old(self).processes.allow_reuse && p.name is Some) ==>
                        final(self).processes.ended_processes@ == old(self).processes.ended_processes@
                })
                &&& e.pid != e.tid ==> (old(self).spec_thread(e.pid, e.tid) matches Some(t) ==> {
                    &&& final(self).log.ops@ == old(self).log.ops@.push(ProfileOp::SetThreadEndTime { thread: t.profile_thread, time })
                    &&& final(self).processes.spec_process(e.pid)->0.threads.ended_threads@ == if old(self).merge_threads && t.name is Some {
                        old(self).processes.spec_process(e.pid)->0.threads.ended_threads@.push(crate::registry::ended_thread(t))
                    } else {
                        old(self).processes.spec_process(e.pid)->0.threads.ended_threads@
                    }
                })
            }),
    {
        let end_time = self.timestamp_converter.convert_time(e.timestamp);
        if e.pid == e.tid {
            proof {
                if has_pid(self.processes.processes@, e.pid) {
                    let j = choose|j: int| 0 <= j < self.processes.processes@.len() && #[trigger] self.processes.processes@[j].pid == e.pid;
                    lemma_process_lookup(self.processes, j);
                }
            }
            self.processes.remove(e.pid, end_time, &mut self.log);
            proof {
                if let Some(p) = old(self).processes.spec_process(e.pid) {
                    let i = choose|i: int| {
                        let q = old(self).processes.processes@[i];
                        &&& 0 <= i < old(self).processes.processes@.len()
                        &&& #[trigger] old(self).processes.processes@[i].pid == e.pid
                        &&& self.processes.processes@ == old(self).processes.processes@.remove(i)
                        &&& self.log.ops@ == old(self).log.ops@
                            .push(ProfileOp::SetProcessEndTime { process: q.profile_process, time: end_time })
                            .push(ProfileOp::DropUnwinder { pid: e.pid })
                        &&& crate::registry::has_data(q) ==> self.processes.process_sample_datas@.len() == old(self).processes.process_sample_datas@.len() + 1
                            && self.processes.process_sample_datas@.drop_last() == old(self).processes.process_sample_datas@
                            && crate::registry::data_of(self.processes.process_sample_datas@.last(), q)
                        &&& !crate::registry::has_data(q) ==> self.processes.process_sample_datas@ == old(self).processes.process_sample_datas@
                        &&& (old(self).processes.allow_reuse && q.name is Some) ==> self.processes.ended_processes@.len() == old(self).processes.ended_processes@.len() + 1
                            && self.processes.ended_processes@.drop_last() == old(self).processes.ended_processes@
                            && self.processes.ended_processes@.last().name == q.name
                            && self.processes.ended_processes@.last().profile_process == q.profile_process
                        &&& !(old(self).processes.allow_reuse && q.name is Some) ==> self.processes.ended_processes@ == old(self).processes.ended_processes@
                    };
                    lemma_process_lookup(old(self).processes, i);
                }
            }
        } else {
            let i = self.processes.get_by_pid(e.pid, &mut self.log);
            let ghost mid = self.processes;
            proof {
                lemma_process_lookup(mid, i as int);
            }
            let p = self.processes.process_mut(i);
            let ghost th = p.threads;
            p.threads.remove_non_main_thread(e.tid, end_time, self.merge_threads, &mut self.log);
            proof {
                lemma_process_update_keeps_wf(mid, self.processes, i as int);
                if let Some(t) = old(self).spec_thread(e.pid, e.tid) {
                    assert(mid.processes@ == old(self).processes.processes@);
                    lemma_process_lookup(old(self).processes, i as int);
                    let c = th.spec_lookup(e.tid)->0;
                    assert(crate::registry::has_tid(th.threads@, e.tid));
                    let j = choose|j: int| 0 <= j < th.threads@.len() && #[trigger] th.threads@[j].tid == e.tid;
                    assert(th.threads.len() == th.threads@.len());
                    assert(th.threads@[(j as usize) as int].tid == e.tid);
                    if let ThreadSlot::Other(k) = c {
                        assert(th.threads@[k as int].tid == e.tid);
                        assert(th.threads@[k as int] == t);
                    }
                }

            }
        }
    }

    /// Handles a COMM record. An exec ends the old process (or, anomalously,
    /// thread) at `timestamp` (the latest sample time when that is absent or
    /// zero) and may adopt an ended one of the new name; a rename of a
    /// non-main thread does the same for the thread when threads are merged.
    /// Then the thread is named.
    pub fn handle_thread_name_update(&mut self, e: &CommOrExecInput, timestamp: Option<u64>)
        requires
            old(self).wf(),
        ensures
            final(self).wf(),
            final(self).keeps_settings(&old(self)),
            final(self).spec_thread(e.pid, e.tid) is Some,
            final(self).spec_thread(e.pid, e.tid)->0.name == Some(e.name),
            !e.is_execve && !(old(self).merge_threads && e.pid != e.tid) ==> {
                &&& final(self).processes.process_sample_datas@ == old(self).processes.process_sample_datas@
                &&& final(self).processes.ended_processes@ == old(self).processes.ended_processes@
                &&& e.pid == e.tid ==> final(self).processes.spec_process(e.pid)->0.name == Some(e.name)
                &&& exists|t0: Thread| #[trigger] old(self).thread_start(e.pid, e.tid, t0)
                    && final(self).spec_thread(e.pid, e.tid) == Some(Thread { name: Some(e.name), ..t0 })
                &&& ends_with_after_creations(old(self).log.ops@, final(self).log.ops@, name_ops(
                    final(self).spec_thread(e.pid, e.tid)->0.profile_thread,
                    final(self).processes.spec_process(e.pid)->0.profile_process,
                    e.name,
                    e.pid == e.tid,
                    false,
                    crate::thread::spec_convert_time(old(self).timestamp_converter.reference_raw, old(self).current_sample_time),
                    old(self).has_delayed_product_name && e.name@ != "perf-exec"@,
                ))
            },
            (e.is_execve && e.pid == e.tid) ==> !has_pid(old(self).processes.processes@, e.pid) || ({
                let p = old(self).processes.spec_process(e.pid)->0;
                let ts = match timestamp {
                    Some(t) => if t == 0 { old(self).current_sample_time } else { t },
                    None => old(self).current_sample_time,
                };
                let time = crate::thread::spec_convert_time(old(self).timestamp_converter.reference_raw, ts);
                final(self).log.ops@.subrange(0, old(self).log.ops@.len() + 2int) == old(self).log.ops@
                    .push(ProfileOp::SetProcessEndTime { process: p.profile_process, time })
                    .push(ProfileOp::DropUnwinder { pid: e.pid })
            }),
            (e.is_execve && e.pid == e.tid) ==> ({
                let p = old(self).processes.spec_process(e.pid);
                let revived = (exists|k: int| 0 <= k < old(self).processes.ended_processes@.len()
                        && same_name(#[trigger] old(self).processes.ended_processes@[k].name, e.name@))
                    || (p is Some && old(self).processes.allow_reuse && same_name(p->0.name, e.name@));
                let removed_log = if p is Some {
                    let ts = match timestamp {
                        Some(t) => if t == 0 { old(self).current_sample_time } else { t },
                        None => old(self).current_sample_time,
                    };
                    let time = crate::thread::spec_convert_time(old(self).timestamp_converter.reference_raw, ts);
                    old(self).log.ops@
                        .push(ProfileOp::SetProcessEndTime { process: p->0.profile_process, time })
                        .push(ProfileOp::DropUnwinder { pid: e.pid })
                } else {
                    old(self).log.ops@
                };
                &&& final(self).processes.spec_process(e.pid)->0.name == Some(e.name)
                &&& revived ==> final(self).processes.ended_processes@.len() + 1
                    == old(self).processes.ended_processes@.len() + if p is Some && old(self).processes.allow_reuse && p->0.name is Some { 1int } else { 0 }
                &&& ends_with_after_creations(removed_log, final(self).log.ops@, name_ops(
                    final(self).spec_thread(e.pid, e.tid)->0.profile_thread,
                    final(self).processes.spec_process(e.pid)->0.profile_process,
                    e.name,
                    true,
                    !revived,
                    crate::thread::spec_convert_time(old(self).timestamp_converter.reference_raw, old(self).current_sample_time),
                    old(self).has_delayed_product_name && e.name@ != "perf-exec"@,
                ))
            }),
    {
        let is_main = e.pid == e.tid;
        let ts = match timestamp {
            Some(t) => if t == 0 { self.current_sample_time } else { t },
            None => self.current_sample_time,
        };
        let is_thread_creation = if e.is_execve || (self.merge_threads && !is_main) {
            let end_time = self.timestamp_converter.convert_time(ts);
            if e.is_execve && is_main {
                proof {
                    if has_pid(self.processes.processes@, e.pid) {
                        let j = choose|j: int| 0 <= j < self.processes.processes@.len() && #[trigger] self.processes.processes@[j].pid == e.pid;
                        lemma_process_lookup(self.processes, j);
                    }
                }
                self.processes.remove(e.pid, end_time, &mut self.log);
                proof {
                    if has_pid(old(self).processes.processes@, e.pid) {
                        let i = choose|i: int| {
                            let q = old(self).processes.processes@[i];
                            &&& 0 <= i < old(self).processes.processes@.len()
                            &&& #[trigger] old(self).processes.processes@[i].pid == e.pid
                            &&& self.processes.processes@ == old(self).processes.processes@.remove(i)
                            &&& self.log.ops@ == old(self).log.ops@
                                .push(ProfileOp::SetProcessEndTime { process: q.profile_process, time: end_time })
                                .push(ProfileOp::DropUnwinder { pid: e.pid })
                            &&& crate::registry::has_data(q) ==> self.processes.process_sample_datas@.len() == old(self).processes.process_sample_datas@.len() + 1
                                && self.processes.process_sample_datas@.drop_last() == old(self).processes.process_sample_datas@
                                && crate::registry::data_of(self.processes.process_sample_datas@.last(), q)
                            &&& !crate::registry::has_data(q) ==> self.processes.process_sample_datas@ == old(self).processes.process_sample_datas@
                            &&& (old(self).processes.allow_reuse && q.name is Some) ==> self.processes.ended_processes@.len() == old(self).processes.ended_processes@.len() + 1
                                && self.processes.ended_processes@.drop_last() == old(self).processes.ended_processes@
                                && self.processes.ended_processes@.last().name == q.name
                                && self.processes.ended_processes@.last().profile_process == q.profile_process
                            &&& !(old(self).processes.allow_reuse && q.name is Some) ==> self.processes.ended_processes@ == old(self).processes.ended_processes@
                        };
                        lemma_process_lookup(old(self).processes, i);
                    }
                }
                let ghost after_remove = self.processes;
                let reused = self.processes.attempt_reuse(e.pid, &e.name);
                proof {
                    let p = old(self).processes.spec_process(e.pid);
                    let pool = old(self).processes.ended_processes@;
                    let revived = (exists|k: int| 0 <= k < pool.len() && same_name(#[trigger] pool[k].name, e.name@))
                        || (p is Some && old(self).processes.allow_reuse && same_name(p->0.name, e.name@));
                    let pool2 = after_remove.ended_processes@;
                    if p is Some && old(self).processes.allow_reuse && p->0.name is Some {
                        assert(pool2.drop_last() == pool);
                        assert(pool2.last().name == p->0.name);
                        if revived {
                            if exists|k: int| 0 <= k < pool.len() && same_name(#[trigger] pool[k].name, e.name@) {
                                let k = choose|k: int| 0 <= k < pool.len() && same_name(#[trigger] pool[k].name, e.name@);
                                assert(pool2[k] == pool[k]);
                            } else {
                                assert(same_name(pool2[pool2.len() - 1].name, e.name@));
                            }
                        }
                        if reused {
                            let k = choose|k: int| 0 <= k < pool2.len() && same_name(#[trigger] pool2[k].name, e.name@);
                            if k < pool.len() {
                                assert(pool2[k] == pool[k]);
                            }
                        }
                    } else {
                        assert(pool2 == pool);
                        if p is Some && old(self).processes.allow_reuse && same_name(p->0.name, e.name@) {
                            assert(false);
                        }
                    }
                    assert(reused == revived);
                }
                !reused
            } else {
                let i = self.processes.get_by_pid(e.pid, &mut self.log);
                let ghost mid = self.processes;
                let p = self.processes.process_mut(i);
                p.threads.remove_non_main_thread(e.tid, end_time, self.merge_threads, &mut self.log);
                let reused = p.threads.attempt_thread_reuse(e.tid, &e.name);
                proof {
                    lemma_process_update_keeps_wf(mid, self.processes, i as int);
                }
                !reused
            }
        } else {
            false
        };
        let ghost before_name = self.log.ops@;
        self.set_thread_name(e.pid, e.tid, &e.name, is_thread_creation);
        proof {
            let ops = self.log.ops@;
            let n = ops.len() - name_ops(
                final(self).spec_thread(e.pid, e.tid)->0.profile_thread,
                final(self).processes.spec_process(e.pid)->0.profile_process,
                e.name,
                e.pid == e.tid,
                is_thread_creation,
                crate::thread::spec_convert_time(old(self).timestamp_converter.reference_raw, old(self).current_sample_time),
                old(self).has_delayed_product_name && e.name@ != "perf-exec"@,
            ).len();
            assert(ops.subrange(0, n).subrange(0, before_name.len() as int) == before_name);
            assert(ops.subrange(0, before_name.len() as int) =~= ops.subrange(0, n).subrange(0, before_name.len() as int));
            if e.is_execve && e.pid == e.tid && has_pid(old(self).processes.processes@, e.pid) {
                assert(before_name.len() == old(self).log.ops@.len() + 2);
                assert(ops.subrange(0, old(self).log.ops@.len() + 2int) == before_name);
            }
        }
    }

    /// The process `pid`, made live if it is not.
    pub(crate) fn locate_process(&mut self, pid: i32) -> (r: usize)
        requires
            old(self).wf(),
        ensures
            final(self).wf(),
            final(self).keeps_settings(&old(self)),
            final(self).stacks == old(self).stacks,
            final(self).timestamp_converter == old(self).timestamp_converter,
            final(self).fold_recursive_prefix == old(self).fold_recursive_prefix,
            final(self).endian == old(self).endian,
            final(self).has_delayed_product_name == old(self).has_delayed_product_name,
            r < final(self).processes.processes@.len(),
            final(self).processes.processes@[r as int].pid == pid,
            final(self).processes.spec_process(pid) == Some(final(self).processes.processes@[r as int]),
            old(self).processes.spec_process(pid) is Some ==>
                final(self).processes.processes@[r as int] == old(self).processes.spec_process(pid)->0
                && final(self).log.ops@ == old(self).log.ops@,
            old(self).processes.spec_process(pid) is None ==>
                crate::registry::is_fresh_process(final(self).processes.processes@[r as int], pid),
            only_creations(old(self).log.ops@, final(self).log.ops@),
            final(self).suspected_pe_mappings == old(self).suspected_pe_mappings,
            final(self).linux_version == old(self).linux_version,
            final(self).kernel_symbols == old(self).kernel_symbols,
            final(self).merge_threads == old(self).merge_threads,
            final(self).current_sample_time == old(self).current_sample_time,
    {
        let ghost old_procs = self.processes;
        let i = self.processes.get_by_pid(pid, &mut self.log);
        proof {
            lemma_get_by_pid_log(old(self).log.ops@, self.log.ops@, pid);
            lemma_process_lookup(self.processes, i as int);
            if has_pid(old_procs.processes@, pid) {
                lemma_process_lookup(old_procs, i as int);
            }
        }
        i
    }

    /// Handles a sample of the memory-accounting tracepoint: the payload in
    /// `raw` gives a counter and its new size. The change since the last
    /// report of that counter is recorded as a marker on the main thread
    /// (and, for anonymous pages, as a sample of the memory counter). A
    /// record without payload or timestamp, with a short payload or with an
    /// unknown counter is ignored.
    pub fn handle_rss_stat(&mut self, e: &SampleInput, raw: Option<&[u8]>, unwind: Option<&UserUnwind>)
        requires
            old(self).wf(),
        ensures
            final(self).wf(),
            final(self).keeps_settings(&old(self)),
            has_pid(final(self).processes.processes@, e.pid),
            ({
                let before = match old(self).processes.spec_process(e.pid) {
                    Some(p) => p.markers@,
                    None => Seq::<MarkerRecord>::empty(),
                };
                let after = final(self).processes.spec_process(e.pid)->0;
                let parsed = match raw {
                    Some(r) => spec_rss_stat(r@, old(self).endian),
                    None => None,
                };
                let mem_counter = match old(self).processes.spec_process(e.pid) {
                    Some(p) => p.mem_counter,
                    None => None,
                };
                let live_before = old(self).processes.spec_process(e.pid) is Some;
                if parsed is Some && e.timestamp is Some && spec_member_of(parsed->0.member) is Some {
                    let stat = parsed->0;
                    let member = spec_member_of(stat.member)->0;
                    let prev = |m: RssStatMember| match old(self).processes.spec_process(e.pid) {
                        Some(p) => previous_rss_size(p, m),
                        None => 0i64,
                    };
                    let delta = vstd::wrapping::i64_specs::wrapping_sub(stat.size, prev(member));
                    let time = crate::thread::spec_convert_time(old(self).timestamp_converter.reference_raw, e.timestamp->0);
                    let u = match unwind { Some(u) => Some(*u), None => None };
                    &&& after.markers@.len() == before.len() + 1
                    &&& after.markers@.subrange(0, before.len() as int) == before
                    &&& after.markers@.last() matches MarkerRecord::RssStat { thread, time: tm, timestamp, stack, member: m, size: sz, delta: d }
                        && thread == after.threads.main_thread.profile_thread && tm == time && timestamp == e.timestamp->0
                        && final(self).stacks.frames(stack) == sample_stack(e.stack, u, old(self).fold_recursive_prefix).reverse()
                        && m == member && sz == stat.size && d == delta
                    &&& forall|m: RssStatMember| #[trigger] previous_rss_size(after, m) == if m == member { stat.size } else { prev(m) }
                    &&& member == RssStatMember::ResidentAnonymousPages ==> after.mem_counter is Some
                        && final(self).log.ops@.last() == (ProfileOp::AddCounterSample { counter: after.mem_counter->0, time, delta })
                    &&& member != RssStatMember::ResidentAnonymousPages ==> after.mem_counter == mem_counter
                        && (live_before ==> final(self).log.ops@ == old(self).log.ops@)
                    &&& final(self).spec_samples(e.pid) == old(self).spec_samples(e.pid)
                    &&& old(self).processes.spec_process(e.pid) matches Some(p) ==> after.threads == p.threads
                } else {
                    &&& old(self).processes.spec_process(e.pid) matches Some(p) ==> after == p
                        && final(self).log.ops@ == old(self).log.ops@
                    &&& !live_before ==> crate::registry::is_fresh_process(after, e.pid)
                }
            }),
    {
        let i = self.locate_process(e.pid);
        let raw = match raw {
            Some(r) => r,
            None => return,
        };
        let stat = match RssStat::parse(raw, self.endian) {
            Ok(s) => s,
            Err(_) => return,
        };
        let timestamp_mono = match e.timestamp {
            Some(t) => t,
            None => return,
        };
        let member = match RssStatMember::from_member(stat.member) {
            Some(m) => m,
            None => return,
        };
        let time = self.timestamp_converter.convert_time(timestamp_mono);
        let stack = get_sample_stack(&e.stack, unwind, self.fold_recursive_prefix);
        let frames = reversed_frames(&stack);
        let h = self.stacks.convert(&frames);
        let ghost mid = self.processes;
        let p = self.processes.process_mut(i);
        let prev = match member {
            RssStatMember::ResidentFileMappingPages => p.prev_mm_filepages_size,
            RssStatMember::ResidentAnonymousPages => p.prev_mm_anonpages_size,
            RssStatMember::AnonymousSwapEntries => p.prev_mm_swapents_size,
            RssStatMember::ResidentSharedMemoryPages => p.prev_mm_shmempages_size,
        };
        let delta = stat.size.wrapping_sub(prev);
        match member {
            RssStatMember::ResidentFileMappingPages => p.prev_mm_filepages_size = stat.size,
            RssStatMember::ResidentAnonymousPages => p.prev_mm_anonpages_size = stat.size,
            RssStatMember::AnonymousSwapEntries => p.prev_mm_swapents_size = stat.size,
            RssStatMember::ResidentSharedMemoryPages => p.prev_mm_shmempages_size = stat.size,
        }
        if member == RssStatMember::ResidentAnonymousPages {
            let counter = p.get_or_make_mem_counter(&mut self.log);
            self.log.push(ProfileOp::AddCounterSample { counter, time, delta });
        }
        let thread = p.threads.main_thread.profile_thread;
        p.markers.push(MarkerRecord::RssStat {
            thread,
            time,
            timestamp: timestamp_mono,
            stack: h,
            member,
            size: stat.size,
            delta,
        });
        proof {
            lemma_process_update_keeps_wf(mid, self.processes, i as int);
        }
    }

    /// Handles a sample of any other event: a marker with the sample's
    /// stack, tagged by the event's attribute index, on the sampled thread
    /// (the main thread when the record has no thread id).
    pub fn handle_other_event_sample(&mut self, e: &SampleInput, attr_index: usize, unwind: Option<&UserUnwind>)
        requires
            old(self).wf(),
            e.timestamp is Some,
        ensures
            final(self).wf(),
            final(self).keeps_settings(&old(self)),
            has_pid(final(self).processes.processes@, e.pid),
            final(self).stacks.extends(&old(self).stacks),
            ({
                let after = final(self).processes.spec_process(e.pid)->0;
                let before = match old(self).processes.spec_process(e.pid) {
                    Some(p) => p.markers@,
                    None => Seq::<MarkerRecord>::empty(),
                };
                let u = match unwind { Some(u) => Some(*u), None => None };
                &&& after.markers@.len() == before.len() + 1
                &&& after.markers@.subrange(0, before.len() as int) == before
                &&& after.markers@.last() matches MarkerRecord::OtherEvent { thread, time, timestamp: t, stack, attr_index: a }
                    && a == attr_index && t == e.timestamp->0
                    && time == crate::thread::spec_convert_time(old(self).timestamp_converter.reference_raw, e.timestamp->0)
                    && final(self).stacks.frames(stack) == sample_stack(e.stack, u, old(self).fold_recursive_prefix).reverse()
                    && match e.tid {
                        Some(tid) => exists|t0: Thread| #[trigger] old(self).thread_start(e.pid, tid, t0)
                            && final(self).spec_thread(e.pid, tid) == Some(t0) && thread == t0.profile_thread,
                        None => thread == after.threads.main_thread.profile_thread,
                    }
                &&& final(self).spec_samples(e.pid) == old(self).spec_samples(e.pid)
                &&& e.tid is None ==> (old(self).processes.spec_process(e.pid) matches Some(p) ==> after.threads == p.threads)
            }),
    {
        let timestamp_mono = e.timestamp.unwrap();
        let time = self.timestamp_converter.convert_time(timestamp_mono);
        let stack = get_sample_stack(&e.stack, unwind, self.fold_recursive_prefix);
        let frames = reversed_frames(&stack);
        let ghost old_markers = match self.processes.spec_process(e.pid) {
            Some(p) => p.markers@,
            None => Seq::<MarkerRecord>::empty(),
        };
        let (i, slot) = match e.tid {
            Some(tid) => self.locate_thread(e.pid, tid),
            None => (self.locate_process(e.pid), ThreadSlot::Main),
        };
        let h = self.stacks.convert(&frames);
        let ghost mid = self.processes;
        let p = self.processes.process_mut(i);
        let thread = p.threads.thread_ref(slot).profile_thread;
        let ghost m0 = p.markers@;
        p.markers.push(MarkerRecord::OtherEvent { thread, time, timestamp: timestamp_mono, stack: h, attr_index });
        proof {
            lemma_process_update_keeps_wf(mid, self.processes, i as int);
            assert(m0 == old_markers);
            assert(self.processes.processes@[i as int].markers@.subrange(0, m0.len() as int) =~= m0);
            let pf = self.processes.processes@[i as int];
            assert(final(self).spec_samples(e.pid) == old(self).spec_samples(e.pid));
            if let Some(tid) = e.tid {
                lemma_lookup_slot(pf.threads, slot, tid);
                assert(old(self).thread_start(e.pid, tid, pf.threads.spec_thread(slot)));
                assert(final(self).spec_thread(e.pid, tid) == Some(pf.threads.spec_thread(slot)));
            }
        }
    }

    /// A converter for events read as `interpretation` says, whose first
    /// sample is at `first_sample_time`. Off-CPU samples tick at the main
    /// event's interval, with weight one, when it is time based; else at
    /// 1 ms with weight zero.
    pub fn new(
        interpretation: &crate::interpretation::EventInterpretation,
        first_sample_time: u64,
        endian: Endianness,
        merge_threads: bool,
        fold_recursive_prefix: bool,
        has_delayed_product_name: bool,
        linux_version: Option<Vec<u8>>,
        kernel_symbols: Option<crate::modules::KernelSymbolsInfo>,
    ) -> (r: Self)
        requires
            interpretation.sampling_is_time_based != Some(0u64),
        ensures
            r.wf(),
            r.processes.processes@.len() == 0,
            r.processes.process_sample_datas@.len() == 0,
            r.processes.allow_reuse == merge_threads,
            r.timestamp_converter.reference_raw == first_sample_time,
            r.current_sample_time == first_sample_time,
            r.have_context_switches == interpretation.have_context_switches,
            r.fold_recursive_prefix == fold_recursive_prefix,
            r.merge_threads == merge_threads,
            r.log.ops@.len() == 0,
            r.suspected_pe_mappings@.len() == 0,
            r.has_delayed_product_name == has_delayed_product_name,
            r.linux_version == linux_version,
            r.kernel_symbols == kernel_symbols,
            r.endian == endian,
            match interpretation.sampling_is_time_based {
                Some(ns) => r.context_switch_handler.off_cpu_sampling_interval_ns == ns && r.off_cpu_weight_per_sample == 1,
                None => r.context_switch_handler.off_cpu_sampling_interval_ns == DEFAULT_OFF_CPU_SAMPLING_INTERVAL_NS
                    && r.off_cpu_weight_per_sample == 0,
            },
    {
        let (interval, weight) = match interpretation.sampling_is_time_based {
            Some(ns) => (ns, 1i32),
            None => (DEFAULT_OFF_CPU_SAMPLING_INTERVAL_NS, 0i32),
        };
        Converter {
            processes: Processes::new(merge_threads),
            stacks: UnresolvedStacks::new(),
            log: ProfileLog::new(),
            timestamp_converter: TimestampConverter::with_reference_timestamp(first_sample_time),
            context_switch_handler: ContextSwitchHandler::new(interval),
            current_sample_time: first_sample_time,
            off_cpu_weight_per_sample: weight,
            have_context_switches: interpretation.have_context_switches,
            merge_threads,
            fold_recursive_prefix,
            has_delayed_product_name,
            endian,
            suspected_pe_mappings: Vec::new(),
            linux_version,
            kernel_symbols,
        }
    }

    /// Ends the run: all live processes are removed, and what every removed
    /// process left is returned with the log and the stack table. With no
    /// live process left, nothing new is produced.
    pub fn finish(self) -> (r: ConversionOutput)
        requires
            self.wf(),
        ensures
            r.process_sample_datas@.subrange(0, self.processes.process_sample_datas@.len() as int)
                == self.processes.process_sample_datas@,
            self.processes.processes@.len() == 0 ==> r.process_sample_datas@ == self.processes.process_sample_datas@
                && r.log.ops@ == self.log.ops@,
            r.stacks.nodes@ == self.stacks.nodes@,
            r.process_sample_datas@.len() == self.processes.process_sample_datas@.len()
                + crate::registry::with_data(self.processes.processes@).len(),
            forall|j: int| 0 <= j < crate::registry::with_data(self.processes.processes@).len() ==> crate::registry::data_of(
                #[trigger] r.process_sample_datas@[self.processes.process_sample_datas@.len() + j],
                crate::registry::with_data(self.processes.processes@)[j],
            ),
    {
        let Converter { processes, stacks, log, .. } = self;
        let mut log = log;
        let process_sample_datas = processes.finish(&mut log);
        ConversionOutput { log, stacks, process_sample_datas }
    }
}

/// At any time, no two live library mappings of a live process share an
/// address: a mapping that overlaps a live one is added only after the
/// live one is removed.
pub proof fn lemma_live_mappings_disjoint(c: Converter, pid: i32)
    requires
        c.wf(),
        has_pid(c.processes.processes@, pid),
    ensures
        ({
            let live = live_mappings(c.processes.spec_process(pid)->0.lib_mapping_ops.ops@);
            forall|i: int, j: int| 0 <= i < live.len() && 0 <= j < live.len() && i != j ==> !overlaps(#[trigger] live[i], #[trigger] live[j])
        }),
{
    let ps = c.processes.processes@;
    let k = choose|k: int| 0 <= k < ps.len() && #[trigger] ps[k].pid == pid;
    assert(ps[k].wf());
    lemma_pairwise_disjoint_pairs(ps[k].lib_mapping_ops.live@);
}

} // verus!

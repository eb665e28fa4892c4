use samply_core::converter::{CommOrExecInput, Converter, ForkOrExitInput, SampleInput};
use samply_core::interpretation::EventInterpretation;
use samply_core::modules::{BinaryInfo, DsoInput, MmapAction, MmapInput, ModuleRequest, OpenedBinary};
use samply_core::profile_log::{LibMappingAdd, LibMappingInfo, LibMappingOp, MarkerRecord, ProfileOp};
use samply_core::rss::{Endianness, RssStatMember};
use samply_core::stack::{CpuMode, SampleStackInput, StackFrame, StackMode};
use samply_core::thread::UnresolvedSample;

fn interpretation(time_based: Option<u64>, have_context_switches: bool) -> EventInterpretation {
    EventInterpretation {
        main_event_attr_index: 0,
        main_event_name: "cpu-clock".to_string(),
        sampling_is_time_based: time_based,
        have_context_switches,
        sched_switch_attr_index: Some(1),
        rss_stat_attr_index: None,
        event_names: vec![Some("cpu-clock".to_string()), Some("sched:sched_switch".to_string())],
    }
}

fn converter(time_based: Option<u64>, have_context_switches: bool, first: u64) -> Converter {
    Converter::new(
        &interpretation(time_based, have_context_switches),
        first,
        Endianness::LittleEndian,
        false,
        false,
        false,
        None,
        None,
    )
}

fn sample(pid: i32, tid: i32, ts: u64, ip: u64) -> SampleInput {
    SampleInput {
        pid,
        tid: Some(tid),
        timestamp: Some(ts),
        period: None,
        stack: SampleStackInput { ip: Some(ip), cpu_mode: CpuMode::User, callchain: None },
    }
}

fn samples_of(c: &Converter, pid: i32) -> Vec<UnresolvedSample> {
    c.processes.processes.iter().find(|p| p.pid == pid).unwrap().samples.clone()
}

#[test]
fn duplicate_sample_dropped() {
    let mut c = converter(Some(1_000_000), false, 500);
    let s = sample(10, 10, 1000, 0x400500);
    c.handle_sample(&s, None);
    c.handle_sample(&s, None);
    let samples = samples_of(&c, 10);
    assert_eq!(samples.len(), 1);
    assert_eq!(samples[0].profile_timestamp, 500);
    assert_eq!(samples[0].timestamp, 1000);
    let frames = c.stacks.nodes.iter().map(|n| n.frame).collect::<Vec<_>>();
    assert_eq!(frames, vec![StackFrame::InstructionPointer(0x400500, StackMode::User)]);
}

#[test]
fn off_cpu_expansion() {
    let mut c = converter(Some(1_000_000), true, 0);
    c.handle_sample(&sample(7, 7, 0, 0x1000), None);
    c.handle_sched_switch(&sample(7, 7, 1_000, 0x1000), None);
    c.handle_context_switch(7, 7, 1_000, false);
    c.handle_context_switch(7, 7, 5_500_000, true);
    let samples = samples_of(&c, 7);
    assert_eq!(samples.len(), 3);
    let first = samples[1];
    let rest = samples[2];
    assert_eq!(first.profile_timestamp, 1_000);
    assert_eq!(first.cpu_delta_ns, 1_000);
    assert_eq!(first.weight, 1);
    assert_eq!(rest.profile_timestamp, 5_500_000);
    assert_eq!(rest.cpu_delta_ns, 0);
    assert_eq!(rest.weight, 4);
    assert_eq!(first.stack, rest.stack);
    let node = first.stack.node.unwrap();
    assert_eq!(c.stacks.nodes[node].frame, StackFrame::InstructionPointer(0x1000, StackMode::User));
    assert_eq!(c.stacks.nodes[node].parent, None);
}

#[test]
fn single_tick_off_cpu_group_gives_one_sample() {
    let mut c = converter(Some(1_000_000), true, 0);
    c.handle_sample(&sample(7, 8, 0, 0x1000), None);
    c.handle_sched_switch(&sample(7, 8, 100, 0x2000), None);
    c.handle_context_switch(7, 8, 100, false);
    c.handle_context_switch(7, 8, 1_500_100, true);
    let samples = samples_of(&c, 7);
    assert_eq!(samples.len(), 2);
    assert_eq!(samples[1].profile_timestamp, 100);
    assert_eq!(samples[1].cpu_delta_ns, 100);
    assert_eq!(samples[1].weight, 1);
}

#[test]
fn switch_in_without_saved_stack_emits_nothing() {
    let mut c = converter(Some(1_000_000), true, 0);
    c.handle_sample(&sample(3, 3, 10, 0x1000), None);
    c.handle_context_switch(3, 3, 20, false);
    c.handle_context_switch(3, 3, 9_000_000, true);
    assert_eq!(samples_of(&c, 3).len(), 1);
    c.handle_sample(&sample(3, 3, 9_000_100, 0x1000), None);
    let samples = samples_of(&c, 3);
    assert_eq!(samples.len(), 2);
    assert_eq!(samples[1].cpu_delta_ns, 10 + 100);
}

#[test]
fn sample_after_switch_out_ends_off_cpu_group() {
    let mut c = converter(Some(1_000_000), true, 0);
    c.handle_sample(&sample(3, 3, 0, 0x1000), None);
    c.handle_sched_switch(&sample(3, 3, 0, 0x3000), None);
    c.handle_context_switch(3, 3, 0, false);
    c.handle_sample(&sample(3, 3, 3_000_000, 0x1000), None);
    let samples = samples_of(&c, 3);
    assert_eq!(samples.len(), 4);
    assert_eq!(samples[1].weight, 1);
    assert_eq!(samples[2].weight, 2);
    assert_eq!(samples[3].timestamp, 3_000_000);
    assert_eq!(samples[3].cpu_delta_ns, 0);
}

#[test]
fn period_is_cpu_delta_without_context_switches() {
    let mut c = converter(None, false, 0);
    let mut s = sample(4, 4, 100, 0x1000);
    s.period = Some(250);
    c.handle_sample(&s, None);
    let samples = samples_of(&c, 4);
    assert_eq!(samples[0].cpu_delta_ns, 250);
    assert_eq!(c.off_cpu_weight_per_sample, 0);
    assert_eq!(c.context_switch_handler.off_cpu_sampling_interval_ns, 1_000_000);
}

#[test]
fn finish_without_live_processes_produces_nothing() {
    let c = converter(Some(1_000_000), false, 0);
    let out = c.finish();
    assert!(out.process_sample_datas.is_empty());
    assert!(out.log.ops.is_empty());
}

#[test]
fn finish_flushes_live_processes() {
    let mut c = converter(Some(1_000_000), false, 0);
    c.handle_sample(&sample(5, 5, 10, 0x1000), None);
    let out = c.finish();
    assert_eq!(out.process_sample_datas.len(), 1);
    assert_eq!(out.process_sample_datas[0].pid, 5);
    assert_eq!(out.process_sample_datas[0].samples.len(), 1);
}

#[test]
fn exit_of_main_thread_removes_process() {
    let mut c = converter(Some(1_000_000), false, 0);
    c.handle_sample(&sample(5, 6, 10, 0x1000), None);
    c.handle_thread_end(ForkOrExitInput { pid: 5, ppid: 1, tid: 6, ptid: 1, timestamp: 20 });
    assert_eq!(c.processes.processes[0].threads.threads.len(), 0);
    c.handle_thread_end(ForkOrExitInput { pid: 5, ppid: 1, tid: 5, ptid: 1, timestamp: 30 });
    assert!(c.processes.processes.is_empty());
    assert_eq!(c.processes.process_sample_datas.len(), 1);
    assert!(c.log.ops.contains(&ProfileOp::SetProcessEndTime { process: 0, time: 30 }));
}

#[test]
fn fork_inherits_names() {
    let mut c = converter(Some(1_000_000), false, 0);
    c.handle_thread_name_update(&CommOrExecInput { pid: 1, tid: 1, name: "shell".to_string(), is_execve: false }, Some(5));
    c.handle_thread_start(ForkOrExitInput { pid: 2, ppid: 1, tid: 2, ptid: 1, timestamp: 100 });
    let p = c.processes.processes.iter().find(|p| p.pid == 2).unwrap();
    assert_eq!(p.name, Some("shell".to_string()));
    assert_eq!(p.threads.main_thread.name, Some("shell".to_string()));
    c.handle_thread_start(ForkOrExitInput { pid: 2, ppid: 2, tid: 3, ptid: 2, timestamp: 200 });
    let p = c.processes.processes.iter().find(|p| p.pid == 2).unwrap();
    assert_eq!(p.threads.threads[0].tid, 3);
    assert_eq!(p.threads.threads[0].name, Some("shell".to_string()));
}

#[test]
fn product_name_waits_for_real_name() {
    let mut c = Converter::new(&interpretation(Some(1_000_000), false), 0, Endianness::LittleEndian, false, false, true, None, None);
    c.set_thread_name(9, 9, &"perf-exec".to_string(), false);
    assert!(c.has_delayed_product_name);
    c.set_thread_name(9, 9, &"firefox".to_string(), false);
    assert!(!c.has_delayed_product_name);
    assert!(c.log.ops.contains(&ProfileOp::SetProductFromName { name: "firefox".to_string() }));
}

#[test]
fn rss_stat_records_delta() {
    let mut c = converter(Some(1_000_000), false, 0);
    let mut raw = vec![0u8; 32];
    raw[16] = 1;
    raw[24..32].copy_from_slice(&4096i64.to_le_bytes());
    let s = sample(11, 11, 50, 0x1000);
    c.handle_rss_stat(&s, Some(&raw), None);
    raw[24..32].copy_from_slice(&1024i64.to_le_bytes());
    c.handle_rss_stat(&s, Some(&raw), None);
    let p = c.processes.processes.iter().find(|p| p.pid == 11).unwrap();
    assert_eq!(p.markers.len(), 2);
    match p.markers[1] {
        MarkerRecord::RssStat { member, size, delta, .. } => {
            assert_eq!(member, RssStatMember::ResidentAnonymousPages);
            assert_eq!(size, 1024);
            assert_eq!(delta, -3072);
        }
        _ => panic!("expected an rss marker"),
    }
    raw[16] = 9;
    c.handle_rss_stat(&s, Some(&raw), None);
    c.handle_rss_stat(&s, Some(&raw[..20]), None);
    let p = c.processes.processes.iter().find(|p| p.pid == 11).unwrap();
    assert_eq!(p.markers.len(), 2);
    assert!(c.log.ops.contains(&ProfileOp::AddCounterSample { counter: 2, time: 50, delta: -3072 }));
}

#[test]
fn other_event_marker_uses_attr_index() {
    let mut c = converter(Some(1_000_000), false, 0);
    c.handle_other_event_sample(&sample(12, 13, 70, 0x1000), 4, None);
    let p = c.processes.processes.iter().find(|p| p.pid == 12).unwrap();
    match p.markers[0] {
        MarkerRecord::OtherEvent { attr_index, timestamp, .. } => {
            assert_eq!(attr_index, 4);
            assert_eq!(timestamp, 70);
        }
        _ => panic!("expected an event marker"),
    }
}

fn added(op: &LibMappingOp) -> &LibMappingAdd {
    match op {
        LibMappingOp::Add(a) => a,
        LibMappingOp::Remove { .. } => panic!("expected an added mapping"),
    }
}

fn mmap(path: &str, offset: u64, address: u64, length: u64, executable: bool) -> MmapInput {
    MmapInput {
        pid: 20,
        address,
        length,
        page_offset: offset,
        is_executable: executable,
        path: path.as_bytes().to_vec(),
        build_id: None,
        dso: Some(DsoInput { is_kernel: false, name: path.as_bytes().to_vec(), known: None }),
    }
}

fn binary(segments: Vec<samply_core::bias::SvmaFileRange>) -> BinaryInfo {
    BinaryInfo {
        build_id: Some(vec![0xab, 0xcd]),
        base_svma: 0,
        segments,
        text_sections: vec![],
        debug_id: Some("ABCD0".to_string()),
        first_text_symbol: None,
    }
}

#[test]
fn pe_heuristic_binds_anonymous_mapping() {
    let mut c = converter(Some(1_000_000), false, 0);
    let header = mmap("game.exe", 0, 0x140000000, 0x1000, false);
    assert!(matches!(c.handle_mmap2(&header, 1, Some(0x4c0c000)), MmapAction::Ignored));
    let anon = mmap("[anon]", 0, 0x140001000, 0x3be7000, true);
    let req = match c.handle_mmap2(&anon, 2, None) {
        MmapAction::LoadModule(r) => r,
        _ => panic!("expected a module load"),
    };
    let k = c.suspected_pe_mapping_for(req.avma, req.size).unwrap();
    assert_eq!(c.suspected_pe_mappings[k].path, b"game.exe".to_vec());
    let opened = OpenedBinary {
        path: c.suspected_pe_mappings[k].path.clone(),
        via_pe_start: Some(c.suspected_pe_mappings[k].start),
        info: binary(vec![]),
    };
    let plan = c.add_module_to_process(&req, Some(&opened)).unwrap();
    assert_eq!(plan.base_avma, 0x140000000);
    assert_eq!(plan.avma_end, 0x140001000 + 0x3be7000);
    assert_eq!(c.suspected_pe_mapping_for(0x144c0b000, 0x2000), None);
}

#[test]
fn module_base_from_bias_and_build_id_check() {
    let mut c = converter(Some(1_000_000), false, 0);
    let segs = vec![
        samply_core::bias::SvmaFileRange { svma: 0, file_offset: 0, size: 0x1000 },
        samply_core::bias::SvmaFileRange { svma: 0x2000, file_offset: 0x1000, size: 0x1000 },
    ];
    let req = ModuleRequest {
        pid: 20,
        path: b"/usr/lib/libfoo.so".to_vec(),
        file_offset: 0x1000,
        avma: 0x55f000,
        size: 0x1000,
        build_id: Some(vec![0xab, 0xcd]),
        timestamp: 5,
    };
    let opened = OpenedBinary { path: req.path.clone(), via_pe_start: None, info: binary(segs.clone()) };
    let plan = c.add_module_to_process(&req, Some(&opened)).unwrap();
    assert_eq!(plan.base_avma, 0x55d000);
    let p = c.processes.processes.iter().find(|p| p.pid == 20).unwrap();
    assert_eq!(p.lib_mapping_ops.ops.len(), 1);
    assert_eq!(added(&p.lib_mapping_ops.ops[0].op).relative_address_at_start, 0x2000);
    match &c.log.ops[2] {
        ProfileOp::AddLib { lib } => {
            assert_eq!(lib.code_id, Some("abcd".to_string()));
            assert_eq!(lib.name, b"libfoo.so".to_vec());
        }
        _ => panic!("expected a library"),
    }
    let mismatch = ModuleRequest { build_id: Some(vec![1, 2]), ..req.clone() };
    assert_eq!(c.add_module_to_process(&mismatch, Some(&opened)), None);
    let p = c.processes.processes.iter().find(|p| p.pid == 20).unwrap();
    assert_eq!(p.lib_mapping_ops.ops.len(), 1);
}

#[test]
fn module_without_file_uses_offset_guess() {
    let mut c = converter(Some(1_000_000), false, 0);
    let req = ModuleRequest {
        pid: 21,
        path: b"/tmp/jitted-123-4.so".to_vec(),
        file_offset: 0x40,
        avma: 0x7000_0040,
        size: 0x100,
        build_id: Some((1u8..=16).collect()),
        timestamp: 5,
    };
    assert_eq!(c.add_module_to_process(&req, None), None);
    let p = c.processes.processes.iter().find(|p| p.pid == 21).unwrap();
    let add = added(&p.lib_mapping_ops.ops[0].op);
    assert_eq!(add.relative_address_at_start, 0x40);
    assert!(matches!(add.info, LibMappingInfo::Lib { .. }));
    match &c.log.ops[2] {
        ProfileOp::AddLib { lib } => {
            assert_eq!(lib.code_id, Some("0102030405060708090a0b0c0d0e0f10".to_string()));
            assert_eq!(lib.debug_id, Some("0403020106050807090A0B0C0D0E0F100".to_string()));
        }
        _ => panic!("expected a library"),
    }
}

#[test]
fn jitdump_mapping_is_recorded() {
    let mut c = converter(Some(1_000_000), false, 0);
    let m = mmap("/tmp/jit-1234.dump", 0, 0x1000, 0x1000, false);
    assert!(matches!(c.handle_mmap(&m, 1, None), MmapAction::Jitdump));
    let p = c.processes.processes.iter().find(|p| p.pid == 20).unwrap();
    assert_eq!(p.jitdump_paths, vec![b"/tmp/jit-1234.dump".to_vec()]);
}

#[test]
fn overlapping_mapping_replaces_live_one() {
    let mut c = converter(Some(1_000_000), false, 0);
    let req = |avma: u64, size: u64, ts: u64| ModuleRequest {
        pid: 30,
        path: b"/nonexistent/libbar.so".to_vec(),
        file_offset: 0,
        avma,
        size,
        build_id: None,
        timestamp: ts,
    };
    c.add_module_to_process(&req(0x1000, 0x2000, 1), None);
    c.add_module_to_process(&req(0x8000, 0x1000, 2), None);
    c.add_module_to_process(&req(0x2000, 0x1000, 3), None);
    let p = c.processes.processes.iter().find(|p| p.pid == 30).unwrap();
    let ops: Vec<&LibMappingOp> = p.lib_mapping_ops.ops.iter().map(|e| &e.op).collect();
    assert_eq!(ops.len(), 4);
    assert_eq!(ops[2], &LibMappingOp::Remove { start_avma: 0x1000 });
    assert_eq!(added(ops[3]).start_avma, 0x2000);
    let live: Vec<(u64, u64)> = p.lib_mapping_ops.live.iter().map(|r| (r.start_avma, r.end_avma)).collect();
    assert_eq!(live, vec![(0x8000, 0x9000), (0x2000, 0x3000)]);
}

#[test]
fn jitted_library_is_a_jit_function_mapping() {
    let mut c = converter(Some(1_000_000), false, 100);
    let req = ModuleRequest {
        pid: 40,
        path: b"/tmp/jitted-40-1.so".to_vec(),
        file_offset: 0x40,
        avma: 0x7f00_0040,
        size: 0x20,
        build_id: None,
        timestamp: 300,
    };
    let mut info = binary(vec![]);
    info.text_sections = vec![samply_core::bias::SvmaFileRange { svma: 0x40, file_offset: 0x40, size: 0x20 }];
    info.first_text_symbol = Some("js::Foo".to_string());
    let opened = OpenedBinary { path: req.path.clone(), via_pe_start: None, info };
    let plan = c.add_module_to_process(&req, Some(&opened)).unwrap();
    assert_eq!(plan.base_avma, 0x7f00_0000);
    let p = c.processes.processes.iter().find(|p| p.pid == 40).unwrap();
    match &added(&p.lib_mapping_ops.ops[0].op).info {
        LibMappingInfo::JitFunction { symbol_name, .. } => assert_eq!(symbol_name.as_deref(), Some("js::Foo")),
        LibMappingInfo::Lib { .. } => panic!("expected a JIT function mapping"),
    }
    assert!(c.log.ops.iter().any(|op| matches!(op, ProfileOp::JitFunctionAddMarker { time: 200, .. })));
}

#[test]
fn kernel_debug_path_uses_linux_version() {
    let mut c = Converter::new(
        &interpretation(Some(1_000_000), false),
        0,
        Endianness::LittleEndian,
        false,
        false,
        false,
        Some(b"6.1.0".to_vec()),
        None,
    );
    let req = samply_core::modules::KernelModuleRequest {
        base_address: 0xffff_0000,
        length: 0x1000,
        is_kernel: true,
        dso_name: b"[kernel.kallsyms]".to_vec(),
        build_id: Some(vec![0xaa]),
        path: b"[kernel.kallsyms]_text".to_vec(),
    };
    c.add_kernel_module(&req, None);
    match &c.log.ops[0] {
        ProfileOp::AddLib { lib } => assert_eq!(lib.debug_path, b"/usr/lib/debug/boot/vmlinux-6.1.0".to_vec()),
        _ => panic!("expected a library"),
    }
}

#[test]
fn plain_rename_keeps_process() {
    let mut c = converter(Some(1_000_000), false, 0);
    c.handle_sample(&sample(50, 51, 10, 0x1000), None);
    c.handle_thread_name_update(&CommOrExecInput { pid: 50, tid: 51, name: "worker".to_string(), is_execve: false }, None);
    assert_eq!(c.processes.processes.len(), 1);
    assert!(c.processes.process_sample_datas.is_empty());
    assert!(matches!(c.log.ops.last(), Some(ProfileOp::SetThreadName { .. })));
}

#[test]
fn jit_marker_name_defaults_to_unknown() {
    let mut c = converter(Some(1_000_000), false, 0);
    let req = ModuleRequest {
        pid: 41,
        path: b"/tmp/jitted-41-1.so".to_vec(),
        file_offset: 0x40,
        avma: 0x7f00_0040,
        size: 0x20,
        build_id: None,
        timestamp: 5,
    };
    let mut info = binary(vec![]);
    info.text_sections = vec![samply_core::bias::SvmaFileRange { svma: 0x40, file_offset: 0x40, size: 0x20 }];
    let opened = OpenedBinary { path: req.path.clone(), via_pe_start: None, info };
    c.add_module_to_process(&req, Some(&opened)).unwrap();
    assert!(matches!(c.log.ops.last(), Some(ProfileOp::JitFunctionAddMarker { name, .. }) if name == "<unknown>"));
}

#[test]
fn thread_exit_logs_end_and_pools_when_merging() {
    let mut c = Converter::new(&interpretation(Some(1_000_000), false), 0, Endianness::LittleEndian, true, false, false, None, None);
    c.handle_thread_name_update(&CommOrExecInput { pid: 60, tid: 61, name: "worker".to_string(), is_execve: false }, Some(5));
    let before = c.log.ops.len();
    c.handle_thread_end(ForkOrExitInput { pid: 60, ppid: 60, tid: 61, ptid: 60, timestamp: 90 });
    assert_eq!(c.log.ops.len(), before + 1);
    assert!(matches!(c.log.ops.last(), Some(ProfileOp::SetThreadEndTime { time: 90, .. })));
    let p = c.processes.processes.iter().find(|p| p.pid == 60).unwrap();
    assert_eq!(p.threads.ended_threads.len(), 1);
    assert_eq!(p.threads.ended_threads[0].name, Some("worker".to_string()));
    c.handle_thread_start(ForkOrExitInput { pid: 60, ppid: 60, tid: 62, ptid: 61, timestamp: 100 });
    let p = c.processes.processes.iter().find(|p| p.pid == 60).unwrap();
    assert_eq!(p.threads.threads.len(), 2);
}

#[test]
fn exec_revives_pooled_process_of_new_name() {
    let mut c = Converter::new(&interpretation(Some(1_000_000), false), 0, Endianness::LittleEndian, true, false, false, None, None);
    c.handle_thread_name_update(&CommOrExecInput { pid: 70, tid: 70, name: "tool".to_string(), is_execve: false }, Some(5));
    c.handle_thread_end(ForkOrExitInput { pid: 70, ppid: 1, tid: 70, ptid: 1, timestamp: 10 });
    assert_eq!(c.processes.ended_processes.len(), 1);
    let handle = c.processes.ended_processes[0].profile_process;
    c.handle_sample(&sample(71, 71, 20, 0x1000), None);
    c.handle_thread_name_update(&CommOrExecInput { pid: 71, tid: 71, name: "tool".to_string(), is_execve: true }, Some(30));
    let p = c.processes.processes.iter().find(|p| p.pid == 71).unwrap();
    assert_eq!(p.profile_process, handle);
    assert_eq!(p.name, Some("tool".to_string()));
    assert!(!c.log.ops.iter().any(|op| matches!(op, ProfileOp::SetProcessStartTime { process, .. } if *process == handle)));
}

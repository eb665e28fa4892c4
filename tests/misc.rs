use samply_core::elf::drop_program_header;
use samply_core::modules::is_bad_perf_jit_layout;
use samply_core::interpretation::{AttributeSummary, EventInterpretation, SamplingPolicy};
use samply_core::paths::{file_name, fixed_jit_so_path, get_path_if_jitdump, is_jitted_lib_name, is_pe_path, may_be_bad_jit_so};
use samply_core::regs::{read_stack_word, ConvertRegs, ConvertRegsAarch64, ConvertRegsX86_64, SampleRegs};
use samply_core::rss::{Endianness, RssStat, RssStatParseError};
use samply_core::thread_profiler::{time_value_to_microseconds, SamplingError, ThreadProfiler, TickAction, TimeValue};

#[test]
fn jitdump_paths() {
    let p = b"/tmp/jit-42.dump";
    assert_eq!(get_path_if_jitdump(p), Some(&p[..]));
    assert_eq!(get_path_if_jitdump(b"/tmp/jit-42.dumpx"), None);
    assert_eq!(get_path_if_jitdump(b"/tmp/xjit-42.dump"), None);
    assert_eq!(get_path_if_jitdump(b"/tmp/jit-\xff.dump"), None);
    let dotted = b"jit-1.dump/.";
    assert_eq!(get_path_if_jitdump(dotted), Some(&dotted[..]));
}

#[test]
fn file_names() {
    assert_eq!(file_name(b"/usr/lib/libc.so.6"), Some(b"libc.so.6".to_vec()));
    assert_eq!(file_name(b"/usr/lib/"), Some(b"lib".to_vec()));
    assert_eq!(file_name(b"/"), None);
    assert_eq!(file_name(b"a/.."), None);
    assert_eq!(file_name(b"name"), Some(b"name".to_vec()));
    assert_eq!(file_name(b"foo.txt/."), Some(b"foo.txt".to_vec()));
    assert_eq!(file_name(b"a/./"), Some(b"a".to_vec()));
    assert_eq!(file_name(b"/."), None);
    assert_eq!(file_name(b"."), None);
}

#[test]
fn pe_and_jit_names() {
    assert!(is_pe_path(b"C:/game.exe"));
    assert!(is_pe_path(b"LIB.DLL"));
    assert!(!is_pe_path(b"lib.Dll"));
    assert!(is_jitted_lib_name(b"jitted-123-4.so"));
    assert!(!is_jitted_lib_name(b"libjitted-123.so"));
    assert!(may_be_bad_jit_so(b"/home/u/.debug/jitted-123-4.so"));
    assert!(!may_be_bad_jit_so(b"jitted-123-4.so"));
    assert_eq!(fixed_jit_so_path(b"/tmp/jitted-1-2.so"), b"/tmp/jitted-1-2-fixed.so".to_vec());
}

#[test]
fn rss_stat_parse() {
    let mut le = vec![0u8; 32];
    le[0] = 0x34;
    le[1] = 0x12;
    le[4..8].copy_from_slice(&(-5i32).to_le_bytes());
    le[16..20].copy_from_slice(&3i32.to_le_bytes());
    le[24..32].copy_from_slice(&(-8192i64).to_le_bytes());
    let s = RssStat::parse(&le, Endianness::LittleEndian).unwrap();
    assert_eq!(s.common_type, 0x1234);
    assert_eq!(s.common_pid, -5);
    assert_eq!(s.member, 3);
    assert_eq!(s.size, -8192);
    let mut be = vec![0u8; 32];
    be[8..12].copy_from_slice(&0xdeadbeefu32.to_be_bytes());
    be[24..32].copy_from_slice(&123456789i64.to_be_bytes());
    let s = RssStat::parse(&be, Endianness::BigEndian).unwrap();
    assert_eq!(s.mm_id, 0xdeadbeef);
    assert_eq!(s.size, 123456789);
    assert_eq!(RssStat::parse(&be[..31], Endianness::BigEndian), Err(RssStatParseError::TooShort));
}

#[test]
fn time_values() {
    assert_eq!(time_value_to_microseconds(&TimeValue { seconds: 3, microseconds: 250 }), 3_000_250);
    assert_eq!(time_value_to_microseconds(&TimeValue { seconds: 0, microseconds: 0 }), 0);
}

#[test]
fn thread_profiler_ticks() {
    let mut t = ThreadProfiler::new(5, 0);
    assert!(t.begin_tick());
    assert_eq!(t.on_cpu_time(100, 50), TickAction::WalkStack { cpu_delta_us: 150 });
    assert!(!t.begin_tick());
    assert_eq!(t.on_cpu_time(100, 50), TickAction::SameStackZeroCpu);
    assert_eq!(t.sample(Ok(())), Ok(true));
    assert_eq!(t.sample(Err(SamplingError::ThreadTerminated)), Ok(false));
    for _ in 0..9 {
        assert_eq!(t.sample(Err(SamplingError::Ignorable)), Ok(true));
    }
    assert_eq!(t.sample(Err(SamplingError::Ignorable)), Ok(false));
    assert_eq!(t.sample(Err(SamplingError::Fatal)), Err(SamplingError::Fatal));
}

#[test]
fn register_selection() {
    let mut values = vec![None; 40];
    values[6] = Some(0x60);
    values[7] = Some(0x70);
    values[8] = Some(0x80);
    let regs = SampleRegs { values: values.clone() };
    let (ip, sp, r) = ConvertRegsX86_64::convert_regs(&regs).unwrap();
    assert_eq!((ip, sp, r.ip, r.sp, r.bp), (0x80, 0x70, 0x80, 0x70, 0x60));
    assert_eq!(ConvertRegsX86_64::regs_mask(), 0x1c0);
    assert!(ConvertRegsAarch64::convert_regs(&regs).is_none());
    values[29] = Some(0x29);
    values[30] = Some(0x30);
    values[31] = Some(0x31);
    values[32] = Some(0x32);
    let (pc, sp, r) = ConvertRegsAarch64::convert_regs(&SampleRegs { values }).unwrap();
    assert_eq!((pc, sp, r.lr, r.sp, r.fp), (0x32, 0x31, 0x30, 0x31, 0x29));
    assert_eq!(ConvertRegsAarch64::regs_mask(), 0x1_e000_0000);
}

#[test]
fn stack_words() {
    let mut bytes = Vec::new();
    bytes.extend_from_slice(&0x1122334455667788u64.to_le_bytes());
    bytes.extend_from_slice(&0x99u64.to_le_bytes());
    bytes.extend_from_slice(&[1, 2, 3]);
    assert_eq!(read_stack_word(&bytes, 0x1000, 0x1000), Some(0x1122334455667788));
    assert_eq!(read_stack_word(&bytes, 0x1000, 0x100f), Some(0x99));
    assert_eq!(read_stack_word(&bytes, 0x1000, 0x1010), None);
    assert_eq!(read_stack_word(&bytes, 0x1000, 0xff8), None);
}

#[test]
fn interpretation_from_attrs() {
    let attrs = vec![
        AttributeSummary { name: None, sampling_policy: SamplingPolicy::Frequency(1000), is_clock: false, context_switch: true },
        AttributeSummary { name: Some("sched:sched_switch".to_string()), sampling_policy: SamplingPolicy::Period(1), is_clock: false, context_switch: false },
        AttributeSummary { name: Some("kmem:rss_stat".to_string()), sampling_policy: SamplingPolicy::Period(1), is_clock: false, context_switch: false },
    ];
    let i = EventInterpretation::divine_from_attrs(&attrs);
    assert_eq!(i.main_event_name, "<unnamed event>");
    assert_eq!(i.sampling_is_time_based, Some(1_000_000));
    assert!(i.have_context_switches);
    assert_eq!(i.sched_switch_attr_index, Some(1));
    assert_eq!(i.rss_stat_attr_index, Some(2));
    let clock = vec![AttributeSummary { name: Some("cpu-clock".to_string()), sampling_policy: SamplingPolicy::Period(250000), is_clock: true, context_switch: false }];
    let i = EventInterpretation::divine_from_attrs(&clock);
    assert_eq!(i.sampling_is_time_based, Some(250000));
    assert_eq!(i.sched_switch_attr_index, None);
    let cycles = vec![AttributeSummary { name: Some("cycles".to_string()), sampling_policy: SamplingPolicy::Period(4000), is_clock: false, context_switch: false }];
    assert_eq!(EventInterpretation::divine_from_attrs(&cycles).sampling_is_time_based, None);
}

#[test]
fn bad_jit_layout_detection() {
    assert!(is_bad_perf_jit_layout(true, Some((0, 0)), Some((0x40, Some(0x80)))));
    assert!(!is_bad_perf_jit_layout(false, Some((0, 0)), Some((0x40, Some(0x80)))));
    assert!(!is_bad_perf_jit_layout(true, Some((0x1000, 0)), Some((0x40, Some(0x80)))));
    assert!(!is_bad_perf_jit_layout(true, Some((0, 0)), Some((0x40, Some(0x40)))));
    assert!(!is_bad_perf_jit_layout(true, None, Some((0x40, Some(0x80)))));
    assert!(!is_bad_perf_jit_layout(true, Some((0, 0)), Some((0x40, None))));
}

#[test]
fn program_header_fields_are_zeroed() {
    let mut elf64 = vec![0xaau8; 80];
    elf64[..4].copy_from_slice(&[0x7f, b'E', b'L', b'F']);
    elf64[4] = 2;
    let fixed = drop_program_header(&elf64).unwrap();
    assert_eq!(fixed.len(), 80);
    assert!(fixed[0x20..0x28].iter().all(|&b| b == 0));
    assert!(fixed[0x38..0x3a].iter().all(|&b| b == 0));
    assert_eq!(fixed[0x28], 0xaa);
    assert_eq!(fixed[0x3a], 0xaa);
    let mut elf32 = vec![0x55u8; 52];
    elf32[..4].copy_from_slice(&[0x7f, b'E', b'L', b'F']);
    elf32[4] = 1;
    let fixed = drop_program_header(&elf32).unwrap();
    assert!(fixed[0x1c..0x20].iter().all(|&b| b == 0));
    assert!(fixed[0x2c..0x2e].iter().all(|&b| b == 0));
    assert_eq!(fixed[0x20], 0x55);
    assert_eq!(drop_program_header(&elf32[..40]), None);
    assert_eq!(drop_program_header(&[0u8; 64]), None);
}

//! Memory-map records: which mappings load a module, where the module's
//! base lies in memory, and what is registered for it.
use vstd::prelude::*;
use samply_symbols::DebugIdExt;
use crate::bias::{compute_vma_bias_impl, vma_bias, SvmaFileRange};
use crate::converter::Converter;
use crate::paths::{
    copy_range, file_name, get_path_if_jitdump, has_prefix, is_jitted_lib_name, is_pe_path, spec_file_name,
    spec_has_prefix, spec_is_jitdump_path, spec_is_jitted_lib_name, spec_is_pe_path,
};
use crate::profile_log::{LibMappingInfo, LibMappingOp, LibMappingOpEntry, LibraryRecord, ProfileOp};
use crate::registry::{has_pid, lemma_process_update_keeps_wf};
use crate::rss::Endianness;

verus! {

/// The mapping of a PE header, which later anonymous mappings of the same
/// image may fall into.
#[derive(Clone, Debug)]
pub struct SuspectedPeMapping {
    pub path: Vec<u8>,
    pub start: u64,
    pub size: u64,
}

pub open spec fn pe_mappings_sorted(t: Seq<SuspectedPeMapping>) -> bool {
    forall|a: int, b: int| 0 <= a < b < t.len() ==> t[a].start < t[b].start
}

/// The entry with the largest start at or below `avma`, in a sorted table.
pub open spec fn last_starting_at_most(t: Seq<SuspectedPeMapping>, avma: u64) -> Option<int>
    decreases t.len(),
{
    if t.len() == 0 {
        None
    } else if t.last().start <= avma {
        Some(t.len() - 1)
    } else {
        last_starting_at_most(t.drop_last(), avma)
    }
}

/// The PE mapping that `[avma, avma + size)` lies in, if any.
pub open spec fn spec_pe_mapping_for(t: Seq<SuspectedPeMapping>, avma: u64, size: u64) -> Option<int> {
    match last_starting_at_most(t, avma) {
        Some(k) => if avma + size <= t[k].start + t[k].size { Some(k) } else { None },
        None => None,
    }
}

/// `t` is `old` after recording a suspected PE mapping of `path` at `start`
/// with `size`: an entry with the same start is replaced, the rest is kept.
pub open spec fn pe_recorded(old: Seq<SuspectedPeMapping>, t: Seq<SuspectedPeMapping>, path: Seq<u8>, start: u64, size: u64) -> bool {
    &&& exists|k: int| 0 <= k < t.len() && #[trigger] t[k].start == start && t[k].size == size && t[k].path@ == path
    &&& forall|j: int| 0 <= j < t.len() && #[trigger] t[j].start != start ==> old.contains(t[j])
    &&& forall|i: int| 0 <= i < old.len() && #[trigger] old[i].start != start ==> t.contains(old[i])
}

/// The PE table after a mapping at file offset `page_offset`: recorded when
/// the path is a `.exe`/`.dll` at offset 0 whose image size is known.
pub open spec fn pe_table_after(
    old: Seq<SuspectedPeMapping>,
    t: Seq<SuspectedPeMapping>,
    path: Seq<u8>,
    page_offset: u64,
    start: u64,
    size_of_image: Option<u64>,
) -> bool {
    if page_offset == 0 && spec_is_pe_path(path) && size_of_image is Some {
        pe_recorded(old, t, path, start, size_of_image->0)
    } else {
        t == old
    }
}

/// What the kernel's own symbol information says of the running kernel.
#[derive(Clone, Debug)]
pub struct KernelSymbolsInfo {
    pub base_avma: u64,
    pub build_id: Vec<u8>,
}

/// A memory-map record (MMAP or MMAP2).
#[derive(Clone, Debug)]
pub struct MmapInput {
    pub pid: i32,
    pub address: u64,
    pub length: u64,
    pub page_offset: u64,
    pub is_executable: bool,
    pub path: Vec<u8>,
    /// The build ID that the record itself carries.
    pub build_id: Option<Vec<u8>>,
    /// The shared object the path names, as the build-ID table knows it;
    /// none if the path names none.
    pub dso: Option<DsoInput>,
}

#[derive(Clone, Debug)]
pub struct DsoInput {
    pub is_kernel: bool,
    pub name: Vec<u8>,
    /// Build ID and path that the build-ID table has for it.
    pub known: Option<(Vec<u8>, Vec<u8>)>,
}

/// A request to load the module of a mapping into process `pid`.
#[derive(Clone, Debug)]
pub struct ModuleRequest {
    pub pid: i32,
    pub path: Vec<u8>,
    pub file_offset: u64,
    pub avma: u64,
    pub size: u64,
    pub build_id: Option<Vec<u8>>,
    pub timestamp: u64,
}

/// A request to register a kernel module.
#[derive(Clone, Debug)]
pub struct KernelModuleRequest {
    pub base_address: u64,
    pub length: u64,
    pub is_kernel: bool,
    pub dso_name: Vec<u8>,
    pub build_id: Option<Vec<u8>>,
    pub path: Vec<u8>,
}

/// What a memory-map record calls for.
#[derive(Clone, Debug)]
pub enum MmapAction {
    /// Nothing further.
    Ignored,
    /// The path is a jitdump file; it was recorded for the process.
    Jitdump,
    KernelModule(KernelModuleRequest),
    LoadModule(ModuleRequest),
}

/// What the module loader reads of an object file.
#[derive(Clone, Debug)]
pub struct BinaryInfo {
    pub build_id: Option<Vec<u8>>,
    /// The SVMA that relative addresses are based on.
    pub base_svma: u64,
    pub segments: Vec<SvmaFileRange>,
    /// Text sections that have a file range.
    pub text_sections: Vec<SvmaFileRange>,
    /// Breakpad form of the file's debug ID, when it has one.
    pub debug_id: Option<String>,
    /// Name of the first text symbol.
    pub first_text_symbol: Option<String>,
}

/// An object file opened for a mapping.
#[derive(Clone, Debug)]
pub struct OpenedBinary {
    /// The path that was opened.
    pub path: Vec<u8>,
    /// Start of the PE mapping whose file was opened in place of the mapping's own.
    pub via_pe_start: Option<u64>,
    pub info: BinaryInfo,
}

/// Where a loaded module lies, for the unwinder.
#[derive(Clone, Copy, Debug, PartialEq, Eq, Structural)]
pub struct ModulePlan {
    pub avma_start: u64,
    pub avma_end: u64,
    pub base_avma: u64,
    pub base_svma: u64,
}

pub open spec fn spec_contributions(b: BinaryInfo) -> Seq<SvmaFileRange> {
    if b.segments@.len() > 0 { b.segments@ } else { b.text_sections@ }
}

/// The bias of an object file for a mapping: from its segments, or from its
/// text sections when it has no segments.
pub fn compute_vma_bias(b: &BinaryInfo, mapping_file_offset: u64, mapping_avma: u64, mapping_size: u64) -> (r: Option<u64>)
    ensures
        r == vma_bias(spec_contributions(*b), mapping_file_offset, mapping_avma, mapping_size),
{
    if b.segments.len() > 0 {
        compute_vma_bias_impl(b.segments.as_slice(), mapping_file_offset, mapping_avma, mapping_size)
    } else {
        compute_vma_bias_impl(b.text_sections.as_slice(), mapping_file_offset, mapping_avma, mapping_size)
    }
}

pub open spec fn build_id_matches(expected: Option<Vec<u8>>, found: Option<Vec<u8>>) -> bool {
    match expected {
        None => true,
        Some(e) => match found {
            Some(f) => f@ == e@,
            None => false,
        },
    }
}

/// The AVMA of a module's base, when it can be found.
pub open spec fn spec_base_avma(req: ModuleRequest, o: OpenedBinary) -> Option<u64> {
    match o.via_pe_start {
        Some(start) => Some(start),
        None => match vma_bias(spec_contributions(o.info), req.file_offset, req.avma, req.size) {
            Some(bias) => Some(vstd::wrapping::u64_specs::wrapping_add(o.info.base_svma, bias)),
            None => None,
        },
    }
}

/// The module for the unwinder: none without a file, on a build-ID mismatch,
/// or when no base can be found.
pub open spec fn spec_module_plan(req: ModuleRequest, opened: Option<OpenedBinary>) -> Option<ModulePlan> {
    match opened {
        None => None,
        Some(o) => if !build_id_matches(req.build_id, o.info.build_id) {
            None
        } else {
            match spec_base_avma(req, o) {
                Some(base) => Some(ModulePlan {
                    avma_start: req.avma,
                    avma_end: vstd::wrapping::u64_specs::wrapping_add(req.avma, req.size),
                    base_avma: base,
                    base_svma: o.info.base_svma,
                }),
                None => None,
            }
        },
    }
}

/// The mapping refers to a library registered in `ops` with these identifiers.
pub open spec fn library_registered(
    ops: Seq<ProfileOp>,
    info: LibMappingInfo,
    code_id: Option<Seq<char>>,
    debug_id: Option<Seq<char>>,
) -> bool {
    let lib = match info {
        LibMappingInfo::Lib { lib } => lib,
        LibMappingInfo::JitFunction { lib, .. } => lib,
    };
    &&& lib < ops.len()
    &&& ops[lib as int] matches ProfileOp::AddLib { lib: rec }
        && (match rec.code_id { Some(c) => Some(c@), None => None }) == code_id
        && (match rec.debug_id { Some(d) => Some(d@), None => None }) == debug_id
}

pub open spec fn hex_digit(n: int) -> char {
    if n == 0 { '0' } else if n == 1 { '1' } else if n == 2 { '2' } else if n == 3 { '3' }
    else if n == 4 { '4' } else if n == 5 { '5' } else if n == 6 { '6' } else if n == 7 { '7' }
    else if n == 8 { '8' } else if n == 9 { '9' } else if n == 10 { 'a' } else if n == 11 { 'b' }
    else if n == 12 { 'c' } else if n == 13 { 'd' } else if n == 14 { 'e' } else { 'f' }
}

/// Each byte as two lower-case hex digits.
pub open spec fn lower_hex(b: Seq<u8>) -> Seq<char>
    decreases b.len(),
{
    if b.len() == 0 {
        Seq::empty()
    } else {
        seq![hex_digit(b[0] as int / 16), hex_digit(b[0] as int % 16)] + lower_hex(b.drop_first())
    }
}

pub open spec fn upper_hex_digit(n: int) -> char {
    if n < 10 { hex_digit(n) } else if n == 10 { 'A' } else if n == 11 { 'B' } else if n == 12 { 'C' }
    else if n == 13 { 'D' } else if n == 14 { 'E' } else { 'F' }
}

/// Each byte as two upper-case hex digits.
pub open spec fn upper_hex(b: Seq<u8>) -> Seq<char>
    decreases b.len(),
{
    if b.len() == 0 {
        Seq::empty()
    } else {
        seq![upper_hex_digit(b[0] as int / 16), upper_hex_digit(b[0] as int % 16)] + upper_hex(b.drop_first())
    }
}

/// The identifier cut or zero-padded to 16 bytes.
pub open spec fn identifier_16(identifier: Seq<u8>) -> Seq<u8> {
    Seq::new(16, |i: int| if i < identifier.len() { identifier[i] } else { 0u8 })
}

/// The bytes of the debug ID's UUID: the 16 identifier bytes read as a UUID's
/// fields (a 32-bit, two 16-bit, eight single bytes) in the file's byte
/// order, written big-endian.
pub open spec fn debug_id_uuid(identifier: Seq<u8>, little_endian: bool) -> Seq<u8> {
    let d = identifier_16(identifier);
    if little_endian {
        seq![d[3], d[2], d[1], d[0], d[5], d[4], d[7], d[6]] + d.subrange(8, 16)
    } else {
        d
    }
}

/// The breakpad form of the debug ID that an identifier (such as an ELF
/// build ID) of a file of the given byte order stands for: the UUID in
/// upper-case hex followed by the appendix `0`.
pub open spec fn debug_id_of(identifier: Seq<u8>, little_endian: bool) -> Seq<char> {
    upper_hex(debug_id_uuid(identifier, little_endian)) + seq!['0']
}

/// Relies on `debugid::CodeId::from_binary`, which writes each byte as two
/// lower-case hex digits, and on `CodeId`'s `Display`, which writes that string.
#[verifier::external_body]
fn code_id_string(build_id: &[u8]) -> (r: String)
    ensures
        r@ == lower_hex(build_id@),
{
    debugid::CodeId::from_binary(build_id).to_string()
}

/// Relies on `samply_symbols::DebugIdExt::from_identifier`, which pads or
/// cuts the identifier to 16 bytes, reads its first three fields in the given
/// byte order into a UUID (appendix 0), and on `DebugId::breakpad`, which
/// writes the UUID in upper-case hex and the appendix in hex.
#[verifier::external_body]
fn debug_id_string(identifier: &[u8], little_endian: bool) -> (r: String)
    ensures
        r@ == debug_id_of(identifier@, little_endian),
{
    debugid::DebugId::from_identifier(identifier, little_endian).breakpad().to_string()
}

/// The name for a library whose path has no file name.
fn unknown_name() -> (r: Vec<u8>)
    ensures
        !spec_is_jitted_lib_name(r@),
{
    let r: Vec<u8> = vec![0x3c, 0x75, 0x6e, 0x6b, 0x6e, 0x6f, 0x77, 0x6e, 0x3e];
    proof {
        assert(r@.subrange(0, 7)[0] != crate::paths::jitted_prefix()[0]);
    }
    r
}

impl Converter {
    /// The index of the suspected PE mapping that `[avma, avma + size)` lies
    /// in: the one with the largest start at or below `avma`, if the range
    /// ends within it.
    pub fn suspected_pe_mapping_for(&self, avma: u64, size: u64) -> (r: Option<usize>)
        requires
            self.wf(),
        ensures
            match r {
                Some(k) => spec_pe_mapping_for(self.suspected_pe_mappings@, avma, size) == Some(k as int),
                None => spec_pe_mapping_for(self.suspected_pe_mappings@, avma, size) is None,
            },
    {
        let t = &self.suspected_pe_mappings;
        let mut n: usize = t.len();
        proof {
            assert(t@.subrange(0, t@.len() as int) =~= t@);
        }
        while n > 0 && t[n - 1].start > avma
            invariant
                0 <= n <= t@.len(),
                last_starting_at_most(t@, avma) == last_starting_at_most(t@.subrange(0, n as int), avma),
            decreases n,
        {
            proof {
                assert(t@.subrange(0, n as int).drop_last() =~= t@.subrange(0, n - 1));
            }
            n = n - 1;
        }
        if n == 0 {
            proof {
                assert(t@.subrange(0, 0) =~= Seq::<SuspectedPeMapping>::empty());
            }
            return None;
        }
        let k = n - 1;
        let m = &t[k];
        if (avma as u128) + (size as u128) <= (m.start as u128) + (m.size as u128) {
            Some(k)
        } else {
            None
        }
    }

    /// Records a mapping at file offset 0 of a `.exe` or `.dll` file whose PE
    /// header gives `size_of_image`, as a suspected PE image at `start`.
    pub fn check_for_pe_mapping(&mut self, path: &[u8], start: u64, size_of_image: Option<u64>)
        requires
            old(self).wf(),
        ensures
            final(self).wf(),
            final(self).keeps_settings(&old(self)),
            final(self).processes == old(self).processes,
            final(self).log == old(self).log,
            !spec_is_pe_path(path@) || size_of_image is None ==> final(self).suspected_pe_mappings@ == old(self).suspected_pe_mappings@,
            pe_table_after(old(self).suspected_pe_mappings@, final(self).suspected_pe_mappings@, path@, 0, start, size_of_image),
    {
        if !is_pe_path(path) {
            return;
        }
        let size = match size_of_image {
            Some(s) => s,
            None => return,
        };
        let mut owned: Vec<u8> = Vec::new();
        let mut j: usize = 0;
        while j < path.len()
            invariant
                0 <= j <= path@.len(),
                owned@ == path@.subrange(0, j as int),
            decreases path@.len() - j,
        {
            owned.push(path[j]);
            j = j + 1;
            proof {
                assert(owned@ =~= path@.subrange(0, j as int));
            }
        }
        proof {
            assert(path@.subrange(0, path@.len() as int) =~= path@);
        }
        let mapping = SuspectedPeMapping { path: owned, start, size };
        let t = &self.suspected_pe_mappings;
        let mut i: usize = 0;
        while i < t.len() && t[i].start < start
            invariant
                0 <= i <= t@.len(),
                forall|a: int| 0 <= a < i ==> t@[a].start < start,
            decreases t@.len() - i,
        {
            i = i + 1;
        }
        let ghost before = self.suspected_pe_mappings@;
        if i < self.suspected_pe_mappings.len() && self.suspected_pe_mappings[i].start == start {
            self.suspected_pe_mappings.set(i, mapping);
            proof {
                let t2 = self.suspected_pe_mappings@;
                assert(t2 == before.update(i as int, t2[i as int]));
                assert forall|j: int| 0 <= j < t2.len() && #[trigger] t2[j].start != start implies before.contains(t2[j]) by {
                    assert(t2[j] == before[j]);
                }
                assert forall|j: int| 0 <= j < before.len() && #[trigger] before[j].start != start implies t2.contains(before[j]) by {
                    assert(j != i);
                    assert(t2[j] == before[j]);
                }
                assert(self.suspected_pe_mappings@[i as int].start == start);
                assert forall|a: int, b: int| 0 <= a < b < self.suspected_pe_mappings@.len()
                    implies self.suspected_pe_mappings@[a].start < self.suspected_pe_mappings@[b].start by {
                    assert(before[a].start < before[b].start);
                }
            }
        } else {
            self.suspected_pe_mappings.insert(i, mapping);
            proof {
                let t2 = self.suspected_pe_mappings@;
                assert(t2[i as int].start == start);
                assert forall|j: int| 0 <= j < t2.len() && #[trigger] t2[j].start != start implies before.contains(t2[j]) by {
                    if j < i {
                        assert(t2[j] == before[j]);
                    } else {
                        assert(t2[j] == before[j - 1]);
                    }
                }
                assert forall|j: int| 0 <= j < before.len() && #[trigger] before[j].start != start implies t2.contains(before[j]) by {
                    if j < i {
                        assert(t2[j] == before[j]);
                    } else {
                        assert(t2[j + 1] == before[j]);
                    }
                }
                assert forall|a: int, b: int| 0 <= a < b < t2.len() implies t2[a].start < t2[b].start by {
                    let a2 = if a < i { a } else { a - 1 };
                    let b2 = if b < i { b } else { b - 1 };
                    if a < i && b > i {
                        assert(t2[a] == before[a2]);
                        assert(t2[b] == before[b2]);
                        assert(before[a2].start < start);
                        if b2 > i {
                            assert(before[i as int].start < before[b2].start);
                        }
                        assert(before[b2].start >= start);
                    } else if a == i {
                        assert(t2[b] == before[b2]);
                        if b2 > i {
                            assert(before[i as int].start < before[b2].start);
                        }
                    } else if b == i {
                        assert(t2[a] == before[a2]);
                    } else {
                        assert(t2[a] == before[a2]);
                        assert(t2[b] == before[b2]);
                    }
                }
            }
        }
    }

    /// Loads the module of a mapping into process `pid`: registers its
    /// library and its mapping, and returns where the module lies for the
    /// unwinder.
    ///
    /// `opened` is the object file found for the mapping, if any. With a file,
    /// a build ID that the record expects must match the file's (else the
    /// mapping is skipped), and the module's base comes from the suspected PE
    /// mapping the file was found through, or else from the SVMA-to-AVMA bias
    /// (no bias: skipped). A file without debug ID serves the unwinder only.
    /// Without a file, the base is taken to be `avma - file_offset` and the
    /// library is named after the record's build ID.
    pub fn add_module_to_process(&mut self, req: &ModuleRequest, opened: Option<&OpenedBinary>) -> (r: Option<ModulePlan>)
        requires
            old(self).wf(),
        ensures
            final(self).wf(),
            final(self).keeps_settings(&old(self)),
            has_pid(final(self).processes.processes@, req.pid),
            r == spec_module_plan(*req, match opened { Some(o) => Some(*o), None => None }),
            ({
                let before = match old(self).processes.spec_process(req.pid) {
                    Some(p) => p.lib_mapping_ops.ops@,
                    None => Seq::<LibMappingOpEntry>::empty(),
                };
                let after = final(self).processes.spec_process(req.pid)->0.lib_mapping_ops.ops@;
                let registered = match opened {
                    None => true,
                    Some(o) => r is Some && o.info.debug_id is Some,
                };
                let base = match opened {
                    None => vstd::wrapping::u64_specs::wrapping_sub(req.avma, req.file_offset),
                    Some(o) => r->0.base_avma,
                };
                let o_path = match opened {
                    None => req.path@,
                    Some(o) => o.path@,
                };
                let build_id = match opened {
                    None => req.build_id,
                    Some(o) => o.info.build_id,
                };
                let lib_code_id = match build_id {
                    Some(b) => Some(lower_hex(b@)),
                    None => None,
                };
                let lib_debug_id = match opened {
                    None => match req.build_id {
                        Some(b) => Some(debug_id_of(b@, true)),
                        None => None,
                    },
                    Some(o) => match o.info.debug_id {
                        Some(d) => Some(d@),
                        None => None,
                    },
                };
                if registered {
                    &&& after.len() > before.len()
                    &&& after.subrange(0, before.len() as int) == before
                    &&& after.last().timestamp == req.timestamp
                    &&& after.last().op matches LibMappingOp::Add(a)
                        && a.start_avma == req.avma
                        && a.end_avma == vstd::wrapping::u64_specs::wrapping_add(req.avma, req.size)
                        && a.relative_address_at_start == vstd::wrapping::u64_specs::wrapping_sub(req.avma, base) as u32
                        && (a.info is JitFunction <==> (opened is Some && match spec_file_name(o_path) {
                            Some(n) => spec_is_jitted_lib_name(n),
                            None => false,
                        }))
                        && library_registered(final(self).log.ops@, a.info, lib_code_id, lib_debug_id)
                        && ({
                            let n: int = if a.info is JitFunction { 2 } else { 1 };
                            let ops = final(self).log.ops@;
                            &&& ops.len() >= n
                            &&& crate::converter::only_creations(old(self).log.ops@, ops.subrange(0, ops.len() - n))
                            &&& ops[ops.len() - n] is AddLib
                            &&& (match a.info {
                                LibMappingInfo::Lib { lib } => lib,
                                LibMappingInfo::JitFunction { lib, .. } => lib,
                            }) == ops.len() - n
                            &&& a.info is JitFunction ==> ops.last() is JitFunctionAddMarker
                        })
                    &&& old(self).processes.spec_process(req.pid) is None ==> after.len() == 1
                    &&& old(self).processes.spec_process(req.pid) matches Some(p) ==> (
                        (forall|j: int| 0 <= j < p.lib_mapping_ops.live@.len() ==> !crate::mappings::overlaps(
                            #[trigger] p.lib_mapping_ops.live@[j],
                            crate::mappings::AvmaRange { start_avma: req.avma, end_avma: vstd::wrapping::u64_specs::wrapping_add(req.avma, req.size) },
                        )) ==> after.len() == before.len() + 1)
                } else {
                    &&& after == before
                    &&& old(self).processes.spec_process(req.pid) is Some ==> final(self).log.ops@ == old(self).log.ops@
                    &&& crate::converter::only_creations(old(self).log.ops@, final(self).log.ops@)
                }
            }),
    {
        let i = self.locate_process(req.pid);
        let ghost after_locate = self.log.ops@;
        let path: &Vec<u8> = match opened {
            Some(o) => &o.path,
            None => &req.path,
        };
        let name = match file_name(path.as_slice()) {
            Some(n) => n,
            None => unknown_name(),
        };
        let avma_end = req.avma.wrapping_add(req.size);
        match opened {
            Some(o) => {
                if let Some(expected) = &req.build_id {
                    match &o.info.build_id {
                        Some(found) => {
                            if !bytes_equal(found.as_slice(), expected.as_slice()) {
                                return None;
                            }
                        },
                        None => return None,
                    }
                }
                let base_avma = match o.via_pe_start {
                    Some(start) => start,
                    None => match compute_vma_bias(&o.info, req.file_offset, req.avma, req.size) {
                        Some(bias) => o.info.base_svma.wrapping_add(bias),
                        None => return None,
                    },
                };
                let plan = ModulePlan { avma_start: req.avma, avma_end, base_avma, base_svma: o.info.base_svma };
                let debug_id = match &o.info.debug_id {
                    Some(d) => d.clone(),
                    None => return Some(plan),
                };
                let code_id = match &o.info.build_id {
                    Some(b) => Some(code_id_string(b.as_slice())),
                    None => None,
                };
                let lib = self.log.push(ProfileOp::AddLib {
                    lib: LibraryRecord {
                        debug_id: Some(debug_id),
                        code_id,
                        path: path.clone(),
                        debug_path: path.clone(),
                        name: name.clone(),
                        debug_name: name.clone(),
                        kernel_symbol_table: false,
                    },
                });
                let relative_address_at_start = #[verifier::truncate] (req.avma.wrapping_sub(base_avma) as u32);
                let ghost mid = self.processes;
                if is_jitted_lib_name(name.as_slice()) {
                    let time = self.timestamp_converter.convert_time(req.timestamp);
                    let symbol_name = match &o.info.first_text_symbol {
                        Some(n) => Some(n.clone()),
                        None => None,
                    };
                    let p = self.processes.process_mut(i);
                    p.add_lib_mapping_for_injected_jit_lib(
                        req.timestamp,
                        time,
                        symbol_name,
                        req.avma,
                        avma_end,
                        relative_address_at_start,
                        lib,
                        &mut self.log,
                    );
                } else {
                    let p = self.processes.process_mut(i);
                    p.add_regular_lib_mapping(req.timestamp, req.avma, avma_end, relative_address_at_start, lib);
                }
                proof {
                    lemma_process_update_keeps_wf(mid, self.processes, i as int);
                    let ops = self.log.ops@;
                    let n: int = ops.len() - after_locate.len() - 1;
                    assert(ops.subrange(0, ops.len() - (n + 1)) =~= after_locate);
                    assert(ops[after_locate.len() as int] is AddLib);
                    assert(mid.processes@[i as int].lib_mapping_ops.live@ == match old(self).processes.spec_process(req.pid) {
                        Some(p) => p.lib_mapping_ops.live@,
                        None => Seq::<crate::mappings::AvmaRange>::empty(),
                    });
                }
                Some(plan)
            },
            None => {
                let base_avma = req.avma.wrapping_sub(req.file_offset);
                let relative_address_at_start = #[verifier::truncate] (req.avma.wrapping_sub(base_avma) as u32);
                let debug_id = match &req.build_id {
                    Some(b) => Some(debug_id_string(b.as_slice(), true)),
                    None => None,
                };
                let code_id = match &req.build_id {
                    Some(b) => Some(code_id_string(b.as_slice())),
                    None => None,
                };
                let lib = self.log.push(ProfileOp::AddLib {
                    lib: LibraryRecord {
                        debug_id,
                        code_id,
                        path: path.clone(),
                        debug_path: path.clone(),
                        name: name.clone(),
                        debug_name: name,
                        kernel_symbol_table: false,
                    },
                });
                let ghost mid = self.processes;
                let p = self.processes.process_mut(i);
                p.add_regular_lib_mapping(req.timestamp, req.avma, avma_end, relative_address_at_start, lib);
                proof {
                    lemma_process_update_keeps_wf(mid, self.processes, i as int);
                    let ops = self.log.ops@;
                    assert(ops.subrange(0, ops.len() - 1) =~= after_locate);
                    assert(mid.processes@[i as int].lib_mapping_ops.live@ == match old(self).processes.spec_process(req.pid) {
                        Some(p) => p.lib_mapping_ops.live@,
                        None => Seq::<crate::mappings::AvmaRange>::empty(),
                    });
                }
                None
            },
        }
    }
}

/// The build ID that a kernel module is registered with: the record's; else
/// the running kernel's, if the module is mapped at the kernel's base; else
/// the one read from the module's file.
pub open spec fn spec_kernel_build_id(
    req: KernelModuleRequest,
    kernel_symbols: Option<KernelSymbolsInfo>,
    file_build_id: Option<Vec<u8>>,
) -> Option<Seq<u8>> {
    match req.build_id {
        Some(b) => Some(b@),
        None => match kernel_symbols {
            Some(ks) if ks.base_avma == req.base_address => Some(ks.build_id@),
            _ => match file_build_id {
                Some(b) => Some(b@),
                None => None,
            },
        },
    }
}

/// `[kernel.kallsyms]`
pub open spec fn kallsyms_prefix() -> Seq<u8> {
    seq![0x5bu8, 0x6b, 0x65, 0x72, 0x6e, 0x65, 0x6c, 0x2e, 0x6b, 0x61, 0x6c, 0x6c, 0x73, 0x79, 0x6d, 0x73, 0x5d]
}

/// `/usr/lib/debug/boot/vmlinux-`
pub open spec fn vmlinux_debug_prefix() -> Seq<u8> {
    seq![0x2fu8, 0x75, 0x73, 0x72, 0x2f, 0x6c, 0x69, 0x62, 0x2f, 0x64, 0x65, 0x62, 0x75, 0x67, 0x2f, 0x62, 0x6f, 0x6f, 0x74, 0x2f, 0x76, 0x6d, 0x6c, 0x69, 0x6e, 0x75, 0x78, 0x2d]
}

impl Converter {
    /// Whether registering this kernel module needs the build ID from its file.
    pub fn kernel_module_needs_file_build_id(&self, req: &KernelModuleRequest) -> (r: bool)
        ensures
            r == (req.build_id is None && !(match self.kernel_symbols {
                Some(ks) => ks.base_avma == req.base_address,
                None => false,
            })),
    {
        if req.build_id.is_some() {
            return false;
        }
        match &self.kernel_symbols {
            Some(ks) => ks.base_avma != req.base_address,
            None => true,
        }
    }

    /// Registers a kernel module (a mapping of the kernel's address space):
    /// its library, with the build ID of `spec_kernel_build_id`, and its
    /// mapping over `[base_address, base_address + length)`. The kernel image
    /// gets the guessed vmlinux debug path and, when its build ID is the
    /// running kernel's, the kernel's symbol table.
    pub fn add_kernel_module(&mut self, req: &KernelModuleRequest, file_build_id: Option<Vec<u8>>)
        requires
            old(self).wf(),
        ensures
            final(self).wf(),
            final(self).keeps_settings(&old(self)),
            final(self).processes == old(self).processes,
            final(self).log.ops@.len() == old(self).log.ops@.len() + 2,
            final(self).log.ops@[final(self).log.ops@.len() - 1] == (ProfileOp::AddKernelLibMapping {
                lib: old(self).log.ops@.len() as usize,
                start_avma: req.base_address,
                end_avma: vstd::wrapping::u64_specs::wrapping_add(req.base_address, req.length),
                relative_address_at_start: 0,
            }),
            final(self).log.ops@[old(self).log.ops@.len() as int] matches ProfileOp::AddLib { lib } && ({
                let b = spec_kernel_build_id(*req, old(self).kernel_symbols, file_build_id);
                &&& (lib.code_id is Some <==> b is Some)
                &&& b is Some ==> lib.code_id->0@ == lower_hex(b->0)
                &&& (lib.debug_id is Some <==> b is Some)
                &&& b is Some ==> lib.debug_id->0@ == debug_id_of(b->0, old(self).endian == Endianness::LittleEndian)
                &&& lib.name@ == req.dso_name@
                &&& lib.debug_name@ == req.dso_name@
                &&& lib.path@ == req.path@
                &&& lib.kernel_symbol_table == (req.is_kernel && b is Some && old(self).kernel_symbols is Some
                    && b->0 == old(self).kernel_symbols->0.build_id@ && old(self).kernel_symbols->0.base_avma != 0)
                &&& (old(self).linux_version is Some && spec_has_prefix(req.path@, kallsyms_prefix())
                    ==> lib.debug_path@ == vmlinux_debug_prefix() + old(self).linux_version->0@)
                &&& (old(self).linux_version is None || !spec_has_prefix(req.path@, kallsyms_prefix())
                    ==> lib.debug_path@ == req.path@)
            }),
    {
        let build_id: Option<Vec<u8>> = match &req.build_id {
            Some(b) => Some(copy_range(b.as_slice(), 0, b.len())),
            None => match &self.kernel_symbols {
                Some(ks) => if ks.base_avma == req.base_address {
                    Some(copy_range(ks.build_id.as_slice(), 0, ks.build_id.len()))
                } else {
                    file_build_id
                },
                None => file_build_id,
            },
        };
        proof {
            let b = spec_kernel_build_id(*req, self.kernel_symbols, file_build_id);
            assert(build_id is Some <==> b is Some);
            assert(build_id is Some ==> build_id->0@ == b->0);
        }
        let little_endian = match self.endian {
            Endianness::LittleEndian => true,
            Endianness::BigEndian => false,
        };
        let debug_id = match &build_id {
            Some(b) => Some(debug_id_string(b.as_slice(), little_endian)),
            None => None,
        };
        let code_id = match &build_id {
            Some(b) => Some(code_id_string(b.as_slice())),
            None => None,
        };
        let kallsyms: Vec<u8> = vec![0x5b, 0x6b, 0x65, 0x72, 0x6e, 0x65, 0x6c, 0x2e, 0x6b, 0x61, 0x6c, 0x6c, 0x73, 0x79, 0x6d, 0x73, 0x5d];
        proof {
            assert(kallsyms@ =~= kallsyms_prefix());
        }
        let debug_path: Vec<u8> = match &self.linux_version {
            Some(v) => if has_prefix(req.path.as_slice(), kallsyms.as_slice()) {
                let mut d: Vec<u8> = vec![0x2f, 0x75, 0x73, 0x72, 0x2f, 0x6c, 0x69, 0x62, 0x2f, 0x64, 0x65, 0x62, 0x75, 0x67, 0x2f, 0x62, 0x6f, 0x6f, 0x74, 0x2f, 0x76, 0x6d, 0x6c, 0x69, 0x6e, 0x75, 0x78, 0x2d];
                proof {
                    assert(d@ =~= vmlinux_debug_prefix());
                }
                append_bytes(&mut d, v.as_slice());
                proof {
                    assert(d@.subrange(0, vmlinux_debug_prefix().len() as int) =~= vmlinux_debug_prefix());
                }
                d
            } else {
                copy_range(req.path.as_slice(), 0, req.path.len())
            },
            None => copy_range(req.path.as_slice(), 0, req.path.len()),
        };
        let kernel_symbol_table = match (&build_id, &self.kernel_symbols) {
            (Some(b), Some(ks)) => req.is_kernel && bytes_equal(b.as_slice(), ks.build_id.as_slice()) && ks.base_avma != 0,
            _ => false,
        };
        let lib = self.log.push(ProfileOp::AddLib {
            lib: LibraryRecord {
                debug_id,
                code_id,
                path: copy_range(req.path.as_slice(), 0, req.path.len()),
                debug_path,
                name: copy_range(req.dso_name.as_slice(), 0, req.dso_name.len()),
                debug_name: copy_range(req.dso_name.as_slice(), 0, req.dso_name.len()),
                kernel_symbol_table,
            },
        });
        self.log.push(ProfileOp::AddKernelLibMapping {
            lib,
            start_avma: req.base_address,
            end_avma: req.base_address.wrapping_add(req.length),
            relative_address_at_start: 0,
        });
    }
}

fn append_bytes(d: &mut Vec<u8>, s: &[u8])
    ensures
        final(d)@ == old(d)@ + s@,
{
    let mut i: usize = 0;
    while i < s.len()
        invariant
            0 <= i <= s@.len(),
            d@ == old(d)@ + s@.subrange(0, i as int),
        decreases s@.len() - i,
    {
        d.push(s[i]);
        i = i + 1;
        proof {
            assert(d@ =~= old(d)@ + s@.subrange(0, i as int));
        }
    }
    proof {
        assert(s@.subrange(0, s@.len() as int) =~= s@);
    }
}

impl Converter {
    /// Hands a jitdump path to process `pid`.
    fn add_jitdump_path(&mut self, pid: i32, path: &[u8])
        requires
            old(self).wf(),
        ensures
            final(self).wf(),
            final(self).keeps_settings(&old(self)),
            has_pid(final(self).processes.processes@, pid),
            final(self).suspected_pe_mappings == old(self).suspected_pe_mappings,
            crate::converter::only_creations(old(self).log.ops@, final(self).log.ops@),
            final(self).processes.spec_process(pid)->0.lib_mapping_ops.ops@ == match old(self).processes.spec_process(pid) {
                Some(p) => p.lib_mapping_ops.ops@,
                None => Seq::<LibMappingOpEntry>::empty(),
            },
            ({
                let before = match old(self).processes.spec_process(pid) {
                    Some(p) => p.jitdump_paths@,
                    None => Seq::<Vec<u8>>::empty(),
                };
                let after = final(self).processes.spec_process(pid)->0.jitdump_paths@;
                after.len() == before.len() + 1 && after.drop_last() == before && after.last()@ == path@
            }),
    {
        let i = self.locate_process(pid);
        let owned = copy_range(path, 0, path.len());
        let ghost mid = self.processes;
        let p = self.processes.process_mut(i);
        let ghost before = p.jitdump_paths@;
        p.jitdump_paths.push(owned);
        proof {
            lemma_process_update_keeps_wf(mid, self.processes, i as int);
            assert(self.processes.processes@[i as int].jitdump_paths@.drop_last() =~= before);
        }
    }

    /// Handles an MMAP record. A jitdump file is recorded for its process;
    /// a mapping at file offset 0 may record a suspected PE image (see
    /// `check_for_pe_mapping`, with `pe_size_of_image` read from its header).
    /// An executable mapping of a known shared object is then to be loaded:
    /// into the kernel for pid -1, else into its process. The build-ID
    /// table's build ID and path take precedence over the record's path.
    pub fn handle_mmap(&mut self, e: &MmapInput, timestamp: u64, pe_size_of_image: Option<u64>) -> (r: MmapAction)
        requires
            old(self).wf(),
        ensures
            final(self).wf(),
            final(self).keeps_settings(&old(self)),
            spec_is_jitdump_path(e.path@) ==> r is Jitdump && has_pid(final(self).processes.processes@, e.pid)
                && final(self).suspected_pe_mappings == old(self).suspected_pe_mappings
                && final(self).processes.spec_process(e.pid)->0.jitdump_paths@.last()@ == e.path@
                && final(self).processes.spec_process(e.pid)->0.jitdump_paths@.drop_last() == match old(self).processes.spec_process(e.pid) {
                    Some(p) => p.jitdump_paths@,
                    None => Seq::<Vec<u8>>::empty(),
                },
            spec_is_jitdump_path(e.path@) ==> crate::converter::only_creations(old(self).log.ops@, final(self).log.ops@)
                && final(self).processes.spec_process(e.pid)->0.lib_mapping_ops.ops@ == match old(self).processes.spec_process(e.pid) {
                    Some(p) => p.lib_mapping_ops.ops@,
                    None => Seq::<LibMappingOpEntry>::empty(),
                },
            !spec_is_jitdump_path(e.path@) ==> final(self).log.ops@ == old(self).log.ops@,
            !spec_is_jitdump_path(e.path@) ==> final(self).processes == old(self).processes
                && pe_table_after(old(self).suspected_pe_mappings@, final(self).suspected_pe_mappings@, e.path@, e.page_offset, e.address, pe_size_of_image),
            !spec_is_jitdump_path(e.path@) && (!e.is_executable || e.dso is None) ==> r is Ignored,
            !spec_is_jitdump_path(e.path@) && e.is_executable && e.dso is Some ==> ({
                let (build_id, path) = match e.dso->0.known {
                    Some((b, p)) => (Some(b@), p@),
                    None => (None::<Seq<u8>>, e.path@),
                };
                if e.pid == -1 {
                    r matches MmapAction::KernelModule(k) && k.base_address == e.address && k.length == e.length
                        && k.is_kernel == e.dso->0.is_kernel && k.dso_name@ == e.dso->0.name@ && k.path@ == path
                        && match k.build_id { Some(b) => build_id == Some(b@), None => build_id is None }
                } else {
                    r matches MmapAction::LoadModule(m) && m.pid == e.pid && m.avma == e.address && m.size == e.length
                        && m.file_offset == e.page_offset && m.timestamp == timestamp && m.path@ == path
                        && match m.build_id { Some(b) => build_id == Some(b@), None => build_id is None }
                }
            }),
    {
        if get_path_if_jitdump(e.path.as_slice()).is_some() {
            self.add_jitdump_path(e.pid, e.path.as_slice());
            return MmapAction::Jitdump;
        }
        if e.page_offset == 0 {
            self.check_for_pe_mapping(e.path.as_slice(), e.address, pe_size_of_image);
        }
        if !e.is_executable {
            return MmapAction::Ignored;
        }
        let dso = match &e.dso {
            Some(d) => d,
            None => return MmapAction::Ignored,
        };
        let (build_id, path) = match &dso.known {
            Some((b, p)) => (Some(copy_range(b.as_slice(), 0, b.len())), copy_range(p.as_slice(), 0, p.len())),
            None => (None, copy_range(e.path.as_slice(), 0, e.path.len())),
        };
        if e.pid == -1 {
            MmapAction::KernelModule(KernelModuleRequest {
                base_address: e.address,
                length: e.length,
                is_kernel: dso.is_kernel,
                dso_name: copy_range(dso.name.as_slice(), 0, dso.name.len()),
                build_id,
                path,
            })
        } else {
            MmapAction::LoadModule(ModuleRequest {
                pid: e.pid,
                path,
                file_offset: e.page_offset,
                avma: e.address,
                size: e.length,
                build_id,
                timestamp,
            })
        }
    }

    /// Handles an MMAP2 record, as `handle_mmap` does, but the record's own
    /// build ID comes first, its path is kept, and it is always loaded into
    /// its process. Without a build ID in the record, the path must name a
    /// known shared object.
    pub fn handle_mmap2(&mut self, e: &MmapInput, timestamp: u64, pe_size_of_image: Option<u64>) -> (r: MmapAction)
        requires
            old(self).wf(),
        ensures
            final(self).wf(),
            final(self).keeps_settings(&old(self)),
            spec_is_jitdump_path(e.path@) ==> r is Jitdump && has_pid(final(self).processes.processes@, e.pid)
                && final(self).suspected_pe_mappings == old(self).suspected_pe_mappings
                && final(self).processes.spec_process(e.pid)->0.jitdump_paths@.last()@ == e.path@
                && final(self).processes.spec_process(e.pid)->0.jitdump_paths@.drop_last() == match old(self).processes.spec_process(e.pid) {
                    Some(p) => p.jitdump_paths@,
                    None => Seq::<Vec<u8>>::empty(),
                },
            spec_is_jitdump_path(e.path@) ==> crate::converter::only_creations(old(self).log.ops@, final(self).log.ops@)
                && final(self).processes.spec_process(e.pid)->0.lib_mapping_ops.ops@ == match old(self).processes.spec_process(e.pid) {
                    Some(p) => p.lib_mapping_ops.ops@,
                    None => Seq::<LibMappingOpEntry>::empty(),
                },
            !spec_is_jitdump_path(e.path@) ==> final(self).log.ops@ == old(self).log.ops@,
            !spec_is_jitdump_path(e.path@) ==> final(self).processes == old(self).processes
                && pe_table_after(old(self).suspected_pe_mappings@, final(self).suspected_pe_mappings@, e.path@, e.page_offset, e.address, pe_size_of_image),
            !spec_is_jitdump_path(e.path@) && (!e.is_executable || (e.build_id is None && e.dso is None)) ==> r is Ignored,
            !spec_is_jitdump_path(e.path@) && e.is_executable && (e.build_id is Some || e.dso is Some) ==> ({
                let build_id = match e.build_id {
                    Some(b) => Some(b@),
                    None => match e.dso->0.known {
                        Some((b, _)) => Some(b@),
                        None => None::<Seq<u8>>,
                    },
                };
                r matches MmapAction::LoadModule(m) && m.pid == e.pid && m.avma == e.address && m.size == e.length
                    && m.file_offset == e.page_offset && m.timestamp == timestamp && m.path@ == e.path@
                    && match m.build_id { Some(b) => build_id == Some(b@), None => build_id is None }
            }),
    {
        if get_path_if_jitdump(e.path.as_slice()).is_some() {
            self.add_jitdump_path(e.pid, e.path.as_slice());
            return MmapAction::Jitdump;
        }
        if e.page_offset == 0 {
            self.check_for_pe_mapping(e.path.as_slice(), e.address, pe_size_of_image);
        }
        if !e.is_executable {
            return MmapAction::Ignored;
        }
        let build_id = match &e.build_id {
            Some(b) => Some(copy_range(b.as_slice(), 0, b.len())),
            None => match &e.dso {
                Some(d) => match &d.known {
                    Some((b, _)) => Some(copy_range(b.as_slice(), 0, b.len())),
                    None => None,
                },
                None => return MmapAction::Ignored,
            },
        };
        MmapAction::LoadModule(ModuleRequest {
            pid: e.pid,
            path: copy_range(e.path.as_slice(), 0, e.path.len()),
            file_offset: e.page_offset,
            avma: e.address,
            size: e.length,
            build_id,
            timestamp,
        })
    }
}

/// Whether an object file has the layout of a JIT library written with a
/// broken program header: an ELF file whose first segment has address and
/// file offset 0, and whose `.text` section (given as address and file
/// offset) lies at a file offset other than its address.
pub fn is_bad_perf_jit_layout(
    is_elf: bool,
    first_segment: Option<(u64, u64)>,
    text_section: Option<(u64, Option<u64>)>,
) -> (r: bool)
    ensures
        r == (is_elf && first_segment == Some((0u64, 0u64)) && match text_section {
            Some((address, Some(offset))) => offset != address,
            _ => false,
        }),
{
    if !is_elf {
        return false;
    }
    match first_segment {
        Some((address, offset)) => {
            if address != 0 || offset != 0 {
                return false;
            }
        },
        None => return false,
    }
    match text_section {
        Some((address, Some(offset))) => offset != address,
        _ => false,
    }
}

fn bytes_equal(a: &[u8], b: &[u8]) -> (r: bool)
    ensures
        r == (a@ == b@),
{
    if a.len() != b.len() {
        return false;
    }
    let mut i: usize = 0;
    while i < a.len()
        invariant
            a@.len() == b@.len(),
            0 <= i <= a@.len(),
            forall|j: int| 0 <= j < i ==> a@[j] == b@[j],
        decreases a@.len() - i,
    {
        if a[i] != b[i] {
            return false;
        }
        i = i + 1;
    }
    proof {
        assert(a@ =~= b@);
    }
    true
}

} // verus!

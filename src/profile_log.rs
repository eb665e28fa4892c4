//! The operations on the profile that conversion produces, in order.
use vstd::prelude::*;
use crate::rss::RssStatMember;
use crate::stacks::UnresolvedStackHandle;
use crate::thread::UnresolvedSample;

verus! {

/// A library to register with the profile.
#[derive(Clone, Debug, PartialEq, Eq)]
pub struct LibraryRecord {
    /// Breakpad form of the debug identifier, when known.
    pub debug_id: Option<String>,
    /// Lower-case hex of the build ID, when known.
    pub code_id: Option<String>,
    pub path: Vec<u8>,
    pub debug_path: Vec<u8>,
    pub name: Vec<u8>,
    pub debug_name: Vec<u8>,
    /// Whether the kernel's own symbol table belongs to this library.
    pub kernel_symbol_table: bool,
}

/// One operation on the profile. Operations that create something (a
/// process, a thread, a library, a counter) are referred to later by their
/// index in the log.
#[derive(Clone, Debug, PartialEq, Eq)]
pub enum ProfileOp {
    /// A process, named `<pid>` until it gets a name.
    AddProcess { pid: i32 },
    AddThread { process: usize, tid: i32, is_main: bool },
    SetProcessName { process: usize, name: String },
    SetThreadName { thread: usize, name: String },
    SetProcessStartTime { process: usize, time: u64 },
    SetThreadStartTime { thread: usize, time: u64 },
    SetProcessEndTime { process: usize, time: u64 },
    SetThreadEndTime { thread: usize, time: u64 },
    /// The delayed product-name generator is to run on this thread name.
    SetProductFromName { name: String },
    AddLib { lib: LibraryRecord },
    AddKernelLibMapping { lib: usize, start_avma: u64, end_avma: u64, relative_address_at_start: u32 },
    /// The memory counter of a process.
    AddCounter { process: usize },
    AddCounterSample { counter: usize, time: u64, delta: i64 },
    /// A JIT function library was mapped.
    /// `name` is the function's symbol name, `<unknown>` when it has none.
    JitFunctionAddMarker { thread: usize, time: u64, name: String },
    /// The unwinder of the process with this pid is discarded.
    DropUnwinder { pid: i32 },
}

/// The log of profile operations.
pub struct ProfileLog {
    pub ops: Vec<ProfileOp>,
}

impl ProfileLog {
    pub fn new() -> (r: Self)
        ensures
            r.ops@.len() == 0,
    {
        ProfileLog { ops: Vec::new() }
    }

    /// Appends `op` and returns its index.
    pub fn push(&mut self, op: ProfileOp) -> (r: usize)
        ensures
            final(self).ops@ == old(self).ops@.push(op),
            r == old(self).ops@.len(),
    {
        let r = self.ops.len();
        self.ops.push(op);
        r
    }
}

/// What a library mapping refers to.
#[derive(Clone, Debug, PartialEq, Eq)]
pub enum LibMappingInfo {
    Lib { lib: usize },
    /// A library that holds one JIT-compiled function.
    JitFunction { lib: usize, symbol_name: Option<String> },
}

#[derive(Clone, Debug, PartialEq, Eq)]
pub struct LibMappingAdd {
    pub start_avma: u64,
    pub end_avma: u64,
    pub relative_address_at_start: u32,
    pub info: LibMappingInfo,
}

/// A change to a process's library mappings.
#[derive(Clone, Debug, PartialEq, Eq)]
pub enum LibMappingOp {
    Add(LibMappingAdd),
    /// The mappings that start at `start_avma` end.
    Remove { start_avma: u64 },
}

/// A timestamped change to a process's library mappings.
#[derive(Clone, Debug, PartialEq, Eq)]
pub struct LibMappingOpEntry {
    pub timestamp: u64,
    pub op: LibMappingOp,
}

/// A marker waiting to be written to the profile.
#[derive(Clone, Copy, Debug, PartialEq, Eq, Structural)]
pub enum MarkerRecord {
    RssStat {
        thread: usize,
        time: u64,
        timestamp: u64,
        stack: UnresolvedStackHandle,
        member: RssStatMember,
        size: i64,
        delta: i64,
    },
    OtherEvent {
        thread: usize,
        time: u64,
        timestamp: u64,
        stack: UnresolvedStackHandle,
        attr_index: usize,
    },
}

/// What a process left for the profile when it was removed.
pub struct ProcessSampleData {
    pub pid: i32,
    pub process: usize,
    pub samples: Vec<UnresolvedSample>,
    pub markers: Vec<MarkerRecord>,
    pub lib_mapping_ops: Vec<LibMappingOpEntry>,
    pub jitdump_paths: Vec<Vec<u8>>,
}

impl ProcessSampleData {
    pub open spec fn spec_is_empty(&self) -> bool {
        self.samples@.len() == 0 && self.markers@.len() == 0 && self.lib_mapping_ops@.len() == 0
            && self.jitdump_paths@.len() == 0
    }

    pub fn is_empty(&self) -> (r: bool)
        ensures
            r == self.spec_is_empty(),
    {
        self.samples.len() == 0 && self.markers.len() == 0 && self.lib_mapping_ops.len() == 0
            && self.jitdump_paths.len() == 0
    }
}

} // verus!

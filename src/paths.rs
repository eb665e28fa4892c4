//! Byte-level checks on the paths that memory-map records carry.
use vstd::prelude::*;

verus! {

pub open spec fn spec_has_prefix(s: Seq<u8>, prefix: Seq<u8>) -> bool {
    prefix.len() <= s.len() && s.subrange(0, prefix.len() as int) == prefix
}

pub open spec fn spec_has_suffix(s: Seq<u8>, suffix: Seq<u8>) -> bool {
    suffix.len() <= s.len() && s.subrange(s.len() - suffix.len(), s.len() as int) == suffix
}

pub open spec fn occurs_at(s: Seq<u8>, pat: Seq<u8>, i: int) -> bool {
    0 <= i && i + pat.len() <= s.len() && s.subrange(i, i + pat.len()) == pat
}

pub open spec fn spec_contains(s: Seq<u8>, pat: Seq<u8>) -> bool {
    exists|i: int| occurs_at(s, pat, i)
}

/// `s` without what ends it after its last component: trailing `/`
/// characters and trailing `.` components (`a/./` and `a/.` end in `a`).
pub open spec fn trim_slashes(s: Seq<u8>) -> Seq<u8>
    decreases s.len(),
{
    if s.len() > 0 && s.last() == SLASH {
        trim_slashes(s.drop_last())
    } else if s.len() >= 2 && s.last() == DOT && s[s.len() - 2] == SLASH {
        trim_slashes(s.drop_last())
    } else {
        s
    }
}

/// Index at which the last component of `s` starts: just after its last `/`.
pub open spec fn component_start(s: Seq<u8>) -> int
    decreases s.len(),
{
    if s.len() == 0 {
        0
    } else if s.last() == SLASH {
        s.len() as int
    } else {
        component_start(s.drop_last())
    }
}

/// The last component of a path, as `std::path::Path::file_name` finds it:
/// trailing slashes and `.` components are ignored; none when what is left
/// ends in nothing, `.` or `..`.
pub open spec fn spec_file_name(path: Seq<u8>) -> Option<Seq<u8>> {
    let t = trim_slashes(path);
    let name = t.subrange(component_start(t), t.len() as int);
    if name.len() == 0 || name == seq![DOT] || name == seq![DOT, DOT] {
        None
    } else {
        Some(name)
    }
}

pub const SLASH: u8 = 0x2f;
pub const DOT: u8 = 0x2e;

/// `jit-`
pub open spec fn jitdump_prefix() -> Seq<u8> {
    seq![0x6au8, 0x69, 0x74, 0x2d]
}

/// `.dump`
pub open spec fn jitdump_suffix() -> Seq<u8> {
    seq![0x2eu8, 0x64, 0x75, 0x6d, 0x70]
}

/// `jitted-`
pub open spec fn jitted_prefix() -> Seq<u8> {
    seq![0x6au8, 0x69, 0x74, 0x74, 0x65, 0x64, 0x2d]
}

/// `/jitted-`
pub open spec fn jitted_path_marker() -> Seq<u8> {
    seq![0x2fu8, 0x6a, 0x69, 0x74, 0x74, 0x65, 0x64, 0x2d]
}

/// `.so`
pub open spec fn so_suffix() -> Seq<u8> {
    seq![0x2eu8, 0x73, 0x6f]
}

/// `-fixed.so`
pub open spec fn fixed_so_suffix() -> Seq<u8> {
    seq![0x2du8, 0x66, 0x69, 0x78, 0x65, 0x64, 0x2e, 0x73, 0x6f]
}

/// `.exe`, `.dll`, `.EXE`, `.DLL`
pub open spec fn pe_suffixes() -> Seq<Seq<u8>> {
    seq![
        seq![0x2eu8, 0x65, 0x78, 0x65],
        seq![0x2eu8, 0x64, 0x6c, 0x6c],
        seq![0x2eu8, 0x45, 0x58, 0x45],
        seq![0x2eu8, 0x44, 0x4c, 0x4c],
    ]
}

pub open spec fn spec_is_pe_path(path: Seq<u8>) -> bool {
    exists|k: int| 0 <= k < 4 && spec_has_suffix(path, #[trigger] pe_suffixes()[k])
}

pub open spec fn spec_is_jitdump_path(path: Seq<u8>) -> bool {
    &&& vstd::utf8::valid_utf8(path)
    &&& spec_file_name(path) is Some
    &&& spec_has_prefix(spec_file_name(path)->0, jitdump_prefix())
    &&& spec_has_suffix(spec_file_name(path)->0, jitdump_suffix())
}

pub open spec fn spec_is_jitted_lib_name(name: Seq<u8>) -> bool {
    spec_has_prefix(name, jitted_prefix()) && spec_has_suffix(name, so_suffix())
}

pub open spec fn spec_may_be_bad_jit_so(path: Seq<u8>) -> bool {
    spec_contains(path, jitted_path_marker()) && spec_has_suffix(path, so_suffix())
}

/// Relies on `std::str::from_utf8`, which accepts exactly the valid UTF-8 byte strings.
#[verifier::external_body]
fn is_utf8(b: &[u8]) -> (r: bool)
    ensures
        r == vstd::utf8::valid_utf8(b@),
{
    std::str::from_utf8(b).is_ok()
}

pub fn has_prefix(s: &[u8], prefix: &[u8]) -> (r: bool)
    ensures
        r == spec_has_prefix(s@, prefix@),
{
    if prefix.len() > s.len() {
        return false;
    }
    let mut i: usize = 0;
    while i < prefix.len()
        invariant
            prefix@.len() <= s@.len(),
            0 <= i <= prefix@.len(),
            forall|j: int| 0 <= j < i ==> s@[j] == prefix@[j],
        decreases prefix@.len() - i,
    {
        if s[i] != prefix[i] {
            proof {
                assert(s@.subrange(0, prefix@.len() as int)[i as int] != prefix@[i as int]);
            }
            return false;
        }
        i = i + 1;
    }
    proof {
        assert(s@.subrange(0, prefix@.len() as int) =~= prefix@);
    }
    true
}

fn occurs_at_index(s: &[u8], pat: &[u8], at: usize) -> (r: bool)
    requires
        at <= s@.len(),
    ensures
        r == occurs_at(s@, pat@, at as int),
{
    let n = s.len();
    if pat.len() > n - at {
        return false;
    }
    let mut i: usize = 0;
    while i < pat.len()
        invariant
            n == s@.len(),
            at + pat@.len() <= s@.len(),
            0 <= i <= pat@.len(),
            forall|j: int| 0 <= j < i ==> s@[at + j] == pat@[j],
        decreases pat@.len() - i,
    {
        if s[at + i] != pat[i] {
            proof {
                assert(s@.subrange(at as int, at + pat@.len())[i as int] != pat@[i as int]);
            }
            return false;
        }
        i = i + 1;
    }
    proof {
        assert(s@.subrange(at as int, at + pat@.len()) =~= pat@);
    }
    true
}

pub fn has_suffix(s: &[u8], suffix: &[u8]) -> (r: bool)
    ensures
        r == spec_has_suffix(s@, suffix@),
{
    if suffix.len() > s.len() {
        return false;
    }
    occurs_at_index(s, suffix, s.len() - suffix.len())
}

pub fn contains(s: &[u8], pat: &[u8]) -> (r: bool)
    ensures
        r == spec_contains(s@, pat@),
{
    let n = s.len();
    let mut at: usize = 0;
    while at < n
        invariant
            n == s@.len(),
            0 <= at <= n,
            forall|j: int| 0 <= j < at ==> !occurs_at(s@, pat@, j),
        decreases n - at,
    {
        if occurs_at_index(s, pat, at) {
            return true;
        }
        at = at + 1;
    }
    if occurs_at_index(s, pat, n) {
        return true;
    }
    proof {
        assert forall|j: int| !occurs_at(s@, pat@, j) by {
            if 0 <= j && j <= n {
            }
        }
    }
    false
}

proof fn lemma_component_start(s: Seq<u8>, k: int)
    requires
        0 <= k <= s.len(),
        forall|j: int| k <= j < s.len() ==> s[j] != SLASH,
        k == 0 || s[k - 1] == SLASH,
    ensures
        component_start(s) == k,
    decreases s.len(),
{
    if s.len() > k {
        lemma_component_start(s.drop_last(), k);
    }
}

/// The bytes of `s` from `from` up to `to`.
pub fn copy_range(s: &[u8], from: usize, to: usize) -> (r: Vec<u8>)
    requires
        from <= to <= s@.len(),
    ensures
        r@ == s@.subrange(from as int, to as int),
{
    let mut r: Vec<u8> = Vec::new();
    let mut i: usize = from;
    while i < to
        invariant
            from <= i <= to,
            to <= s@.len(),
            r@ == s@.subrange(from as int, i as int),
        decreases to - i,
    {
        r.push(s[i]);
        i = i + 1;
        proof {
            assert(r@ =~= s@.subrange(from as int, i as int));
        }
    }
    r
}

/// The bounds of the last component of `path`, ignoring trailing slashes.
fn file_name_bounds(path: &[u8]) -> (r: (usize, usize))
    ensures
        r.0 <= r.1 <= path@.len(),
        trim_slashes(path@) == path@.subrange(0, r.1 as int),
        component_start(trim_slashes(path@)) == r.0,
{
    let mut end: usize = path.len();
    proof {
        assert(path@.subrange(0, end as int) =~= path@);
    }
    while end > 0 && (path[end - 1] == SLASH || (end >= 2 && path[end - 1] == DOT && path[end - 2] == SLASH))
        invariant
            0 <= end <= path@.len(),
            trim_slashes(path@) == trim_slashes(path@.subrange(0, end as int)),
        decreases end,
    {
        proof {
            assert(path@.subrange(0, end as int).drop_last() =~= path@.subrange(0, end - 1));
        }
        end = end - 1;
    }
    let mut start: usize = end;
    while start > 0 && path[start - 1] != SLASH
        invariant
            0 <= start <= end <= path@.len(),
            forall|j: int| start <= j < end ==> path@[j] != SLASH,
        decreases start,
    {
        start = start - 1;
    }
    proof {
        lemma_component_start(path@.subrange(0, end as int), start as int);
    }
    (start, end)
}

/// The last component of `path` (see `spec_file_name`).
pub fn file_name(path: &[u8]) -> (r: Option<Vec<u8>>)
    ensures
        match r {
            Some(v) => spec_file_name(path@) == Some(v@),
            None => spec_file_name(path@) is None,
        },
{
    let (start, end) = file_name_bounds(path);
    let name = copy_range(path, start, end);
    proof {
        let t = trim_slashes(path@);
        assert(t.subrange(start as int, t.len() as int) =~= name@);
    }
    let one_dot = name.len() == 1 && name[0] == DOT;
    let two_dots = name.len() == 2 && name[0] == DOT && name[1] == DOT;
    proof {
        assert(one_dot == (name@ == seq![DOT])) by {
            if name@.len() == 1 && name@[0] == DOT {
                assert(name@ =~= seq![DOT]);
            }
        }
        assert(two_dots == (name@ == seq![DOT, DOT])) by {
            if name@.len() == 2 && name@[0] == DOT && name@[1] == DOT {
                assert(name@ =~= seq![DOT, DOT]);
            }
        }
    }
    if name.len() == 0 || one_dot || two_dots {
        None
    } else {
        Some(name)
    }
}

/// Returns the path if it names a jitdump file: valid UTF-8 whose file name
/// has the form `jit-*.dump`.
pub fn get_path_if_jitdump(path: &[u8]) -> (r: Option<&[u8]>)
    ensures
        r == (if spec_is_jitdump_path(path@) { Some(path) } else { None::<&[u8]> }),
{
    if !is_utf8(path) {
        return None;
    }
    let name = match file_name(path) {
        Some(n) => n,
        None => return None,
    };
    let prefix: Vec<u8> = vec![0x6a, 0x69, 0x74, 0x2d];
    let suffix: Vec<u8> = vec![0x2e, 0x64, 0x75, 0x6d, 0x70];
    proof {
        assert(prefix@ =~= jitdump_prefix());
        assert(suffix@ =~= jitdump_suffix());
    }
    if has_prefix(name.as_slice(), prefix.as_slice()) && has_suffix(name.as_slice(), suffix.as_slice()) {
        Some(path)
    } else {
        None
    }
}

/// Whether the path ends in `.exe` or `.dll` (all lower or all upper case).
pub fn is_pe_path(path: &[u8]) -> (r: bool)
    ensures
        r == spec_is_pe_path(path@),
{
    let exe: Vec<u8> = vec![0x2e, 0x65, 0x78, 0x65];
    let dll: Vec<u8> = vec![0x2e, 0x64, 0x6c, 0x6c];
    let exe_upper: Vec<u8> = vec![0x2e, 0x45, 0x58, 0x45];
    let dll_upper: Vec<u8> = vec![0x2e, 0x44, 0x4c, 0x4c];
    proof {
        assert(exe@ =~= pe_suffixes()[0]);
        assert(dll@ =~= pe_suffixes()[1]);
        assert(exe_upper@ =~= pe_suffixes()[2]);
        assert(dll_upper@ =~= pe_suffixes()[3]);
    }
    let r = has_suffix(path, exe.as_slice()) || has_suffix(path, dll.as_slice())
        || has_suffix(path, exe_upper.as_slice()) || has_suffix(path, dll_upper.as_slice());
    proof {
        if r {
            if spec_has_suffix(path@, pe_suffixes()[0]) {
            } else if spec_has_suffix(path@, pe_suffixes()[1]) {
            } else if spec_has_suffix(path@, pe_suffixes()[2]) {
            } else {
                assert(spec_has_suffix(path@, pe_suffixes()[3]));
            }
        } else {
            assert forall|k: int| 0 <= k < 4 implies !spec_has_suffix(path@, #[trigger] pe_suffixes()[k]) by {
                if k == 0 {} else if k == 1 {} else if k == 2 {} else {}
            }
        }
    }
    r
}

/// Whether a library file name has the form `jitted-*.so`, which marks a
/// library that holds a single JIT-compiled function.
pub fn is_jitted_lib_name(name: &[u8]) -> (r: bool)
    ensures
        r == spec_is_jitted_lib_name(name@),
{
    let prefix: Vec<u8> = vec![0x6a, 0x69, 0x74, 0x74, 0x65, 0x64, 0x2d];
    let suffix: Vec<u8> = vec![0x2e, 0x73, 0x6f];
    proof {
        assert(prefix@ =~= jitted_prefix());
        assert(suffix@ =~= so_suffix());
    }
    has_prefix(name, prefix.as_slice()) && has_suffix(name, suffix.as_slice())
}

/// Whether a path may name a JIT library with a broken program header: it
/// contains `/jitted-` and ends in `.so`.
pub fn may_be_bad_jit_so(path: &[u8]) -> (r: bool)
    ensures
        r == spec_may_be_bad_jit_so(path@),
{
    let marker: Vec<u8> = vec![0x2f, 0x6a, 0x69, 0x74, 0x74, 0x65, 0x64, 0x2d];
    let suffix: Vec<u8> = vec![0x2e, 0x73, 0x6f];
    proof {
        assert(marker@ =~= jitted_path_marker());
        assert(suffix@ =~= so_suffix());
    }
    contains(path, marker.as_slice()) && has_suffix(path, suffix.as_slice())
}

/// The path of the corrected copy of a JIT library: `.so` replaced by `-fixed.so`.
pub fn fixed_jit_so_path(path: &[u8]) -> (r: Vec<u8>)
    requires
        spec_has_suffix(path@, so_suffix()),
    ensures
        r@ == path@.subrange(0, path@.len() - 3) + fixed_so_suffix(),
{
    let mut r = copy_range(path, 0, path.len() - 3);
    let tail: Vec<u8> = vec![0x2d, 0x66, 0x69, 0x78, 0x65, 0x64, 0x2e, 0x73, 0x6f];
    let mut i: usize = 0;
    let ghost head = r@;
    while i < tail.len()
        invariant
            0 <= i <= tail@.len(),
            tail@ == fixed_so_suffix(),
            r@ == head + tail@.subrange(0, i as int),
        decreases tail@.len() - i,
    {
        r.push(tail[i]);
        i = i + 1;
        proof {
            assert(r@ =~= head + tail@.subrange(0, i as int));
        }
    }
    proof {
        assert(tail@.subrange(0, tail@.len() as int) =~= tail@);
    }
    r
}

} // verus!

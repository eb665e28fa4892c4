//! Stated-to-actual virtual address bias of a mapped image.
use vstd::prelude::*;

verus! {

/// A file range of an object file (a segment or a section) together with
/// the stated virtual memory address (SVMA) at which it is declared.
#[derive(Clone, Copy, Debug, PartialEq, Eq, Structural)]
pub struct SvmaFileRange {
    pub svma: u64,
    pub file_offset: u64,
    pub size: u64,
}

/// `[inner_off, inner_off + inner_size)` lies inside `[outer_off, outer_off + outer_size)`.
pub open spec fn file_range_within(inner_off: u64, inner_size: u64, outer_off: u64, outer_size: u64) -> bool {
    outer_off <= inner_off && inner_off + inner_size <= outer_off + outer_size
}

/// A contribution may serve as the reference for a mapping when one of the
/// two file ranges contains the other.
pub open spec fn is_reference_for(c: SvmaFileRange, mapping_file_offset: u64, mapping_size: u64) -> bool {
    file_range_within(mapping_file_offset, mapping_size, c.file_offset, c.size)
        || file_range_within(c.file_offset, c.size, mapping_file_offset, mapping_size)
}

/// Index of the first contribution that is a reference for the mapping, if any.
pub open spec fn first_reference(contributions: Seq<SvmaFileRange>, mapping_file_offset: u64, mapping_size: u64) -> Option<int>
    decreases contributions.len(),
{
    if contributions.len() == 0 {
        None
    } else {
        let last = contributions.len() - 1;
        match first_reference(contributions.drop_last(), mapping_file_offset, mapping_size) {
            Some(i) => Some(i),
            None => if is_reference_for(contributions[last], mapping_file_offset, mapping_size) {
                Some(last)
            } else {
                None
            },
        }
    }
}

/// `avma - svma` of the image, modulo 2^64, when the reference contribution
/// `c` is at file offset `c.file_offset` and the mapping starts at
/// `mapping_avma` for file offset `mapping_file_offset`.
pub open spec fn bias_from(c: SvmaFileRange, mapping_file_offset: u64, mapping_avma: u64) -> u64 {
    ((mapping_avma + c.file_offset - mapping_file_offset - c.svma) % 0x1_0000_0000_0000_0000int) as u64
}

/// The bias that the image has, given its contributions and one of its mappings.
pub open spec fn vma_bias(contributions: Seq<SvmaFileRange>, mapping_file_offset: u64, mapping_avma: u64, mapping_size: u64) -> Option<u64> {
    match first_reference(contributions, mapping_file_offset, mapping_size) {
        Some(i) => Some(bias_from(contributions[i], mapping_file_offset, mapping_avma)),
        None => None,
    }
}

impl SvmaFileRange {
    /// The range of a segment at SVMA `address` with file range `(offset, size)`.
    pub fn from_segment(address: u64, file_range: (u64, u64)) -> (r: Self)
        ensures
            r == (SvmaFileRange { svma: address, file_offset: file_range.0, size: file_range.1 }),
    {
        SvmaFileRange { svma: address, file_offset: file_range.0, size: file_range.1 }
    }

    /// The range of a section at SVMA `address`; none if it has no file range.
    pub fn from_section(address: u64, file_range: Option<(u64, u64)>) -> (r: Option<Self>)
        ensures
            r == match file_range {
                Some((offset, size)) => Some(SvmaFileRange { svma: address, file_offset: offset, size }),
                None => None,
            },
    {
        match file_range {
            Some((offset, size)) => Some(SvmaFileRange { svma: address, file_offset: offset, size }),
            None => None,
        }
    }

    /// Whether this range contains the file range `[other_file_offset, other_file_offset + other_file_size)`.
    pub fn encompasses_file_range(&self, other_file_offset: u64, other_file_size: u64) -> (r: bool)
        ensures
            r == file_range_within(other_file_offset, other_file_size, self.file_offset, self.size),
    {
        let self_end = self.file_offset as u128 + self.size as u128;
        let other_end = other_file_offset as u128 + other_file_size as u128;
        self.file_offset <= other_file_offset && other_end <= self_end
    }

    /// Whether this range lies inside the file range `[other_file_offset, other_file_offset + other_file_size)`.
    pub fn is_encompassed_by_file_range(&self, other_file_offset: u64, other_file_size: u64) -> (r: bool)
        ensures
            r == file_range_within(self.file_offset, self.size, other_file_offset, other_file_size),
    {
        let self_end = self.file_offset as u128 + self.size as u128;
        let other_end = other_file_offset as u128 + other_file_size as u128;
        other_file_offset <= self.file_offset && self_end <= other_end
    }
}

proof fn lemma_first_reference_none_prefix(
    contributions: Seq<SvmaFileRange>,
    n: int,
    mapping_file_offset: u64,
    mapping_size: u64,
)
    requires
        0 <= n <= contributions.len(),
        forall|j: int| 0 <= j < n ==> !is_reference_for(#[trigger] contributions[j], mapping_file_offset, mapping_size),
    ensures
        first_reference(contributions.subrange(0, n), mapping_file_offset, mapping_size) is None,
    decreases n,
{
    let s = contributions.subrange(0, n);
    if n > 0 {
        assert(s.drop_last() =~= contributions.subrange(0, n - 1));
        lemma_first_reference_none_prefix(contributions, n - 1, mapping_file_offset, mapping_size);
    }
}

proof fn lemma_first_reference_found(
    contributions: Seq<SvmaFileRange>,
    i: int,
    mapping_file_offset: u64,
    mapping_size: u64,
)
    requires
        0 <= i < contributions.len(),
        is_reference_for(contributions[i], mapping_file_offset, mapping_size),
        forall|j: int| 0 <= j < i ==> !is_reference_for(#[trigger] contributions[j], mapping_file_offset, mapping_size),
    ensures
        first_reference(contributions, mapping_file_offset, mapping_size) == Some(i),
    decreases contributions.len(),
{
    let last = contributions.len() - 1;
    if i < last {
        lemma_first_reference_found(contributions.drop_last(), i, mapping_file_offset, mapping_size);
    } else {
        lemma_first_reference_none_prefix(contributions, i, mapping_file_offset, mapping_size);
        assert(contributions.drop_last() =~= contributions.subrange(0, i));
    }
}

/// Computes the SVMA-to-AVMA bias of an image from the file ranges of its
/// contributions and one mapping `{file offset, AVMA, size}` of it.
///
/// The reference contribution is the first one whose file range contains the
/// mapping's file range or is contained in it; without one there is no bias.
pub fn compute_vma_bias_impl(
    contributions: &[SvmaFileRange],
    mapping_file_offset: u64,
    mapping_avma: u64,
    mapping_size: u64,
) -> (r: Option<u64>)
    ensures
        r == vma_bias(contributions@, mapping_file_offset, mapping_avma, mapping_size),
{
    let mut i: usize = 0;
    while i < contributions.len()
        invariant
            0 <= i <= contributions@.len(),
            forall|j: int| 0 <= j < i ==> !is_reference_for(#[trigger] contributions@[j], mapping_file_offset, mapping_size),
        decreases contributions@.len() - i,
    {
        let c = contributions[i];
        if c.encompasses_file_range(mapping_file_offset, mapping_size)
            || c.is_encompassed_by_file_range(mapping_file_offset, mapping_size)
        {
            proof {
                lemma_first_reference_found(contributions@, i as int, mapping_file_offset, mapping_size);
            }
            let ref_avma = if c.file_offset > mapping_file_offset {
                mapping_avma.wrapping_add(c.file_offset - mapping_file_offset)
            } else {
                mapping_avma.wrapping_sub(mapping_file_offset - c.file_offset)
            };
            let bias = ref_avma.wrapping_sub(c.svma);
            proof {
                let m = 0x1_0000_0000_0000_0000int;
                let a = mapping_avma as int;
                let d = c.file_offset as int - mapping_file_offset as int;
                let s = c.svma as int;
                assert(ref_avma as int == (a + d) % m);
                assert(bias as int == ((a + d) % m - s) % m);
                vstd::arithmetic::div_mod::lemma_sub_mod_noop(a + d, s, m);
            }
            return Some(bias);
        }
        i = i + 1;
    }
    proof {
        lemma_first_reference_none_prefix(contributions@, contributions@.len() as int, mapping_file_offset, mapping_size);
        assert(contributions@.subrange(0, contributions@.len() as int) =~= contributions@);
    }
    None
}

} // verus!

//! The time-ordered queue of library-mapping changes of one process, which
//! keeps the live mappings free of overlap.
use vstd::prelude::*;
use crate::profile_log::{LibMappingAdd, LibMappingOp, LibMappingOpEntry};

verus! {

/// The addresses `[start_avma, end_avma)` of a live mapping.
#[derive(Clone, Copy, Debug, PartialEq, Eq, Structural)]
pub struct AvmaRange {
    pub start_avma: u64,
    pub end_avma: u64,
}

/// Two ranges share an address.
pub open spec fn overlaps(a: AvmaRange, b: AvmaRange) -> bool {
    a.start_avma < b.end_avma && b.start_avma < a.end_avma
}

pub open spec fn range_of(a: LibMappingAdd) -> AvmaRange {
    AvmaRange { start_avma: a.start_avma, end_avma: a.end_avma }
}

/// No two mappings of `s` overlap.
pub open spec fn pairwise_disjoint(s: Seq<AvmaRange>) -> bool
    decreases s.len(),
{
    s.len() == 0 || (pairwise_disjoint(s.drop_last()) && forall|i: int| 0 <= i < s.len() - 1 ==> !overlaps(#[trigger] s[i], s.last()))
}

/// `s` without the mappings that start at `start`.
pub open spec fn without_start(s: Seq<AvmaRange>, start: u64) -> Seq<AvmaRange>
    decreases s.len(),
{
    if s.len() == 0 {
        s
    } else if s.last().start_avma == start {
        without_start(s.drop_last(), start)
    } else {
        without_start(s.drop_last(), start).push(s.last())
    }
}

/// The mappings that are live after the operations `ops`, in the order they were added.
pub open spec fn live_mappings(ops: Seq<LibMappingOpEntry>) -> Seq<AvmaRange>
    decreases ops.len(),
{
    if ops.len() == 0 {
        Seq::empty()
    } else {
        let before = live_mappings(ops.drop_last());
        match ops.last().op {
            LibMappingOp::Add(a) => before.push(range_of(a)),
            LibMappingOp::Remove { start_avma } => without_start(before, start_avma),
        }
    }
}

proof fn lemma_without_start_elements(s: Seq<AvmaRange>, start: u64)
    ensures
        without_start(s, start).len() <= s.len(),
        forall|i: int| 0 <= i < without_start(s, start).len() ==> s.contains(#[trigger] without_start(s, start)[i]),
        forall|i: int| 0 <= i < without_start(s, start).len() ==> (#[trigger] without_start(s, start)[i]).start_avma != start,
        (exists|k: int| 0 <= k < s.len() && #[trigger] s[k].start_avma == start) ==> without_start(s, start).len() < s.len(),
    decreases s.len(),
{
    if s.len() > 0 {
        let t = s.drop_last();
        lemma_without_start_elements(t, start);
        let w = without_start(t, start);
        assert forall|i: int| 0 <= i < without_start(s, start).len() implies s.contains(#[trigger] without_start(s, start)[i]) by {
            if i < w.len() {
                let x = w[i];
                assert(t.contains(x));
                let j = choose|j: int| 0 <= j < t.len() && t[j] == x;
                assert(s[j] == x);
            } else {
                assert(s[s.len() - 1] == s.last());
            }
        }
        if exists|k: int| 0 <= k < s.len() && #[trigger] s[k].start_avma == start {
            let k = choose|k: int| 0 <= k < s.len() && #[trigger] s[k].start_avma == start;
            if k < s.len() - 1 {
                assert(t[k].start_avma == start);
            }
        }
    }
}

proof fn lemma_without_start_disjoint(s: Seq<AvmaRange>, start: u64)
    requires
        pairwise_disjoint(s),
    ensures
        pairwise_disjoint(without_start(s, start)),
    decreases s.len(),
{
    if s.len() > 0 {
        let t = s.drop_last();
        lemma_without_start_disjoint(t, start);
        lemma_without_start_elements(t, start);
        let w = without_start(t, start);
        if s.last().start_avma != start {
            let r = w.push(s.last());
            assert(r.drop_last() =~= w);
            assert forall|i: int| 0 <= i < r.len() - 1 implies !overlaps(#[trigger] r[i], r.last()) by {
                assert(t.contains(w[i]));
                let j = choose|j: int| 0 <= j < t.len() && t[j] == w[i];
                assert(s[j] == w[i]);
            }
        }
    }
}

/// Pairwise disjointness, pair by pair.
pub proof fn lemma_pairwise_disjoint_pairs(s: Seq<AvmaRange>)
    requires
        pairwise_disjoint(s),
    ensures
        forall|i: int, j: int| 0 <= i < s.len() && 0 <= j < s.len() && i != j ==> !overlaps(#[trigger] s[i], #[trigger] s[j]),
    decreases s.len(),
{
    if s.len() > 0 {
        let t = s.drop_last();
        lemma_pairwise_disjoint_pairs(t);
        assert forall|i: int, j: int| 0 <= i < s.len() && 0 <= j < s.len() && i != j implies !overlaps(#[trigger] s[i], #[trigger] s[j]) by {
            if i < s.len() - 1 && j < s.len() - 1 {
                assert(s[i] == t[i] && s[j] == t[j]);
            } else if i == s.len() - 1 {
                assert(!overlaps(s[j], s.last()));
            } else {
                assert(!overlaps(s[i], s.last()));
            }
        }
    }
}

/// The library-mapping operations of a process, and the mappings they leave live.
pub struct LibMappingOpQueue {
    pub ops: Vec<LibMappingOpEntry>,
    /// The ranges of the live mappings, in the order they were added.
    pub live: Vec<AvmaRange>,
}

impl LibMappingOpQueue {
    pub open spec fn wf(&self) -> bool {
        &&& self.live@ == live_mappings(self.ops@)
        &&& pairwise_disjoint(self.live@)
    }

    pub fn new() -> (r: Self)
        ensures
            r.wf(),
            r.ops@.len() == 0,
    {
        LibMappingOpQueue { ops: Vec::new(), live: Vec::new() }
    }

    fn first_overlapping(&self, add: AvmaRange) -> (r: Option<usize>)
        ensures
            match r {
                Some(k) => k < self.live@.len() && overlaps(self.live@[k as int], add),
                None => forall|i: int| 0 <= i < self.live@.len() ==> !overlaps(#[trigger] self.live@[i], add),
            },
    {
        let mut i: usize = 0;
        while i < self.live.len()
            invariant
                0 <= i <= self.live@.len(),
                forall|j: int| 0 <= j < i ==> !overlaps(#[trigger] self.live@[j], add),
            decreases self.live@.len() - i,
        {
            let m = &self.live[i];
            if m.start_avma < add.end_avma && add.start_avma < m.end_avma {
                return Some(i);
            }
            i = i + 1;
        }
        None
    }

    fn remove_starting_at(&mut self, timestamp: u64, start_avma: u64)
        requires
            old(self).wf(),
        ensures
            final(self).wf(),
            final(self).ops@ == old(self).ops@.push(LibMappingOpEntry { timestamp, op: LibMappingOp::Remove { start_avma } }),
            final(self).live@ == without_start(old(self).live@, start_avma),
    {
        let mut kept: Vec<AvmaRange> = Vec::new();
        let mut i: usize = 0;
        while i < self.live.len()
            invariant
                0 <= i <= self.live@.len(),
                self.live@ == old(self).live@,
                kept@ == without_start(self.live@.subrange(0, i as int), start_avma),
            decreases self.live@.len() - i,
        {
            let m = self.live[i];
            proof {
                let s = self.live@.subrange(0, i + 1);
                assert(s.drop_last() =~= self.live@.subrange(0, i as int));
            }
            if m.start_avma != start_avma {
                kept.push(m);
            }
            i = i + 1;
        }
        proof {
            assert(self.live@.subrange(0, self.live@.len() as int) =~= self.live@);
            lemma_without_start_disjoint(old(self).live@, start_avma);
        }
        self.live = kept;
        let ghost before = self.ops@;
        self.ops.push(LibMappingOpEntry { timestamp, op: LibMappingOp::Remove { start_avma } });
        proof {
            assert(self.ops@.drop_last() =~= before);
        }
    }

    /// Adds a mapping at `timestamp`; each live mapping that overlaps it is
    /// removed first, at the same timestamp.
    pub fn push_add(&mut self, timestamp: u64, add: LibMappingAdd)
        requires
            old(self).wf(),
        ensures
            final(self).wf(),
            final(self).ops@.len() > old(self).ops@.len(),
            final(self).ops@.subrange(0, old(self).ops@.len() as int) == old(self).ops@,
            final(self).ops@.last() == (LibMappingOpEntry { timestamp, op: LibMappingOp::Add(add) }),
            final(self).live@.last() == range_of(add),
            (forall|i: int| 0 <= i < old(self).live@.len() ==> !overlaps(#[trigger] old(self).live@[i], range_of(add)))
                ==> final(self).ops@ == old(self).ops@.push(LibMappingOpEntry { timestamp, op: LibMappingOp::Add(add) }),
    {
        let ghost free = forall|i: int| 0 <= i < old(self).live@.len() ==> !overlaps(#[trigger] old(self).live@[i], range_of(add));
        let range = AvmaRange { start_avma: add.start_avma, end_avma: add.end_avma };
        let ghost start_ops = self.ops@;
        proof {
            assert(self.ops@.subrange(0, start_ops.len() as int) =~= start_ops);
        }
        loop
            invariant_except_break
                free ==> self.ops@ == start_ops && self.live@ == old(self).live@,
            invariant
                self.wf(),
                range == range_of(add),
                free == forall|i: int| 0 <= i < old(self).live@.len() ==> !overlaps(#[trigger] old(self).live@[i], range_of(add)),
                self.ops@.len() >= start_ops.len(),
                self.ops@.subrange(0, start_ops.len() as int) == start_ops,
            ensures
                self.wf(),
                self.ops@.len() > start_ops.len(),
                self.ops@.subrange(0, start_ops.len() as int) == start_ops,
                self.ops@.last() == (LibMappingOpEntry { timestamp, op: LibMappingOp::Add(add) }),
                self.live@.last() == range_of(add),
                free ==> self.ops@ == start_ops.push(LibMappingOpEntry { timestamp, op: LibMappingOp::Add(add) }),
            decreases self.live@.len(),
        {
            match self.first_overlapping(range) {
                Some(k) => {
                    let start = self.live[k].start_avma;
                    proof {
                        lemma_without_start_elements(self.live@, start);
                    }
                    let ghost prev = self.ops@;
                    self.remove_starting_at(timestamp, start);
                    proof {
                        assert(self.ops@.subrange(0, start_ops.len() as int) =~= prev.subrange(0, start_ops.len() as int));
                    }
                },
                None => {
                    let ghost prev_live = self.live@;
                    let ghost prev = self.ops@;
                    self.live.push(range);
                    self.ops.push(LibMappingOpEntry { timestamp, op: LibMappingOp::Add(add) });
                    proof {
                        assert(self.ops@.drop_last() =~= prev);
                        assert(self.live@.drop_last() =~= prev_live);
                        assert(self.live@.last() == range);
                        assert(pairwise_disjoint(self.live@));
                        assert(self.ops@.subrange(0, start_ops.len() as int) =~= prev.subrange(0, start_ops.len() as int));
                    }
                    break;
                },
            }
        }
    }

    /// Takes the operations out, leaving the queue empty.
    pub fn take_ops(&mut self) -> (r: Vec<LibMappingOpEntry>)
        ensures
            r@ == old(self).ops@,
            final(self).wf(),
            final(self).ops@.len() == 0,
    {
        let mut ops: Vec<LibMappingOpEntry> = Vec::new();
        std::mem::swap(&mut ops, &mut self.ops);
        self.live = Vec::new();
        ops
    }
}

} // verus!

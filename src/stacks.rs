//! Interned table of unresolved stacks, shared by all samples of a run.
use vstd::prelude::*;
use crate::stack::{StackFrame, StackMode};

verus! {

/// A stack of the table: `None` is the empty stack, `Some(i)` the stack that
/// ends in node `i`.
#[derive(Clone, Copy, Debug, PartialEq, Eq, Structural)]
pub struct UnresolvedStackHandle {
    pub node: Option<usize>,
}

/// One node of the table: a frame on top of the stack `parent`.
#[derive(Clone, Copy, Debug, PartialEq, Eq, Structural)]
pub struct StackNode {
    pub parent: Option<usize>,
    pub frame: StackFrame,
}

/// Stacks stored as a prefix tree, so that each distinct stack is stored once.
pub struct UnresolvedStacks {
    pub nodes: Vec<StackNode>,
}

pub open spec fn handle_rank(h: Option<usize>) -> int {
    match h {
        Some(i) => i + 1,
        None => 0,
    }
}

/// The frames of stack `h`, outermost (caller-most) first.
pub open spec fn frames_of(nodes: Seq<StackNode>, h: Option<usize>) -> Seq<StackFrame>
    decreases handle_rank(h),
{
    match h {
        None => Seq::empty(),
        Some(i) => if i < nodes.len() && handle_rank(nodes[i as int].parent) <= i {
            frames_of(nodes, nodes[i as int].parent).push(nodes[i as int].frame)
        } else {
            Seq::empty()
        },
    }
}

pub open spec fn nodes_wf(nodes: Seq<StackNode>) -> bool {
    forall|i: int| 0 <= i < nodes.len() ==> handle_rank(#[trigger] nodes[i].parent) <= i
}

pub open spec fn handle_valid(nodes: Seq<StackNode>, h: Option<usize>) -> bool {
    match h {
        Some(i) => i < nodes.len(),
        None => true,
    }
}

pub open spec fn is_user_frame(f: StackFrame) -> bool {
    match f {
        StackFrame::InstructionPointer(_, m) => m == StackMode::User,
        StackFrame::ReturnAddress(_, m) => m == StackMode::User,
        StackFrame::TruncatedStackMarker => true,
    }
}

/// `s` without its kernel frames.
pub open spec fn without_kernel(s: Seq<StackFrame>) -> Seq<StackFrame>
    decreases s.len(),
{
    if s.len() == 0 {
        s
    } else if is_user_frame(s.last()) {
        without_kernel(s.drop_last()).push(s.last())
    } else {
        without_kernel(s.drop_last())
    }
}

proof fn lemma_frames_of_extend(nodes: Seq<StackNode>, more: Seq<StackNode>, h: Option<usize>)
    requires
        nodes_wf(nodes),
        handle_valid(nodes, h),
    ensures
        frames_of(nodes + more, h) == frames_of(nodes, h),
    decreases handle_rank(h),
{
    if let Some(i) = h {
        assert((nodes + more)[i as int] == nodes[i as int]);
        lemma_frames_of_extend(nodes, more, nodes[i as int].parent);
    }
}

impl UnresolvedStacks {
    pub open spec fn wf(&self) -> bool {
        nodes_wf(self.nodes@)
    }

    pub open spec fn frames(&self, h: UnresolvedStackHandle) -> Seq<StackFrame> {
        frames_of(self.nodes@, h.node)
    }

    pub open spec fn valid(&self, h: UnresolvedStackHandle) -> bool {
        handle_valid(self.nodes@, h.node)
    }

    /// The table after it grew from `old`: old nodes kept, so old handles keep their stacks.
    pub open spec fn extends(&self, old: &UnresolvedStacks) -> bool {
        &&& old.nodes@.len() <= self.nodes@.len()
        &&& old.nodes@ == self.nodes@.subrange(0, old.nodes@.len() as int)
    }

    pub fn new() -> (r: Self)
        ensures
            r.wf(),
            r.nodes@.len() == 0,
    {
        UnresolvedStacks { nodes: Vec::new() }
    }

    fn child(&mut self, parent: Option<usize>, frame: StackFrame) -> (r: usize)
        requires
            old(self).wf(),
            handle_valid(old(self).nodes@, parent),
        ensures
            final(self).wf(),
            final(self).extends(old(self)),
            r < final(self).nodes@.len(),
            frames_of(final(self).nodes@, Some(r)) == frames_of(old(self).nodes@, parent).push(frame),
    {
        let mut i: usize = 0;
        while i < self.nodes.len()
            invariant
                0 <= i <= self.nodes@.len(),
                self.nodes@ == old(self).nodes@,
                nodes_wf(self.nodes@),
            decreases self.nodes@.len() - i,
        {
            let n = self.nodes[i];
            if n.parent == parent && n.frame == frame {
                proof {
                    assert(self.nodes@.subrange(0, self.nodes@.len() as int) =~= self.nodes@);
                    assert(handle_rank(self.nodes@[i as int].parent) <= i);
                }
                return i;
            }
            i = i + 1;
        }
        let ghost before = self.nodes@;
        self.nodes.push(StackNode { parent, frame });
        let r = self.nodes.len() - 1;
        proof {
            assert(before =~= self.nodes@.subrange(0, before.len() as int));
            assert(self.nodes@ =~= before + seq![StackNode { parent, frame }]);
            lemma_frames_of_extend(before, seq![StackNode { parent, frame }], parent);
            assert(nodes_wf(self.nodes@)) by {
                assert forall|j: int| 0 <= j < self.nodes@.len() implies handle_rank(#[trigger] self.nodes@[j].parent) <= j by {
                    if j < before.len() {
                        assert(self.nodes@[j] == before[j]);
                    }
                }
            }
        }
        r
    }

    /// Interns a stack given outermost frame first and returns its handle.
    pub fn convert(&mut self, frames: &Vec<StackFrame>) -> (r: UnresolvedStackHandle)
        requires
            old(self).wf(),
        ensures
            final(self).wf(),
            final(self).extends(old(self)),
            final(self).valid(r),
            final(self).frames(r) == frames@,
    {
        let mut cur: Option<usize> = None;
        let mut i: usize = 0;
        proof {
            assert(self.nodes@.subrange(0, self.nodes@.len() as int) =~= self.nodes@);
            assert(frames@.subrange(0, 0) =~= Seq::<StackFrame>::empty());
        }
        while i < frames.len()
            invariant
                0 <= i <= frames@.len(),
                self.wf(),
                self.extends(old(self)),
                handle_valid(self.nodes@, cur),
                frames_of(self.nodes@, cur) == frames@.subrange(0, i as int),
            decreases frames@.len() - i,
        {
            let ghost mid = *self;
            let next = self.child(cur, frames[i]);
            proof {
                assert(frames@.subrange(0, i + 1) =~= frames@.subrange(0, i as int).push(frames@[i as int]));
                assert(self.extends(old(self))) by {
                    assert(old(self).nodes@ =~= self.nodes@.subrange(0, old(self).nodes@.len() as int)) by {
                        assert(mid.nodes@.subrange(0, old(self).nodes@.len() as int) =~= self.nodes@.subrange(0, old(self).nodes@.len() as int));
                    }
                }
            }
            cur = Some(next);
            i = i + 1;
        }
        proof {
            assert(frames@.subrange(0, frames@.len() as int) =~= frames@);
        }
        UnresolvedStackHandle { node: cur }
    }

    /// Interns a stack given outermost frame first, without its kernel frames.
    pub fn convert_no_kernel(&mut self, frames: &Vec<StackFrame>) -> (r: UnresolvedStackHandle)
        requires
            old(self).wf(),
        ensures
            final(self).wf(),
            final(self).extends(old(self)),
            final(self).valid(r),
            final(self).frames(r) == without_kernel(frames@),
    {
        let mut user: Vec<StackFrame> = Vec::new();
        let mut i: usize = 0;
        while i < frames.len()
            invariant
                0 <= i <= frames@.len(),
                user@ == without_kernel(frames@.subrange(0, i as int)),
            decreases frames@.len() - i,
        {
            let f = frames[i];
            let keep = match f {
                StackFrame::InstructionPointer(_, m) => m == StackMode::User,
                StackFrame::ReturnAddress(_, m) => m == StackMode::User,
                StackFrame::TruncatedStackMarker => true,
            };
            if keep {
                user.push(f);
            }
            proof {
                let s = frames@.subrange(0, i + 1);
                assert(s.drop_last() =~= frames@.subrange(0, i as int));
                assert(s.last() == f);
            }
            i = i + 1;
        }
        proof {
            assert(frames@.subrange(0, frames@.len() as int) =~= frames@);
        }
        self.convert(&user)
    }
}

/// The frames of `stack` in the opposite order.
pub fn reversed_frames(stack: &Vec<StackFrame>) -> (r: Vec<StackFrame>)
    ensures
        r@ == stack@.reverse(),
{
    let mut r: Vec<StackFrame> = Vec::new();
    let mut i: usize = stack.len();
    while i > 0
        invariant
            0 <= i <= stack@.len(),
            r@.len() == stack@.len() - i,
            forall|j: int| 0 <= j < r@.len() ==> #[trigger] r@[j] == stack@[stack@.len() - 1 - j],
        decreases i,
    {
        i = i - 1;
        r.push(stack[i]);
    }
    proof {
        assert(r@ =~= stack@.reverse());
    }
    r
}

} // verus!

//! The blocks that control can reach from the entry block. Only these get
//! a state.

use vstd::prelude::*;
use crate::repr::{BasicBlock, MarModel, TerminatorKind, START_BLOCK};
use crate::translate::Builder;

verus! {

impl MarModel {
    /// Those of the first `n` blocks that control can reach, in order.
    pub open spec fn reachable_blocks(self, n: int) -> Seq<BasicBlock>
        decreases n,
    {
        if 0 < n <= self.blocks.len() {
            if self.reachable((n - 1) as usize) {
                self.reachable_blocks(n - 1).push((n - 1) as usize)
            } else {
                self.reachable_blocks(n - 1)
            }
        } else {
            Seq::empty()
        }
    }

    /// A set of blocks that holds the entry block and, with each block,
    /// its successors holds every block on a way from the entry block.
    pub proof fn lemma_closed_holds_path(self, marks: Seq<bool>, path: Seq<BasicBlock>, i: int)
        requires
            self.is_path(path),
            0 <= i < path.len(),
            marks.len() == self.blocks.len(),
            self.blocks.len() > 0,
            marks[START_BLOCK as int],
            forall|b: int, k: int|
                0 <= b < marks.len() && marks[b] && 0 <= k < self.successors(b as usize).len() ==> {
                    let next = #[trigger] self.successors(b as usize)[k];
                    next < marks.len() && marks[next as int]
                },
        ensures
            path[i] < marks.len(),
            marks[path[i] as int],
        decreases i,
    {
        if i > 0 {
            self.lemma_closed_holds_path(marks, path, i - 1);
            let b = path[i - 1];
            assert(self.successors(b).contains(path[i]));
            let k = choose|k: int|
                0 <= k < self.successors(b).len() && self.successors(b)[k] == path[i];
            assert(self.successors(b as int as usize)[k] == path[i]);
        }
    }

    /// The blocks that control can reach are blocks of the graph, in
    /// ascending order, and each block that control can reach is among
    /// them.
    pub proof fn lemma_reachable_blocks(self, n: int)
        requires
            0 <= n <= self.blocks.len(),
        ensures
            forall|i: int|
                0 <= i < self.reachable_blocks(n).len() ==> (#[trigger] self.reachable_blocks(n)[i])
                    < n && self.reachable(self.reachable_blocks(n)[i]),
            forall|b: BasicBlock| b < n && self.reachable(b) ==> self.reachable_blocks(n).contains(b),
        decreases n,
    {
        if n > 0 {
            self.lemma_reachable_blocks(n - 1);
            let before = self.reachable_blocks(n - 1);
            let now = self.reachable_blocks(n);
            assert forall|b: BasicBlock| b < n && self.reachable(b) implies now.contains(b) by {
                if b < n - 1 {
                    let i = choose|i: int| 0 <= i < before.len() && before[i] == b;
                    assert(now[i] == b);
                } else {
                    assert(now[before.len() as int] == b);
                }
            }
        }
    }
}

/// The number of `false` among the first `n` marks.
pub open spec fn unmarked(marks: Seq<bool>, n: int) -> int
    decreases n,
{
    if 0 < n <= marks.len() {
        unmarked(marks, n - 1) + if marks[n - 1] {
            0int
        } else {
            1int
        }
    } else {
        0
    }
}

proof fn lemma_unmarked_bounds(marks: Seq<bool>, n: int)
    ensures
        0 <= unmarked(marks, n),
    decreases n,
{
    if 0 < n <= marks.len() {
        lemma_unmarked_bounds(marks, n - 1);
    }
}

/// Marking one more block leaves one block less unmarked.
proof fn lemma_mark_one(marks: Seq<bool>, at: int, n: int)
    requires
        0 <= at < marks.len(),
        !marks[at],
        0 <= n <= marks.len(),
    ensures
        unmarked(marks.update(at, true), n) == unmarked(marks, n) - if at < n {
            1int
        } else {
            0int
        },
    decreases n,
{
    if n > 0 {
        lemma_mark_one(marks, at, n - 1);
    }
}

impl<'a> Builder<'a> {
    /// The blocks that control may pass to from the end of `block`.
    pub fn successors(&self, block: BasicBlock) -> (r: Vec<BasicBlock>)
        requires
            block < self.mar@.blocks.len(),
        ensures
            r@ == self.mar@.successors(block),
    {
        let mut r: Vec<BasicBlock> = Vec::new();
        match &self.mar.basic_blocks[block].terminator {
            Some(terminator) => match &terminator.kind {
                TerminatorKind::Goto { target } => {
                    r.push(*target);
                },
                TerminatorKind::If { cond, targets } => {
                    r.push(targets.0);
                    r.push(targets.1);
                },
                TerminatorKind::Match { discr, arms } => {
                    let mut i: usize = 0;
                    while i < arms.len()
                        invariant
                            0 <= i <= arms.len(),
                            r@.len() == i,
                            forall|k: int| 0 <= k < i ==> r@[k] == arms@[k].block,
                        decreases arms.len() - i,
                    {
                        r.push(arms[i].block);
                        i += 1;
                    }
                },
                TerminatorKind::Suspend { rvalue, target } => {
                    r.push(*target);
                },
                TerminatorKind::Return => {},
            },
            None => {},
        }
        assert(r@ =~= self.mar@.successors(block));
        r
    }

    /// For each block, whether control can reach it from the entry block.
    #[verifier::loop_isolation(false)]
    pub fn reachable(&self) -> (r: Vec<bool>)
        requires
            self.mar@.wf(),
            self.mar@.blocks.len() > 0,
        ensures
            r@.len() == self.mar@.blocks.len(),
            forall|b: BasicBlock| b < r@.len() ==> r@[b as int] == #[trigger] self.mar@.reachable(b),
    {
        let ghost m = self.mar@;
        let n = self.mar.basic_blocks.len();
        let mut marks: Vec<bool> = Vec::new();
        let mut t: usize = 0;
        while t < n
            invariant
                0 <= t <= n,
                marks@.len() == t,
                forall|k: int| 0 <= k < t ==> !marks@[k],
            decreases n - t,
        {
            marks.push(false);
            t += 1;
        }
        marks[START_BLOCK] = true;
        let mut worklist: Vec<BasicBlock> = Vec::new();
        worklist.push(START_BLOCK);
        proof {
            m.lemma_reachable_start();
            lemma_unmarked_bounds(marks@, n as int);
            assert(worklist@[0] == START_BLOCK);
            assert forall|b: int| 0 <= b < n && marks@[b] implies worklist@.contains(b as usize) by {
                assert(b == START_BLOCK);
            }
        }
        while worklist.len() > 0
            invariant
                marks@.len() == n,
                marks@[START_BLOCK as int],
                forall|b: BasicBlock| b < n && marks@[b as int] ==> #[trigger] m.reachable(b),
                forall|i: int|
                    0 <= i < worklist@.len() ==> (#[trigger] worklist@[i]) < n
                        && marks@[worklist@[i] as int],
                forall|b: int, k: int|
                    0 <= b < n && marks@[b] && !worklist@.contains(b as usize) && 0 <= k
                        < m.successors(b as usize).len() ==> {
                        let next = #[trigger] m.successors(b as usize)[k];
                        next < n && marks@[next as int]
                    },
                0 <= unmarked(marks@, n as int),
            decreases unmarked(marks@, n as int), worklist@.len(),
        {
            let ghost marks_before = marks@;
            let ghost worklist_before = worklist@;
            let block = worklist.pop().unwrap();
            let ghost rest = worklist@;
            let successors = self.successors(block);
            proof {
                assert(m.blocks[block as int].wf(
                    m.blocks.len(),
                    m.local_decls.len(),
                    m.visibility_scopes.len(),
                ));
                assert(worklist_before[worklist_before.len() - 1] == block);
            }
            let mut k: usize = 0;
            while k < successors.len()
                invariant
                    0 <= k <= successors.len(),
                    successors@ == m.successors(block),
                    block < n,
                    marks@.len() == n,
                    marks@[START_BLOCK as int],
                    marks@[block as int],
                    forall|j: int| 0 <= j < successors@.len() ==> successors@[j] < n,
                    forall|b: int| 0 <= b < n && marks_before[b] ==> marks@[b],
                    forall|b: BasicBlock| b < n && marks@[b as int] ==> #[trigger] m.reachable(b),
                    forall|i: int|
                        0 <= i < worklist@.len() ==> (#[trigger] worklist@[i]) < n
                            && marks@[worklist@[i] as int],
                    rest.len() <= worklist@.len(),
                    forall|i: int| 0 <= i < rest.len() ==> worklist@[i] == #[trigger] rest[i],
                    forall|b: int|
                        0 <= b < n && marks@[b] && !marks_before[b] ==> worklist@.contains(
                            b as usize,
                        ),
                    forall|j: int| 0 <= j < k ==> marks@[successors@[j] as int],
                    unmarked(marks@, n as int) <= unmarked(marks_before, n as int),
                    0 <= unmarked(marks@, n as int),
                    unmarked(marks@, n as int) == unmarked(marks_before, n as int)
                        ==> worklist@ == rest,
                decreases successors.len() - k,
            {
                let next = successors[k];
                if !marks[next] {
                    proof {
                        lemma_mark_one(marks@, next as int, n as int);
                        assert(m.successors(block).contains(next));
                        m.lemma_reachable_step(block, next);
                    }
                    let ghost worklist_old = worklist@;
                    marks[next] = true;
                    worklist.push(next);
                    proof {
                        lemma_unmarked_bounds(marks@, n as int);
                        assert forall|i: int| 0 <= i < rest.len() implies worklist@[i]
                            == #[trigger] rest[i] by {
                            assert(worklist_old[i] == rest[i]);
                        }
                        assert forall|b: int|
                            0 <= b < n && marks@[b] && !marks_before[b] implies worklist@.contains(
                            b as usize,
                        ) by {
                            if b == next {
                                assert(worklist@[worklist_old.len() as int] == next);
                            } else {
                                let i = choose|i: int|
                                    0 <= i < worklist_old.len() && worklist_old[i] == b as usize;
                                assert(worklist@[i] == b as usize);
                            }
                        }
                    }
                }
                k += 1;
            }
            proof {
                assert forall|b: int, j: int|
                    0 <= b < n && marks@[b] && !worklist@.contains(b as usize) && 0 <= j
                        < m.successors(b as usize).len() implies {
                    let next = #[trigger] m.successors(b as usize)[j];
                    next < n && marks@[next as int]
                } by {
                    if b == block {
                        assert(successors@[j] == m.successors(b as usize)[j]);
                    } else {
                        assert(marks_before[b]);
                        if worklist_before.contains(b as usize) {
                            let i = choose|i: int|
                                0 <= i < worklist_before.len() && worklist_before[i] == b as usize;
                            assert(i < rest.len());
                            assert(rest[i] == worklist_before[i]);
                            assert(worklist@[i] == b as usize);
                        }
                        let next = m.successors(b as usize)[j];
                        assert(next < n && marks_before[next as int]);
                    }
                }
            }
        }
        proof {
            assert forall|b: BasicBlock| b < marks@.len() implies marks@[b as int]
                == #[trigger] m.reachable(b) by {
                if m.reachable(b) {
                    let path = choose|path: Seq<BasicBlock>|
                        #[trigger] m.is_path(path) && path.last() == b;
                    assert forall|c: int, j: int|
                        0 <= c < marks@.len() && marks@[c] && 0 <= j < m.successors(
                            c as usize,
                        ).len() implies {
                        let next = #[trigger] m.successors(c as usize)[j];
                        next < marks@.len() && marks@[next as int]
                    } by {
                        assert(!worklist@.contains(c as usize));
                    }
                    m.lemma_closed_holds_path(marks@, path, path.len() - 1);
                }
            }
        }
        marks
    }

    /// The blocks that control can reach from the entry block, in order.
    pub fn reachable_blocks(&self) -> (r: Vec<BasicBlock>)
        requires
            self.mar@.wf(),
            self.mar@.blocks.len() > 0,
        ensures
            r@ == self.mar@.reachable_blocks(self.mar@.blocks.len() as int),
    {
        let marks = self.reachable();
        let n = marks.len();
        let mut r: Vec<BasicBlock> = Vec::new();
        let mut b: usize = 0;
        while b < n
            invariant
                0 <= b <= n,
                n == self.mar@.blocks.len(),
                marks@.len() == n,
                forall|c: BasicBlock|
                    c < n ==> marks@[c as int] == #[trigger] self.mar@.reachable(c),
                r@ == self.mar@.reachable_blocks(b as int),
            decreases n - b,
        {
            if marks[b] {
                r.push(b);
            }
            b += 1;
        }
        r
    }
}

} // verus!

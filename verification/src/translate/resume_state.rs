//! The reduced states in which a driver holds a suspended machine, and the
//! adapter that turns each, with the value that the driver supplies, into
//! the state in which the machine resumes.

use vstd::prelude::*;
use std::collections::HashSet;
use crate::repr::{
    terminator_view, BasicBlock, BlockModel, CodeExtent, Local, MarModel, TerminatorKind,
};
use crate::translate::state::{
    add_ty_params, groups_view, seen_all, StateExpr, StateVariant,
};
use crate::translate::Builder;

verus! {

/// The arm of the adapter for one block in which the machine resumes: it
/// binds each captured scope of the reduced state under a name made of the
/// scope's extent, and builds the state of the block from them and from
/// the value that the driver supplies.
#[derive(Debug)]
pub struct CoroutineArm {
    pub block: BasicBlock,
    pub scopes: Vec<CodeExtent>,
}

/// The reduced state type and the adapter: one variant and one arm for
/// each block in which the machine resumes, in the order of the blocks.
#[derive(Debug)]
pub struct CoroutineState {
    pub ty_params: Vec<Local>,
    pub variants: Vec<StateVariant>,
    pub arms: Vec<CoroutineArm>,
}

/// The extents of the scopes that a block records.
pub open spec fn recorded_extents(block: BlockModel) -> Seq<CodeExtent> {
    Seq::new(block.decls.len(), |s: int| block.decls[s].extent)
}

impl MarModel {
    /// Those of the first `n` blocks in which the machine resumes after a
    /// suspension, in order.
    pub open spec fn resume_blocks(self, n: int) -> Seq<BasicBlock>
        decreases n,
    {
        if 0 < n <= self.blocks.len() {
            if self.is_resume_block((n - 1) as usize) {
                self.resume_blocks(n - 1).push((n - 1) as usize)
            } else {
                self.resume_blocks(n - 1)
            }
        } else {
            Seq::empty()
        }
    }

    /// The blocks in which the machine resumes are blocks of the graph, in
    /// ascending order, and each block in which it resumes is among them.
    pub proof fn lemma_resume_blocks(self, n: int)
        requires
            0 <= n <= self.blocks.len(),
        ensures
            forall|i: int|
                0 <= i < self.resume_blocks(n).len() ==> (#[trigger] self.resume_blocks(n)[i]) < n
                    && self.is_resume_block(self.resume_blocks(n)[i]),
            forall|b: BasicBlock|
                b < n && self.is_resume_block(b) ==> self.resume_blocks(n).contains(b),
        decreases n,
    {
        if n > 0 {
            self.lemma_resume_blocks(n - 1);
            let before = self.resume_blocks(n - 1);
            let now = self.resume_blocks(n);
            assert forall|b: BasicBlock| b < n && self.is_resume_block(b) implies now.contains(
                b,
            ) by {
                if b < n - 1 {
                    let i = choose|i: int| 0 <= i < before.len() && before[i] == b;
                    assert(now[i] == b);
                } else {
                    assert(now[before.len() as int] == b);
                }
            }
        }
    }
}

impl MarModel {
    /// A machine that never suspends resumes nowhere, and so has no
    /// adapter.
    pub proof fn lemma_no_suspension_no_adapter(self)
        requires
            forall|block: BasicBlock| !self.is_resume_block(block),
        ensures
            self.resume_blocks(self.blocks.len() as int).len() == 0,
    {
        self.lemma_resume_blocks(self.blocks.len() as int);
        let resume = self.resume_blocks(self.blocks.len() as int);
        if resume.len() > 0 {
            assert(self.is_resume_block(resume[0]));
        }
    }
}

/// The block ends in a suspension after which the machine resumes in one
/// of the `targets` blocks that is `target`.
spec fn suspends_within(m: MarModel, target: int, n: int) -> bool {
    exists|b: BasicBlock|
        b < n && b < m.blocks.len() && 0 <= target <= usize::MAX && #[trigger] m.reachable(b)
            && m.blocks[b as int].suspends_to(target as usize)
}

impl<'a> Builder<'a> {
    /// The blocks in which the machine resumes after a suspension, in
    /// order.
    #[verifier::loop_isolation(false)]
    pub fn resume_blocks(&self) -> (r: Vec<BasicBlock>)
        requires
            self.mar@.wf(),
            self.mar@.blocks.len() > 0,
        ensures
            r@ == self.mar@.resume_blocks(self.mar@.blocks.len() as int),
    {
        let blocks = &self.mar.basic_blocks;
        let n = blocks.len();
        let ghost m = self.mar@;
        let reach = self.reachable();
        let mut marks: Vec<bool> = Vec::new();
        let mut t: usize = 0;
        while t < n
            invariant
                0 <= t <= n,
                marks@.len() == t,
                forall|k: int| 0 <= k < t ==> !marks@[k],
            decreases n - t,
        {
            marks.push(false);
            t += 1;
        }
        let mut b: usize = 0;
        while b < n
            invariant
                0 <= b <= n,
                marks@.len() == n,
                forall|k: int| 0 <= k < n ==> #[trigger] marks@[k] == suspends_within(m, k, b as int),
            decreases n - b,
        {
            let ghost before = marks@;
            if reach[b] {
                match &blocks[b].terminator {
                    Some(terminator) => match &terminator.kind {
                        TerminatorKind::Suspend { rvalue, target } => {
                            if *target < n {
                                marks[*target] = true;
                            }
                        },
                        _ => {},
                    },
                    None => {},
                }
            }
            proof {
                assert(m.blocks[b as int].terminator == terminator_view(blocks@[b as int].terminator));
                assert forall|k: int| 0 <= k < n implies #[trigger] marks@[k] == suspends_within(
                    m,
                    k,
                    b + 1,
                ) by {
                    assert(before[k] == suspends_within(m, k, b as int));
                    let here = m.reachable(b) && m.blocks[b as int].suspends_to(k as usize);
                    assert(marks@[k] == (before[k] || here));
                    if suspends_within(m, k, b + 1) && !suspends_within(m, k, b as int) {
                        let c = choose|c: BasicBlock|
                            c < b + 1 && c < m.blocks.len() && #[trigger] m.reachable(c)
                                && m.blocks[c as int].suspends_to(k as usize);
                        assert(c == b);
                    }
                    if here {
                        assert(suspends_within(m, k, b + 1));
                    }
                    if suspends_within(m, k, b as int) {
                        let c = choose|c: BasicBlock|
                            c < b && c < m.blocks.len() && #[trigger] m.reachable(c)
                                && m.blocks[c as int].suspends_to(k as usize);
                        assert(suspends_within(m, k, b + 1));
                    }
                }
            }
            b += 1;
        }
        proof {
            assert forall|k: int| 0 <= k < n implies #[trigger] marks@[k] == m.is_resume_block(
                k as usize,
            ) by {
                assert(marks@[k] == suspends_within(m, k, n as int));
                if m.is_resume_block(k as usize) {
                    let c = choose|c: BasicBlock|
                        c < m.blocks.len() && #[trigger] m.reachable(c) && m.blocks[c as int].suspends_to(
                            k as usize,
                        );
                    assert(suspends_within(m, k, n as int));
                }
            }
        }
        let mut r: Vec<BasicBlock> = Vec::new();
        let mut t: usize = 0;
        while t < n
            invariant
                0 <= t <= n,
                r@ == m.resume_blocks(t as int),
            decreases n - t,
        {
            if marks[t] {
                r.push(t);
            }
            t += 1;
        }
        r
    }

    /// The expression that builds the reduced state of `block`: it holds
    /// the captured scopes, and no field for a value of the driver.
    pub fn coroutine_state_expr(&self, block: BasicBlock) -> (r: StateExpr)
        requires
            block < self.mar@.blocks.len(),
        ensures
            r@ == self.mar@.state_expr(block),
    {
        self.state_expr(block)
    }

    /// The arm of the adapter for `block`.
    pub fn coroutine_arm(&self, block: BasicBlock) -> (r: CoroutineArm)
        requires
            block < self.mar@.blocks.len(),
        ensures
            r.block == block,
            r.scopes@ == recorded_extents(self.mar@.blocks[block as int]),
    {
        let data = &self.mar.basic_blocks[block];
        let mut scopes: Vec<CodeExtent> = Vec::new();
        let mut s: usize = 0;
        while s < data.decls.len()
            invariant
                0 <= s <= data.decls.len(),
                block < self.mar@.blocks.len(),
                *data == self.mar.basic_blocks@[block as int],
                scopes@ == recorded_extents(self.mar@.blocks[block as int]).subrange(0, s as int),
            decreases data.decls.len() - s,
        {
            scopes.push(data.decls[s].extent);
            assert(scopes@ =~= recorded_extents(self.mar@.blocks[block as int]).subrange(
                0,
                s + 1,
            ));
            s += 1;
        }
        assert(scopes@ =~= recorded_extents(self.mar@.blocks[block as int]));
        CoroutineArm { block, scopes }
    }

    /// The reduced state type and the adapter, for a driver that supplies
    /// a value when it resumes the machine. A machine that never suspends
    /// has neither.
    pub fn coroutine_state(&self) -> (r: Option<CoroutineState>)
        requires
            self.mar@.wf(),
            self.mar@.blocks.len() > 0,
        ensures
            r is None <==> self.mar@.resume_blocks(self.mar@.blocks.len() as int).len() == 0,
            r matches Some(state) ==> {
                let resume = self.mar@.resume_blocks(self.mar@.blocks.len() as int);
                &&& state.ty_params@ == self.mar@.params_over(resume, resume.len() as int)
                &&& state.ty_params@.no_duplicates()
                &&& forall|local: Local|
                    state.ty_params@.contains(local) <==> self.mar@.captured_over(
                        resume,
                        local,
                        resume.len() as int,
                    )
                &&& state.variants@.len() == resume.len()
                &&& forall|i: int|
                    0 <= i < resume.len() ==> (#[trigger] state.variants@[i]).block == resume[i]
                        && groups_view(state.variants@[i].scopes@) == self.mar@.incoming(resume[i])
                &&& state.arms@.len() == resume.len()
                &&& forall|i: int|
                    0 <= i < resume.len() ==> (#[trigger] state.arms@[i]).block == resume[i]
                        && state.arms@[i].scopes@ == recorded_extents(
                        self.mar@.blocks[resume[i] as int],
                    )
            },
    {
        let blocks = self.resume_blocks();
        if blocks.len() == 0 {
            return None;
        }
        let ghost resume = blocks@;
        proof {
            self.mar@.lemma_resume_blocks(self.mar@.blocks.len() as int);
        }
        let mut variants: Vec<StateVariant> = Vec::new();
        let mut ty_param_ids: Vec<Local> = Vec::new();
        let mut seen_ty_param_ids: HashSet<Local> = HashSet::new();
        let mut arms: Vec<CoroutineArm> = Vec::new();
        let mut i: usize = 0;
        while i < blocks.len()
            invariant
                0 <= i <= blocks.len(),
                resume == blocks@,
                forall|k: int| 0 <= k < resume.len() ==> (#[trigger] resume[k]) < self.mar@.blocks.len(),
                ty_param_ids@ == self.mar@.params_over(resume, i as int),
                seen_all(seen_ty_param_ids@, ty_param_ids@),
                variants@.len() == i,
                forall|k: int|
                    0 <= k < i ==> (#[trigger] variants@[k]).block == resume[k] && groups_view(
                        variants@[k].scopes@,
                    ) == self.mar@.incoming(resume[k]),
                arms@.len() == i,
                forall|k: int|
                    0 <= k < i ==> (#[trigger] arms@[k]).block == resume[k] && arms@[k].scopes@
                        == recorded_extents(self.mar@.blocks[resume[k] as int]),
            decreases blocks.len() - i,
        {
            let block = blocks[i];
            assert(resume[i as int] < self.mar@.blocks.len());
            let (variant, tp) = self.state_variant(block);
            variants.push(variant);
            // It's possible for a local to be declared and never captured,
            // so a local gets a type parameter only where a state uses it.
            add_ty_params(&mut seen_ty_param_ids, &mut ty_param_ids, &tp);
            arms.push(self.coroutine_arm(block));
            i += 1;
        }
        proof {
            self.mar@.lemma_params_over(resume, resume.len() as int);
        }
        Some(CoroutineState { ty_params: ty_param_ids, variants, arms })
    }
}

} // verus!

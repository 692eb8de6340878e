//! The end of a pass: the checks that every block is ended and every local
//! is recorded, and the hand-over of the finished graph.

use vstd::prelude::*;
use std::collections::HashSet;
use crate::build::model::BuilderModel;
use crate::build::{Builder, Error, ErrorKind};
use crate::repr::{
    first_open, first_unrecorded, lemma_first_open, lemma_first_unrecorded, recorded,
    BasicBlockData, BlockModel, LiveDecl, Local, Mar,
};

verus! {

/// The records hold the local as active.
spec fn active_in(decls: Seq<LiveDecl>, local: Local) -> bool {
    decls.contains(LiveDecl::Active(local))
}

/// Adds every local that `decls` records as active.
fn insert_active(initialized: &mut HashSet<Local>, decls: &Vec<LiveDecl>)
    ensures
        forall|l: Local|
            #[trigger] final(initialized)@.contains(l) == (old(initialized)@.contains(l)
                || active_in(decls@, l)),
{
    let mut i: usize = 0;
    while i < decls.len()
        invariant
            0 <= i <= decls.len(),
            forall|l: Local|
                #[trigger] initialized@.contains(l) == (old(initialized)@.contains(l) || active_in(
                    decls@.subrange(0, i as int),
                    l,
                )),
        decreases decls.len() - i,
    {
        let ghost before = initialized@;
        match decls[i] {
            LiveDecl::Active(local) => {
                initialized.insert(local);
            },
            _ => {},
        }
        proof {
            let prefix = decls@.subrange(0, i as int);
            let longer = decls@.subrange(0, i + 1);
            assert(longer =~= prefix.push(decls@[i as int]));
            assert forall|l: Local| #[trigger]
                initialized@.contains(l) == (old(initialized)@.contains(l) || active_in(
                    longer,
                    l,
                )) by {
                let x = LiveDecl::Active(l);
                assert(before.contains(l) == (old(initialized)@.contains(l) || active_in(
                    prefix,
                    l,
                )));
                if prefix.contains(x) {
                    let j = choose|j: int| 0 <= j < prefix.len() && prefix[j] == x;
                    assert(longer[j] == x);
                }
                if longer.contains(x) && !prefix.contains(x) {
                    let j = choose|j: int| 0 <= j < longer.len() && longer[j] == x;
                    if j < i {
                        assert(prefix[j] == x);
                    }
                    assert(decls@[i as int] == x);
                }
                if decls@[i as int] == x {
                    assert(longer[i as int] == x);
                }
            }
        }
        i += 1;
    }
    assert(decls@.subrange(0, i as int) =~= decls@);
}

/// The local is recorded as active in one of the first `n` scopes at the
/// entry of the block.
spec fn records_within(block: BlockModel, local: Local, n: int) -> bool {
    exists|s: int|
        0 <= s < n && s < block.decls.len() && active_in((#[trigger] block.decls[s]).decls, local)
}

/// Adds every local that is recorded as active at the entry of `block`.
fn insert_recorded(initialized: &mut HashSet<Local>, block: &BasicBlockData)
    ensures
        forall|l: Local|
            #[trigger] final(initialized)@.contains(l) == (old(initialized)@.contains(l)
                || block@.records(l)),
{
    let mut i: usize = 0;
    while i < block.decls.len()
        invariant
            0 <= i <= block.decls.len(),
            forall|l: Local|
                #[trigger] initialized@.contains(l) == (old(initialized)@.contains(l)
                    || records_within(block@, l, i as int)),
        decreases block.decls.len() - i,
    {
        let ghost before = initialized@;
        insert_active(initialized, &block.decls[i].decls);
        proof {
            assert(block@.decls[i as int].decls == block.decls@[i as int].decls@);
            assert forall|l: Local| #[trigger]
                initialized@.contains(l) == (old(initialized)@.contains(l) || records_within(
                    block@,
                    l,
                    i + 1,
                )) by {
                assert(before.contains(l) == (old(initialized)@.contains(l) || records_within(
                    block@,
                    l,
                    i as int,
                )));
                assert(initialized@.contains(l) == (before.contains(l) || active_in(
                    block.decls@[i as int].decls@,
                    l,
                )));
                if records_within(block@, l, i + 1) && !records_within(block@, l, i as int) {
                    let s = choose|s: int|
                        0 <= s < i + 1 && s < block@.decls.len() && active_in(
                            (#[trigger] block@.decls[s]).decls,
                            l,
                        );
                    assert(s == i);
                }
                if active_in(block@.decls[i as int].decls, l) {
                    assert(records_within(block@, l, i + 1));
                }
                if records_within(block@, l, i as int) {
                    let s = choose|s: int|
                        0 <= s < i && s < block@.decls.len() && active_in(
                            (#[trigger] block@.decls[s]).decls,
                            l,
                        );
                    assert(records_within(block@, l, i + 1));
                }
            }
        }
        i += 1;
    }
    proof {
        assert forall|l: Local|
            records_within(block@, l, block.decls@.len() as int) == block@.records(l) by {
            let x = LiveDecl::Active(l);
            if block@.records(l) {
                let s = choose|s: int|
                    0 <= s < block@.decls.len() && (#[trigger] block@.decls[s]).decls.contains(x);
                assert(active_in(block@.decls[s].decls, l));
                assert(records_within(block@, l, block.decls@.len() as int));
            }
            if records_within(block@, l, block.decls@.len() as int) {
                let s = choose|s: int|
                    0 <= s < block.decls@.len() && s < block@.decls.len() && active_in(
                        (#[trigger] block@.decls[s]).decls,
                        l,
                    );
                assert(block@.decls[s].decls.contains(x));
            }
        }
    }
}

/// The local is recorded as active at the entry of one of the first `n`
/// blocks.
spec fn recorded_within(blocks: Seq<BlockModel>, local: Local, n: int) -> bool {
    exists|b: int| 0 <= b < n && b < blocks.len() && (#[trigger] blocks[b]).records(local)
}

impl BuilderModel {
    /// A pass ends with a graph exactly where every block has a terminator
    /// and every declared local is recorded as active at the entry of some
    /// block; a local that is recorded nowhere fails the construction.
    pub proof fn lemma_finish(self)
        ensures
            self.finish() is Ok <==> (forall|b: int|
                0 <= b < self.blocks.len() ==> (#[trigger] self.blocks[b]).terminator is Some) && (
            forall|local: Local|
                local < self.local_decls.len() ==> #[trigger] recorded(self.blocks, local)),
            self.finish() matches Ok(mar) ==> mar.blocks == self.blocks && mar.local_decls
                == self.local_decls,
    {
        lemma_first_open(self.blocks, 0);
        lemma_first_unrecorded(self.blocks, self.local_decls.len() as int, 0);
        let open = first_open(self.blocks, 0);
        let unrecorded = first_unrecorded(self.blocks, self.local_decls.len() as int, 0);
        if open >= self.blocks.len() && unrecorded < self.local_decls.len() {
            assert(!recorded(self.blocks, unrecorded as usize));
        }
        if open >= self.blocks.len() && unrecorded >= self.local_decls.len() {
            assert forall|local: Local| local < self.local_decls.len() implies #[trigger] recorded(
                self.blocks,
                local,
            ) by {}
        }
    }
}

impl Builder {
    /// Ends the pass. Every block must have a terminator, and every local
    /// must be recorded as active at the entry of some block: the first
    /// block or local that fails this is reported. Otherwise the graph is
    /// handed over as it stands.
    #[verifier::loop_isolation(false)]
    pub fn finish(self) -> (r: Result<Mar, Error>)
        ensures
            match self@.finish() {
                Ok(model) => r matches Ok(mar) && mar@ == model,
                Err(e) => r == Err::<Mar, Error>(e),
            },
            self@.graph_wf() && r is Ok ==> r->Ok_0@.wf(),
    {
        let blocks = &self.cfg.basic_blocks;
        let mut b: usize = 0;
        while b < blocks.len()
            invariant
                0 <= b <= blocks.len(),
                blocks == &self.cfg.basic_blocks,
                first_open(self@.blocks, 0) == first_open(self@.blocks, b as int),
            decreases blocks.len() - b,
        {
            if blocks[b].terminator.is_none() {
                return Err(Error { kind: ErrorKind::MissingTerminator(b), span: self.fn_span });
            }
            b += 1;
        }
        // We need to make sure all variables have actually been
        // initialized. First, gather up them all.
        let mut initialized_vars: HashSet<Local> = HashSet::new();
        let mut b: usize = 0;
        while b < blocks.len()
            invariant
                0 <= b <= blocks.len(),
                blocks == &self.cfg.basic_blocks,
                forall|k: Local|
                    #[trigger] initialized_vars@.contains(k) == recorded_within(
                        self@.blocks,
                        k,
                        b as int,
                    ),
            decreases blocks.len() - b,
        {
            let ghost before = initialized_vars@;
            insert_recorded(&mut initialized_vars, &blocks[b]);
            proof {
                assert(self@.blocks[b as int] == blocks@[b as int]@);
                assert forall|k: Local| #[trigger]
                    initialized_vars@.contains(k) == recorded_within(self@.blocks, k, b + 1) by {
                    assert(before.contains(k) == recorded_within(self@.blocks, k, b as int));
                    assert(initialized_vars@.contains(k) == (before.contains(k)
                        || blocks@[b as int]@.records(k)));
                    if recorded_within(self@.blocks, k, b + 1) && !recorded_within(
                        self@.blocks,
                        k,
                        b as int,
                    ) {
                        let c = choose|c: int|
                            0 <= c < b + 1 && c < self@.blocks.len() && (
                            #[trigger] self@.blocks[c]).records(k);
                        assert(c == b);
                    }
                    if self@.blocks[b as int].records(k) {
                        assert(recorded_within(self@.blocks, k, b + 1));
                    }
                    if recorded_within(self@.blocks, k, b as int) {
                        let c = choose|c: int|
                            0 <= c < b && c < self@.blocks.len() && (
                            #[trigger] self@.blocks[c]).records(k);
                        assert(recorded_within(self@.blocks, k, b + 1));
                    }
                }
            }
            b += 1;
        }
        proof {
            assert forall|k: Local| #[trigger]
                initialized_vars@.contains(k) == recorded(self@.blocks, k) by {
                assert(initialized_vars@.contains(k) == recorded_within(
                    self@.blocks,
                    k,
                    blocks@.len() as int,
                ));
                if recorded(self@.blocks, k) {
                    let c = choose|c: int|
                        0 <= c < self@.blocks.len() && (#[trigger] self@.blocks[c]).records(k);
                    assert(recorded_within(self@.blocks, k, blocks@.len() as int));
                }
            }
        }
        // Now look for a variable that is not among them.
        let locals = self.local_decls.len();
        let mut l: usize = 0;
        while l < locals
            invariant
                0 <= l <= locals,
                locals == self@.local_decls.len(),
                forall|k: Local|
                    #[trigger] initialized_vars@.contains(k) == recorded(self@.blocks, k),
                first_unrecorded(self@.blocks, locals as int, 0) == first_unrecorded(
                    self@.blocks,
                    locals as int,
                    l as int,
                ),
            decreases locals - l,
        {
            if !initialized_vars.contains(&l) {
                return Err(
                    Error { kind: ErrorKind::UninitializedVariable(l), span: self.fn_span },
                );
            }
            l += 1;
        }
        proof {
            lemma_first_open(self@.blocks, 0);
        }
        Ok(
            Mar {
                state_machine_kind: self.state_machine_kind,
                span: self.fn_span,
                basic_blocks: self.cfg.basic_blocks,
                local_decls: self.local_decls,
                visibility_scopes: self.visibility_scopes,
                extents: self.extents,
            },
        )
    }
}

} // verus!

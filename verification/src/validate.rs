//! The check that a graph is well-formed, for a graph that did not come
//! out of a construction pass.

use vstd::prelude::*;
use crate::repr::{
    terminator_view, decl_scopes_view, decls_valid, local_decls_view, locals_wf, statements_valid, visibility_wf,
    BasicBlockData, DeclScope, LiveDecl, LocalDecl, Mar, Statement, Terminator, TerminatorKind,
    VisibilityScopeData,
};

verus! {

fn locals_ok(decls: &Vec<LocalDecl>) -> (r: bool)
    ensures
        r == locals_wf(local_decls_view(decls@)),
{
    let mut l: usize = 0;
    while l < decls.len()
        invariant
            0 <= l <= decls.len(),
            forall|k: int|
                0 <= k < l ==> match (#[trigger] local_decls_view(decls@)[k]).shadowed_decl {
                    Some(outer) => outer < k,
                    None => true,
                },
        decreases decls.len() - l,
    {
        assert(local_decls_view(decls@)[l as int].shadowed_decl == decls@[l as int].shadowed_decl);
        match decls[l].shadowed_decl {
            Some(outer) => {
                if outer >= l {
                    return false;
                }
            },
            None => {},
        }
        l += 1;
    }
    true
}

fn visibility_ok(scopes: &Vec<VisibilityScopeData>) -> (r: bool)
    ensures
        r == visibility_wf(scopes@),
{
    let mut v: usize = 0;
    while v < scopes.len()
        invariant
            0 <= v <= scopes.len(),
            forall|k: int|
                0 <= k < v ==> match (#[trigger] scopes@[k]).parent_scope {
                    Some(parent) => parent < k,
                    None => k == 0,
                },
        decreases scopes.len() - v,
    {
        match scopes[v].parent_scope {
            Some(parent) => {
                if parent >= v {
                    return false;
                }
            },
            None => {
                if v != 0 {
                    return false;
                }
            },
        }
        v += 1;
    }
    true
}

fn decls_ok(decls: &Vec<LiveDecl>, locals: usize) -> (r: bool)
    ensures
        r == decls_valid(decls@, locals as nat),
{
    let mut d: usize = 0;
    while d < decls.len()
        invariant
            0 <= d <= decls.len(),
            forall|k: int| 0 <= k < d ==> (#[trigger] decls@[k]).spec_local() < locals,
        decreases decls.len() - d,
    {
        if decls[d].local() >= locals {
            return false;
        }
        d += 1;
    }
    true
}

fn snapshot_ok(scopes: &Vec<DeclScope>, locals: usize) -> (r: bool)
    ensures
        r == (forall|s: int|
            0 <= s < decl_scopes_view(scopes@).len() ==> decls_valid(
                (#[trigger] decl_scopes_view(scopes@)[s]).decls,
                locals as nat,
            )),
{
    let mut s: usize = 0;
    while s < scopes.len()
        invariant
            0 <= s <= scopes.len(),
            forall|k: int|
                0 <= k < s ==> decls_valid(
                    (#[trigger] decl_scopes_view(scopes@)[k]).decls,
                    locals as nat,
                ),
        decreases scopes.len() - s,
    {
        assert(decl_scopes_view(scopes@)[s as int].decls == scopes@[s as int].decls@);
        if !decls_ok(&scopes[s].decls, locals) {
            return false;
        }
        s += 1;
    }
    true
}

fn statements_ok(statements: &Vec<Statement>, scopes: usize) -> (r: bool)
    ensures
        r == statements_valid(statements@, scopes as nat),
{
    let mut i: usize = 0;
    while i < statements.len()
        invariant
            0 <= i <= statements.len(),
            forall|k: int| 0 <= k < i ==> (#[trigger] statements@[k]).source_info.scope < scopes,
        decreases statements.len() - i,
    {
        if statements[i].source_info.scope >= scopes {
            return false;
        }
        i += 1;
    }
    true
}

fn terminator_ok(terminator: &Terminator, blocks: usize, scopes: usize) -> (r: bool)
    ensures
        r == terminator@.wf(blocks as nat, scopes as nat),
{
    if terminator.source_info.scope >= scopes {
        return false;
    }
    match &terminator.kind {
        TerminatorKind::Goto { target } => {
            assert(terminator.kind@.successors()[0] == *target);
            *target < blocks
        },
        TerminatorKind::If { cond, targets } => {
            assert(terminator.kind@.successors()[0] == targets.0);
            assert(terminator.kind@.successors()[1] == targets.1);
            targets.0 < blocks && targets.1 < blocks
        },
        TerminatorKind::Match { discr, arms } => {
            let mut i: usize = 0;
            while i < arms.len()
                invariant
                    0 <= i <= arms.len(),
                    terminator.kind == (TerminatorKind::Match { discr: *discr, arms: *arms }),
                    forall|k: int| 0 <= k < i ==> #[trigger] terminator.kind@.successors()[k] < blocks,
                decreases arms.len() - i,
            {
                assert(terminator.kind@.successors()[i as int] == arms@[i as int].block);
                if arms[i].block >= blocks {
                    return false;
                }
                i += 1;
            }
            true
        },
        TerminatorKind::Suspend { rvalue, target } => {
            assert(terminator.kind@.successors()[0] == *target);
            *target < blocks
        },
        TerminatorKind::Return => true,
    }
}

fn block_ok(block: &BasicBlockData, blocks: usize, locals: usize, scopes: usize) -> (r: bool)
    ensures
        r == (block@.wf(blocks as nat, locals as nat, scopes as nat) && block@.terminator is Some),
{
    assert(block@.decls == decl_scopes_view(block.decls@));
    assert(block@.statements == block.statements@);
    assert(block@.terminator == terminator_view(block.terminator));
    match &block.terminator {
        Some(terminator) => {
            let recorded = snapshot_ok(&block.decls, locals);
            let placed = statements_ok(&block.statements, scopes);
            let led = terminator_ok(terminator, blocks, scopes);
            recorded && placed && led
        },
        None => false,
    }
}

impl Mar {
    /// Whether the graph is well-formed: every block has a terminator, and
    /// what the blocks, the locals and the visibility scopes name exists.
    pub fn is_well_formed(&self) -> (r: bool)
        ensures
            r == self@.wf(),
    {
        if !locals_ok(&self.local_decls) || !visibility_ok(&self.visibility_scopes) {
            return false;
        }
        let blocks = self.basic_blocks.len();
        let locals = self.local_decls.len();
        let scopes = self.visibility_scopes.len();
        let mut b: usize = 0;
        while b < blocks
            invariant
                0 <= b <= blocks,
                blocks == self@.blocks.len(),
                locals == self@.local_decls.len(),
                scopes == self@.visibility_scopes.len(),
                forall|k: int|
                    0 <= k < b ==> (#[trigger] self@.blocks[k]).wf(
                        blocks as nat,
                        locals as nat,
                        scopes as nat,
                    ) && self@.blocks[k].terminator is Some,
            decreases blocks - b,
        {
            assert(self@.blocks[b as int] == self.basic_blocks@[b as int]@);
            if !block_ok(&self.basic_blocks[b], blocks, locals, scopes) {
                return false;
            }
            b += 1;
        }
        true
    }
}

} // verus!

//! Matches.

use vstd::prelude::*;
use crate::ast::{Expr, ExprKind};
use crate::build::lowering::{lower_arms, lower_match, refines};
use crate::build::{Builder, Error, ErrorKind};
use crate::repr::{BasicBlock, BlockName, MatchArm, TerminatorKind};
use crate::transition::{arms_have_marker, expr_has_marker, lemma_arms_without_marker};

verus! {

impl Builder {
    /// Lowers a match. The value that is matched on ends `block`, with one
    /// way out for each arm. Each arm has a scope of its own for the names
    /// of its pattern; its body is lowered from a block that records them,
    /// and goes on to the block in which control continues.
    #[verifier::loop_isolation(false)]
    pub fn expr_match(&mut self, block: BasicBlock, expr: &Expr) -> (r: Result<BasicBlock, Error>)
        requires
            old(self)@.ready(block),
            expr.node is Match,
        ensures
            refines(lower_match(old(self)@, block, expr), final(self)@, r),
            r matches Ok(next) ==> old(self)@.leads_to(block, final(self)@, next),
            r is Ok && !expr_has_marker(expr) && old(self)@.suspend_free() ==> final(self)@.suspend_free(),
            r matches Err(e) ==> e.kind.is_rejection(),
        decreases expr, 0nat,
    {
        let (discr, arms) = match &expr.node {
            ExprKind::Match(discr, arms) => (discr, arms),
            _ => {
                return Ok(block);
            },
        };
        if self.contains_transition(&**discr) {
            return Err(Error { kind: ErrorKind::TransitionInCondition, span: discr.id });
        }
        let join = self.start_new_block(expr.id, Some(BlockName::EndMatch));
        let ghost joined = self@;
        let mut targets: Vec<MatchArm> = Vec::new();
        let mut i: usize = 0;
        while i < arms.len()
            invariant
                0 <= i <= arms.len(),
                lower_arms(joined, join, arms, 0, Seq::empty()) == lower_arms(
                    self@,
                    join,
                    arms,
                    i as int,
                    targets@,
                ),
                self@.wf(),
                self@.is_open(block),
                self@.is_open(join),
                self@.cached_return_block != Some(block),
                self@.cached_return_block != Some(join),
                joined.blocks.len() <= self@.blocks.len(),
                forall|b: int|
                    0 <= b < joined.blocks.len() ==> #[trigger] self@.blocks[b] == joined.blocks[b],
                forall|b: int|
                    0 <= b < self@.blocks.len() && (#[trigger] self@.blocks[b]).terminator is None
                        ==> b < joined.blocks.len() || self@.is_return_block(b),
                self@.scopes.len() == joined.scopes.len(),
                forall|k: int|
                    0 <= k < joined.scopes.len() ==> (#[trigger] self@.scopes[k]).extent
                        == joined.scopes[k].extent && self@.scopes[k].visibility
                        == joined.scopes[k].visibility,
                self@.loop_scopes == joined.loop_scopes,
                self@.kind == joined.kind,
                self@.fn_span == joined.fn_span,
                match joined.cached_return_block {
                    Some(rb) => self@.cached_return_block == Some(rb),
                    None => match self@.cached_return_block {
                        Some(rb) => rb >= joined.blocks.len(),
                        None => true,
                    },
                },
                forall|k: int| 0 <= k < targets@.len() ==> (#[trigger] targets@[k]).block < self@.blocks.len(),
                !arms_have_marker(arms, arms@.len() as int) && joined.suspend_free()
                    ==> self@.suspend_free(),
            decreases arms.len() - i,
        {
            let arm = &arms[i];
            proof {
                if !arms_have_marker(arms, arms@.len() as int) {
                    lemma_arms_without_marker(arms, arms@.len() as int, i as int);
                }
            }
            let extent = self.start_new_extent(arm.id);
            self.push_scope(extent, arm.id);
            self.declare_pattern(extent, &arm.pat);
            let entry = self.start_new_block(arm.id, Some(BlockName::Arm));
            let end = match self.expr(extent, entry, &arm.body) {
                Ok(end) => end,
                Err(e) => {
                    return Err(e);
                },
            };
            self.pop_scope(extent, end);
            self.terminate(arm.id, end, TerminatorKind::Goto { target: join });
            targets.push(MatchArm { id: arm.id, block: entry });
            i += 1;
        }
        self.terminate(expr.id, block, TerminatorKind::Match { discr: discr.id, arms: targets });
        Ok(join)
    }
}

} // verus!

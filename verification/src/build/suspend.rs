//! Suspension points.

use vstd::prelude::*;
use crate::ast::{Mac, NodeId};
use crate::build::lowering::{lower_mac, refines};
use crate::build::{unit, BlockAnd, Builder, Error, ErrorKind};
use crate::repr::{
    BasicBlock, BlockName, CodeExtent, LetInit, LetPat, Lvalue, StatementKind, TerminatorKind,
};
use crate::transition::{is_transition_path, path_is_transition, ContainsTransition};

verus! {

impl Builder {
    /// Ends `block` by handing `value` to the driver, and starts the block
    /// in which the computation resumes. No value comes back in from the
    /// driver: the new block starts by giving `destination` the unit value.
    pub fn expr_suspend(&mut self, destination: Lvalue, block: BasicBlock, value: NodeId) -> (r:
        BlockAnd<()>)
        requires
            old(self)@.ready(block),
        ensures
            (final(self)@, r.0) == old(self)@.suspend(destination, block, value),
            old(self)@.leads_to(block, final(self)@, r.0),
    {
        let next_block = self.start_new_block(value, Some(BlockName::AfterSuspend));
        self.terminate(value, block, TerminatorKind::Suspend { rvalue: value, target: next_block });
        // We do not receive values into the machine: store `()` in the
        // destination.
        self.push_assign_unit(value, next_block, destination);
        unit(next_block)
    }

    /// Appends the statement that gives `destination` the unit value.
    pub fn push_assign_unit(&mut self, span: NodeId, block: BasicBlock, destination: Lvalue)
        requires
            block < old(self)@.blocks.len(),
        ensures
            final(self)@ == old(self)@.push(block, span, destination.assign_unit()),
            old(self)@.graph_wf() && old(self)@.visibility() < old(self)@.visibility_scopes.len()
                ==> final(self)@.graph_wf(),
    {
        let kind = match destination {
            Lvalue::Ignore => StatementKind::Let {
                pat: LetPat::Wildcard,
                ty: None,
                init: LetInit::Unit,
            },
            Lvalue::Local(local) => StatementKind::Let {
                pat: LetPat::Local(local),
                ty: None,
                init: LetInit::Unit,
            },
            Lvalue::Pattern { pat, ty } => StatementKind::Let {
                pat: LetPat::Syntax(pat),
                ty,
                init: LetInit::Unit,
            },
        };
        self.push(block, span, kind);
    }

    /// Lowers a macro that stands in the place of the form `id`, and whose
    /// value goes to `destination`.
    pub fn mac(
        &mut self,
        destination: Lvalue,
        extent: CodeExtent,
        block: BasicBlock,
        id: NodeId,
        mac: &Mac,
    ) -> (r: Result<BasicBlock, Error>)
        requires
            old(self)@.ready(block),
        ensures
            refines(lower_mac(old(self)@, destination, block, id, mac), final(self)@, r),
            r matches Ok(next) ==> old(self)@.leads_to(block, final(self)@, next),
            r is Ok && !path_is_transition(&mac.path) && old(self)@.suspend_free() ==> final(self)@.suspend_free(),
            r matches Err(e) ==> e.kind.is_rejection(),
            r is Ok && !mac.has_transition(old(self)@.inside_loop()) ==> old(self)@.stays(
                block,
                final(self)@,
                r->Ok_0,
            ),
    {
        if is_transition_path(&mac.path) {
            match &mac.operand {
                Some(operand) => {
                    if self.contains_transition(&**operand) {
                        Err(Error { kind: ErrorKind::UnsupportedExpression, span: operand.id })
                    } else {
                        let next = self.expr_suspend(destination, block, operand.id);
                        Ok(next.0)
                    }
                },
                None => Err(Error { kind: ErrorKind::MalformedSuspension, span: mac.id }),
            }
        } else {
            Ok(self.into_stmt(extent, block, id))
        }
    }
}

} // verus!

//! Blocks of the surface syntax.

use vstd::prelude::*;
use crate::ast::Block;
use crate::build::lowering::{lower_block, refines};
use crate::build::{Builder, Error, ErrorKind};
use crate::repr::BasicBlock;
use crate::transition::{block_has_marker, block_has_transition};

verus! {

impl Builder {
    /// Lowers a block: its statements in a scope of their own, which is
    /// closed where they end.
    pub fn ast_block(&mut self, block: BasicBlock, ast_block: &Block) -> (r: Result<BasicBlock, Error>)
        requires
            old(self)@.ready(block),
        ensures
            refines(lower_block(old(self)@, block, ast_block), final(self)@, r),
            r matches Ok(next) ==> old(self)@.leads_to(block, final(self)@, next),
            r is Ok && !block_has_marker(ast_block) && old(self)@.suspend_free() ==> final(self)@.suspend_free(),
            r matches Err(e) ==> e.kind.is_rejection(),
            r is Ok && !block_has_transition(ast_block, old(self)@.inside_loop())
                ==> old(self)@.stays(block, final(self)@, r->Ok_0),
        decreases ast_block, 1nat,
    {
        let extent = self.start_new_extent(ast_block.id);
        self.push_scope(extent, ast_block.id);
        let end = match self.stmts(extent, block, &ast_block.stmts) {
            Ok(end) => end,
            Err(e) => {
                return Err(e);
            },
        };
        match &ast_block.expr {
            Some(value) => Err(Error { kind: ErrorKind::BlockTailExpression, span: value.id }),
            None => {
                self.pop_scope(extent, end);
                Ok(end)
            },
        }
    }
}

} // verus!

//! The primitive steps on the table of blocks.

use vstd::prelude::*;
use crate::ast::NodeId;
use crate::build::CFG;
use crate::repr::{
    decl_scopes_view, BasicBlock, BasicBlockData, BlockModel, BlockName, DeclScope, SourceInfo,
    Statement, Terminator, TerminatorKind, TerminatorModel,
};

verus! {

impl CFG {
    pub fn block_data(&self, block: BasicBlock) -> (r: &BasicBlockData)
        requires
            block < self@.len(),
        ensures
            *r == self.basic_blocks@[block as int],
    {
        &self.basic_blocks[block]
    }

    pub fn block_data_mut(&mut self, block: BasicBlock) -> (r: &mut BasicBlockData)
        requires
            block < old(self)@.len(),
        ensures
            *r == old(self).basic_blocks@[block as int],
            final(self).basic_blocks@ == old(self).basic_blocks@.update(block as int, *final(r)),
    {
        &mut self.basic_blocks[block]
    }

    /// Starts a block that records `live_decls`, and returns its handle.
    pub fn start_new_block(
        &mut self,
        span: NodeId,
        name: Option<BlockName>,
        live_decls: Vec<DeclScope>,
    ) -> (block: BasicBlock)
        ensures
            block == old(self)@.len(),
            final(self)@ == old(self)@.push(
                BlockModel {
                    span,
                    name,
                    decls: decl_scopes_view(live_decls@),
                    statements: Seq::empty(),
                    terminator: None,
                },
            ),
    {
        let block = self.basic_blocks.len();
        self.basic_blocks.push(BasicBlockData::new(span, name, live_decls));
        assert(self@ =~= old(self)@.push(self.basic_blocks@[block as int]@));
        block
    }

    /// Appends `statement` to the block.
    pub fn push(&mut self, block: BasicBlock, statement: Statement)
        requires
            block < old(self)@.len(),
        ensures
            final(self)@ == old(self)@.update(
                block as int,
                BlockModel {
                    statements: old(self)@[block as int].statements.push(statement),
                    ..old(self)@[block as int]
                },
            ),
    {
        let data = self.block_data_mut(block);
        data.statements.push(statement);
        assert(self@ =~= old(self)@.update(
            block as int,
            BlockModel {
                statements: old(self)@[block as int].statements.push(statement),
                ..old(self)@[block as int]
            },
        ));
    }

    /// Ends the block with a terminator. A block is ended once.
    pub fn terminate(&mut self, block: BasicBlock, source_info: SourceInfo, kind: TerminatorKind)
        requires
            block < old(self)@.len(),
            old(self)@[block as int].terminator is None,
        ensures
            final(self)@ == old(self)@.update(
                block as int,
                BlockModel {
                    terminator: Some(TerminatorModel { source_info, kind: kind@ }),
                    ..old(self)@[block as int]
                },
            ),
    {
        let data = self.block_data_mut(block);
        data.terminator = Some(Terminator { source_info, kind });
        assert(self@ =~= old(self)@.update(
            block as int,
            BlockModel {
                terminator: Some(TerminatorModel { source_info, kind: kind@ }),
                ..old(self)@[block as int]
            },
        ));
    }
}

} // verus!

//! The state of a construction pass as a mathematical value, and the steps
//! of the pass as functions on it.

use vstd::prelude::*;
use crate::ast::NodeId;
use crate::build::{Error, ErrorKind};
use crate::repr::{
    blocks_wf, decls_valid, first_open, first_unrecorded, locals_wf, visibility_wf, Alias,
    BasicBlock, BlockModel, BlockName, CodeExtent, CodeExtentData, LiveDecl, Local, LocalDeclModel,
    MarModel, ScopeDecls, SourceInfo, Statement, StatementKind, StateMachineKind,
    TerminatorKindModel, TerminatorModel, VisibilityScope, VisibilityScopeData, RETURN_POINTER,
};

verus! {

/// A teardown that the closing of a scope owes.
#[derive(Clone, Copy, Debug, PartialEq, Eq, Structural)]
pub struct DropData {
    pub span: NodeId,
    pub local: Local,
    pub alias: Option<Alias>,
}

/// An enclosing loop: where `continue` and `break` lead, and how many scopes
/// were open around the loop.
#[derive(Clone, Copy, Debug, PartialEq, Eq, Structural)]
pub struct LoopScope {
    pub depth: usize,
    pub continue_block: BasicBlock,
    pub break_block: BasicBlock,
}

/// One open scope.
pub ghost struct ScopeModel {
    pub extent: CodeExtent,
    pub visibility: VisibilityScope,
    pub decls: Seq<LiveDecl>,
    pub drops: Seq<DropData>,
}

/// The state of a construction pass.
pub ghost struct BuilderModel {
    pub blocks: Seq<BlockModel>,
    pub kind: StateMachineKind,
    pub fn_span: NodeId,
    pub scopes: Seq<ScopeModel>,
    pub loop_scopes: Seq<LoopScope>,
    pub extents: Seq<CodeExtentData>,
    pub local_decls: Seq<LocalDeclModel>,
    pub visibility_scopes: Seq<VisibilityScopeData>,
    pub cached_return_block: Option<BasicBlock>,
}

/// `decls` with every record `from` turned into `to`.
pub open spec fn replace_decl(decls: Seq<LiveDecl>, from: LiveDecl, to: LiveDecl) -> Seq<LiveDecl> {
    Seq::new(
        decls.len(),
        |i: int|
            if decls[i] == from {
                to
            } else {
                decls[i]
            },
    )
}

/// The statement that tears one local down when the scope `visibility`
/// closes.
pub open spec fn drop_statement(drop: DropData, visibility: VisibilityScope) -> Statement {
    Statement {
        source_info: SourceInfo { span: drop.span, scope: visibility },
        kind: StatementKind::Drop { local: drop.local, alias: drop.alias },
    }
}

/// `statements`, followed by the teardown of the first `n` drops of `scope`,
/// last scheduled first. A local that is no longer active in the scope is
/// passed over.
pub open spec fn emit_drops(statements: Seq<Statement>, scope: ScopeModel, n: int) -> Seq<Statement>
    decreases n,
{
    if 0 < n <= scope.drops.len() {
        let drop = scope.drops[n - 1];
        if scope.decls.contains(LiveDecl::Active(drop.local)) {
            emit_drops(statements.push(drop_statement(drop, scope.visibility)), scope, n - 1)
        } else {
            emit_drops(statements, scope, n - 1)
        }
    } else {
        statements
    }
}

/// `statements`, followed by the teardown of the scopes `depth..n`,
/// innermost first.
pub open spec fn emit_exit(
    statements: Seq<Statement>,
    scopes: Seq<ScopeModel>,
    n: int,
    depth: int,
) -> Seq<Statement>
    decreases n,
{
    if 0 <= depth < n <= scopes.len() {
        emit_exit(
            emit_drops(statements, scopes[n - 1], scopes[n - 1].drops.len() as int),
            scopes,
            n - 1,
            depth,
        )
    } else {
        statements
    }
}

/// The last of the first `n` records that is active or reserved and whose
/// local is named `name`.
pub open spec fn find_in_decls(
    decls: Seq<LiveDecl>,
    local_decls: Seq<LocalDeclModel>,
    name: Seq<char>,
    n: int,
) -> Option<Local>
    decreases n,
{
    if 0 < n <= decls.len() {
        let decl = decls[n - 1];
        if !(decl is Moved) && decl.spec_local() < local_decls.len()
            && local_decls[decl.spec_local() as int].ident == name {
            Some(decl.spec_local())
        } else {
            find_in_decls(decls, local_decls, name, n - 1)
        }
    } else {
        None
    }
}

/// The innermost declaration named `name` in the first `n` scopes.
pub open spec fn find_in_scopes(
    scopes: Seq<ScopeModel>,
    local_decls: Seq<LocalDeclModel>,
    name: Seq<char>,
    n: int,
) -> Option<Local>
    decreases n,
{
    if 0 < n <= scopes.len() {
        match find_in_decls(scopes[n - 1].decls, local_decls, name, scopes[n - 1].decls.len() as int) {
            Some(local) => Some(local),
            None => find_in_scopes(scopes, local_decls, name, n - 1),
        }
    } else {
        None
    }
}

/// The position of the innermost of the first `n` scopes that was opened
/// for `extent`.
pub open spec fn find_extent(scopes: Seq<ScopeModel>, extent: CodeExtent, n: int) -> Option<int>
    decreases n,
{
    if 0 < n <= scopes.len() {
        if scopes[n - 1].extent == extent {
            Some(n - 1)
        } else {
            find_extent(scopes, extent, n - 1)
        }
    } else {
        None
    }
}

impl BuilderModel {
    /// A pass that has not started yet.
    pub open spec fn empty(fn_span: NodeId, kind: StateMachineKind) -> BuilderModel {
        BuilderModel {
            blocks: Seq::empty(),
            kind,
            fn_span,
            scopes: Seq::empty(),
            loop_scopes: Seq::empty(),
            extents: Seq::empty(),
            local_decls: Seq::empty(),
            visibility_scopes: Seq::empty(),
            cached_return_block: None,
        }
    }

    /// What the steps of the pass rely on: a scope is open, every loop
    /// scope names blocks of the table and scopes that are still open, the
    /// return block has no terminator yet, and the graph is well-formed.
    pub open spec fn wf(self) -> bool {
        &&& self.scopes.len() >= 1
        &&& forall|i: int|
            0 <= i < self.loop_scopes.len() ==> {
                &&& (#[trigger] self.loop_scopes[i]).depth <= self.scopes.len()
                &&& self.loop_scopes[i].continue_block < self.blocks.len()
                &&& self.loop_scopes[i].break_block < self.blocks.len()
            }
        &&& match self.cached_return_block {
            Some(block) => self.is_open(block),
            None => true,
        }
        &&& self.graph_wf()
    }

    /// The graph built so far is well-formed: what the blocks and the open
    /// scopes name exists.
    pub open spec fn graph_wf(self) -> bool {
        &&& blocks_wf(self.blocks, self.local_decls.len(), self.visibility_scopes.len())
        &&& forall|i: int|
            0 <= i < self.scopes.len() ==> decls_valid(
                (#[trigger] self.scopes[i]).decls,
                self.local_decls.len(),
            ) && self.scopes[i].visibility < self.visibility_scopes.len()
        &&& locals_wf(self.local_decls)
        &&& visibility_wf(self.visibility_scopes)
    }

    /// Lowering can go on in `block`.
    pub open spec fn ready(self, block: BasicBlock) -> bool {
        &&& self.wf()
        &&& self.is_open(block)
        &&& self.cached_return_block != Some(block)
    }

    /// The innermost open scope is the one opened for `extent`.
    pub open spec fn in_extent(self, extent: CodeExtent) -> bool {
        self.scopes.len() > 0 && self.scopes.last().extent == extent
    }

    /// What holds between the state before a form is lowered from `block`
    /// and the state `post` after it, where control continues in `next`:
    /// blocks are only added, no block but `block` and the added ones is
    /// touched, what `block` recorded at its entry stands as it was, of the
    /// blocks that were touched only `next` and the return block are left
    /// without a terminator, the same scopes and loops are open, and
    /// lowering can go on in `next`.
    pub open spec fn leads_to(self, block: BasicBlock, post: BuilderModel, next: BasicBlock) -> bool {
        &&& post.wf()
        &&& post.is_open(next)
        &&& post.cached_return_block != Some(next)
        &&& self.blocks.len() <= post.blocks.len()
        &&& (next == block || next >= self.blocks.len())
        &&& forall|b: int|
            0 <= b < self.blocks.len() && b != block ==> #[trigger] post.blocks[b] == self.blocks[b]
        &&& post.blocks[block as int].decls == self.blocks[block as int].decls
        &&& forall|b: int|
            0 <= b < post.blocks.len() && (#[trigger] post.blocks[b]).terminator is None ==> {
                ||| b == next
                ||| post.is_return_block(b)
                ||| (b < self.blocks.len() && b != block)
            }
        &&& post.scopes.len() == self.scopes.len()
        &&& forall|i: int|
            0 <= i < self.scopes.len() ==> (#[trigger] post.scopes[i]).extent
                == self.scopes[i].extent && post.scopes[i].visibility == self.scopes[i].visibility
        &&& post.loop_scopes == self.loop_scopes
        &&& post.kind == self.kind
        &&& post.fn_span == self.fn_span
        &&& match self.cached_return_block {
            Some(block) => post.cached_return_block == Some(block),
            None => match post.cached_return_block {
                Some(block) => block >= self.blocks.len(),
                None => true,
            },
        }
    }

    /// What holds between the state before names are declared and the
    /// state `post` after it: the pass can go on as before, and only the
    /// table of locals and what the innermost scope holds have changed.
    pub open spec fn declares(self, post: BuilderModel) -> bool {
        &&& post.wf()
        &&& post.blocks == self.blocks
        &&& post.scopes.len() == self.scopes.len()
        &&& forall|i: int|
            0 <= i < self.scopes.len() ==> (#[trigger] post.scopes[i]).extent
                == self.scopes[i].extent && post.scopes[i].visibility == self.scopes[i].visibility
        &&& post.loop_scopes == self.loop_scopes
        &&& post.cached_return_block == self.cached_return_block
        &&& post.kind == self.kind
        &&& post.fn_span == self.fn_span
        &&& post.visibility_scopes == self.visibility_scopes
        &&& post.extents == self.extents
    }

    /// `block` ends by going to `target`.
    pub open spec fn goes_to(self, block: BasicBlock, target: BasicBlock) -> bool {
        block < self.blocks.len() && match self.blocks[block as int].terminator {
            Some(terminator) => terminator.kind == (TerminatorKindModel::Goto { target }),
            None => false,
        }
    }

    /// No block ends in a suspension.
    pub open spec fn suspend_free(self) -> bool {
        forall|b: int|
            0 <= b < self.blocks.len() ==> !((#[trigger] self.blocks[b]).terminator matches Some(t)
                && t.kind is Suspend)
    }

    /// What holds in addition where the form held no transition: no block
    /// was added, and control continues where it was.
    pub open spec fn stays(self, block: BasicBlock, post: BuilderModel, next: BasicBlock) -> bool {
        &&& next == block
        &&& post.blocks.len() == self.blocks.len()
        &&& post.cached_return_block == self.cached_return_block
    }

    pub open spec fn inside_loop(self) -> bool {
        self.loop_scopes.len() > 0
    }

    /// The block is in the table and has no terminator yet.
    pub open spec fn is_open(self, block: BasicBlock) -> bool {
        block < self.blocks.len() && self.blocks[block as int].terminator is None
    }

    /// The block at the position is the return block.
    pub open spec fn is_return_block(self, position: int) -> bool {
        self.cached_return_block is Some && self.cached_return_block->Some_0 == position
    }

    /// The visibility scope of the innermost open scope.
    pub open spec fn visibility(self) -> VisibilityScope {
        if self.scopes.len() > 0 {
            self.scopes.last().visibility
        } else {
            0
        }
    }

    pub open spec fn source_info(self, span: NodeId) -> SourceInfo {
        SourceInfo { span, scope: self.visibility() }
    }

    /// The records of the `depth` outermost scopes.
    pub open spec fn snapshot(self, depth: int) -> Seq<ScopeDecls> {
        Seq::new(
            depth as nat,
            |i: int| ScopeDecls { extent: self.scopes[i].extent, decls: self.scopes[i].decls },
        )
    }

    /// The handle that the next block gets.
    pub open spec fn next_block(self) -> BasicBlock {
        self.blocks.len() as usize
    }

    /// A new block is started, which records the `depth` outermost scopes.
    pub open spec fn start_block(self, span: NodeId, name: Option<BlockName>, depth: int) -> BuilderModel {
        BuilderModel {
            blocks: self.blocks.push(
                BlockModel {
                    span,
                    name,
                    decls: self.snapshot(depth),
                    statements: Seq::empty(),
                    terminator: None,
                },
            ),
            ..self
        }
    }

    /// A new block is started, which records every open scope.
    pub open spec fn start_new_block(self, span: NodeId, name: Option<BlockName>) -> BuilderModel {
        self.start_block(span, name, self.scopes.len() as int)
    }

    pub open spec fn set_statements(self, block: BasicBlock, statements: Seq<Statement>) -> BuilderModel {
        BuilderModel {
            blocks: self.blocks.update(
                block as int,
                BlockModel { statements, ..self.blocks[block as int] },
            ),
            ..self
        }
    }

    pub open spec fn push_statement(self, block: BasicBlock, statement: Statement) -> BuilderModel {
        self.set_statements(block, self.blocks[block as int].statements.push(statement))
    }

    /// The statement `kind`, placed in the innermost scope, is appended.
    pub open spec fn push(self, block: BasicBlock, span: NodeId, kind: StatementKind) -> BuilderModel {
        self.push_statement(block, Statement { source_info: self.source_info(span), kind })
    }

    pub open spec fn set_terminator(self, block: BasicBlock, terminator: TerminatorModel) -> BuilderModel {
        BuilderModel {
            blocks: self.blocks.update(
                block as int,
                BlockModel { terminator: Some(terminator), ..self.blocks[block as int] },
            ),
            ..self
        }
    }

    /// The block is ended by `kind`, placed in the innermost scope.
    pub open spec fn terminate(self, block: BasicBlock, span: NodeId, kind: TerminatorKindModel) -> BuilderModel {
        self.set_terminator(block, TerminatorModel { source_info: self.source_info(span), kind })
    }

    /// The handle that the next extent gets.
    pub open spec fn next_extent(self) -> CodeExtent {
        self.extents.len() as usize
    }

    pub open spec fn start_new_extent(self, span: NodeId) -> BuilderModel {
        BuilderModel { extents: self.extents.push(CodeExtentData::Misc(span)), ..self }
    }

    /// A scope is opened for `extent`, with a visibility scope of its own
    /// below that of the scope around it.
    pub open spec fn push_scope(self, extent: CodeExtent, span: NodeId) -> BuilderModel {
        BuilderModel {
            scopes: self.scopes.push(
                ScopeModel {
                    extent,
                    visibility: self.visibility_scopes.len() as usize,
                    decls: Seq::empty(),
                    drops: Seq::empty(),
                },
            ),
            visibility_scopes: self.visibility_scopes.push(
                VisibilityScopeData {
                    span,
                    parent_scope: if self.scopes.len() > 0 {
                        Some(self.scopes.last().visibility)
                    } else {
                        None
                    },
                },
            ),
            ..self
        }
    }

    /// The innermost scope is closed, and what it owes is torn down at the
    /// end of `block`.
    pub open spec fn pop_scope(self, block: BasicBlock) -> BuilderModel {
        let scope = self.scopes.last();
        BuilderModel {
            scopes: self.scopes.drop_last(),
            ..self.set_statements(
                block,
                emit_drops(self.blocks[block as int].statements, scope, scope.drops.len() as int),
            )
        }
    }

    /// The scopes from `depth` on are torn down at the end of `block`; they
    /// stay open.
    pub open spec fn exit_scopes(self, depth: int, block: BasicBlock) -> BuilderModel {
        self.set_statements(
            block,
            emit_exit(
                self.blocks[block as int].statements,
                self.scopes,
                self.scopes.len() as int,
                depth,
            ),
        )
    }

    /// The innermost active or reserved declaration named `name`.
    pub open spec fn find_decl(self, name: Seq<char>) -> Option<Local> {
        find_in_scopes(self.scopes, self.local_decls, name, self.scopes.len() as int)
    }

    /// The handle that the next local gets.
    pub open spec fn next_local(self) -> Local {
        self.local_decls.len() as usize
    }

    /// A local is added to the table and recorded with `status` in the
    /// innermost scope.
    pub open spec fn declare(self, decl: LocalDeclModel, status: LiveDecl) -> BuilderModel {
        let top = self.scopes.len() - 1;
        BuilderModel {
            local_decls: self.local_decls.push(decl),
            scopes: self.scopes.update(
                top,
                ScopeModel { decls: self.scopes[top].decls.push(status), ..self.scopes[top] },
            ),
            ..self
        }
    }

    /// Every record `from` in an open scope becomes `to`.
    pub open spec fn replace_decl(self, from: LiveDecl, to: LiveDecl) -> BuilderModel {
        BuilderModel {
            scopes: Seq::new(
                self.scopes.len(),
                |i: int|
                    ScopeModel {
                        decls: replace_decl(self.scopes[i].decls, from, to),
                        ..self.scopes[i]
                    },
            ),
            ..self
        }
    }

    /// The local counts as moved in every open scope.
    pub open spec fn schedule_move(self, local: Local) -> BuilderModel {
        self.replace_decl(LiveDecl::Active(local), LiveDecl::Moved(local))
    }

    /// The reserved local counts as holding a value in every open scope.
    pub open spec fn initialize(self, local: Local) -> BuilderModel {
        self.replace_decl(LiveDecl::Forward(local), LiveDecl::Active(local))
    }

    /// The closing of the innermost scope opened for `extent` owes `drop`.
    pub open spec fn schedule_drop(self, extent: CodeExtent, drop: DropData) -> BuilderModel {
        match find_extent(self.scopes, extent, self.scopes.len() as int) {
            Some(i) => BuilderModel {
                scopes: self.scopes.update(
                    i,
                    ScopeModel { drops: self.scopes[i].drops.push(drop), ..self.scopes[i] },
                ),
                ..self
            },
            None => self,
        }
    }

    /// The end of the pass: every block must have a terminator, and every
    /// local must be recorded as active at the entry of some block.
    pub open spec fn finish(self) -> Result<MarModel, Error> {
        let open = first_open(self.blocks, 0);
        let unrecorded = first_unrecorded(self.blocks, self.local_decls.len() as int, 0);
        if open < self.blocks.len() {
            Err(Error { kind: ErrorKind::MissingTerminator(open as usize), span: self.fn_span })
        } else if unrecorded < self.local_decls.len() {
            Err(
                Error {
                    kind: ErrorKind::UninitializedVariable(unrecorded as usize),
                    span: self.fn_span,
                },
            )
        } else {
            Ok(self.graph())
        }
    }

    /// The graph as it stands.
    pub open spec fn graph(self) -> MarModel {
        MarModel {
            kind: self.kind,
            span: self.fn_span,
            blocks: self.blocks,
            local_decls: self.local_decls,
            visibility_scopes: self.visibility_scopes,
            extents: self.extents,
        }
    }

    pub open spec fn push_loop_scope(self, loop_scope: LoopScope) -> BuilderModel {
        BuilderModel { loop_scopes: self.loop_scopes.push(loop_scope), ..self }
    }

    pub open spec fn pop_loop_scope(self) -> BuilderModel {
        BuilderModel { loop_scopes: self.loop_scopes.drop_last(), ..self }
    }

    /// The block that every `return` leads to. Whenever it is started, it
    /// records the outermost scope alone, with the return slot holding its
    /// value.
    pub open spec fn return_block(self) -> BasicBlock {
        match self.cached_return_block {
            Some(block) => block,
            None => self.next_block(),
        }
    }

    pub open spec fn with_return_block(self) -> BuilderModel {
        match self.cached_return_block {
            Some(_) => self,
            None => BuilderModel {
                cached_return_block: Some(self.next_block()),
                blocks: self.initialize(RETURN_POINTER).start_block(
                    self.fn_span,
                    Some(BlockName::End),
                    1,
                ).blocks,
                ..self
            },
        }
    }
}

} // verus!

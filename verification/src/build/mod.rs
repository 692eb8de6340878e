//! Construction of the block graph from a structured function body.

use vstd::prelude::*;
use crate::ast::NodeId;
use crate::repr::{
    blocks_view, decl_scopes_view, local_decls_view, BasicBlock, BasicBlockData, BlockModel,
    BlockName, CodeExtent, CodeExtentData, LiveDecl, LocalDecl, SourceInfo, Statement,
    StatementKind, StateMachineKind, TerminatorKind, TerminatorModel, VisibilityScope,
    VisibilityScopeData, RETURN_POINTER,
};

pub mod block;
pub mod cfg;
pub mod construct;
pub mod expr;
pub mod finish;
pub mod into;
pub mod lowering;
pub mod matches;
pub mod model;
pub mod scope;
pub mod stmt;
pub mod suspend;
pub mod transition;
pub mod wellformed;

pub use construct::construct;
use model::{BuilderModel, DropData, LoopScope, ScopeModel};

verus! {

/// The table of blocks under construction.
#[derive(Debug)]
pub struct CFG {
    pub basic_blocks: Vec<BasicBlockData>,
}

impl View for CFG {
    type V = Seq<BlockModel>;

    open spec fn view(&self) -> Seq<BlockModel> {
        blocks_view(self.basic_blocks@)
    }
}

/// One open scope: its declarations in declaration order, and the teardown
/// that its closing owes.
#[derive(Debug)]
pub struct Scope {
    pub extent: CodeExtent,
    pub visibility: VisibilityScope,
    pub decls: Vec<LiveDecl>,
    pub drops: Vec<DropData>,
}

impl View for Scope {
    type V = ScopeModel;

    open spec fn view(&self) -> ScopeModel {
        ScopeModel {
            extent: self.extent,
            visibility: self.visibility,
            decls: self.decls@,
            drops: self.drops@,
        }
    }
}

/// What a stack of scopes holds.
pub open spec fn scopes_view(scopes: Seq<Scope>) -> Seq<ScopeModel> {
    Seq::new(scopes.len(), |i: int| scopes[i]@)
}

/// The context of one construction pass, threaded through the lowering of
/// one function.
#[derive(Debug)]
pub struct Builder {
    pub cfg: CFG,
    pub state_machine_kind: StateMachineKind,
    pub fn_span: NodeId,
    /// The open scopes, outermost first.
    pub scopes: Vec<Scope>,
    /// The enclosing loops, outermost first.
    pub loop_scopes: Vec<LoopScope>,
    pub extents: Vec<CodeExtentData>,
    pub local_decls: Vec<LocalDecl>,
    pub visibility_scopes: Vec<VisibilityScopeData>,
    /// The block with the `Return` terminator, once it is started.
    pub cached_return_block: Option<BasicBlock>,
}

impl View for Builder {
    type V = BuilderModel;

    open spec fn view(&self) -> BuilderModel {
        BuilderModel {
            blocks: self.cfg@,
            kind: self.state_machine_kind,
            fn_span: self.fn_span,
            scopes: scopes_view(self.scopes@),
            loop_scopes: self.loop_scopes@,
            extents: self.extents@,
            local_decls: local_decls_view(self.local_decls@),
            visibility_scopes: self.visibility_scopes@,
            cached_return_block: self.cached_return_block,
        }
    }
}

impl Builder {
    /// A pass that has not started yet: no block, no scope, no local.
    pub fn new(span: NodeId, state_machine_kind: StateMachineKind) -> (r: Builder)
        ensures
            r@ == BuilderModel::empty(span, state_machine_kind),
    {
        let r = Builder {
            cfg: CFG { basic_blocks: Vec::new() },
            state_machine_kind,
            fn_span: span,
            scopes: Vec::new(),
            loop_scopes: Vec::new(),
            extents: Vec::new(),
            local_decls: Vec::new(),
            visibility_scopes: Vec::new(),
            cached_return_block: None,
        };
        assert(r@.blocks =~= Seq::empty());
        assert(r@.scopes =~= Seq::empty());
        assert(r@.local_decls =~= Seq::empty());
        r
    }

    pub fn is_inside_loop(&self) -> (r: bool)
        ensures
            r == self@.inside_loop(),
    {
        self.loop_scopes.len() > 0
    }

    /// Hands out the identity of a new lexical region.
    pub fn start_new_extent(&mut self, span: NodeId) -> (extent: CodeExtent)
        ensures
            extent == old(self)@.next_extent(),
            final(self)@ == old(self)@.start_new_extent(span),
    {
        let extent = self.extents.len();
        self.extents.push(CodeExtentData::Misc(span));
        extent
    }

    /// The visibility scope of the innermost open scope.
    pub fn visibility(&self) -> (r: VisibilityScope)
        ensures
            r == self@.visibility(),
    {
        let n = self.scopes.len();
        if n > 0 {
            self.scopes[n - 1].visibility
        } else {
            0
        }
    }

    /// Starts a block that records every open scope, and returns its handle.
    pub fn start_new_block(&mut self, span: NodeId, name: Option<BlockName>) -> (block: BasicBlock)
        ensures
            block == old(self)@.blocks.len(),
            block == old(self)@.next_block(),
            final(self)@ == old(self)@.start_new_block(span, name),
            old(self)@.graph_wf() ==> final(self)@.graph_wf(),
    {
        proof {
            if self@.graph_wf() {
                self@.lemma_start_block(span, name, self@.scopes.len() as int);
            }
        }
        let decls = self.find_live_decls(self.scopes.len());
        self.cfg.start_new_block(span, name, decls)
    }

    /// The block that every `return` leads to, started at the first call.
    /// It records the outermost scope alone, with the return slot holding
    /// its value.
    pub fn return_block(&mut self) -> (block: BasicBlock)
        requires
            old(self)@.scopes.len() >= 1,
        ensures
            old(self)@.cached_return_block is None ==> block == old(self)@.blocks.len(),
            block == old(self)@.return_block(),
            final(self)@ == old(self)@.with_return_block(),
            old(self)@.graph_wf() ==> final(self)@.graph_wf(),
    {
        proof {
            if self@.graph_wf() {
                self@.lemma_with_return_block();
            }
        }
        match self.cached_return_block {
            Some(rb) => rb,
            None => {
                let mut decls = self.find_live_decls(1);
                let ghost before = decls@;
                assert(decls@.len() == decl_scopes_view(decls@).len());
                assert(before[0]@ == self@.snapshot(1)[0]);
                scope::replace_in(
                    &mut decls[0].decls,
                    LiveDecl::Forward(RETURN_POINTER),
                    LiveDecl::Active(RETURN_POINTER),
                );
                assert(decls@[0].extent == before[0].extent);
                assert(decls@[0]@ == self@.initialize(RETURN_POINTER).snapshot(1)[0]);
                assert(decl_scopes_view(decls@) =~= self@.initialize(RETURN_POINTER).snapshot(1));
                let rb = self.cfg.start_new_block(self.fn_span, Some(BlockName::End), decls);
                self.cached_return_block = Some(rb);
                rb
            },
        }
    }

    /// Appends the statement `kind`, placed in the innermost scope.
    pub fn push(&mut self, block: BasicBlock, span: NodeId, kind: StatementKind)
        requires
            block < old(self)@.blocks.len(),
        ensures
            final(self)@ == old(self)@.push(block, span, kind),
            old(self)@.graph_wf() && old(self)@.visibility() < old(self)@.visibility_scopes.len()
                ==> final(self)@.graph_wf(),
    {
        proof {
            if self@.graph_wf() && self@.visibility() < self@.visibility_scopes.len() {
                self@.lemma_push_statement(
                    block,
                    Statement { source_info: self@.source_info(span), kind },
                );
            }
        }
        let source_info = SourceInfo { span, scope: self.visibility() };
        self.cfg.push(block, Statement { source_info, kind });
    }

    /// Ends the block with `kind`, placed in the innermost scope.
    pub fn terminate(&mut self, span: NodeId, block: BasicBlock, kind: TerminatorKind)
        requires
            old(self)@.is_open(block),
        ensures
            final(self)@ == old(self)@.terminate(block, span, kind@),
            old(self)@.graph_wf() && old(self)@.visibility() < old(self)@.visibility_scopes.len()
                && (forall|k: int|
                0 <= k < kind@.successors().len() ==> #[trigger] kind@.successors()[k] < old(self)@.blocks.len()) ==> final(self)@.graph_wf(),
    {
        proof {
            let terminator = TerminatorModel { source_info: self@.source_info(span), kind: kind@ };
            if self@.graph_wf() && terminator.wf(
                self@.blocks.len(),
                self@.visibility_scopes.len(),
            ) {
                self@.lemma_set_terminator(block, terminator);
            }
        }
        let source_info = SourceInfo { span, scope: self.visibility() };
        self.cfg.terminate(block, source_info, kind);
    }
}

/// Why a function cannot be lowered.
#[derive(Clone, Copy, Debug, PartialEq, Eq, Structural)]
pub enum ErrorKind {
    /// The item is not a function.
    NotAFunction,
    /// An item is declared inside the body.
    ItemDeclaration,
    /// A block ends in a value.
    BlockTailExpression,
    /// A `return` without a value.
    EmptyReturn,
    /// A `let` without an initializer.
    MissingInitializer,
    /// The condition of a conditional holds a transition.
    TransitionInCondition,
    /// The arguments of a suspension marker are not one expression.
    MalformedSuspension,
    /// A transition stands inside a form that is not lowered.
    UnsupportedExpression,
    /// The block was never ended.
    MissingTerminator(BasicBlock),
    /// The local is active at the entry of no block.
    UninitializedVariable(usize),
}

impl ErrorKind {
    /// The error rejects a form of the source; it does not report a graph
    /// that the pass left unfinished.
    pub open spec fn is_rejection(self) -> bool {
        !(self is MissingTerminator) && !(self is UninitializedVariable)
    }
}

/// A failed construction: the reason, and the place in the source.
#[derive(Clone, Copy, Debug, PartialEq, Eq, Structural)]
pub struct Error {
    pub kind: ErrorKind,
    pub span: NodeId,
}

/// Identity of a scope in the order in which scopes were opened.
#[derive(Clone, Copy, Debug, PartialEq, Eq, Hash, Structural)]
pub struct ScopeId(pub u32);

impl ScopeId {
    pub fn new(index: usize) -> (r: ScopeId)
        requires
            index < u32::MAX,
        ensures
            r.0 == index,
    {
        ScopeId(index as u32)
    }

    pub fn index(self) -> (r: usize)
        ensures
            r == self.0,
    {
        self.0 as usize
    }
}

/// What is kept of a scope beside its bookkeeping: the extent it was opened
/// for.
#[derive(Clone, Copy, Debug, PartialEq, Eq, Structural)]
pub struct ScopeAuxiliary {
    pub extent: CodeExtent,
}

/// A block together with a value produced on the way to it.
#[must_use]
#[derive(Debug)]
pub struct BlockAnd<T>(pub BasicBlock, pub T);

/// `block`, paired with `v`.
pub fn and<T>(block: BasicBlock, v: T) -> (r: BlockAnd<T>)
    ensures
        r.0 == block,
        r.1 == v,
{
    BlockAnd(block, v)
}

/// `block`, paired with the unit value.
pub fn unit(block: BasicBlock) -> (r: BlockAnd<()>)
    ensures
        r.0 == block,
{
    BlockAnd(block, ())
}

} // verus!

//! The block graph: blocks, statements, terminators, locals and the record of
//! which locals are live where.

use vstd::prelude::*;
use crate::ast::{Mutability, NodeId};

verus! {

/// Handle of a block: its position in the graph's table of blocks.
pub type BasicBlock = usize;

/// Handle of a local: its position in the table of declarations.
pub type Local = usize;

/// Identity of a lexical region, used only to pair the opening of a scope
/// with its closing.
pub type CodeExtent = usize;

/// Handle of a node in the tree of nested blocks by which the statements of
/// a basic block are grouped again for output.
pub type VisibilityScope = usize;

/// What is known of a lexical region.
#[derive(Clone, Copy, Debug, PartialEq, Eq, Structural)]
pub enum CodeExtentData {
    /// The region of the syntax node.
    Misc(NodeId),
}

/// The block in which every function starts.
pub const START_BLOCK: BasicBlock = 0;

/// The slot that receives the function's result.
pub const RETURN_POINTER: Local = 0;

/// The root of the tree of visibility scopes: the scope of the arguments.
pub const ARGUMENT_VISIBILITY_SCOPE: VisibilityScope = 0;

/// How the outputs of the generated machine are wrapped.
#[derive(Clone, Copy, Debug, PartialEq, Eq, Structural)]
pub enum StateMachineKind {
    /// A lazy sequence: each suspension yields one element, and the return
    /// ends the sequence.
    Generator,
    /// A single eventual value: each suspension reports that the value is
    /// not ready, and the return reports it.
    Async,
}

/// The role in which a block was started.
#[derive(Clone, Copy, Debug, PartialEq, Eq, Structural)]
pub enum BlockName {
    Start,
    End,
    Then,
    Else,
    EndIf,
    Loop,
    LoopExit,
    Arm,
    EndMatch,
    AfterSuspend,
    AfterBreak,
    AfterContinue,
    AfterReturn,
}

/// The status of one declaration in one scope.
#[derive(Clone, Copy, Debug, PartialEq, Eq, Structural)]
pub enum LiveDecl {
    /// Holds a value: a state entered here captures it.
    Active(Local),
    /// Its value was moved out: it is neither captured nor dropped again.
    Moved(Local),
    /// A slot reserved before its initializer has run.
    Forward(Local),
}

impl LiveDecl {
    pub open spec fn spec_local(self) -> Local {
        match self {
            LiveDecl::Active(l) => l,
            LiveDecl::Moved(l) => l,
            LiveDecl::Forward(l) => l,
        }
    }

    #[verifier::when_used_as_spec(spec_local)]
    pub fn local(self) -> (r: Local)
        ensures
            r == self.spec_local(),
    {
        match self {
            LiveDecl::Active(l) => l,
            LiveDecl::Moved(l) => l,
            LiveDecl::Forward(l) => l,
        }
    }
}

/// The declarations of one open scope, in declaration order, as recorded at
/// the start of a block.
#[derive(Debug)]
pub struct DeclScope {
    pub extent: CodeExtent,
    pub decls: Vec<LiveDecl>,
}

/// What a [`DeclScope`] holds.
pub ghost struct ScopeDecls {
    pub extent: CodeExtent,
    pub decls: Seq<LiveDecl>,
}

impl View for DeclScope {
    type V = ScopeDecls;

    open spec fn view(&self) -> ScopeDecls {
        ScopeDecls { extent: self.extent, decls: self.decls@ }
    }
}

/// What a list of [`DeclScope`]s holds.
pub open spec fn decl_scopes_view(scopes: Seq<DeclScope>) -> Seq<ScopeDecls> {
    Seq::new(scopes.len(), |i: int| scopes[i]@)
}

/// A shadowed local whose value survives under a synthesized name.
#[derive(Clone, Copy, Debug, PartialEq, Eq, Structural)]
pub struct Alias {
    pub decl: Local,
}

/// Where a statement or terminator comes from.
#[derive(Clone, Copy, Debug, PartialEq, Eq, Structural)]
pub struct SourceInfo {
    pub span: NodeId,
    pub scope: VisibilityScope,
}

/// What a `let` binds.
#[derive(Clone, Copy, Debug, PartialEq, Eq, Structural)]
pub enum LetPat {
    /// A pattern of the surface syntax.
    Syntax(NodeId),
    /// The local, under its own name.
    Local(Local),
    /// The synthesized name under which the value of a shadowed local
    /// survives.
    Shadow(Local),
    /// Nothing: the value is not kept.
    Wildcard,
}

/// What a `let` is initialized with.
#[derive(Clone, Copy, Debug, PartialEq, Eq, Structural)]
pub enum LetInit {
    /// An expression of the surface syntax.
    Expr(NodeId),
    /// The value of a local, read under its own name.
    Local(Local),
    /// The unit value: what an initializer that suspends resumes with.
    Unit,
}

/// Where the value of an expression goes.
#[derive(Clone, Copy, Debug, PartialEq, Eq, Structural)]
pub enum Lvalue {
    /// Nowhere: the value is not kept.
    Ignore,
    /// To the local, under its own name.
    Local(Local),
    /// To what a pattern of the surface syntax binds, with the type that
    /// is written for it, if one is.
    Pattern { pat: NodeId, ty: Option<NodeId> },
}

impl Lvalue {
    /// The statement that gives the destination the unit value.
    pub open spec fn assign_unit(self) -> StatementKind {
        match self {
            Lvalue::Ignore => StatementKind::Let {
                pat: LetPat::Wildcard,
                ty: None,
                init: LetInit::Unit,
            },
            Lvalue::Local(local) => StatementKind::Let {
                pat: LetPat::Local(local),
                ty: None,
                init: LetInit::Unit,
            },
            Lvalue::Pattern { pat, ty } => StatementKind::Let {
                pat: LetPat::Syntax(pat),
                ty,
                init: LetInit::Unit,
            },
        }
    }
}

#[derive(Clone, Copy, Debug, PartialEq, Eq, Structural)]
pub enum StatementKind {
    /// A statement of the surface syntax, kept whole.
    Expr(NodeId),
    Let { pat: LetPat, ty: Option<NodeId>, init: LetInit },
    /// Tears `local` down; with an alias, the shadowed local is bound to
    /// its own name again afterwards.
    Drop { local: Local, alias: Option<Alias> },
}

#[derive(Clone, Copy, Debug, PartialEq, Eq, Structural)]
pub struct Statement {
    pub source_info: SourceInfo,
    pub kind: StatementKind,
}

/// One arm of a `Match` terminator.
#[derive(Clone, Copy, Debug, PartialEq, Eq, Structural)]
pub struct MatchArm {
    /// The arm of the surface syntax: its patterns and guard.
    pub id: NodeId,
    pub block: BasicBlock,
}

#[derive(Debug)]
pub enum TerminatorKind {
    Goto { target: BasicBlock },
    If { cond: NodeId, targets: (BasicBlock, BasicBlock) },
    Match { discr: NodeId, arms: Vec<MatchArm> },
    Suspend { rvalue: NodeId, target: BasicBlock },
    Return,
}

/// What a [`TerminatorKind`] holds.
pub ghost enum TerminatorKindModel {
    Goto { target: BasicBlock },
    If { cond: NodeId, targets: (BasicBlock, BasicBlock) },
    Match { discr: NodeId, arms: Seq<MatchArm> },
    Suspend { rvalue: NodeId, target: BasicBlock },
    Return,
}

impl View for TerminatorKind {
    type V = TerminatorKindModel;

    open spec fn view(&self) -> TerminatorKindModel {
        match self {
            TerminatorKind::Goto { target } => TerminatorKindModel::Goto { target: *target },
            TerminatorKind::If { cond, targets } => TerminatorKindModel::If {
                cond: *cond,
                targets: *targets,
            },
            TerminatorKind::Match { discr, arms } => TerminatorKindModel::Match {
                discr: *discr,
                arms: arms@,
            },
            TerminatorKind::Suspend { rvalue, target } => TerminatorKindModel::Suspend {
                rvalue: *rvalue,
                target: *target,
            },
            TerminatorKind::Return => TerminatorKindModel::Return,
        }
    }
}

impl TerminatorKindModel {
    /// The blocks that control may pass to, in order.
    pub open spec fn successors(self) -> Seq<BasicBlock> {
        match self {
            TerminatorKindModel::Goto { target } => seq![target],
            TerminatorKindModel::If { cond, targets } => seq![targets.0, targets.1],
            TerminatorKindModel::Match { discr, arms } => Seq::new(
                arms.len(),
                |i: int| arms[i].block,
            ),
            TerminatorKindModel::Suspend { rvalue, target } => seq![target],
            TerminatorKindModel::Return => Seq::empty(),
        }
    }

    /// The number of values that the terminator hands to the driver.
    pub open spec fn emitted(self) -> nat {
        match self {
            TerminatorKindModel::Suspend { .. } => 1,
            _ => 0,
        }
    }
}

/// Each kind of terminator leads to as many blocks as its shape says, and
/// hands as many values to the driver: a `Goto` leads to one block, an
/// `If` to two, a `Match` to one for each arm, a `Suspend` to one, and
/// hands one value over, and a `Return` leads nowhere.
pub proof fn lemma_terminator_arity(kind: TerminatorKindModel)
    ensures
        match kind {
            TerminatorKindModel::Goto { .. } => kind.successors().len() == 1 && kind.emitted() == 0,
            TerminatorKindModel::If { .. } => kind.successors().len() == 2 && kind.emitted() == 0,
            TerminatorKindModel::Match { arms, .. } => kind.successors().len() == arms.len()
                && kind.emitted() == 0,
            TerminatorKindModel::Suspend { .. } => kind.successors().len() == 1 && kind.emitted()
                == 1,
            TerminatorKindModel::Return => kind.successors().len() == 0 && kind.emitted() == 0,
        },
{
}

#[derive(Debug)]
pub struct Terminator {
    pub source_info: SourceInfo,
    pub kind: TerminatorKind,
}

/// What a [`Terminator`] holds.
pub ghost struct TerminatorModel {
    pub source_info: SourceInfo,
    pub kind: TerminatorKindModel,
}

impl View for Terminator {
    type V = TerminatorModel;

    open spec fn view(&self) -> TerminatorModel {
        TerminatorModel { source_info: self.source_info, kind: self.kind@ }
    }
}

impl TerminatorModel {
    /// The terminator stands in one of `scopes` visibility scopes and leads
    /// to blocks of a graph of `blocks` blocks only.
    pub open spec fn wf(self, blocks: nat, scopes: nat) -> bool {
        &&& self.source_info.scope < scopes
        &&& forall|k: int|
            0 <= k < self.kind.successors().len() ==> #[trigger] self.kind.successors()[k] < blocks
    }
}

/// What a terminator that may be missing holds.
pub open spec fn terminator_view(terminator: Option<Terminator>) -> Option<TerminatorModel> {
    match terminator {
        Some(terminator) => Some(terminator@),
        None => None,
    }
}

#[derive(Debug)]
pub struct BasicBlockData {
    pub span: NodeId,
    pub name: Option<BlockName>,
    /// The live declarations at the entry of the block.
    pub decls: Vec<DeclScope>,
    pub statements: Vec<Statement>,
    pub terminator: Option<Terminator>,
}

/// What a [`BasicBlockData`] holds.
pub ghost struct BlockModel {
    pub span: NodeId,
    pub name: Option<BlockName>,
    pub decls: Seq<ScopeDecls>,
    pub statements: Seq<Statement>,
    pub terminator: Option<TerminatorModel>,
}

impl View for BasicBlockData {
    type V = BlockModel;

    open spec fn view(&self) -> BlockModel {
        BlockModel {
            span: self.span,
            name: self.name,
            decls: decl_scopes_view(self.decls@),
            statements: self.statements@,
            terminator: terminator_view(self.terminator),
        }
    }
}

/// Every record names a local of a table of `locals` declarations.
pub open spec fn decls_valid(decls: Seq<LiveDecl>, locals: nat) -> bool {
    forall|d: int| 0 <= d < decls.len() ==> (#[trigger] decls[d]).spec_local() < locals
}

/// Every statement stands in one of `scopes` visibility scopes.
pub open spec fn statements_valid(statements: Seq<Statement>, scopes: nat) -> bool {
    forall|i: int| 0 <= i < statements.len() ==> (#[trigger] statements[i]).source_info.scope < scopes
}

impl BlockModel {
    /// The block fits a graph of `blocks` blocks, `locals` declarations and
    /// `scopes` visibility scopes: what it records, where its statements
    /// stand and where its terminator leads all exist.
    pub open spec fn wf(self, blocks: nat, locals: nat, scopes: nat) -> bool {
        &&& forall|s: int| 0 <= s < self.decls.len() ==> decls_valid((#[trigger] self.decls[s]).decls, locals)
        &&& statements_valid(self.statements, scopes)
        &&& match self.terminator {
            Some(terminator) => terminator.wf(blocks, scopes),
            None => true,
        }
    }

    /// The block ends in a suspension after which the machine resumes in
    /// `block`.
    pub open spec fn suspends_to(self, block: BasicBlock) -> bool {
        match self.terminator {
            Some(terminator) => match terminator.kind {
                TerminatorKindModel::Suspend { rvalue, target } => target == block,
                _ => false,
            },
            None => false,
        }
    }

    /// The local is recorded as active at the entry of the block.
    pub open spec fn records(self, local: Local) -> bool {
        exists|s: int|
            0 <= s < self.decls.len() && (#[trigger] self.decls[s]).decls.contains(
                LiveDecl::Active(local),
            )
    }
}

/// What a table of blocks holds.
pub open spec fn blocks_view(blocks: Seq<BasicBlockData>) -> Seq<BlockModel> {
    Seq::new(blocks.len(), |i: int| blocks[i]@)
}

impl BasicBlockData {
    pub fn new(span: NodeId, name: Option<BlockName>, decls: Vec<DeclScope>) -> (r: Self)
        ensures
            r@ == (BlockModel {
                span,
                name,
                decls: decl_scopes_view(decls@),
                statements: Seq::empty(),
                terminator: None,
            }),
    {
        BasicBlockData { span, name, decls, statements: Vec::new(), terminator: None }
    }
}

#[derive(Debug)]
pub struct LocalDecl {
    pub ident: String,
    pub mutability: Mutability,
    /// The declared type, if one is written.
    pub ty: Option<NodeId>,
    pub source_info: SourceInfo,
    /// The outer local of the same name that this one shadows.
    pub shadowed_decl: Option<Local>,
}

/// What a [`LocalDecl`] holds.
pub ghost struct LocalDeclModel {
    pub ident: Seq<char>,
    pub mutability: Mutability,
    pub ty: Option<NodeId>,
    pub source_info: SourceInfo,
    pub shadowed_decl: Option<Local>,
}

impl View for LocalDecl {
    type V = LocalDeclModel;

    open spec fn view(&self) -> LocalDeclModel {
        LocalDeclModel {
            ident: self.ident@,
            mutability: self.mutability,
            ty: self.ty,
            source_info: self.source_info,
            shadowed_decl: self.shadowed_decl,
        }
    }
}

/// What a table of declarations holds.
pub open spec fn local_decls_view(decls: Seq<LocalDecl>) -> Seq<LocalDeclModel> {
    Seq::new(decls.len(), |i: int| decls[i]@)
}

#[derive(Clone, Copy, Debug, PartialEq, Eq, Structural)]
pub struct VisibilityScopeData {
    pub span: NodeId,
    pub parent_scope: Option<VisibilityScope>,
}

} // verus!

verus! {

/// Every block of the table fits a graph of the table's size.
pub open spec fn blocks_wf(blocks: Seq<BlockModel>, locals: nat, scopes: nat) -> bool {
    forall|b: int| 0 <= b < blocks.len() ==> (#[trigger] blocks[b]).wf(blocks.len(), locals, scopes)
}

/// Every local that shadows another was declared after it.
pub open spec fn locals_wf(local_decls: Seq<LocalDeclModel>) -> bool {
    forall|l: int|
        0 <= l < local_decls.len() ==> match (#[trigger] local_decls[l]).shadowed_decl {
            Some(outer) => outer < l,
            None => true,
        }
}

/// Every visibility scope but the root lies below one that was opened
/// before it.
pub open spec fn visibility_wf(scopes: Seq<VisibilityScopeData>) -> bool {
    forall|v: int|
        0 <= v < scopes.len() ==> match (#[trigger] scopes[v]).parent_scope {
            Some(parent) => parent < v,
            None => v == 0,
        }
}

/// The position of the first block from `from` on that has no terminator,
/// or the number of blocks where each has one.
pub open spec fn first_open(blocks: Seq<BlockModel>, from: int) -> int
    decreases blocks.len() - from,
{
    if 0 <= from < blocks.len() {
        if blocks[from].terminator is None {
            from
        } else {
            first_open(blocks, from + 1)
        }
    } else {
        blocks.len() as int
    }
}

/// The local is recorded as active at the entry of some block.
pub open spec fn recorded(blocks: Seq<BlockModel>, local: Local) -> bool {
    exists|b: int| 0 <= b < blocks.len() && (#[trigger] blocks[b]).records(local)
}

/// The first of the locals `from..locals` that is recorded as active at the
/// entry of no block, or `locals` where each is recorded.
pub open spec fn first_unrecorded(blocks: Seq<BlockModel>, locals: int, from: int) -> int
    decreases locals - from,
{
    if 0 <= from < locals {
        if !recorded(blocks, from as usize) {
            from
        } else {
            first_unrecorded(blocks, locals, from + 1)
        }
    } else {
        locals
    }
}

/// The finished graph of one function.
#[derive(Debug)]
pub struct Mar {
    pub state_machine_kind: StateMachineKind,
    pub span: NodeId,
    pub basic_blocks: Vec<BasicBlockData>,
    pub local_decls: Vec<LocalDecl>,
    pub visibility_scopes: Vec<VisibilityScopeData>,
    pub extents: Vec<CodeExtentData>,
}

/// What a [`Mar`] holds.
pub ghost struct MarModel {
    pub kind: StateMachineKind,
    pub span: NodeId,
    pub blocks: Seq<BlockModel>,
    pub local_decls: Seq<LocalDeclModel>,
    pub visibility_scopes: Seq<VisibilityScopeData>,
    pub extents: Seq<CodeExtentData>,
}

impl View for Mar {
    type V = MarModel;

    open spec fn view(&self) -> MarModel {
        MarModel {
            kind: self.state_machine_kind,
            span: self.span,
            blocks: blocks_view(self.basic_blocks@),
            local_decls: local_decls_view(self.local_decls@),
            visibility_scopes: self.visibility_scopes@,
            extents: self.extents@,
        }
    }
}

impl MarModel {
    /// The graph is well-formed: every block has a terminator, and what the
    /// blocks name exists.
    pub open spec fn wf(self) -> bool {
        &&& blocks_wf(self.blocks, self.local_decls.len(), self.visibility_scopes.len())
        &&& locals_wf(self.local_decls)
        &&& visibility_wf(self.visibility_scopes)
        &&& forall|b: int| 0 <= b < self.blocks.len() ==> (#[trigger] self.blocks[b]).terminator is Some
    }

    /// The blocks that control may pass to from the end of `block`.
    pub open spec fn successors(self, block: BasicBlock) -> Seq<BasicBlock> {
        match self.blocks[block as int].terminator {
            Some(terminator) => terminator.kind.successors(),
            None => Seq::empty(),
        }
    }

    /// The blocks form a way through the graph from the entry block: each
    /// but the first is a successor of the one before it.
    pub open spec fn is_path(self, path: Seq<BasicBlock>) -> bool {
        &&& path.len() > 0
        &&& path[0] == START_BLOCK
        &&& forall|i: int|
            0 <= i < path.len() - 1 ==> (#[trigger] path[i]) < self.blocks.len()
                && self.successors(path[i]).contains(path[i + 1])
    }

    /// Control can reach the block from the entry block.
    pub open spec fn reachable(self, block: BasicBlock) -> bool {
        exists|path: Seq<BasicBlock>| #[trigger] self.is_path(path) && path.last() == block
    }

    /// A successor of a reachable block is reachable.
    pub proof fn lemma_reachable_step(self, block: BasicBlock, next: BasicBlock)
        requires
            self.reachable(block),
            block < self.blocks.len(),
            self.successors(block).contains(next),
        ensures
            self.reachable(next),
    {
        let path = choose|path: Seq<BasicBlock>| #[trigger] self.is_path(path) && path.last() == block;
        let longer = path.push(next);
        assert forall|i: int| 0 <= i < longer.len() - 1 implies (#[trigger] longer[i])
            < self.blocks.len() && self.successors(longer[i]).contains(longer[i + 1]) by {
            if i < path.len() - 1 {
                assert(path[i] < self.blocks.len());
                assert(longer[i] == path[i] && longer[i + 1] == path[i + 1]);
            }
        }
        assert(self.is_path(longer) && longer.last() == next);
    }

    /// The entry block is reachable.
    pub proof fn lemma_reachable_start(self)
        ensures
            self.reachable(START_BLOCK),
    {
        let path = seq![START_BLOCK];
        assert(self.is_path(path) && path.last() == START_BLOCK);
    }

    /// The machine resumes in `block` after a suspension: a block that
    /// control can reach ends in a suspension that leads there.
    pub open spec fn is_resume_block(self, block: BasicBlock) -> bool {
        exists|b: BasicBlock|
            b < self.blocks.len() && #[trigger] self.reachable(b) && self.blocks[b as int].suspends_to(
                block,
            )
    }
}

/// Where every block from `from` on has a terminator, no position is the
/// first without one; otherwise the first one is a block without.
pub proof fn lemma_first_open(blocks: Seq<BlockModel>, from: int)
    requires
        0 <= from <= blocks.len(),
    ensures
        from <= first_open(blocks, from) <= blocks.len(),
        first_open(blocks, from) < blocks.len() ==> blocks[first_open(
            blocks,
            from,
        )].terminator is None,
        forall|b: int| from <= b < first_open(blocks, from) ==> (#[trigger] blocks[b]).terminator is Some,
    decreases blocks.len() - from,
{
    if from < blocks.len() && blocks[from].terminator is Some {
        lemma_first_open(blocks, from + 1);
    }
}

/// Where every local from `from` on is recorded, no position is the first
/// that is not; otherwise the first one is a local that no block records.
pub proof fn lemma_first_unrecorded(blocks: Seq<BlockModel>, locals: int, from: int)
    requires
        0 <= from <= locals,
    ensures
        from <= first_unrecorded(blocks, locals, from) <= locals,
        first_unrecorded(blocks, locals, from) < locals ==> !recorded(
            blocks,
            first_unrecorded(blocks, locals, from) as usize,
        ),
        forall|l: Local|
            from <= l < first_unrecorded(blocks, locals, from) ==> #[trigger] recorded(blocks, l),
    decreases locals - from,
{
    if from < locals && recorded(blocks, from as usize) {
        lemma_first_unrecorded(blocks, locals, from + 1);
    }
}

/// A block that fits a graph fits every larger one.
pub proof fn lemma_block_wf_grows(
    block: BlockModel,
    blocks: nat,
    locals: nat,
    scopes: nat,
    more_blocks: nat,
    more_locals: nat,
    more_scopes: nat,
)
    requires
        block.wf(blocks, locals, scopes),
        blocks <= more_blocks,
        locals <= more_locals,
        scopes <= more_scopes,
    ensures
        block.wf(more_blocks, more_locals, more_scopes),
{
    assert forall|s: int| 0 <= s < block.decls.len() implies decls_valid(
        (#[trigger] block.decls[s]).decls,
        more_locals,
    ) by {
        assert(decls_valid(block.decls[s].decls, locals));
    }
}

/// The blocks of a well-formed table fit every larger graph.
pub proof fn lemma_blocks_wf_grow(
    table: Seq<BlockModel>,
    locals: nat,
    scopes: nat,
    more_blocks: nat,
    more_locals: nat,
    more_scopes: nat,
)
    requires
        blocks_wf(table, locals, scopes),
        table.len() <= more_blocks,
        locals <= more_locals,
        scopes <= more_scopes,
    ensures
        forall|b: int|
            0 <= b < table.len() ==> (#[trigger] table[b]).wf(more_blocks, more_locals, more_scopes),
{
    assert forall|b: int| 0 <= b < table.len() implies (#[trigger] table[b]).wf(
        more_blocks,
        more_locals,
        more_scopes,
    ) by {
        lemma_block_wf_grows(
            table[b],
            table.len(),
            locals,
            scopes,
            more_blocks,
            more_locals,
            more_scopes,
        );
    }
}

} // verus!

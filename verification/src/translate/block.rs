//! The handler of a block: its statements, grouped again into the nested
//! blocks of the source, and the step that its terminator stands for.

use vstd::prelude::*;
use crate::ast::NodeId;
use crate::repr::{
    terminator_view, BasicBlock, LetInit, LetPat, Local, MarModel, Statement, StatementKind,
    StateMachineKind, Terminator, TerminatorKind, TerminatorKindModel, TerminatorModel,
    VisibilityScope, VisibilityScopeData, ARGUMENT_VISIBILITY_SCOPE, RETURN_POINTER,
};
use crate::translate::state::{StateExpr, StateExprModel};
use crate::translate::Builder;

verus! {

/// What the machine hands to its driver when it gives control back.
#[derive(Clone, Copy, Debug, PartialEq, Eq, Structural)]
pub enum Output {
    /// The next element of a lazy sequence: the value of the expression.
    Element(NodeId),
    /// The eventual value is not ready: the value of the expression says
    /// what the computation waits for.
    NotReady(NodeId),
    /// The lazy sequence has ended.
    End,
    /// The eventual value is ready: it is the value of the local.
    Ready(Local),
}

/// One arm of a step that matches: the arm of the source, and the state
/// that the machine goes to in it.
#[derive(Debug)]
pub struct MatchStep {
    pub arm: NodeId,
    pub next: StateExpr,
}

/// The step that the machine takes at the end of a block.
#[derive(Debug)]
pub enum Action {
    /// The state becomes `next`, and the machine goes on stepping.
    Goto { next: StateExpr },
    /// The branch of the source, with a change of state in each arm.
    If { cond: NodeId, then: StateExpr, otherwise: StateExpr },
    /// The match of the source, with a change of state in each arm.
    Match { discr: NodeId, arms: Vec<MatchStep> },
    /// The state becomes `next`, and control goes back to the driver with
    /// `output`.
    Suspend { output: Output, next: StateExpr },
    /// The machine has finished: control goes back to the driver with
    /// `output`, and the state stays the one that must not be driven.
    Return { output: Output },
}

/// What an [`Action`] holds.
pub ghost enum ActionModel {
    Goto { next: StateExprModel },
    If { cond: NodeId, then: StateExprModel, otherwise: StateExprModel },
    Match { discr: NodeId, arms: Seq<(NodeId, StateExprModel)> },
    Suspend { output: Output, next: StateExprModel },
    Return { output: Output },
}

impl View for Action {
    type V = ActionModel;

    open spec fn view(&self) -> ActionModel {
        match self {
            Action::Goto { next } => ActionModel::Goto { next: next@ },
            Action::If { cond, then, otherwise } => ActionModel::If {
                cond: *cond,
                then: then@,
                otherwise: otherwise@,
            },
            Action::Match { discr, arms } => ActionModel::Match {
                discr: *discr,
                arms: Seq::new(arms@.len(), |i: int| (arms@[i].arm, arms@[i].next@)),
            },
            Action::Suspend { output, next } => ActionModel::Suspend { output: *output, next: next@ },
            Action::Return { output } => ActionModel::Return { output: *output },
        }
    }
}

/// A statement of the generated handler.
#[derive(Clone, Copy, Debug, PartialEq, Eq, Structural)]
pub enum OutStmt {
    /// A statement of the surface syntax, as it stands.
    Syntax(NodeId),
    Let { pat: LetPat, ty: Option<NodeId>, init: LetInit },
    /// The call that tears the local down.
    Drop { local: Local },
    /// The shadowed local is bound to its own name again, with its own
    /// mutability, from the name under which its value survived.
    Rebind { local: Local },
}

/// The statements that one statement of the graph stands for.
pub open spec fn out_stmts(statement: Statement) -> Seq<OutStmt> {
    match statement.kind {
        StatementKind::Expr(id) => seq![OutStmt::Syntax(id)],
        StatementKind::Let { pat, ty, init } => seq![OutStmt::Let { pat, ty, init }],
        StatementKind::Drop { local, alias } => match alias {
            Some(alias) => seq![OutStmt::Drop { local }, OutStmt::Rebind { local: alias.decl }],
            None => seq![OutStmt::Drop { local }],
        },
    }
}

impl MarModel {
    /// What a suspension hands to the driver.
    pub open spec fn suspend_output(self, value: NodeId) -> Output {
        match self.kind {
            StateMachineKind::Generator => Output::Element(value),
            StateMachineKind::Async => Output::NotReady(value),
        }
    }

    /// What the return hands to the driver.
    pub open spec fn return_output(self) -> Output {
        match self.kind {
            StateMachineKind::Generator => Output::End,
            StateMachineKind::Async => Output::Ready(RETURN_POINTER),
        }
    }

    /// The step that a terminator stands for.
    pub open spec fn action(self, terminator: TerminatorModel) -> ActionModel {
        match terminator.kind {
            TerminatorKindModel::Goto { target } => ActionModel::Goto {
                next: self.state_expr(target),
            },
            TerminatorKindModel::If { cond, targets } => ActionModel::If {
                cond,
                then: self.state_expr(targets.0),
                otherwise: self.state_expr(targets.1),
            },
            TerminatorKindModel::Match { discr, arms } => ActionModel::Match {
                discr,
                arms: Seq::new(arms.len(), |i: int| (arms[i].id, self.state_expr(arms[i].block))),
            },
            TerminatorKindModel::Suspend { rvalue, target } => ActionModel::Suspend {
                output: self.suspend_output(rvalue),
                next: self.state_expr(target),
            },
            TerminatorKindModel::Return => ActionModel::Return { output: self.return_output() },
        }
    }
}

impl<'a> Builder<'a> {
    /// The statements that one statement of the graph stands for.
    pub fn stmt(&self, _block: BasicBlock, stmt: &Statement) -> (r: Vec<OutStmt>)
        ensures
            r@ == out_stmts(*stmt),
    {
        let mut stmts: Vec<OutStmt> = Vec::new();
        match stmt.kind {
            StatementKind::Expr(id) => {
                stmts.push(OutStmt::Syntax(id));
            },
            StatementKind::Let { pat, ty, init } => {
                stmts.push(OutStmt::Let { pat, ty, init });
            },
            StatementKind::Drop { local, alias } => {
                stmts.push(OutStmt::Drop { local });
                match alias {
                    Some(alias) => {
                        stmts.push(OutStmt::Rebind { local: alias.decl });
                    },
                    None => {},
                }
            },
        }
        assert(stmts@ =~= out_stmts(*stmt));
        stmts
    }

    /// The change of state to `target`.
    pub fn goto(&self, target: BasicBlock) -> (r: Action)
        requires
            target < self.mar@.blocks.len(),
        ensures
            r@ == (ActionModel::Goto { next: self.mar@.state_expr(target) }),
    {
        Action::Goto { next: self.state_expr(target) }
    }

    /// The step that a terminator stands for. A change of block becomes a
    /// change of state; a branch and a match keep their shape, with a
    /// change of state in each arm; a suspension and the return give
    /// control back to the driver, with an output that depends on the
    /// kind of machine.
    pub fn terminator(&self, terminator: &Terminator) -> (r: Action)
        requires
            forall|k: int|
                0 <= k < terminator.kind@.successors().len()
                    ==> #[trigger] terminator.kind@.successors()[k] < self.mar@.blocks.len(),
        ensures
            r@ == self.mar@.action(terminator@),
    {
        match &terminator.kind {
            TerminatorKind::Goto { target } => {
                assert(terminator.kind@.successors()[0] == *target);
                self.goto(*target)
            },
            TerminatorKind::If { cond, targets } => {
                assert(terminator.kind@.successors()[0] == targets.0);
                assert(terminator.kind@.successors()[1] == targets.1);
                Action::If {
                    cond: *cond,
                    then: self.state_expr(targets.0),
                    otherwise: self.state_expr(targets.1),
                }
            },
            TerminatorKind::Match { discr, arms } => {
                let mut steps: Vec<MatchStep> = Vec::new();
                let mut i: usize = 0;
                while i < arms.len()
                    invariant
                        0 <= i <= arms.len(),
                        terminator.kind == (TerminatorKind::Match { discr: *discr, arms: *arms }),
                        forall|k: int|
                            0 <= k < terminator.kind@.successors().len()
                                ==> #[trigger] terminator.kind@.successors()[k]
                                < self.mar@.blocks.len(),
                        steps@.len() == i,
                        forall|k: int|
                            0 <= k < i ==> (#[trigger] steps@[k]).arm == arms@[k].id && steps@[k].next@
                                == self.mar@.state_expr(arms@[k].block),
                    decreases arms.len() - i,
                {
                    assert(terminator.kind@.successors()[i as int] == arms@[i as int].block);
                    steps.push(MatchStep { arm: arms[i].id, next: self.state_expr(arms[i].block) });
                    i += 1;
                }
                let r = Action::Match { discr: *discr, arms: steps };
                assert(r@->Match_arms =~= self.mar@.action(terminator@)->Match_arms);
                r
            },
            TerminatorKind::Suspend { rvalue, target } => {
                assert(terminator.kind@.successors()[0] == *target);
                let output = match self.mar.state_machine_kind {
                    StateMachineKind::Generator => Output::Element(*rvalue),
                    StateMachineKind::Async => Output::NotReady(*rvalue),
                };
                Action::Suspend { output, next: self.state_expr(*target) }
            },
            TerminatorKind::Return => {
                let output = match self.mar.state_machine_kind {
                    StateMachineKind::Generator => Output::End,
                    StateMachineKind::Async => Output::Ready(RETURN_POINTER),
                };
                Action::Return { output }
            },
        }
    }
}

/// One entry of a handler before its statements are rendered.
#[derive(Clone, Copy, Debug, PartialEq, Eq, Structural)]
pub enum ScopeStatement {
    /// A nested block for the visibility scope begins.
    Open(VisibilityScope),
    /// The innermost nested block ends.
    Close,
    Statement(Statement),
    /// The place of the block's terminator.
    Terminator,
}

/// The statements of a basic block and the place of its terminator, with
/// the nested blocks of the source marked by matching `Open` and `Close`
/// entries. The block of the root scope itself is not marked.
#[derive(Debug)]
pub struct ScopeBlock {
    pub scope: VisibilityScope,
    pub stmts: Vec<ScopeStatement>,
}

impl ScopeBlock {
    pub fn new(scope: VisibilityScope) -> (r: Self)
        ensures
            r.scope == scope,
            r.stmts@ == Seq::<ScopeStatement>::empty(),
    {
        ScopeBlock { scope, stmts: Vec::new() }
    }

    pub fn push(&mut self, stmt: ScopeStatement)
        ensures
            final(self).scope == old(self).scope,
            final(self).stmts@ == old(self).stmts@.push(stmt),
    {
        self.stmts.push(stmt);
    }
}

/// The visibility scopes from a root down to `scope`.
pub open spec fn path_of(scopes: Seq<VisibilityScopeData>, scope: VisibilityScope) -> Seq<
    VisibilityScope,
>
    decreases scope,
{
    if scope < scopes.len() {
        match scopes[scope as int].parent_scope {
            Some(parent) => if parent < scope {
                path_of(scopes, parent).push(scope)
            } else {
                seq![scope]
            },
            None => seq![scope],
        }
    } else {
        seq![scope]
    }
}

/// The length of the longest common prefix of two paths, given that they
/// agree before position `from`.
pub open spec fn common_prefix(p: Seq<VisibilityScope>, q: Seq<VisibilityScope>, from: int) -> int
    decreases p.len() - from,
{
    if 0 <= from < p.len() && from < q.len() && p[from] == q[from] {
        common_prefix(p, q, from + 1)
    } else {
        from
    }
}

/// `n` nested blocks end.
pub open spec fn closes(n: int) -> Seq<ScopeStatement> {
    Seq::new(
        if n >= 0 {
            n as nat
        } else {
            0
        },
        |i: int| ScopeStatement::Close,
    )
}

/// The nested blocks of a path from position `from` on begin.
pub open spec fn opens(path: Seq<VisibilityScope>, from: int) -> Seq<ScopeStatement> {
    Seq::new(
        if 0 <= from <= path.len() {
            (path.len() - from) as nat
        } else {
            0
        },
        |i: int| ScopeStatement::Open(path[from + i]),
    )
}

/// What leads from inside the blocks of the path `open` into the blocks of
/// the path `path`: the blocks below their last common scope end, and
/// those of `path` below it begin.
pub open spec fn between(open: Seq<VisibilityScope>, path: Seq<VisibilityScope>) -> Seq<ScopeStatement> {
    let common = common_prefix(open, path, 0);
    closes(open.len() - common) + opens(path, common)
}

/// The statements from position `from` on, each inside the nested blocks
/// of its visibility scope, then the place of the terminator, which stands
/// where the last statement stands, then the end of every block that is
/// still open but the root's.
pub open spec fn regroup(
    scopes: Seq<VisibilityScopeData>,
    statements: Seq<Statement>,
    terminated: bool,
    from: int,
    open: Seq<VisibilityScope>,
) -> Seq<ScopeStatement>
    decreases statements.len() - from,
{
    if 0 <= from < statements.len() {
        let path = path_of(scopes, statements[from].source_info.scope);
        between(open, path) + seq![ScopeStatement::Statement(statements[from])] + regroup(
            scopes,
            statements,
            terminated,
            from + 1,
            path,
        )
    } else if terminated {
        seq![ScopeStatement::Terminator] + closes(open.len() - 1)
    } else {
        closes(open.len() - 1)
    }
}

impl MarModel {
    /// The entries of the handler of `block`.
    pub open spec fn scope_block(self, block: BasicBlock) -> Seq<ScopeStatement> {
        regroup(
            self.visibility_scopes,
            self.blocks[block as int].statements,
            self.blocks[block as int].terminator is Some,
            0,
            seq![ARGUMENT_VISIBILITY_SCOPE],
        )
    }
}

/// A path holds at least the scope it leads to.
pub proof fn lemma_path_is_not_empty(scopes: Seq<VisibilityScopeData>, scope: VisibilityScope)
    ensures
        path_of(scopes, scope).len() >= 1,
        path_of(scopes, scope).last() == scope,
{
}

/// A path has all of itself in common with itself.
pub proof fn lemma_common_prefix_self(p: Seq<VisibilityScope>, from: int)
    requires
        0 <= from <= p.len(),
    ensures
        common_prefix(p, p, from) == p.len(),
    decreases p.len() - from,
{
    if from < p.len() {
        lemma_common_prefix_self(p, from + 1);
    }
}

impl<'a> Builder<'a> {
    /// Appends the visibility scopes from a root down to `scope`.
    fn push_scope_path(&self, path: &mut Vec<VisibilityScope>, scope: VisibilityScope)
        ensures
            final(path)@ == old(path)@ + path_of(self.mar@.visibility_scopes, scope),
        decreases scope,
    {
        if scope < self.mar.visibility_scopes.len() {
            match self.mar.visibility_scopes[scope].parent_scope {
                Some(parent) => {
                    if parent < scope {
                        self.push_scope_path(path, parent);
                    }
                },
                None => {},
            }
        }
        path.push(scope);
        assert(path@ =~= old(path)@ + path_of(self.mar@.visibility_scopes, scope));
    }

    /// The visibility scopes from a root down to `scope`.
    pub fn scope_path(&self, scope: VisibilityScope) -> (r: Vec<VisibilityScope>)
        ensures
            r@ == path_of(self.mar@.visibility_scopes, scope),
    {
        let mut path: Vec<VisibilityScope> = Vec::new();
        self.push_scope_path(&mut path, scope);
        assert(Seq::<VisibilityScope>::empty() + path_of(self.mar@.visibility_scopes, scope)
            =~= path_of(self.mar@.visibility_scopes, scope));
        path
    }

    /// Groups the statements of a block again into the nested blocks of
    /// the source. The graph holds them in one flat list; each carries the
    /// visibility scope in which it stood. Where the scope changes from one
    /// statement to the next, the blocks below the last common scope end
    /// and those that lead down to the new scope begin.
    pub fn build_scope_block(&self, block: BasicBlock) -> (r: ScopeBlock)
        requires
            block < self.mar@.blocks.len(),
        ensures
            r.scope == ARGUMENT_VISIBILITY_SCOPE,
            r.stmts@ == self.mar@.scope_block(block),
            self.mar@.blocks[block as int].terminator is Some ==> r.stmts@.contains(
                ScopeStatement::Terminator,
            ),
    {
        let data = &self.mar.basic_blocks[block];
        let ghost scopes = self.mar@.visibility_scopes;
        let ghost statements = self.mar@.blocks[block as int].statements;
        let ghost terminated = self.mar@.blocks[block as int].terminator is Some;
        let mut result = ScopeBlock::new(ARGUMENT_VISIBILITY_SCOPE);
        let mut open: Vec<VisibilityScope> = Vec::new();
        open.push(ARGUMENT_VISIBILITY_SCOPE);
        let mut last_scope: Option<VisibilityScope> = None;
        assert(open@ =~= seq![ARGUMENT_VISIBILITY_SCOPE]);
        assert(result.stmts@ + regroup(scopes, statements, terminated, 0, open@) =~= regroup(
            scopes,
            statements,
            terminated,
            0,
            open@,
        ));
        let mut i: usize = 0;
        while i < data.statements.len()
            invariant
                0 <= i <= data.statements.len(),
                scopes == self.mar@.visibility_scopes,
                statements == data.statements@,
                result.scope == ARGUMENT_VISIBILITY_SCOPE,
                open@.len() >= 1,
                last_scope matches Some(scope) ==> open@ == path_of(scopes, scope),
                self.mar@.scope_block(block) == regroup(
                    scopes,
                    statements,
                    terminated,
                    0,
                    seq![ARGUMENT_VISIBILITY_SCOPE],
                ),
                regroup(scopes, statements, terminated, 0, seq![ARGUMENT_VISIBILITY_SCOPE])
                    == result.stmts@ + regroup(scopes, statements, terminated, i as int, open@),
            decreases data.statements.len() - i,
        {
            let stmt = data.statements[i];
            let current_scope = stmt.source_info.scope;
            let ghost before = result.stmts@;
            let ghost was_open = open@;
            let ghost path = path_of(scopes, current_scope);
            if last_scope != Some(current_scope) {
                let current_path = self.scope_path(current_scope);
                // The length of the common prefix of the two paths.
                let mut common: usize = 0;
                while common < open.len() && common < current_path.len() && open[common]
                    == current_path[common]
                    invariant
                        0 <= common <= open.len(),
                        common <= current_path.len(),
                        common_prefix(open@, current_path@, 0) == common_prefix(
                            open@,
                            current_path@,
                            common as int,
                        ),
                    decreases open.len() - common,
                {
                    common += 1;
                }
                // The blocks below the common scope end.
                let mut k: usize = open.len();
                while k > common
                    invariant
                        common <= k <= open.len(),
                        result.scope == ARGUMENT_VISIBILITY_SCOPE,
                        result.stmts@ == before + closes(open.len() - k),
                    decreases k,
                {
                    result.push(ScopeStatement::Close);
                    k -= 1;
                    assert(result.stmts@ =~= before + closes(open.len() - k));
                }
                // The blocks that lead down to the new scope begin.
                let mut k: usize = common;
                while k < current_path.len()
                    invariant
                        common <= k <= current_path.len(),
                        common <= open.len(),
                        result.scope == ARGUMENT_VISIBILITY_SCOPE,
                        result.stmts@ == before + closes(open.len() - common) + opens(
                            current_path@,
                            common as int,
                        ).subrange(0, k - common),
                    decreases current_path.len() - k,
                {
                    result.push(ScopeStatement::Open(current_path[k]));
                    k += 1;
                    assert(result.stmts@ =~= before + closes(open.len() - common) + opens(
                        current_path@,
                        common as int,
                    ).subrange(0, k - common));
                }
                assert(opens(current_path@, common as int).subrange(
                    0,
                    current_path@.len() - common,
                ) =~= opens(current_path@, common as int));
                assert(result.stmts@ == before + between(was_open, path));
                proof {
                    lemma_path_is_not_empty(scopes, current_scope);
                }
                open = current_path;
                last_scope = Some(current_scope);
            } else {
                proof {
                    lemma_common_prefix_self(open@, 0);
                    assert(between(was_open, path) =~= Seq::<ScopeStatement>::empty());
                    assert(result.stmts@ =~= before + between(was_open, path));
                }
            }
            result.push(ScopeStatement::Statement(stmt));
            proof {
                let rest = regroup(scopes, statements, terminated, i + 1, path);
                assert(regroup(scopes, statements, terminated, i as int, was_open) == between(
                    was_open,
                    path,
                ) + seq![ScopeStatement::Statement(stmt)] + rest);
                assert(result.stmts@ + rest =~= before + (between(was_open, path)
                    + seq![ScopeStatement::Statement(stmt)] + rest));
            }
            i += 1;
        }
        let ghost before = result.stmts@;
        // Finally, the terminator, where the last statement stands.
        if data.terminator.is_some() {
            result.push(ScopeStatement::Terminator);
        }
        let ghost mid = result.stmts@;
        // The blocks that are still open end.
        let mut k: usize = open.len();
        while k > 1
            invariant
                1 <= k <= open.len(),
                result.scope == ARGUMENT_VISIBILITY_SCOPE,
                result.stmts@ == mid + closes(open.len() - k),
            decreases k,
        {
            result.push(ScopeStatement::Close);
            k -= 1;
            assert(result.stmts@ =~= mid + closes(open.len() - k));
        }
        proof {
            assert(closes(open@.len() - k) =~= closes(open@.len() - 1));
            if terminated {
                assert(result.stmts@ =~= before + (seq![ScopeStatement::Terminator] + closes(
                    open@.len() - 1,
                )));
                assert(result.stmts@[before.len() as int] == ScopeStatement::Terminator);
            } else {
                assert(result.stmts@ =~= before + closes(open@.len() - 1));
            }
        }
        result
    }
}

/// One entry of a rendered handler.
#[derive(Debug)]
pub enum HandlerStmt {
    /// A nested block begins.
    Open,
    /// The innermost nested block ends.
    Close,
    Stmt(OutStmt),
    /// The step that the machine takes at the end of the block.
    Step(Action),
}

/// What a [`HandlerStmt`] holds.
pub ghost enum HandlerStmtModel {
    Open,
    Close,
    Stmt(OutStmt),
    Step(ActionModel),
}

impl View for HandlerStmt {
    type V = HandlerStmtModel;

    open spec fn view(&self) -> HandlerStmtModel {
        match self {
            HandlerStmt::Open => HandlerStmtModel::Open,
            HandlerStmt::Close => HandlerStmtModel::Close,
            HandlerStmt::Stmt(stmt) => HandlerStmtModel::Stmt(*stmt),
            HandlerStmt::Step(action) => HandlerStmtModel::Step(action@),
        }
    }
}

/// What a list of rendered entries holds.
pub open spec fn handler_view(stmts: Seq<HandlerStmt>) -> Seq<HandlerStmtModel> {
    Seq::new(stmts.len(), |i: int| stmts[i]@)
}

impl MarModel {
    /// What one entry of the handler of `block` is rendered to.
    pub open spec fn render_entry(self, block: BasicBlock, entry: ScopeStatement) -> Seq<
        HandlerStmtModel,
    > {
        match entry {
            ScopeStatement::Open(_) => seq![HandlerStmtModel::Open],
            ScopeStatement::Close => seq![HandlerStmtModel::Close],
            ScopeStatement::Statement(statement) => Seq::new(
                out_stmts(statement).len(),
                |i: int| HandlerStmtModel::Stmt(out_stmts(statement)[i]),
            ),
            ScopeStatement::Terminator => match self.blocks[block as int].terminator {
                Some(terminator) => seq![HandlerStmtModel::Step(self.action(terminator))],
                None => Seq::empty(),
            },
        }
    }

    /// What the first `n` entries of the handler of `block` are rendered
    /// to.
    pub open spec fn render(self, block: BasicBlock, entries: Seq<ScopeStatement>, n: int) -> Seq<
        HandlerStmtModel,
    >
        decreases n,
    {
        if 0 < n <= entries.len() {
            self.render(block, entries, n - 1) + self.render_entry(block, entries[n - 1])
        } else {
            Seq::empty()
        }
    }

    /// The rendered handler of `block`.
    pub open spec fn handler(self, block: BasicBlock) -> Seq<HandlerStmtModel> {
        self.render(block, self.scope_block(block), self.scope_block(block).len() as int)
    }
}

impl<'a> Builder<'a> {
    /// Renders the entries of the handler of `block`: each statement of
    /// the graph becomes the statements it stands for, and the place of
    /// the terminator becomes the step of the machine. Says also whether
    /// the entries held the terminator.
    pub fn scope_block(&self, block: BasicBlock, scope_block: &ScopeBlock) -> (r: (
        bool,
        Vec<HandlerStmt>,
    ))
        requires
            self.mar@.wf(),
            block < self.mar@.blocks.len(),
        ensures
            r.0 == scope_block.stmts@.contains(ScopeStatement::Terminator),
            handler_view(r.1@) == self.mar@.render(
                block,
                scope_block.stmts@,
                scope_block.stmts@.len() as int,
            ),
    {
        let mut terminated = false;
        let mut stmts: Vec<HandlerStmt> = Vec::new();
        let entries = &scope_block.stmts;
        let mut i: usize = 0;
        assert(handler_view(stmts@) =~= self.mar@.render(block, entries@, 0));
        while i < entries.len()
            invariant
                0 <= i <= entries.len(),
                self.mar@.wf(),
                block < self.mar@.blocks.len(),
                terminated == entries@.subrange(0, i as int).contains(ScopeStatement::Terminator),
                handler_view(stmts@) == self.mar@.render(block, entries@, i as int),
            decreases entries.len() - i,
        {
            let ghost before = handler_view(stmts@);
            let ghost prefix = entries@.subrange(0, i as int);
            let ghost longer = entries@.subrange(0, i + 1);
            match entries[i] {
                ScopeStatement::Open(_) => {
                    stmts.push(HandlerStmt::Open);
                },
                ScopeStatement::Close => {
                    stmts.push(HandlerStmt::Close);
                },
                ScopeStatement::Statement(statement) => {
                    let rendered = self.stmt(block, &statement);
                    let ghost old_stmts = stmts@;
                    let mut k: usize = 0;
                    while k < rendered.len()
                        invariant
                            0 <= k <= rendered.len(),
                            rendered@ == out_stmts(statement),
                            stmts@.len() == old_stmts.len() + k,
                            forall|j: int| 0 <= j < old_stmts.len() ==> stmts@[j] == old_stmts[j],
                            forall|j: int|
                                old_stmts.len() <= j < stmts@.len() ==> (#[trigger] stmts@[j])@
                                    == HandlerStmtModel::Stmt(rendered@[j - old_stmts.len()]),
                        decreases rendered.len() - k,
                    {
                        stmts.push(HandlerStmt::Stmt(rendered[k]));
                        k += 1;
                    }
                },
                ScopeStatement::Terminator => {
                    terminated = true;
                    let m = &self.mar.basic_blocks[block];
                    assert(self.mar@.blocks[block as int].terminator == terminator_view(
                        m.terminator,
                    ));
                    assert(self.mar@.blocks[block as int].wf(
                        self.mar@.blocks.len(),
                        self.mar@.local_decls.len(),
                        self.mar@.visibility_scopes.len(),
                    ));
                    match &m.terminator {
                        Some(terminator) => {
                            stmts.push(HandlerStmt::Step(self.terminator(terminator)));
                        },
                        None => {},
                    }
                },
            }
            proof {
                assert(handler_view(stmts@) =~= before + self.mar@.render_entry(
                    block,
                    entries@[i as int],
                ));
                assert(longer =~= prefix.push(entries@[i as int]));
                let x = ScopeStatement::Terminator;
                if prefix.contains(x) {
                    let j = choose|j: int| 0 <= j < prefix.len() && prefix[j] == x;
                    assert(longer[j] == x);
                }
                if entries@[i as int] == x {
                    assert(longer[i as int] == x);
                }
                if longer.contains(x) && entries@[i as int] != x {
                    let j = choose|j: int| 0 <= j < longer.len() && longer[j] == x;
                    assert(prefix[j] == x);
                }
            }
            i += 1;
        }
        assert(entries@.subrange(0, i as int) =~= entries@);
        (terminated, stmts)
    }

    /// The rendered handler of `block`: its statements inside the nested
    /// blocks of the source, and the step of the machine.
    pub fn block(&self, block: BasicBlock) -> (r: Vec<HandlerStmt>)
        requires
            self.mar@.wf(),
            block < self.mar@.blocks.len(),
        ensures
            handler_view(r@) == self.mar@.handler(block),
    {
        let scope_block = self.build_scope_block(block);
        let (terminated, stmts) = self.scope_block(block, &scope_block);
        assert(terminated);
        stmts
    }
}

} // verus!

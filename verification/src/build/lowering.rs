//! What the lowering of each structured form does to the state of the pass.
//!
//! Every function takes the state, the current block and a form, and gives
//! the state after the form together with the block in which control
//! continues, or the error that ends the pass.

use vstd::prelude::*;
use crate::ast::{
    Arm, Binding, Block, Expr, ExprKind, FnDecl, Item, ItemKind, Local as Let, Mac, Mutability,
    NodeId, Pat, Stmt, StmtKind,
};
use crate::build::model::{BuilderModel, DropData, LoopScope};
use crate::build::{Error, ErrorKind};
use crate::repr::{
    Alias, BasicBlock, BlockName, CodeExtent, LetInit, LetPat, LiveDecl, Local, LocalDeclModel,
    Lvalue, Mar, MarModel, MatchArm, StateMachineKind, StatementKind, TerminatorKindModel, RETURN_POINTER,
};
use crate::transition::{expr_has_transition, path_is_transition};

verus! {

/// The outcome of lowering one form.
pub type Lowered = Result<(BuilderModel, BasicBlock), Error>;

/// The state `post` and the result `r` of a step are those that `lowered`
/// gives.
pub open spec fn refines(lowered: Lowered, post: BuilderModel, r: Result<BasicBlock, Error>) -> bool {
    match lowered {
        Ok((s, block)) => r == Ok::<BasicBlock, Error>(block) && post == s,
        Err(e) => r == Err::<BasicBlock, Error>(e),
    }
}

/// The expression is a block that does nothing.
pub open spec fn expr_is_empty_spec(expr: &Expr) -> bool
    decreases expr,
{
    match &expr.node {
        ExprKind::Block(block) => block.expr is None && stmts_are_empty(
            &block.stmts,
            block.stmts@.len() as int,
        ),
        _ => false,
    }
}

/// The statement is an expression that does nothing.
pub open spec fn stmt_is_empty_spec(stmt: &Stmt) -> bool
    decreases stmt,
{
    match &stmt.node {
        StmtKind::Expr(e) => expr_is_empty_spec(e),
        StmtKind::Semi(e) => expr_is_empty_spec(e),
        _ => false,
    }
}

/// Each of the first `n` statements does nothing.
pub open spec fn stmts_are_empty(stmts: &Vec<Stmt>, n: int) -> bool
    decreases stmts, n,
{
    if 0 < n <= stmts@.len() {
        stmts_are_empty(stmts, n - 1) && stmt_is_empty_spec(&stmts@[n - 1])
    } else {
        true
    }
}

impl BuilderModel {
    /// The form `id` is kept whole, as one statement of `block`.
    pub open spec fn keep(self, block: BasicBlock, id: NodeId) -> (BuilderModel, BasicBlock) {
        (self.push(block, id, StatementKind::Expr(id)), block)
    }

    /// `block` ends by handing `value` to the driver; control continues in
    /// a fresh block. No value comes back in from the driver: the fresh
    /// block starts by giving `destination` the unit value.
    pub open spec fn suspend(self, destination: Lvalue, block: BasicBlock, value: NodeId) -> (
        BuilderModel,
        BasicBlock,
    ) {
        let next = self.next_block();
        (
            self.start_new_block(value, Some(BlockName::AfterSuspend)).terminate(
                block,
                value,
                TerminatorKindModel::Suspend { rvalue: value, target: next },
            ).push(next, value, destination.assign_unit()),
            next,
        )
    }

    /// The reserved locals `from..to` have received their values.
    pub open spec fn initialize_locals(self, from: Local, to: Local) -> BuilderModel
        decreases to - from,
    {
        if from < to {
            self.initialize(from).initialize_locals((from + 1) as usize, to)
        } else {
            self
        }
    }

    /// `block` leaves the scopes from `depth` on and goes to `target`; what
    /// follows the jump in the source continues in a fresh block.
    pub open spec fn jump(
        self,
        block: BasicBlock,
        span: NodeId,
        depth: int,
        target: BasicBlock,
        name: BlockName,
    ) -> (BuilderModel, BasicBlock) {
        let left = self.exit_scopes(depth, block).terminate(
            block,
            span,
            TerminatorKindModel::Goto { target },
        );
        (left.start_new_block(span, Some(name)), left.next_block())
    }

    /// `break`: to the exit of the innermost loop.
    pub open spec fn break_loop(self, block: BasicBlock, span: NodeId) -> (BuilderModel, BasicBlock) {
        let innermost = self.loop_scopes.last();
        self.jump(block, span, innermost.depth as int, innermost.break_block, BlockName::AfterBreak)
    }

    /// `continue`: to the entry of the innermost loop.
    pub open spec fn continue_loop(self, block: BasicBlock, span: NodeId) -> (BuilderModel, BasicBlock) {
        let innermost = self.loop_scopes.last();
        self.jump(
            block,
            span,
            innermost.depth as int,
            innermost.continue_block,
            BlockName::AfterContinue,
        )
    }

    /// `return value`: the value goes to the return slot, every scope
    /// inside the function's own is left, and control goes to the shared
    /// return block.
    pub open spec fn return_value(self, block: BasicBlock, span: NodeId, value: NodeId) -> (
        BuilderModel,
        BasicBlock,
    ) {
        let assigned = self.push(
            block,
            span,
            StatementKind::Let {
                pat: LetPat::Local(RETURN_POINTER),
                ty: None,
                init: LetInit::Expr(value),
            },
        ).exit_scopes(1, block);
        let left = assigned.with_return_block().terminate(
            block,
            span,
            TerminatorKindModel::Goto { target: assigned.return_block() },
        );
        (left.start_new_block(span, Some(BlockName::AfterReturn)), left.next_block())
    }

    /// One name of a pattern is declared in the innermost scope, which owes
    /// its teardown from then on. Where it shadows a local, the value of
    /// that local is first renamed in `block`. A name whose initializer has
    /// not run yet is `reserved`: it holds no value so far.
    pub open spec fn declare_local(
        self,
        extent: CodeExtent,
        block: BasicBlock,
        span: NodeId,
        ty: Option<NodeId>,
        ident: Seq<char>,
        mutability: Mutability,
        reserved: bool,
    ) -> BuilderModel {
        let local = self.next_local();
        let shadowed = self.find_decl(ident);
        let declared = self.declare(
            LocalDeclModel {
                ident,
                mutability,
                ty,
                source_info: self.source_info(span),
                shadowed_decl: shadowed,
            },
            if reserved {
                LiveDecl::Forward(local)
            } else {
                LiveDecl::Active(local)
            },
        );
        match shadowed {
            Some(outer) => declared.push(
                block,
                span,
                StatementKind::Let {
                    pat: LetPat::Shadow(outer),
                    ty: None,
                    init: LetInit::Local(outer),
                },
            ).schedule_drop(extent, DropData { span, local, alias: Some(Alias { decl: outer }) }),
            None => declared.schedule_drop(extent, DropData { span, local, alias: None }),
        }
    }

    /// The names of a pattern from position `from` on are declared, in
    /// order.
    pub open spec fn declare_locals(
        self,
        extent: CodeExtent,
        block: BasicBlock,
        span: NodeId,
        ty: Option<NodeId>,
        bindings: &Vec<Binding>,
        from: int,
        reserved: bool,
    ) -> BuilderModel
        decreases bindings@.len() - from,
    {
        if 0 <= from < bindings@.len() {
            self.declare_local(
                extent,
                block,
                span,
                ty,
                bindings@[from].ident@,
                bindings@[from].mutability,
                reserved,
            ).declare_locals(extent, block, span, ty, bindings, from + 1, reserved)
        } else {
            self
        }
    }

    /// One name of a parameter, or of the pattern of an arm, is declared in
    /// the innermost scope, which owes its teardown.
    pub open spec fn declare_argument(
        self,
        extent: CodeExtent,
        span: NodeId,
        ident: Seq<char>,
        mutability: Mutability,
    ) -> BuilderModel {
        let local = self.next_local();
        self.declare(
            LocalDeclModel {
                ident,
                mutability,
                ty: None,
                source_info: self.source_info(span),
                shadowed_decl: self.find_decl(ident),
            },
            LiveDecl::Active(local),
        ).schedule_drop(extent, DropData { span, local, alias: None })
    }

    /// The names of a parameter, or of the pattern of an arm, from position
    /// `from` on are declared.
    pub open spec fn declare_pattern(
        self,
        extent: CodeExtent,
        pat: &Pat,
        from: int,
    ) -> BuilderModel
        decreases pat.bindings@.len() - from,
    {
        if 0 <= from < pat.bindings@.len() {
            self.declare_argument(
                extent,
                pat.id,
                pat.bindings@[from].ident@,
                pat.bindings@[from].mutability,
            ).declare_pattern(extent, pat, from + 1)
        } else {
            self
        }
    }

    /// The parameters from position `from` on are declared.
    pub open spec fn declare_arguments(
        self,
        extent: CodeExtent,
        inputs: &Vec<Pat>,
        from: int,
    ) -> BuilderModel
        decreases inputs@.len() - from,
    {
        if 0 <= from < inputs@.len() {
            self.declare_pattern(extent, &inputs@[from], 0).declare_arguments(
                extent,
                inputs,
                from + 1,
            )
        } else {
            self
        }
    }
}

/// The lowering of a function, up to the end of the pass: the return slot
/// and the parameters are declared in the function's own scope, the entry
/// block is started, the body is lowered from it, and where the body ends
/// control goes to the return block, in which the function's scope is
/// closed.
pub open spec fn lower_function(span: NodeId, kind: StateMachineKind, decl: &FnDecl, body: &Block) -> Result<
    BuilderModel,
    Error,
> {
    let fresh = BuilderModel::empty(span, kind);
    let extent = fresh.next_extent();
    let opened = fresh.start_new_extent(span).push_scope(extent, span);
    let declared = opened.declare(
        LocalDeclModel {
            ident: "return_"@,
            mutability: Mutability::Immutable,
            ty: None,
            source_info: opened.source_info(span),
            shadowed_decl: opened.find_decl("return_"@),
        },
        LiveDecl::Forward(RETURN_POINTER),
    ).declare_arguments(extent, &decl.inputs, 0);
    match lower_block(declared.start_new_block(span, Some(BlockName::Start)), declared.next_block(), body) {
        Err(e) => Err(e),
        Ok((lowered, end)) => {
            let returned = lowered.initialize(RETURN_POINTER);
            Ok(
                returned.with_return_block().terminate(
                    end,
                    span,
                    TerminatorKindModel::Goto { target: returned.return_block() },
                ).schedule_move(RETURN_POINTER).pop_scope(returned.return_block()).terminate(
                    returned.return_block(),
                    span,
                    TerminatorKindModel::Return,
                ),
            )
        },
    }
}

/// The graph of an item, or the reason why there is none. Only a function
/// has one.
pub open spec fn construct_spec(item: &Item, kind: StateMachineKind) -> Result<MarModel, Error> {
    match &item.node {
        ItemKind::Fn(decl, body) => match lower_function(item.id, kind, decl, body) {
            Ok(s) => s.finish(),
            Err(e) => Err(e),
        },
        ItemKind::Other => Err(Error { kind: ErrorKind::NotAFunction, span: item.id }),
    }
}

/// `r` is the outcome that [`construct_spec`] gives.
pub open spec fn constructs(item: &Item, kind: StateMachineKind, r: Result<Mar, Error>) -> bool {
    match construct_spec(item, kind) {
        Ok(model) => r matches Ok(mar) && mar@ == model,
        Err(e) => r == Err::<Mar, Error>(e),
    }
}

/// A macro in the place of the form `id`, whose value goes to
/// `destination`: a suspension marker suspends with its operand, which must
/// be one expression free of transitions; any other macro is kept whole.
pub open spec fn lower_mac(
    s: BuilderModel,
    destination: Lvalue,
    block: BasicBlock,
    id: NodeId,
    mac: &Mac,
) -> Lowered {
    if path_is_transition(&mac.path) {
        match &mac.operand {
            Some(operand) => if expr_has_transition(operand, s.inside_loop()) {
                Err(Error { kind: ErrorKind::UnsupportedExpression, span: operand.id })
            } else {
                Ok(s.suspend(destination, block, operand.id))
            },
            None => Err(Error { kind: ErrorKind::MalformedSuspension, span: mac.id }),
        }
    } else {
        Ok(s.keep(block, id))
    }
}

/// A `let`. It needs an initializer. Where the initializer holds no
/// transition, the names are declared and the `let` is kept. An initializer
/// that holds a transition must be a suspension marker itself: the names
/// are reserved before the suspension, the block in which the computation
/// resumes starts by binding them to the unit value, and from there on they
/// hold their values.
pub open spec fn lower_local(
    s: BuilderModel,
    extent: CodeExtent,
    block: BasicBlock,
    span: NodeId,
    local: &Let,
) -> Lowered {
    match &local.init {
        None => Err(Error { kind: ErrorKind::MissingInitializer, span }),
        Some(init) => if expr_has_transition(init, s.inside_loop()) {
            match &init.node {
                ExprKind::Mac(mac) => {
                    let reserved = s.declare_locals(
                        extent,
                        block,
                        span,
                        local.ty,
                        &local.pat.bindings,
                        0,
                        true,
                    );
                    match lower_mac(
                        reserved,
                        Lvalue::Pattern { pat: local.pat.id, ty: local.ty },
                        block,
                        init.id,
                        mac,
                    ) {
                        Ok((resumed, next)) => Ok(
                            (
                                resumed.initialize_locals(s.next_local(), reserved.next_local()),
                                next,
                            ),
                        ),
                        Err(e) => Err(e),
                    }
                },
                _ => Err(Error { kind: ErrorKind::UnsupportedExpression, span: init.id }),
            }
        } else {
            Ok(
                (
                    s.declare_locals(extent, block, span, local.ty, &local.pat.bindings, 0, false).push(
                        block,
                        span,
                        StatementKind::Let {
                            pat: LetPat::Syntax(local.pat.id),
                            ty: local.ty,
                            init: LetInit::Expr(init.id),
                        },
                    ),
                    block,
                ),
            )
        },
    }
}

/// An expression in statement position. One that holds no transition is
/// kept whole. An assignment is never split: a transition in one of its
/// sides is rejected where it stands.
pub open spec fn lower_expr(s: BuilderModel, extent: CodeExtent, block: BasicBlock, expr: &Expr) -> Lowered
    decreases expr, 1nat,
{
    if expr.node is Ret && expr.node->Ret_0 is None {
        Err(Error { kind: ErrorKind::EmptyReturn, span: expr.id })
    } else if !expr_has_transition(expr, s.inside_loop()) {
        Ok(s.keep(block, expr.id))
    } else {
        match &expr.node {
            ExprKind::Block(inner) => lower_block(s, block, inner),
            ExprKind::Loop(_) => lower_loop(s, block, expr),
            ExprKind::If(_, _, _) => lower_if(s, extent, block, expr),
            ExprKind::Break => Ok(s.break_loop(block, expr.id)),
            ExprKind::Continue => Ok(s.continue_loop(block, expr.id)),
            ExprKind::Ret(Some(value)) => if expr_has_transition(value, s.inside_loop()) {
                Err(Error { kind: ErrorKind::UnsupportedExpression, span: value.id })
            } else {
                Ok(s.return_value(block, expr.id, value.id))
            },
            ExprKind::Assign(place, value) => if expr_has_transition(place, s.inside_loop()) {
                Err(Error { kind: ErrorKind::UnsupportedExpression, span: place.id })
            } else {
                Err(Error { kind: ErrorKind::UnsupportedExpression, span: value.id })
            },
            ExprKind::Mac(mac) => lower_mac(s, Lvalue::Ignore, block, expr.id, mac),
            ExprKind::Match(_, _) => lower_match(s, block, expr),
            _ => Err(Error { kind: ErrorKind::UnsupportedExpression, span: expr.id }),
        }
    }
}

/// The arms of a match from position `from` on. Each arm has a scope of
/// its own, in which the names of its pattern are declared; its block,
/// which records them, is started, its body is lowered from there, and
/// where the body ends the scope is closed and control goes on to `join`.
/// `targets` collects the arms with their blocks.
pub open spec fn lower_arms(
    s: BuilderModel,
    join: BasicBlock,
    arms: &Vec<Arm>,
    from: int,
    targets: Seq<MatchArm>,
) -> Result<(BuilderModel, Seq<MatchArm>), Error>
    decreases arms, arms@.len() - from,
{
    if 0 <= from < arms@.len() {
        let arm = &arms@[from];
        let extent = s.next_extent();
        let scoped = s.start_new_extent(arm.id).push_scope(extent, arm.id).declare_pattern(
            extent,
            &arm.pat,
            0,
        );
        let entry = scoped.next_block();
        match lower_expr(
            scoped.start_new_block(arm.id, Some(BlockName::Arm)),
            extent,
            entry,
            &arm.body,
        ) {
            Err(e) => Err(e),
            Ok((lowered, end)) => lower_arms(
                lowered.pop_scope(end).terminate(
                    end,
                    arm.id,
                    TerminatorKindModel::Goto { target: join },
                ),
                join,
                arms,
                from + 1,
                targets.push(MatchArm { id: arm.id, block: entry }),
            ),
        }
    } else {
        Ok((s, targets))
    }
}

/// A match: the value that is matched on, which holds no transition, ends
/// `block` with one way out for each arm; each arm is lowered from a block
/// of its own and goes on to the block in which control continues.
pub open spec fn lower_match(s: BuilderModel, block: BasicBlock, expr: &Expr) -> Lowered
    decreases expr, 0nat,
{
    match &expr.node {
        ExprKind::Match(discr, arms) => {
            if expr_has_transition(discr, s.inside_loop()) {
                Err(Error { kind: ErrorKind::TransitionInCondition, span: discr.id })
            } else {
                let join = s.next_block();
                match lower_arms(
                    s.start_new_block(expr.id, Some(BlockName::EndMatch)),
                    join,
                    arms,
                    0,
                    Seq::empty(),
                ) {
                    Err(e) => Err(e),
                    Ok((lowered, targets)) => Ok(
                        (
                            lowered.terminate(
                                block,
                                expr.id,
                                TerminatorKindModel::Match { discr: discr.id, arms: targets },
                            ),
                            join,
                        ),
                    ),
                }
            }
        },
        _ => Ok((s, block)),
    }
}

/// A conditional: the condition, which holds no transition, ends `block`;
/// each branch is lowered from a block of its own and goes on to the block
/// in which control continues.
pub open spec fn lower_if(s: BuilderModel, extent: CodeExtent, block: BasicBlock, expr: &Expr) -> Lowered
    decreases expr, 0nat,
{
    match &expr.node {
        ExprKind::If(cond, then, otherwise) => {
            if expr_has_transition(cond, s.inside_loop()) {
                Err(Error { kind: ErrorKind::TransitionInCondition, span: cond.id })
            } else {
                let then_block = s.next_block();
                let s1 = s.start_new_block(then.id, Some(BlockName::Then));
                let else_block = s1.next_block();
                let s2 = s1.start_new_block(expr.id, Some(BlockName::Else));
                let join = s2.next_block();
                let s3 = s2.start_new_block(expr.id, Some(BlockName::EndIf)).terminate(
                    block,
                    expr.id,
                    TerminatorKindModel::If { cond: cond.id, targets: (then_block, else_block) },
                );
                match lower_block(s3, then_block, then) {
                    Err(e) => Err(e),
                    Ok((s4, then_end)) => {
                        let s5 = s4.terminate(
                            then_end,
                            then.id,
                            TerminatorKindModel::Goto { target: join },
                        );
                        let lowered: Lowered = match otherwise {
                            Some(e) => lower_expr(s5, extent, else_block, e),
                            None => Ok((s5, else_block)),
                        };
                        match lowered {
                            Err(e) => Err(e),
                            Ok((s6, else_end)) => Ok(
                                (
                                    s6.terminate(
                                        else_end,
                                        expr.id,
                                        TerminatorKindModel::Goto { target: join },
                                    ),
                                    join,
                                ),
                            ),
                        }
                    },
                }
            }
        },
        _ => Ok((s, block)),
    }
}

/// The state in which the body of a loop is lowered: the entry block of the
/// body and the exit block of the loop are started, `block` goes to the
/// entry block, and the loop is the innermost one, whose `continue` leads
/// to the entry block and whose `break` leads to the exit block.
pub open spec fn enter_loop(s: BuilderModel, block: BasicBlock, expr: &Expr) -> BuilderModel {
    let entry = s.next_block();
    let s1 = s.start_new_block(
        match &expr.node {
            ExprKind::Loop(body) => body.id,
            _ => expr.id,
        },
        Some(BlockName::Loop),
    );
    let exit = s1.next_block();
    s1.start_new_block(expr.id, Some(BlockName::LoopExit)).terminate(
        block,
        expr.id,
        TerminatorKindModel::Goto { target: entry },
    ).push_loop_scope(
        LoopScope { depth: s.scopes.len() as usize, continue_block: entry, break_block: exit },
    )
}

/// A loop: `block` goes to the entry of the body, the end of the body goes
/// back to the entry, and control continues in the exit block, to which
/// every `break` of the loop leads.
pub open spec fn lower_loop(s: BuilderModel, block: BasicBlock, expr: &Expr) -> Lowered
    decreases expr, 0nat,
{
    match &expr.node {
        ExprKind::Loop(body) => {
            let entry = s.next_block();
            match lower_block(enter_loop(s, block, expr), entry, body) {
                Err(e) => Err(e),
                Ok((s3, end)) => Ok(
                    (
                        s3.pop_loop_scope().terminate(
                            end,
                            expr.id,
                            TerminatorKindModel::Goto { target: entry },
                        ),
                        (entry + 1) as usize,
                    ),
                ),
            }
        },
        _ => Ok((s, block)),
    }
}

/// The block in which the body of a loop ends: its tail.
pub open spec fn loop_tail(s: BuilderModel, block: BasicBlock, expr: &Expr) -> Option<BasicBlock> {
    match &expr.node {
        ExprKind::Loop(body) => match lower_block(enter_loop(s, block, expr), s.next_block(), body) {
            Ok((_, end)) => Some(end),
            Err(_) => None,
        },
        _ => None,
    }
}

/// One statement.
pub open spec fn lower_stmt(s: BuilderModel, extent: CodeExtent, block: BasicBlock, stmt: &Stmt) -> Lowered
    decreases stmt, 1nat,
{
    match &stmt.node {
        StmtKind::Expr(e) => if expr_is_empty_spec(e) {
            Ok((s, block))
        } else {
            lower_expr(s, extent, block, e)
        },
        StmtKind::Semi(e) => if expr_is_empty_spec(e) {
            Ok((s, block))
        } else {
            lower_expr(s, extent, block, e)
        },
        StmtKind::Local(local) => lower_local(s, extent, block, stmt.id, local),
        StmtKind::Item => Err(Error { kind: ErrorKind::ItemDeclaration, span: stmt.id }),
        StmtKind::Mac(mac) => lower_mac(s, Lvalue::Ignore, block, stmt.id, mac),
    }
}

/// The statements from position `from` on, in order.
pub open spec fn lower_stmts(
    s: BuilderModel,
    extent: CodeExtent,
    block: BasicBlock,
    stmts: &Vec<Stmt>,
    from: int,
) -> Lowered
    decreases stmts, stmts@.len() - from,
{
    if 0 <= from < stmts@.len() {
        match lower_stmt(s, extent, block, &stmts@[from]) {
            Ok((s1, b1)) => lower_stmts(s1, extent, b1, stmts, from + 1),
            Err(e) => Err(e),
        }
    } else {
        Ok((s, block))
    }
}

/// A block: its statements in a scope of their own, which is closed where
/// they end. A block that ends in a value is not lowered.
pub open spec fn lower_block(s: BuilderModel, block: BasicBlock, ast_block: &Block) -> Lowered
    decreases ast_block, 1nat,
{
    let extent = s.next_extent();
    match lower_stmts(
        s.start_new_extent(ast_block.id).push_scope(extent, ast_block.id),
        extent,
        block,
        &ast_block.stmts,
        0,
    ) {
        Err(e) => Err(e),
        Ok((s1, end)) => match &ast_block.expr {
            Some(value) => Err(Error { kind: ErrorKind::BlockTailExpression, span: value.id }),
            None => Ok((s1.pop_scope(end), end)),
        },
    }
}

} // verus!

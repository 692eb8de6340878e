//! Statements.

use vstd::prelude::*;
use crate::ast::{Binding, Block, Expr, ExprKind, Local as Let, NodeId, Stmt, StmtKind};
use crate::build::lowering::{
    expr_is_empty_spec, lower_local, lower_stmt, lower_stmts, refines, stmt_is_empty_spec,
    stmts_are_empty,
};
use crate::build::{Builder, Error, ErrorKind};
use crate::repr::{Alias, BasicBlock, CodeExtent, LetInit, LetPat, Local, StatementKind, Lvalue,
};
use crate::transition::{
    expr_has_marker, lemma_stmts_without_marker, lemma_stmts_without_transition, stmt_has_marker,
    stmt_has_transition, stmts_have_marker, stmts_have_transition,
};

verus! {

impl Builder {
    /// Lowers the statements in order, each from the block in which the one
    /// before it ended.
    pub fn stmts(&mut self, extent: CodeExtent, block: BasicBlock, stmts: &Vec<Stmt>) -> (r: Result<
        BasicBlock,
        Error,
    >)
        requires
            old(self)@.ready(block),
            old(self)@.in_extent(extent),
        ensures
            refines(lower_stmts(old(self)@, extent, block, stmts, 0), final(self)@, r),
            r matches Ok(next) ==> old(self)@.leads_to(block, final(self)@, next),
            r is Ok && !stmts_have_marker(stmts, stmts@.len() as int) && old(self)@.suspend_free() ==> final(self)@.suspend_free(),
            r matches Err(e) ==> e.kind.is_rejection(),
            r is Ok && !stmts_have_transition(
                stmts,
                stmts@.len() as int,
                old(self)@.inside_loop(),
            ) ==> old(self)@.stays(block, final(self)@, r->Ok_0),
        decreases stmts, 0nat,
    {
        let mut current = block;
        let mut i: usize = 0;
        while i < stmts.len()
            invariant
                0 <= i <= stmts.len(),
                block < old(self)@.blocks.len(),
                self@.ready(current),
                self@.in_extent(extent),
                old(self)@.leads_to(block, self@, current),
                lower_stmts(old(self)@, extent, block, stmts, 0) == lower_stmts(
                    self@,
                    extent,
                    current,
                    stmts,
                    i as int,
                ),
                !stmts_have_transition(stmts, stmts@.len() as int, old(self)@.inside_loop())
                    ==> old(self)@.stays(block, self@, current),
                !stmts_have_marker(stmts, stmts@.len() as int) && old(self)@.suspend_free()
                    ==> self@.suspend_free(),
            decreases stmts.len() - i,
        {
            proof {
                if !stmts_have_marker(stmts, stmts@.len() as int) {
                    lemma_stmts_without_marker(stmts, stmts@.len() as int, i as int);
                }
                if !stmts_have_transition(stmts, stmts@.len() as int, old(self)@.inside_loop()) {
                    lemma_stmts_without_transition(
                        stmts,
                        stmts@.len() as int,
                        i as int,
                        old(self)@.inside_loop(),
                    );
                }
            }
            match self.stmt(extent, current, &stmts[i]) {
                Ok(next) => {
                    current = next;
                },
                Err(e) => {
                    return Err(e);
                },
            }
            i += 1;
        }
        Ok(current)
    }

    /// Lowers one statement.
    pub fn stmt(&mut self, extent: CodeExtent, block: BasicBlock, stmt: &Stmt) -> (r: Result<
        BasicBlock,
        Error,
    >)
        requires
            old(self)@.ready(block),
            old(self)@.in_extent(extent),
        ensures
            refines(lower_stmt(old(self)@, extent, block, stmt), final(self)@, r),
            r matches Ok(next) ==> old(self)@.leads_to(block, final(self)@, next),
            r is Ok && !stmt_has_marker(stmt) && old(self)@.suspend_free() ==> final(self)@.suspend_free(),
            r matches Err(e) ==> e.kind.is_rejection(),
            r is Ok && !stmt_has_transition(stmt, old(self)@.inside_loop()) ==> old(self)@.stays(
                block,
                final(self)@,
                r->Ok_0,
            ),
        decreases stmt, 1nat,
    {
        match &stmt.node {
            StmtKind::Expr(e) => {
                if expr_is_empty(e) {
                    Ok(block)
                } else {
                    self.expr(extent, block, e)
                }
            },
            StmtKind::Semi(e) => {
                if expr_is_empty(e) {
                    Ok(block)
                } else {
                    self.expr(extent, block, e)
                }
            },
            StmtKind::Local(local) => self.local(extent, block, stmt.id, local),
            StmtKind::Item => Err(Error { kind: ErrorKind::ItemDeclaration, span: stmt.id }),
            StmtKind::Mac(mac) => self.mac(Lvalue::Ignore, extent, block, stmt.id, mac),
        }
    }

    /// Lowers a `let`: the initializer, then the names it binds, then the
    /// binding itself.
    pub fn local(&mut self, extent: CodeExtent, block: BasicBlock, span: NodeId, local: &Let) -> (r:
        Result<BasicBlock, Error>)
        requires
            old(self)@.ready(block),
            old(self)@.in_extent(extent),
        ensures
            refines(lower_local(old(self)@, extent, block, span, local), final(self)@, r),
            r matches Ok(next) ==> old(self)@.leads_to(block, final(self)@, next),
            r is Ok && !(local.init matches Some(init) && expr_has_marker(&init)) && old(self)@.suspend_free() ==> final(self)@.suspend_free(),
            r matches Err(e) ==> e.kind.is_rejection(),
            r is Ok && !crate::transition::local_has_transition(local, old(self)@.inside_loop())
                ==> old(self)@.stays(block, final(self)@, r->Ok_0),
    {
        let init = match &local.init {
            Some(init) => init,
            None => {
                return Err(Error { kind: ErrorKind::MissingInitializer, span });
            },
        };
        if self.contains_transition(init) {
            match &init.node {
                ExprKind::Mac(mac) => {
                    // The names are reserved before the suspension, and
                    // hold their values once the computation has resumed.
                    let first = self.local_decls.len();
                    self.declare_locals(extent, block, span, local.ty, &local.pat.bindings, true);
                    let end = self.local_decls.len();
                    let destination = Lvalue::Pattern { pat: local.pat.id, ty: local.ty };
                    let next = match self.mac(destination, extent, block, init.id, mac) {
                        Ok(next) => next,
                        Err(e) => {
                            return Err(e);
                        },
                    };
                    self.initialize_locals(first, end);
                    return Ok(next);
                },
                _ => {
                    return Err(Error { kind: ErrorKind::UnsupportedExpression, span: init.id });
                },
            }
        }
        self.declare_locals(extent, block, span, local.ty, &local.pat.bindings, false);
        self.push(
            block,
            span,
            StatementKind::Let {
                pat: LetPat::Syntax(local.pat.id),
                ty: local.ty,
                init: LetInit::Expr(init.id),
            },
        );
        Ok(block)
    }

    /// The reserved locals `from..to` have received their values.
    fn initialize_locals(&mut self, from: Local, to: Local)
        requires
            old(self)@.wf(),
        ensures
            final(self)@ == old(self)@.initialize_locals(from, to),
            old(self)@.declares(final(self)@),
            final(self)@.local_decls == old(self)@.local_decls,
    {
        let mut local = from;
        while local < to
            invariant
                from <= local,
                from <= to ==> local <= to,
                old(self)@.declares(self@),
                self@.local_decls == old(self)@.local_decls,
                old(self)@.initialize_locals(from, to) == self@.initialize_locals(local, to),
            decreases to - local,
        {
            self.initialize(local);
            local += 1;
        }
    }

    /// Declares the names of a pattern in the innermost scope, in order.
    fn declare_locals(
        &mut self,
        extent: CodeExtent,
        block: BasicBlock,
        span: NodeId,
        ty: Option<NodeId>,
        bindings: &Vec<Binding>,
        reserved: bool,
    )
        requires
            old(self)@.ready(block),
            old(self)@.in_extent(extent),
        ensures
            final(self)@ == old(self)@.declare_locals(extent, block, span, ty, bindings, 0, reserved),
            old(self)@.suspend_free() ==> final(self)@.suspend_free(),
            old(self)@.leads_to(block, final(self)@, block),
            old(self)@.stays(block, final(self)@, block),
    {
        let mut i: usize = 0;
        while i < bindings.len()
            invariant
                0 <= i <= bindings.len(),
                self@.ready(block),
                self@.in_extent(extent),
                old(self)@.leads_to(block, self@, block),
                old(self)@.stays(block, self@, block),
                old(self)@.suspend_free() ==> self@.suspend_free(),
                old(self)@.declare_locals(extent, block, span, ty, bindings, 0, reserved)
                    == self@.declare_locals(extent, block, span, ty, bindings, i as int, reserved),
            decreases bindings.len() - i,
        {
            let binding = &bindings[i];
            let shadowed = self.find_decl(&binding.ident);
            let local = if reserved {
                self.reserve_binding(span, binding.mutability, binding.ident.clone(), ty)
            } else {
                self.declare_binding(span, binding.mutability, binding.ident.clone(), ty)
            };
            let alias = match shadowed {
                Some(outer) => Some(self.alias(block, span, outer)),
                None => None,
            };
            self.schedule_drop(span, extent, local, alias);
            i += 1;
        }
    }

    /// Keeps the form `id` whole, as one statement of `block`.
    pub fn into_stmt(&mut self, _extent: CodeExtent, block: BasicBlock, id: NodeId) -> (r: BasicBlock)
        requires
            old(self)@.ready(block),
        ensures
            (final(self)@, r) == old(self)@.keep(block, id),
            old(self)@.suspend_free() ==> final(self)@.suspend_free(),
            old(self)@.leads_to(block, final(self)@, r),
            old(self)@.stays(block, final(self)@, r),
    {
        self.push(block, id, StatementKind::Expr(id));
        block
    }

    /// Renames the value of the shadowed local `decl` at the end of
    /// `block`, so that it survives under a synthesized name.
    pub fn alias(&mut self, block: BasicBlock, span: NodeId, decl: Local) -> (r: Alias)
        requires
            block < old(self)@.blocks.len(),
        ensures
            r == (Alias { decl }),
            final(self)@ == old(self)@.push(
                block,
                span,
                StatementKind::Let {
                    pat: LetPat::Shadow(decl),
                    ty: None,
                    init: LetInit::Local(decl),
                },
            ),
    {
        self.push(
            block,
            span,
            StatementKind::Let { pat: LetPat::Shadow(decl), ty: None, init: LetInit::Local(decl) },
        );
        Alias { decl }
    }
}

/// Whether the statement is an expression that does nothing.
pub fn stmt_is_empty(stmt: &Stmt) -> (r: bool)
    ensures
        r == stmt_is_empty_spec(stmt),
    decreases stmt,
{
    match &stmt.node {
        StmtKind::Expr(e) => expr_is_empty(e),
        StmtKind::Semi(e) => expr_is_empty(e),
        _ => false,
    }
}

/// Whether the expression is a block that does nothing.
#[verifier::loop_isolation(false)]
pub fn expr_is_empty(expr: &Expr) -> (r: bool)
    ensures
        r == expr_is_empty_spec(expr),
    decreases expr,
{
    match &expr.node {
        ExprKind::Block(block) => {
            if block.expr.is_some() {
                return false;
            }
            let mut i: usize = 0;
            while i < block.stmts.len()
                invariant
                    0 <= i <= block.stmts.len(),
                    stmts_are_empty(&block.stmts, i as int),
                decreases block.stmts.len() - i,
            {
                if !stmt_is_empty(&block.stmts[i]) {
                    proof {
                        lemma_not_all_empty(&block.stmts, block.stmts@.len() as int, i as int);
                    }
                    return false;
                }
                i += 1;
            }
            true
        },
        _ => false,
    }
}

/// Where one statement does something, the statements up to any later
/// position do not all do nothing.
proof fn lemma_not_all_empty(stmts: &Vec<Stmt>, n: int, i: int)
    requires
        0 <= i < n <= stmts@.len(),
        !stmt_is_empty_spec(&stmts@[i]),
    ensures
        !stmts_are_empty(stmts, n),
    decreases n,
{
    if i < n - 1 {
        lemma_not_all_empty(stmts, n - 1, i);
    }
}

} // verus!

//! Expressions in statement position.

use vstd::prelude::*;
use crate::ast::{Expr, ExprKind, NodeId};
use crate::build::lowering::{
    enter_loop, loop_tail, lower_expr, lower_if, lower_loop, refines,
};
use crate::build::model::LoopScope;
use crate::build::{Builder, Error, ErrorKind};
use crate::repr::{BasicBlock, BlockName, CodeExtent, LetInit, LetPat, StatementKind, TerminatorKind, RETURN_POINTER, Lvalue,
};
use crate::transition::{expr_has_marker, expr_has_transition};

verus! {

impl Builder {
    /// Lowers an expression in statement position. An expression without a
    /// transition is kept whole.
    pub fn expr(&mut self, extent: CodeExtent, block: BasicBlock, expr: &Expr) -> (r: Result<
        BasicBlock,
        Error,
    >)
        requires
            old(self)@.ready(block),
            old(self)@.in_extent(extent),
        ensures
            refines(lower_expr(old(self)@, extent, block, expr), final(self)@, r),
            r matches Ok(next) ==> old(self)@.leads_to(block, final(self)@, next),
            r is Ok && !expr_has_marker(expr) && old(self)@.suspend_free() ==> final(self)@.suspend_free(),
            r matches Err(e) ==> e.kind.is_rejection(),
            r is Ok && !expr_has_transition(expr, old(self)@.inside_loop()) ==> old(self)@.stays(
                block,
                final(self)@,
                r->Ok_0,
            ),
        decreases expr, 1nat,
    {
        match &expr.node {
            ExprKind::Ret(None) => {
                return Err(Error { kind: ErrorKind::EmptyReturn, span: expr.id });
            },
            _ => {},
        }
        if !self.contains_transition(expr) {
            return Ok(self.into_stmt(extent, block, expr.id));
        }
        match &expr.node {
            ExprKind::Block(inner) => self.ast_block(block, inner),
            ExprKind::Loop(_) => self.expr_loop(block, expr),
            ExprKind::If(_, _, _) => self.expr_if(extent, block, expr),
            ExprKind::Break => Ok(self.break_or_continue(block, expr.id, true)),
            ExprKind::Continue => Ok(self.break_or_continue(block, expr.id, false)),
            ExprKind::Ret(Some(value)) => {
                if self.contains_transition(&**value) {
                    Err(Error { kind: ErrorKind::UnsupportedExpression, span: value.id })
                } else {
                    Ok(self.expr_return(block, expr.id, value.id))
                }
            },
            ExprKind::Assign(place, value) => {
                if self.contains_transition(&**place) {
                    Err(Error { kind: ErrorKind::UnsupportedExpression, span: place.id })
                } else {
                    Err(Error { kind: ErrorKind::UnsupportedExpression, span: value.id })
                }
            },
            ExprKind::Mac(mac) => self.mac(Lvalue::Ignore, extent, block, expr.id, mac),
            ExprKind::Match(_, _) => self.expr_match(block, expr),
            _ => Err(Error { kind: ErrorKind::UnsupportedExpression, span: expr.id }),
        }
    }

    /// Lowers a conditional.
    pub fn expr_if(&mut self, extent: CodeExtent, block: BasicBlock, expr: &Expr) -> (r: Result<
        BasicBlock,
        Error,
    >)
        requires
            old(self)@.ready(block),
            old(self)@.in_extent(extent),
            expr.node is If,
        ensures
            refines(lower_if(old(self)@, extent, block, expr), final(self)@, r),
            r matches Ok(next) ==> old(self)@.leads_to(block, final(self)@, next),
            r is Ok && !expr_has_marker(expr) && old(self)@.suspend_free() ==> final(self)@.suspend_free(),
            r matches Err(e) ==> e.kind.is_rejection(),
        decreases expr, 0nat,
    {
        match &expr.node {
            ExprKind::If(cond, then, otherwise) => {
                if self.contains_transition(&**cond) {
                    return Err(Error { kind: ErrorKind::TransitionInCondition, span: cond.id });
                }
                let then_block = self.start_new_block(then.id, Some(BlockName::Then));
                let else_block = self.start_new_block(expr.id, Some(BlockName::Else));
                let join = self.start_new_block(expr.id, Some(BlockName::EndIf));
                self.terminate(
                    expr.id,
                    block,
                    TerminatorKind::If { cond: cond.id, targets: (then_block, else_block) },
                );
                let then_end = match self.ast_block(then_block, then) {
                    Ok(end) => end,
                    Err(e) => {
                        return Err(e);
                    },
                };
                self.terminate(then.id, then_end, TerminatorKind::Goto { target: join });
                let else_end = match otherwise {
                    Some(e) => match self.expr(extent, else_block, e) {
                        Ok(end) => end,
                        Err(e) => {
                            return Err(e);
                        },
                    },
                    None => else_block,
                };
                self.terminate(expr.id, else_end, TerminatorKind::Goto { target: join });
                Ok(join)
            },
            _ => Ok(block),
        }
    }

    /// Lowers a loop. The block before the loop goes to the entry block of
    /// the body, the tail of the body goes back to the entry block, and
    /// control continues in the exit block, which is another block: a
    /// `break` of the loop goes there, never to the entry block.
    pub fn expr_loop(&mut self, block: BasicBlock, expr: &Expr) -> (r: Result<BasicBlock, Error>)
        requires
            old(self)@.ready(block),
            expr.node is Loop,
        ensures
            refines(lower_loop(old(self)@, block, expr), final(self)@, r),
            r matches Ok(exit) ==> {
                let entry = old(self)@.next_block();
                &&& entry == old(self)@.blocks.len()
                &&& exit == entry + 1
                &&& enter_loop(old(self)@, block, expr).loop_scopes.last() == (LoopScope {
                    depth: old(self)@.scopes.len() as usize,
                    continue_block: entry,
                    break_block: exit,
                })
                &&& final(self)@.goes_to(block, entry)
                &&& loop_tail(old(self)@, block, expr) matches Some(end) && final(self)@.goes_to(
                    end,
                    entry,
                )
            },
            r matches Ok(next) ==> old(self)@.leads_to(block, final(self)@, next),
            r is Ok && !expr_has_marker(expr) && old(self)@.suspend_free() ==> final(self)@.suspend_free(),
            r matches Err(e) ==> e.kind.is_rejection(),
        decreases expr, 0nat,
    {
        match &expr.node {
            ExprKind::Loop(body) => {
                let entry = self.start_new_block(body.id, Some(BlockName::Loop));
                let exit = self.start_new_block(expr.id, Some(BlockName::LoopExit));
                self.terminate(expr.id, block, TerminatorKind::Goto { target: entry });
                let depth = self.scopes.len();
                self.push_loop_scope(LoopScope { depth, continue_block: entry, break_block: exit });
                let end = match self.ast_block(entry, body) {
                    Ok(end) => end,
                    Err(e) => {
                        return Err(e);
                    },
                };
                self.pop_loop_scope();
                assert(self@.loop_scopes =~= old(self)@.loop_scopes);
                self.terminate(expr.id, end, TerminatorKind::Goto { target: entry });
                Ok(exit)
            },
            _ => Ok(block),
        }
    }

    /// Lowers a `break` or a `continue` of the innermost loop: `block`
    /// leaves the scopes of the loop's body and goes to the loop's exit or
    /// entry. What follows in the source continues in a fresh block.
    pub fn break_or_continue(&mut self, block: BasicBlock, span: NodeId, is_break: bool) -> (r:
        BasicBlock)
        requires
            old(self)@.ready(block),
            old(self)@.inside_loop(),
        ensures
            (final(self)@, r) == if is_break {
                old(self)@.break_loop(block, span)
            } else {
                old(self)@.continue_loop(block, span)
            },
            final(self)@.goes_to(
                block,
                if is_break {
                    old(self)@.loop_scopes.last().break_block
                } else {
                    old(self)@.loop_scopes.last().continue_block
                },
            ),
            old(self)@.suspend_free() ==> final(self)@.suspend_free(),
            old(self)@.leads_to(block, final(self)@, r),
    {
        let innermost = self.loop_scopes[self.loop_scopes.len() - 1];
        self.exit_scopes(innermost.depth, block);
        if is_break {
            self.terminate(span, block, TerminatorKind::Goto { target: innermost.break_block });
            self.start_new_block(span, Some(BlockName::AfterBreak))
        } else {
            self.terminate(span, block, TerminatorKind::Goto { target: innermost.continue_block });
            self.start_new_block(span, Some(BlockName::AfterContinue))
        }
    }

    /// Lowers `return value`: the value goes to the return slot, every
    /// scope inside the function's own is left, and `block` goes to the
    /// shared return block. What follows in the source continues in a fresh
    /// block.
    pub fn expr_return(&mut self, block: BasicBlock, span: NodeId, value: NodeId) -> (r: BasicBlock)
        requires
            old(self)@.ready(block),
        ensures
            (final(self)@, r) == old(self)@.return_value(block, span, value),
            old(self)@.suspend_free() ==> final(self)@.suspend_free(),
            old(self)@.leads_to(block, final(self)@, r),
    {
        self.push(
            block,
            span,
            StatementKind::Let {
                pat: LetPat::Local(RETURN_POINTER),
                ty: None,
                init: LetInit::Expr(value),
            },
        );
        self.exit_scopes(1, block);
        let return_block = self.return_block();
        self.terminate(span, block, TerminatorKind::Goto { target: return_block });
        self.start_new_block(span, Some(BlockName::AfterReturn))
    }
}

} // verus!

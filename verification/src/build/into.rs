//! Lowering into a block, whatever the form.

use vstd::prelude::*;
use crate::ast::{Block, Expr, Stmt};
use crate::build::lowering::{lower_block, lower_expr, refines, Lowered};
use crate::build::model::BuilderModel;
use crate::build::{Builder, Error};
use crate::repr::{BasicBlock, CodeExtent};

verus! {

/// A form that can be lowered into a block.
pub trait EvalInto {
    /// What the lowering of the form from `block` gives.
    spec fn lowered(&self, s: BuilderModel, extent: CodeExtent, block: BasicBlock) -> Lowered;

    fn eval_into(&self, builder: &mut Builder, extent: CodeExtent, block: BasicBlock) -> (r: Result<
        BasicBlock,
        Error,
    >)
        requires
            old(builder)@.ready(block),
            old(builder)@.in_extent(extent),
        ensures
            refines(self.lowered(old(builder)@, extent, block), final(builder)@, r),
            r matches Ok(next) ==> old(builder)@.leads_to(block, final(builder)@, next),
    ;
}

/// A block is lowered statement by statement, in a scope of its own.
impl EvalInto for Block {
    open spec fn lowered(&self, s: BuilderModel, extent: CodeExtent, block: BasicBlock) -> Lowered {
        lower_block(s, block, self)
    }

    fn eval_into(&self, builder: &mut Builder, extent: CodeExtent, block: BasicBlock) -> (r: Result<
        BasicBlock,
        Error,
    >) {
        builder.ast_block(block, self)
    }
}

/// A statement is kept whole.
impl EvalInto for Stmt {
    open spec fn lowered(&self, s: BuilderModel, extent: CodeExtent, block: BasicBlock) -> Lowered {
        Ok(s.keep(block, self.id))
    }

    fn eval_into(&self, builder: &mut Builder, extent: CodeExtent, block: BasicBlock) -> (r: Result<
        BasicBlock,
        Error,
    >) {
        Ok(builder.into_stmt(extent, block, self.id))
    }
}

/// An expression is kept whole, as a statement.
impl EvalInto for Expr {
    open spec fn lowered(&self, s: BuilderModel, extent: CodeExtent, block: BasicBlock) -> Lowered {
        Ok(s.keep(block, self.id))
    }

    fn eval_into(&self, builder: &mut Builder, extent: CodeExtent, block: BasicBlock) -> (r: Result<
        BasicBlock,
        Error,
    >) {
        Ok(builder.into_stmt(extent, block, self.id))
    }
}

/// An expression that may be missing is lowered where it is there.
impl EvalInto for Option<Expr> {
    open spec fn lowered(&self, s: BuilderModel, extent: CodeExtent, block: BasicBlock) -> Lowered {
        match self {
            Some(expr) => lower_expr(s, extent, block, expr),
            None => Ok((s, block)),
        }
    }

    fn eval_into(&self, builder: &mut Builder, extent: CodeExtent, block: BasicBlock) -> (r: Result<
        BasicBlock,
        Error,
    >) {
        match self {
            Some(expr) => builder.expr(extent, block, expr),
            None => Ok(block),
        }
    }
}

impl Builder {
    /// Lowers a form from `block`.
    pub fn into<E: EvalInto>(&mut self, extent: CodeExtent, block: BasicBlock, expr: &E) -> (r: Result<
        BasicBlock,
        Error,
    >)
        requires
            old(self)@.ready(block),
            old(self)@.in_extent(extent),
        ensures
            refines(expr.lowered(old(self)@, extent, block), final(self)@, r),
            r matches Ok(next) ==> old(self)@.leads_to(block, final(self)@, next),
    {
        expr.eval_into(self, extent, block)
    }
}

} // verus!

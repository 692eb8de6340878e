//! The structured program that the lowering consumes.
//!
//! The tree keeps the shape that the control-flow lowering reads, and a
//! [`NodeId`] on every node by which a renderer finds the surface syntax (and
//! its source location) again.

use vstd::prelude::*;

verus! {

/// Identity of a node of the surface syntax tree.
#[derive(Clone, Copy, Debug, PartialEq, Eq, Structural)]
pub struct NodeId(pub u32);

/// Whether a binding may be assigned after its declaration.
#[derive(Clone, Copy, Debug, PartialEq, Eq, Structural)]
pub enum Mutability {
    Immutable,
    Mutable,
}

/// A path such as `yield_` or `::std::mem::drop`.
#[derive(Debug)]
pub struct Path {
    /// The path starts with `::`.
    pub global: bool,
    pub segments: Vec<String>,
}

/// A macro invocation.
#[derive(Debug)]
pub struct Mac {
    pub id: NodeId,
    pub path: Path,
    /// The arguments, where they form exactly one expression.
    pub operand: Option<Box<Expr>>,
}

/// One name bound by a pattern.
#[derive(Debug)]
pub struct Binding {
    pub ident: String,
    pub mutability: Mutability,
}

/// A pattern, reduced to the names it binds, in source order.
#[derive(Debug)]
pub struct Pat {
    pub id: NodeId,
    pub bindings: Vec<Binding>,
}

/// A `let` declaration.
#[derive(Debug)]
pub struct Local {
    pub pat: Pat,
    /// The declared type, if one is written.
    pub ty: Option<NodeId>,
    pub init: Option<Expr>,
}

/// One arm of a `match`.
#[derive(Debug)]
pub struct Arm {
    pub id: NodeId,
    pub pat: Pat,
    pub body: Expr,
}

#[derive(Debug)]
pub enum ExprKind {
    /// `return`, with or without a value.
    Ret(Option<Box<Expr>>),
    Break,
    Continue,
    /// `place = value`.
    Assign(Box<Expr>, Box<Expr>),
    Block(Block),
    Loop(Block),
    /// `if cond { then } else { otherwise }`.
    If(Box<Expr>, Block, Option<Box<Expr>>),
    Match(Box<Expr>, Vec<Arm>),
    Mac(Mac),
    /// Any other form, with its direct subexpressions in source order.
    Other(Vec<Expr>),
}

#[derive(Debug)]
pub struct Expr {
    pub id: NodeId,
    pub node: ExprKind,
}

#[derive(Debug)]
pub enum StmtKind {
    Local(Local),
    /// A nested item declaration.
    Item,
    /// An expression without a trailing semicolon.
    Expr(Expr),
    /// An expression with a trailing semicolon.
    Semi(Expr),
    Mac(Mac),
}

#[derive(Debug)]
pub struct Stmt {
    pub id: NodeId,
    pub node: StmtKind,
}

#[derive(Debug)]
pub struct Block {
    pub id: NodeId,
    pub stmts: Vec<Stmt>,
    /// The value of the block, where it ends in an expression.
    pub expr: Option<Box<Expr>>,
}

/// The parameters of a function, each by its pattern.
#[derive(Debug)]
pub struct FnDecl {
    pub inputs: Vec<Pat>,
}

#[derive(Debug)]
pub enum ItemKind {
    Fn(FnDecl, Block),
    /// Any item that is not a function.
    Other,
}

#[derive(Debug)]
pub struct Item {
    pub id: NodeId,
    pub node: ItemKind,
}

} // verus!

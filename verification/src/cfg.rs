//! A block graph for bodies in which every `return` with a value hands
//! control back to the driver. The graph is a `petgraph` graph whose nodes
//! are the blocks and one exit node.

use vstd::prelude::*;
use petgraph::graph::{Graph, NodeIndex};
use petgraph::Directed;
use vstd::string::StringExecFns;
use crate::ast::{Block, Expr, ExprKind, FnDecl, Local, NodeId, Pat, Stmt as AstStmt, StmtKind};
use crate::graph::{
    edges_at, graph_edges, graph_edges_directed, graph_new, graph_node_weight,
    graph_node_weight_mut, graph_nodes, graph_try_add_edge, graph_try_add_node, index_of,
    node_index_at, node_position, positions, EdgeDirection, GraphLimit,
};

verus! {

/// One entry of a block.
#[derive(Clone, Copy, Debug)]
pub enum Stmt {
    /// A statement of the surface syntax, kept whole.
    Stmt(NodeId),
    /// Control goes to the node.
    Goto(NodeIndex<u32>),
    /// The value of the expression goes to the driver, and the computation
    /// resumes in the node.
    Yield(NodeIndex<u32>, NodeId),
    /// Control goes to the first node where the condition holds, and to
    /// the second where it does not.
    If(NodeId, NodeIndex<u32>, NodeIndex<u32>),
}

/// A block: the role in which it was started, the names that are in scope
/// at its entry, and its entries.
#[derive(Debug)]
pub struct BasicBlock {
    pub name: String,
    pub decls: Vec<String>,
    pub stmts: Vec<Stmt>,
}

#[derive(Debug)]
pub enum Node {
    BasicBlock(BasicBlock),
    Exit,
}

/// What a list of names holds.
pub open spec fn names_view(names: Seq<String>) -> Seq<Seq<char>> {
    Seq::new(names.len(), |i: int| names[i]@)
}

/// What a [`BasicBlock`] holds.
pub ghost struct BlockView {
    pub name: Seq<char>,
    pub decls: Seq<Seq<char>>,
    pub stmts: Seq<Stmt>,
}

/// What a [`Node`] holds.
pub ghost enum NodeView {
    BasicBlock(BlockView),
    Exit,
}

impl View for BasicBlock {
    type V = BlockView;

    open spec fn view(&self) -> BlockView {
        BlockView { name: self.name@, decls: names_view(self.decls@), stmts: self.stmts@ }
    }
}

impl View for Node {
    type V = NodeView;

    open spec fn view(&self) -> NodeView {
        match self {
            Node::BasicBlock(bb) => NodeView::BasicBlock(bb@),
            Node::Exit => NodeView::Exit,
        }
    }
}

/// What a list of nodes holds.
pub open spec fn nodes_view(nodes: Seq<Node>) -> Seq<NodeView> {
    Seq::new(nodes.len(), |i: int| nodes[i]@)
}

impl BasicBlock {
    pub fn new(name: String, decls: Vec<String>) -> (r: Self)
        ensures
            r@ == (BlockView { name: name@, decls: names_view(decls@), stmts: Seq::empty() }),
    {
        BasicBlock { name, decls, stmts: Vec::new() }
    }
}

impl Node {
    /// The role of the node.
    pub fn name(&self) -> (r: &str)
        ensures
            r@ == match self@ {
                NodeView::BasicBlock(bb) => bb.name,
                NodeView::Exit => "Exit"@,
            },
    {
        match self {
            Node::BasicBlock(bb) => bb.name.as_str(),
            Node::Exit => "Exit",
        }
    }

    /// The names that are in scope at the entry of the node.
    pub fn decls(&self) -> (r: &[String])
        ensures
            names_view(r@) == match self@ {
                NodeView::BasicBlock(bb) => bb.decls,
                NodeView::Exit => Seq::empty(),
            },
    {
        match self {
            Node::BasicBlock(bb) => bb.decls.as_slice(),
            Node::Exit => {
                let empty: &[String] = &[];
                assert(names_view(empty@) =~= Seq::empty());
                empty
            },
        }
    }
}

/// Why a body has no graph.
#[derive(Clone, Copy, Debug, PartialEq, Eq, Structural)]
pub enum CfgError {
    /// The graph cannot grow any further.
    Limit(GraphLimit),
    /// An entry was to be added to a node that is no block: a statement
    /// follows a `break` that left the function's outermost block.
    NotABasicBlock,
    /// A block ends in a value.
    BlockTailExpression(NodeId),
    /// An item is declared inside the body.
    ItemDeclaration(NodeId),
    /// A `return` without a value.
    EmptyReturn(NodeId),
    /// A transfer of control stands inside a form that is not lowered.
    Unsupported(NodeId),
    /// The condition of a conditional holds a transfer of control.
    TransitionInCondition(NodeId),
}

/// Whether the expression holds a transfer of control that splits a block:
/// a `return` with a value or, inside a loop, a `break` or a `continue`.
/// The arguments of a macro are not searched.
pub open spec fn expr_has_exit(expr: &Expr, inside_loop: bool) -> bool
    decreases expr, 0nat,
{
    match &expr.node {
        ExprKind::Ret(Some(_)) => true,
        ExprKind::Ret(None) => false,
        ExprKind::Break => inside_loop,
        ExprKind::Continue => inside_loop,
        ExprKind::Mac(_) => false,
        ExprKind::Assign(place, value) => expr_has_exit(place, inside_loop) || expr_has_exit(
            value,
            inside_loop,
        ),
        ExprKind::Block(block) => block_has_exit(block, inside_loop),
        ExprKind::Loop(block) => block_has_exit(block, inside_loop),
        ExprKind::If(cond, then, otherwise) => {
            ||| expr_has_exit(cond, inside_loop)
            ||| block_has_exit(then, inside_loop)
            ||| match otherwise {
                Some(e) => expr_has_exit(e, inside_loop),
                None => false,
            }
        },
        ExprKind::Match(discr, arms) => {
            ||| expr_has_exit(discr, inside_loop)
            ||| arms_have_exit(arms, arms@.len() as int, inside_loop)
        },
        ExprKind::Other(children) => exprs_have_exit(children, children@.len() as int, inside_loop),
    }
}

/// Whether one of the first `n` expressions holds such a transfer.
pub open spec fn exprs_have_exit(exprs: &Vec<Expr>, n: int, inside_loop: bool) -> bool
    decreases exprs, n,
{
    if 0 < n <= exprs@.len() {
        exprs_have_exit(exprs, n - 1, inside_loop) || expr_has_exit(&exprs@[n - 1], inside_loop)
    } else {
        false
    }
}

/// Whether the body of one of the first `n` arms holds such a transfer.
pub open spec fn arms_have_exit(arms: &Vec<crate::ast::Arm>, n: int, inside_loop: bool) -> bool
    decreases arms, n,
{
    if 0 < n <= arms@.len() {
        arms_have_exit(arms, n - 1, inside_loop) || expr_has_exit(&arms@[n - 1].body, inside_loop)
    } else {
        false
    }
}

/// Whether one of the first `n` statements holds such a transfer.
pub open spec fn stmts_have_exit(stmts: &Vec<AstStmt>, n: int, inside_loop: bool) -> bool
    decreases stmts, n,
{
    if 0 < n <= stmts@.len() {
        stmts_have_exit(stmts, n - 1, inside_loop) || (match &stmts@[n - 1].node {
            StmtKind::Local(local) => match &local.init {
                Some(e) => expr_has_exit(e, inside_loop),
                None => false,
            },
            StmtKind::Item => false,
            StmtKind::Expr(e) => expr_has_exit(e, inside_loop),
            StmtKind::Semi(e) => expr_has_exit(e, inside_loop),
            StmtKind::Mac(_) => false,
        })
    } else {
        false
    }
}

pub open spec fn block_has_exit(block: &Block, inside_loop: bool) -> bool
    decreases block, 0nat,
{
    ||| stmts_have_exit(&block.stmts, block.stmts@.len() as int, inside_loop)
    ||| match &block.expr {
        Some(e) => expr_has_exit(e, inside_loop),
        None => false,
    }
}

#[verifier::loop_isolation(false)]
fn has_exit_expr(expr: &Expr, inside_loop: bool) -> (r: bool)
    ensures
        r == expr_has_exit(expr, inside_loop),
    decreases expr, 1nat,
{
    match &expr.node {
        ExprKind::Ret(Some(_)) => true,
        ExprKind::Ret(None) => false,
        ExprKind::Break => inside_loop,
        ExprKind::Continue => inside_loop,
        ExprKind::Mac(_) => false,
        ExprKind::Assign(place, value) => has_exit_expr(place, inside_loop) || has_exit_expr(
            value,
            inside_loop,
        ),
        ExprKind::Block(block) => has_exit_block(block, inside_loop),
        ExprKind::Loop(block) => has_exit_block(block, inside_loop),
        ExprKind::If(cond, then, otherwise) => {
            let in_cond = has_exit_expr(cond, inside_loop);
            let in_then = has_exit_block(then, inside_loop);
            let in_else = match otherwise {
                Some(e) => has_exit_expr(e, inside_loop),
                None => false,
            };
            in_cond || in_then || in_else
        },
        ExprKind::Match(discr, arms) => {
            let in_discr = has_exit_expr(discr, inside_loop);
            let mut found = false;
            let mut i: usize = 0;
            while i < arms.len()
                invariant
                    0 <= i <= arms.len(),
                    found == arms_have_exit(arms, i as int, inside_loop),
                decreases arms.len() - i,
            {
                let here = has_exit_arm(arms, i, inside_loop);
                found = found || here;
                i += 1;
            }
            in_discr || found
        },
        ExprKind::Other(children) => {
            let mut found = false;
            let mut i: usize = 0;
            while i < children.len()
                invariant
                    0 <= i <= children.len(),
                    found == exprs_have_exit(children, i as int, inside_loop),
                decreases children.len() - i,
            {
                let here = has_exit_child(children, i, inside_loop);
                found = found || here;
                i += 1;
            }
            found
        },
    }
}

fn has_exit_child(exprs: &Vec<Expr>, i: usize, inside_loop: bool) -> (r: bool)
    requires
        i < exprs@.len(),
    ensures
        r == expr_has_exit(&exprs@[i as int], inside_loop),
    decreases exprs, 0nat,
{
    has_exit_expr(&exprs[i], inside_loop)
}

fn has_exit_arm(arms: &Vec<crate::ast::Arm>, i: usize, inside_loop: bool) -> (r: bool)
    requires
        i < arms@.len(),
    ensures
        r == expr_has_exit(&arms@[i as int].body, inside_loop),
    decreases arms, 0nat,
{
    has_exit_expr(&arms[i].body, inside_loop)
}

fn has_exit_stmt(stmts: &Vec<AstStmt>, i: usize, inside_loop: bool) -> (r: bool)
    requires
        i < stmts@.len(),
    ensures
        stmts_have_exit(stmts, i + 1, inside_loop) == (stmts_have_exit(stmts, i as int, inside_loop)
            || r),
    decreases stmts, 0nat,
{
    match &stmts[i].node {
        StmtKind::Local(local) => match &local.init {
            Some(e) => has_exit_expr(e, inside_loop),
            None => false,
        },
        StmtKind::Item => false,
        StmtKind::Expr(e) => has_exit_expr(e, inside_loop),
        StmtKind::Semi(e) => has_exit_expr(e, inside_loop),
        StmtKind::Mac(_) => false,
    }
}

fn has_exit_block(block: &Block, inside_loop: bool) -> (r: bool)
    ensures
        r == block_has_exit(block, inside_loop),
    decreases block, 1nat,
{
    let mut found = false;
    let mut i: usize = 0;
    while i < block.stmts.len()
        invariant
            0 <= i <= block.stmts.len(),
            found == stmts_have_exit(&block.stmts, i as int, inside_loop),
        decreases block.stmts.len() - i,
    {
        let here = has_exit_stmt(&block.stmts, i, inside_loop);
        found = found || here;
        i += 1;
    }
    let in_tail = match &block.expr {
        Some(e) => has_exit_expr(e, inside_loop),
        None => false,
    };
    found || in_tail
}

/// The state of the construction of a graph.
pub ghost struct CfgModel {
    pub nodes: Seq<NodeView>,
    /// The positions of the source and the target of each edge, in the
    /// order in which the edges were added.
    pub edges: Seq<(int, int)>,
    pub inside_loop: bool,
    /// The entry block of the innermost loop around the place of
    /// construction.
    pub loop_entry: Option<NodeIndex<u32>>,
}

impl NodeView {
    /// The node without the entries of its block: whether it is a block,
    /// and the role and the names in scope of the block.
    pub open spec fn head(self) -> NodeView {
        match self {
            NodeView::BasicBlock(bb) => NodeView::BasicBlock(
                BlockView { stmts: Seq::empty(), ..bb },
            ),
            NodeView::Exit => NodeView::Exit,
        }
    }
}

/// The outcome of a step that leads to a node.
pub type Step = Result<(CfgModel, NodeIndex<u32>), CfgError>;

/// The names that a pattern binds, in source order.
pub open spec fn pat_idents(pat: &Pat) -> Seq<Seq<char>> {
    Seq::new(pat.bindings@.len(), |i: int| pat.bindings@[i].ident@)
}

/// The names that the parameters from position `from` on bind.
pub open spec fn inputs_idents(inputs: &Vec<Pat>, from: int) -> Seq<Seq<char>>
    decreases inputs@.len() - from,
{
    if 0 <= from < inputs@.len() {
        pat_idents(&inputs@[from]) + inputs_idents(inputs, from + 1)
    } else {
        Seq::empty()
    }
}

impl CfgModel {
    /// The graph `post` has grown out of this one: it holds every node of
    /// this one at its position, as the kind of node it was, and every
    /// block with the role and the names in scope that it had.
    pub open spec fn extends_to(self, post: CfgModel) -> bool {
        &&& self.nodes.len() <= post.nodes.len()
        &&& forall|i: int|
            0 <= i < self.nodes.len() ==> (#[trigger] post.nodes[i]).head() == self.nodes[i].head()
    }

    pub open spec fn empty() -> CfgModel {
        CfgModel { nodes: Seq::empty(), edges: Seq::empty(), inside_loop: false, loop_entry: None }
    }

    /// The node is added behind the others.
    pub open spec fn add_node(self, node: NodeView) -> Step {
        if self.nodes.len() < u32::MAX {
            Ok(
                (
                    CfgModel { nodes: self.nodes.push(node), ..self },
                    node_index_at(self.nodes.len() as int),
                ),
            )
        } else {
            Err(CfgError::Limit(GraphLimit::Nodes))
        }
    }

    /// An empty block is added, at whose entry the names of `scope` are in
    /// scope.
    pub open spec fn add_bb(self, name: Seq<char>, scope: Seq<Seq<char>>) -> Step {
        self.add_node(NodeView::BasicBlock(BlockView { name, decls: scope, stmts: Seq::empty() }))
    }

    /// The index stands for a node of the graph.
    pub open spec fn has_node(self, nx: NodeIndex<u32>) -> bool {
        0 <= index_of(nx) < self.nodes.len()
    }

    /// An edge is added behind the others.
    pub open spec fn add_edge(self, src: NodeIndex<u32>, dst: NodeIndex<u32>) -> Result<
        CfgModel,
        CfgError,
    > {
        if self.edges.len() >= u32::MAX {
            Err(CfgError::Limit(GraphLimit::Edges))
        } else if !self.has_node(src) || !self.has_node(dst) {
            Err(CfgError::Limit(GraphLimit::NodeOutOfBounds))
        } else {
            Ok(CfgModel { edges: self.edges.push((index_of(src), index_of(dst))), ..self })
        }
    }

    /// An entry is added at the end of a block.
    pub open spec fn add_stmt(self, nx: NodeIndex<u32>, stmt: Stmt) -> Result<CfgModel, CfgError> {
        if self.has_node(nx) && self.nodes[index_of(nx)] is BasicBlock {
            let bb = self.nodes[index_of(nx)]->BasicBlock_0;
            Ok(
                CfgModel {
                    nodes: self.nodes.update(
                        index_of(nx),
                        NodeView::BasicBlock(BlockView { stmts: bb.stmts.push(stmt), ..bb }),
                    ),
                    ..self
                },
            )
        } else {
            Err(CfgError::NotABasicBlock)
        }
    }

    /// Control goes from the end of `src` to `dst`.
    pub open spec fn goto(self, src: NodeIndex<u32>, dst: NodeIndex<u32>) -> Step {
        match self.add_edge(src, dst) {
            Ok(g) => match g.add_stmt(src, Stmt::Goto(dst)) {
                Ok(g) => Ok((g, dst)),
                Err(e) => Err(e),
            },
            Err(e) => Err(e),
        }
    }

    /// The end of `src` hands `value` to the driver; the computation
    /// resumes in a fresh block.
    pub open spec fn yield_(self, src: NodeIndex<u32>, value: NodeId, scope: Seq<Seq<char>>) -> Step {
        match self.add_bb("Yield"@, scope) {
            Ok((g, dst)) => match g.add_edge(src, dst) {
                Ok(g) => match g.add_stmt(src, Stmt::Yield(dst, value)) {
                    Ok(g) => Ok((g, dst)),
                    Err(e) => Err(e),
                },
                Err(e) => Err(e),
            },
            Err(e) => Err(e),
        }
    }
}

/// The outcome of a statement: the state, the node in which control
/// continues, and the names in scope after it.
pub type Scoped = Result<(CfgModel, NodeIndex<u32>, Seq<Seq<char>>), CfgError>;

/// One statement: a `let` brings its names into scope and is kept; an
/// expression statement that holds a transfer of control is lowered; any
/// other statement is kept.
pub open spec fn cfg_stmt(
    g: CfgModel,
    pred: NodeIndex<u32>,
    next: NodeIndex<u32>,
    scope: Seq<Seq<char>>,
    stmt: &AstStmt,
) -> Scoped
    decreases stmt, 1nat,
{
    match &stmt.node {
        StmtKind::Local(local) => match g.add_stmt(pred, Stmt::Stmt(stmt.id)) {
            Ok(g) => Ok((g, pred, scope + pat_idents(&local.pat))),
            Err(e) => Err(e),
        },
        StmtKind::Item => Err(CfgError::ItemDeclaration(stmt.id)),
        StmtKind::Semi(e) => if expr_has_exit(e, g.inside_loop) {
            match cfg_stmt_semi(g, pred, next, scope, e) {
                Ok((g, node)) => Ok((g, node, scope)),
                Err(e) => Err(e),
            }
        } else {
            match g.add_stmt(pred, Stmt::Stmt(stmt.id)) {
                Ok(g) => Ok((g, pred, scope)),
                Err(e) => Err(e),
            }
        },
        _ => match g.add_stmt(pred, Stmt::Stmt(stmt.id)) {
            Ok(g) => Ok((g, pred, scope)),
            Err(e) => Err(e),
        },
    }
}

/// The statements from position `from` on, in order.
pub open spec fn cfg_stmts(
    g: CfgModel,
    pred: NodeIndex<u32>,
    next: NodeIndex<u32>,
    scope: Seq<Seq<char>>,
    stmts: &Vec<AstStmt>,
    from: int,
) -> Scoped
    decreases stmts, stmts@.len() - from,
{
    if 0 <= from < stmts@.len() {
        match cfg_stmt(g, pred, next, scope, &stmts@[from]) {
            Ok((g, node, scope)) => cfg_stmts(g, node, next, scope, stmts, from + 1),
            Err(e) => Err(e),
        }
    } else {
        Ok((g, pred, scope))
    }
}

/// The statements of a block, from `pred` on; the names they bring into
/// scope go out of scope with the block. A block that ends in a value is
/// not lowered.
pub open spec fn cfg_block_inner(
    g: CfgModel,
    block: &Block,
    pred: NodeIndex<u32>,
    next: NodeIndex<u32>,
    scope: Seq<Seq<char>>,
) -> Step
    decreases block, 1nat,
{
    match cfg_stmts(g, pred, next, scope, &block.stmts, 0) {
        Ok((g, tail, _)) => match &block.expr {
            Some(value) => Err(CfgError::BlockTailExpression(value.id)),
            None => Ok((g, tail)),
        },
        Err(e) => Err(e),
    }
}

/// A block. Where its tail falls through, control continues in a fresh
/// block behind it; where a `break` has sent control away, it stays where
/// the `break` left it.
pub open spec fn cfg_block(
    g: CfgModel,
    pred: NodeIndex<u32>,
    next: NodeIndex<u32>,
    scope: Seq<Seq<char>>,
    block: &Block,
) -> Step
    decreases block, 2nat,
{
    match cfg_block_inner(g, block, pred, next, scope) {
        Ok((g, tail)) => if falls_through(tail, next) {
            match g.add_bb("BlockExit"@, scope) {
                Ok((g, exit)) => g.goto(tail, exit),
                Err(e) => Err(e),
            }
        } else {
            Ok((g, tail))
        },
        Err(e) => Err(e),
    }
}

/// An expression statement that holds a transfer of control. A `return`
/// with a value hands the value to the driver; a `break` goes to `next`,
/// the way out, and a `continue` to the entry block of the innermost loop:
/// after either, control is away at `next`.
pub open spec fn cfg_stmt_semi(
    g: CfgModel,
    pred: NodeIndex<u32>,
    next: NodeIndex<u32>,
    scope: Seq<Seq<char>>,
    expr: &Expr,
) -> Step
    decreases expr, 1nat,
{
    match &expr.node {
        ExprKind::Ret(Some(value)) => g.yield_(pred, value.id, scope),
        ExprKind::Ret(None) => Err(CfgError::EmptyReturn(expr.id)),
        ExprKind::Break => g.goto(pred, next),
        ExprKind::Continue => match g.loop_entry {
            Some(entry) => match g.goto(pred, entry) {
                Ok((g, _)) => Ok((g, next)),
                Err(e) => Err(e),
            },
            None => Err(CfgError::Unsupported(expr.id)),
        },
        ExprKind::Block(block) => cfg_block(g, pred, next, scope, block),
        ExprKind::Loop(block) => cfg_loop(g, pred, next, scope, block),
        ExprKind::If(_, _, _) => cfg_if(g, pred, next, scope, expr),
        _ => Err(CfgError::Unsupported(expr.id)),
    }
}

/// Control that has come to `tail` goes on from there: it was not sent
/// away to `next`, the way out, by a `break`.
pub open spec fn falls_through(tail: NodeIndex<u32>, next: NodeIndex<u32>) -> bool {
    index_of(tail) != index_of(next)
}

impl CfgModel {
    /// Control goes from `tail` to `to`, where `tail` falls through.
    pub open spec fn join(self, tail: NodeIndex<u32>, next: NodeIndex<u32>, to: NodeIndex<u32>) -> Result<
        CfgModel,
        CfgError,
    > {
        if falls_through(tail, next) {
            match self.goto(tail, to) {
                Ok((g, _)) => Ok(g),
                Err(e) => Err(e),
            }
        } else {
            Ok(self)
        }
    }
}

/// A loop: an entry block of its own is added, to which `pred` goes; the
/// body is lowered from the entry block, and its tail, where it falls
/// through, goes back to the entry block. Every `break` of the body goes
/// to `next`, every `continue` to the entry block. Control continues in
/// the tail.
pub open spec fn cfg_loop(
    g: CfgModel,
    pred: NodeIndex<u32>,
    next: NodeIndex<u32>,
    scope: Seq<Seq<char>>,
    block: &Block,
) -> Step
    decreases block, 2nat,
{
    match g.add_bb("Loop"@, scope) {
        Err(e) => Err(e),
        Ok((g, entry)) => match g.goto(pred, entry) {
            Err(e) => Err(e),
            Ok((outer, _)) => match cfg_block_inner(
                CfgModel { inside_loop: true, loop_entry: Some(entry), ..outer },
                block,
                entry,
                next,
                scope,
            ) {
                Err(e) => Err(e),
                Ok((g, tail)) => match g.join(tail, next, entry) {
                    Ok(g) => Ok(
                        (
                            CfgModel {
                                inside_loop: outer.inside_loop,
                                loop_entry: outer.loop_entry,
                                ..g
                            },
                            tail,
                        ),
                    ),
                    Err(e) => Err(e),
                },
            },
        },
    }
}

/// The branch that stands behind `else`, from the block `else_nx` on.
pub open spec fn cfg_else(
    g: CfgModel,
    else_nx: NodeIndex<u32>,
    next: NodeIndex<u32>,
    scope: Seq<Seq<char>>,
    expr: &Expr,
) -> Step
    decreases expr, 2nat,
{
    if expr_has_exit(expr, g.inside_loop) {
        cfg_stmt_semi(g, else_nx, next, scope, expr)
    } else {
        match g.add_stmt(else_nx, Stmt::Stmt(expr.id)) {
            Ok(g) => Ok((g, else_nx)),
            Err(e) => Err(e),
        }
    }
}

/// A conditional: `pred` ends with the branch to two fresh blocks, from
/// which the two arms are lowered. The tail of each arm, where it falls
/// through, goes on to a third fresh block, in which control continues.
pub open spec fn cfg_if(
    g: CfgModel,
    pred: NodeIndex<u32>,
    next: NodeIndex<u32>,
    scope: Seq<Seq<char>>,
    expr: &Expr,
) -> Step
    decreases expr, 0nat,
{
    match &expr.node {
        ExprKind::If(cond, then, otherwise) => {
            if expr_has_exit(cond, g.inside_loop) {
                Err(CfgError::TransitionInCondition(cond.id))
            } else if then.expr is Some {
                Err(CfgError::BlockTailExpression(then.expr->Some_0.id))
            } else {
                match g.add_bb("Then"@, scope) {
                    Err(e) => Err(e),
                    Ok((g, then_nx)) => match g.add_bb("Else"@, scope) {
                        Err(e) => Err(e),
                        Ok((g, else_nx)) => match g.add_bb("EndIf"@, scope) {
                            Err(e) => Err(e),
                            Ok((g, endif_nx)) => match g.add_stmt(
                                pred,
                                Stmt::If(cond.id, then_nx, else_nx),
                            ) {
                                Err(e) => Err(e),
                                Ok(g) => match g.add_edge(pred, then_nx) {
                                    Err(e) => Err(e),
                                    Ok(g) => match g.add_edge(pred, else_nx) {
                                        Err(e) => Err(e),
                                        Ok(g) => match cfg_block_inner(
                                            g,
                                            then,
                                            then_nx,
                                            next,
                                            scope,
                                        ) {
                                            Err(e) => Err(e),
                                            Ok((g, tail)) => match g.join(tail, next, endif_nx) {
                                                Err(e) => Err(e),
                                                Ok(g) => {
                                                    let lowered: Step = match otherwise {
                                                        Some(e) => cfg_else(
                                                            g,
                                                            else_nx,
                                                            next,
                                                            scope,
                                                            e,
                                                        ),
                                                        None => Ok((g, else_nx)),
                                                    };
                                                    match lowered {
                                                        Err(e) => Err(e),
                                                        Ok((g, tail)) => match g.join(
                                                            tail,
                                                            next,
                                                            endif_nx,
                                                        ) {
                                                            Ok(g) => Ok((g, endif_nx)),
                                                            Err(e) => Err(e),
                                                        },
                                                    }
                                                },
                                            },
                                        },
                                    },
                                },
                            },
                        },
                    },
                }
            }
        },
        _ => Err(CfgError::Unsupported(expr.id)),
    }
}

/// The graph of a function, added to the graph `g`: the entry block, at
/// whose entry the parameters are in scope, the exit node, and the body
/// lowered between them.
pub open spec fn cfg_build(g: CfgModel, fn_decl: &FnDecl, block: &Block) -> Result<
    (CfgModel, NodeIndex<u32>, NodeIndex<u32>),
    CfgError,
> {
    let scope = inputs_idents(&fn_decl.inputs, 0);
    match g.add_bb("Entry"@, scope) {
        Err(e) => Err(e),
        Ok((g, entry)) => match g.add_node(NodeView::Exit) {
            Err(e) => Err(e),
            Ok((g, exit)) => match cfg_block(g, entry, exit, scope, block) {
                Err(e) => Err(e),
                Ok((g, _)) => Ok((g, entry, exit)),
            },
        },
    }
}

/// The state `post` and the result `r` of a step are those that `step`
/// gives.
pub open spec fn proceeds(step: Step, post: CfgModel, r: Result<NodeIndex<u32>, CfgError>) -> bool {
    match step {
        Ok((g, node)) => r == Ok::<NodeIndex<u32>, CfgError>(node) && post == g,
        Err(e) => r == Err::<NodeIndex<u32>, CfgError>(e),
    }
}

/// The state `post` and the result `r` of a change are those that
/// `change` gives.
pub open spec fn changes(change: Result<CfgModel, CfgError>, post: CfgModel, r: Result<(), CfgError>) -> bool {
    match change {
        Ok(g) => r is Ok && post == g,
        Err(e) => r == Err::<(), CfgError>(e),
    }
}

/// Builds the graph of one function. The graph only grows: no node and no
/// edge is ever removed.
pub struct CFGBuilder {
    graph: Graph<Node, (), Directed, u32>,
    inside_loop: bool,
    loop_entry: Option<NodeIndex<u32>>,
}

impl View for CFGBuilder {
    type V = CfgModel;

    closed spec fn view(&self) -> CfgModel {
        CfgModel {
            nodes: nodes_view(graph_nodes(self.graph)),
            edges: graph_edges(self.graph),
            inside_loop: self.inside_loop,
            loop_entry: self.loop_entry,
        }
    }
}

/// The finished graph, with its entry block and its exit node. The graph
/// is handed out through the functions below only: it holds its edges in
/// the order in which they were added.
pub struct CFG {
    graph: Graph<Node, (), Directed, u32>,
    pub entry: NodeIndex<u32>,
    pub exit: NodeIndex<u32>,
}

impl CFG {
    /// The nodes of the graph, by position.
    pub closed spec fn nodes(&self) -> Seq<Node> {
        graph_nodes(self.graph)
    }

    /// The positions of the source and of the target of each edge, in the
    /// order in which the edges were added.
    pub closed spec fn edges(&self) -> Seq<(int, int)> {
        graph_edges(self.graph)
    }

    /// The handle of the entry block: the field `entry`.
    pub closed spec fn entry_node(&self) -> NodeIndex<u32> {
        self.entry
    }

    /// The handle of the exit node: the field `exit`.
    pub closed spec fn exit_node(&self) -> NodeIndex<u32> {
        self.exit
    }
}

/// A copy of the names.
fn copy_names(names: &Vec<String>) -> (r: Vec<String>)
    ensures
        names_view(r@) == names_view(names@),
{
    let mut r: Vec<String> = Vec::new();
    let mut i: usize = 0;
    while i < names.len()
        invariant
            0 <= i <= names.len(),
            r@.len() == i,
            forall|k: int| 0 <= k < i ==> (#[trigger] r@[k])@ == names@[k]@,
        decreases names.len() - i,
    {
        r.push(names[i].clone());
        i += 1;
    }
    assert(names_view(r@) =~= names_view(names@));
    r
}

impl CFGBuilder {
    pub fn new() -> (r: Self)
        ensures
            r@ == CfgModel::empty(),
    {
        let r = CFGBuilder { graph: graph_new(), inside_loop: false, loop_entry: None };
        assert(r@.nodes =~= Seq::empty());
        r
    }

    fn add_node(&mut self, node: Node) -> (r: Result<NodeIndex<u32>, CfgError>)
        ensures
            proceeds(old(self)@.add_node(node@), final(self)@, r),
            r is Ok ==> old(self)@.extends_to(final(self)@),
            r matches Ok(nx) ==> index_of(nx) == old(self)@.nodes.len(),
    {
        match graph_try_add_node(&mut self.graph, node) {
            Ok(nx) => {
                assert(self@.nodes =~= old(self)@.nodes.push(node@));
                Ok(nx)
            },
            Err(limit) => Err(CfgError::Limit(limit)),
        }
    }

    /// Adds an empty block, at whose entry the names of `scope` are in
    /// scope.
    fn add_bb(&mut self, name: &str, scope: &Vec<String>) -> (r: Result<NodeIndex<u32>, CfgError>)
        ensures
            proceeds(old(self)@.add_bb(name@, names_view(scope@)), final(self)@, r),
            r is Ok ==> old(self)@.extends_to(final(self)@),
            r matches Ok(nx) ==> index_of(nx) == old(self)@.nodes.len(),
    {
        let bb = BasicBlock::new(String::from_str(name), copy_names(scope));
        self.add_node(Node::BasicBlock(bb))
    }

    fn add_edge(&mut self, src: NodeIndex<u32>, dst: NodeIndex<u32>) -> (r: Result<(), CfgError>)
        ensures
            changes(old(self)@.add_edge(src, dst), final(self)@, r),
            r is Ok ==> old(self)@.extends_to(final(self)@),
    {
        match graph_try_add_edge(&mut self.graph, src, dst) {
            Ok(_) => Ok(()),
            Err(limit) => Err(CfgError::Limit(limit)),
        }
    }

    /// The block at the index, to be changed in place, if the index
    /// stands for a block.
    fn get_node_mut(&mut self, index: NodeIndex<u32>) -> (r: Option<&mut BasicBlock>)
        ensures
            final(self).inside_loop == old(self).inside_loop,
            final(self).loop_entry == old(self).loop_entry,
            graph_edges(final(self).graph) == graph_edges(old(self).graph),
            match r {
                Some(bb) => {
                    &&& old(self)@.has_node(index)
                    &&& graph_nodes(old(self).graph)[index_of(index)] == Node::BasicBlock(*bb)
                    &&& graph_nodes(final(self).graph) == graph_nodes(old(self).graph).update(
                        index_of(index),
                        Node::BasicBlock(*final(bb)),
                    )
                },
                None => {
                    &&& !(old(self)@.has_node(index) && old(self)@.nodes[index_of(
                        index,
                    )] is BasicBlock)
                    &&& graph_nodes(final(self).graph) == graph_nodes(old(self).graph)
                },
            },
    {
        match graph_node_weight_mut(&mut self.graph, index) {
            Some(node) => match node {
                Node::BasicBlock(bb) => Some(bb),
                Node::Exit => None,
            },
            None => None,
        }
    }

    /// Adds an entry at the end of a block.
    fn add_stmt(&mut self, nx: NodeIndex<u32>, stmt: Stmt) -> (r: Result<(), CfgError>)
        ensures
            changes(old(self)@.add_stmt(nx, stmt), final(self)@, r),
            r is Ok ==> old(self)@.extends_to(final(self)@),
    {
        match self.get_node_mut(nx) {
            Some(bb) => {
                bb.stmts.push(stmt);
                assert(self@.nodes =~= old(self)@.add_stmt(nx, stmt)->Ok_0.nodes);
                Ok(())
            },
            None => Err(CfgError::NotABasicBlock),
        }
    }

    /// Lets control go from the end of `src` to `dst`.
    fn goto(&mut self, src: NodeIndex<u32>, dst: NodeIndex<u32>) -> (r: Result<
        NodeIndex<u32>,
        CfgError,
    >)
        ensures
            proceeds(old(self)@.goto(src, dst), final(self)@, r),
            r is Ok ==> old(self)@.extends_to(final(self)@),
    {
        match self.add_edge(src, dst) {
            Ok(_) => {},
            Err(e) => {
                return Err(e);
            },
        }
        match self.add_stmt(src, Stmt::Goto(dst)) {
            Ok(_) => Ok(dst),
            Err(e) => Err(e),
        }
    }

    /// Lets the end of `src` hand the value of the expression to the
    /// driver; the computation resumes in a fresh block.
    fn yield_(&mut self, src: NodeIndex<u32>, expr: NodeId, scope: &Vec<String>) -> (r: Result<
        NodeIndex<u32>,
        CfgError,
    >)
        ensures
            proceeds(old(self)@.yield_(src, expr, names_view(scope@)), final(self)@, r),
            r is Ok ==> old(self)@.extends_to(final(self)@),
    {
        let dst = match self.add_bb("Yield", scope) {
            Ok(dst) => dst,
            Err(e) => {
                return Err(e);
            },
        };
        match self.add_edge(src, dst) {
            Ok(_) => {},
            Err(e) => {
                return Err(e);
            },
        }
        match self.add_stmt(src, Stmt::Yield(dst, expr)) {
            Ok(_) => Ok(dst),
            Err(e) => Err(e),
        }
    }

    /// The names that the pattern binds, in source order.
    fn find_decl_idents(&self, pat: &Pat) -> (r: Vec<String>)
        ensures
            names_view(r@) == pat_idents(pat),
    {
        let mut r: Vec<String> = Vec::new();
        let mut i: usize = 0;
        while i < pat.bindings.len()
            invariant
                0 <= i <= pat.bindings.len(),
                r@.len() == i,
                forall|k: int| 0 <= k < i ==> (#[trigger] r@[k])@ == pat.bindings@[k].ident@,
            decreases pat.bindings.len() - i,
        {
            r.push(pat.bindings[i].ident.clone());
            i += 1;
        }
        assert(names_view(r@) =~= pat_idents(pat));
        r
    }

    /// Whether the expression holds a transfer of control that splits a
    /// block.
    fn contains_transition_expr(&self, expr: &Expr) -> (r: bool)
        ensures
            r == expr_has_exit(expr, self.inside_loop),
    {
        has_exit_expr(expr, self.inside_loop)
    }
}

/// Appends the names.
fn extend_names(scope: &mut Vec<String>, names: Vec<String>)
    ensures
        names_view(final(scope)@) == names_view(old(scope)@) + names_view(names@),
{
    let mut i: usize = 0;
    while i < names.len()
        invariant
            0 <= i <= names.len(),
            scope@.len() == old(scope)@.len() + i,
            forall|k: int| 0 <= k < old(scope)@.len() ==> (#[trigger] scope@[k])@ == old(scope)@[k]@,
            forall|k: int|
                old(scope)@.len() <= k < scope@.len() ==> (#[trigger] scope@[k])@ == names@[k - old(
                    scope,
                )@.len()]@,
        decreases names.len() - i,
    {
        scope.push(names[i].clone());
        i += 1;
    }
    assert(names_view(scope@) =~= names_view(old(scope)@) + names_view(names@));
}

impl CFGBuilder {
    /// Builds the graph of a function from its parameters and its body.
    /// The entry block, at whose entry the names of the parameters are in
    /// scope, is the first node that is added, the exit node the second.
    pub fn build(self, fn_decl: &FnDecl, block: &Block) -> (r: Result<CFG, CfgError>)
        ensures
            match cfg_build(self@, fn_decl, block) {
                Ok((g, entry, exit)) => {
                    &&& r matches Ok(cfg)
                    &&& nodes_view(cfg.nodes()) == g.nodes
                    &&& cfg.edges() == g.edges
                    &&& cfg.entry_node() == entry
                    &&& cfg.exit_node() == exit
                    &&& index_of(cfg.entry_node()) == self@.nodes.len()
                    &&& index_of(cfg.exit_node()) == self@.nodes.len() + 1
                    &&& self@.extends_to(g)
                    &&& g.nodes[self@.nodes.len() as int].head() == NodeView::BasicBlock(
                        BlockView {
                            name: "Entry"@,
                            decls: inputs_idents(&fn_decl.inputs, 0),
                            stmts: Seq::empty(),
                        },
                    )
                    &&& g.nodes[self@.nodes.len() as int + 1] == NodeView::Exit
                },
                Err(e) => r matches Err(err) && err == e,
            },
    {
        let mut builder = self;
        let mut scope: Vec<String> = Vec::new();
        assert(names_view(scope@) =~= Seq::empty());
        // The initial scope is the function's parameters.
        let mut i: usize = 0;
        while i < fn_decl.inputs.len()
            invariant
                0 <= i <= fn_decl.inputs.len(),
                inputs_idents(&fn_decl.inputs, 0) == names_view(scope@) + inputs_idents(
                    &fn_decl.inputs,
                    i as int,
                ),
            decreases fn_decl.inputs.len() - i,
        {
            let ghost before = names_view(scope@);
            let idents = builder.find_decl_idents(&fn_decl.inputs[i]);
            extend_names(&mut scope, idents);
            assert(names_view(scope@) + inputs_idents(&fn_decl.inputs, i + 1) =~= before
                + inputs_idents(&fn_decl.inputs, i as int));
            i += 1;
        }
        assert(names_view(scope@) + Seq::<Seq<char>>::empty() =~= names_view(scope@));
        let entry = match builder.add_bb("Entry", &scope) {
            Ok(entry) => entry,
            Err(e) => {
                return Err(e);
            },
        };
        let exit = match builder.add_node(Node::Exit) {
            Ok(exit) => exit,
            Err(e) => {
                return Err(e);
            },
        };
        match builder.block(entry, exit, &scope, block) {
            Ok(_) => {},
            Err(e) => {
                return Err(e);
            },
        }
        Ok(CFG { graph: builder.graph, entry, exit })
    }

    /// Lowers a block. Where its tail falls through, control continues in
    /// a fresh block behind it.
    fn block(&mut self, pred: NodeIndex<u32>, next: NodeIndex<u32>, scope: &Vec<String>, block: &Block) -> (r:
        Result<NodeIndex<u32>, CfgError>)
        ensures
            proceeds(cfg_block(old(self)@, pred, next, names_view(scope@), block), final(self)@, r),
            r is Ok ==> old(self)@.extends_to(final(self)@),
        decreases block, 2nat,
    {
        let tail = match self.block_inner(block, pred, next, scope) {
            Ok((_, tail)) => tail,
            Err(e) => {
                return Err(e);
            },
        };
        if node_position(tail) == node_position(next) {
            return Ok(tail);
        }
        let exit = match self.add_bb("BlockExit", scope) {
            Ok(exit) => exit,
            Err(e) => {
                return Err(e);
            },
        };
        self.goto(tail, exit)
    }

    /// Lowers the statements of a block from `pred` on, and gives the node
    /// in which the block starts and the one in which it ends. The names
    /// that the statements bring into scope go out of scope with the
    /// block.
    fn block_inner(
        &mut self,
        block: &Block,
        pred: NodeIndex<u32>,
        next: NodeIndex<u32>,
        parent_scope: &Vec<String>,
    ) -> (r: Result<(NodeIndex<u32>, NodeIndex<u32>), CfgError>)
        ensures
            match cfg_block_inner(old(self)@, block, pred, next, names_view(parent_scope@)) {
                Ok((g, tail)) => r == Ok::<(NodeIndex<u32>, NodeIndex<u32>), CfgError>((pred, tail))
                    && final(self)@ == g,
                Err(e) => r == Err::<(NodeIndex<u32>, NodeIndex<u32>), CfgError>(e),
            },
            r is Ok ==> old(self)@.extends_to(final(self)@),
        decreases block, 1nat,
    {
        let mut scope = copy_names(parent_scope);
        let entry = pred;
        let mut tail = pred;
        let mut i: usize = 0;
        while i < block.stmts.len()
            invariant
                0 <= i <= block.stmts.len(),
                entry == pred,
                old(self)@.extends_to(self@),
                cfg_stmts(
                    old(self)@,
                    pred,
                    next,
                    names_view(parent_scope@),
                    &block.stmts,
                    0,
                ) == cfg_stmts(self@, tail, next, names_view(scope@), &block.stmts, i as int),
            decreases block.stmts.len() - i,
        {
            tail = match self.stmt(tail, next, &mut scope, &block.stmts[i]) {
                Ok(node) => node,
                Err(e) => {
                    return Err(e);
                },
            };
            i += 1;
        }
        match &block.expr {
            Some(value) => Err(CfgError::BlockTailExpression(value.id)),
            None => Ok((entry, tail)),
        }
    }

    /// Lowers one statement.
    fn stmt(
        &mut self,
        pred: NodeIndex<u32>,
        next: NodeIndex<u32>,
        scope: &mut Vec<String>,
        stmt: &AstStmt,
    ) -> (r: Result<NodeIndex<u32>, CfgError>)
        ensures
            match cfg_stmt(old(self)@, pred, next, names_view(old(scope)@), stmt) {
                Ok((g, node, names)) => r == Ok::<NodeIndex<u32>, CfgError>(node) && final(self)@
                    == g && names_view(final(scope)@) == names,
                Err(e) => r == Err::<NodeIndex<u32>, CfgError>(e),
            },
            r is Ok ==> old(self)@.extends_to(final(self)@),
        decreases stmt, 1nat,
    {
        match &stmt.node {
            StmtKind::Local(local) => {
                let idents = self.find_decl_idents(&local.pat);
                extend_names(scope, idents);
                match self.add_stmt(pred, Stmt::Stmt(stmt.id)) {
                    Ok(_) => Ok(pred),
                    Err(e) => Err(e),
                }
            },
            StmtKind::Item => Err(CfgError::ItemDeclaration(stmt.id)),
            StmtKind::Semi(e) => {
                if self.contains_transition_expr(e) {
                    self.stmt_semi(pred, next, scope, e)
                } else {
                    match self.add_stmt(pred, Stmt::Stmt(stmt.id)) {
                        Ok(_) => Ok(pred),
                        Err(e) => Err(e),
                    }
                }
            },
            _ => {
                match self.add_stmt(pred, Stmt::Stmt(stmt.id)) {
                    Ok(_) => Ok(pred),
                    Err(e) => Err(e),
                }
            },
        }
    }

    /// Lowers an expression statement that holds a transfer of control.
    fn stmt_semi(
        &mut self,
        pred: NodeIndex<u32>,
        next: NodeIndex<u32>,
        scope: &Vec<String>,
        expr: &Expr,
    ) -> (r: Result<NodeIndex<u32>, CfgError>)
        ensures
            proceeds(
                cfg_stmt_semi(old(self)@, pred, next, names_view(scope@), expr),
                final(self)@,
                r,
            ),
            r is Ok ==> old(self)@.extends_to(final(self)@),
        decreases expr, 1nat,
    {
        match &expr.node {
            ExprKind::Ret(Some(value)) => self.yield_(pred, value.id, scope),
            ExprKind::Ret(None) => Err(CfgError::EmptyReturn(expr.id)),
            ExprKind::Break => self.goto(pred, next),
            ExprKind::Block(block) => self.block(pred, next, scope, block),
            ExprKind::Continue => {
                let entry = match self.loop_entry {
                    Some(entry) => entry,
                    None => {
                        return Err(CfgError::Unsupported(expr.id));
                    },
                };
                match self.goto(pred, entry) {
                    Ok(_) => Ok(next),
                    Err(e) => Err(e),
                }
            },
            ExprKind::Loop(block) => self.expr_loop(pred, next, scope, block),
            ExprKind::If(_, _, _) => self.expr_if(pred, next, scope, expr),
            _ => Err(CfgError::Unsupported(expr.id)),
        }
    }

    /// Lets control go from `tail` to `to`, where `tail` falls through.
    fn join(&mut self, tail: NodeIndex<u32>, next: NodeIndex<u32>, to: NodeIndex<u32>) -> (r: Result<
        (),
        CfgError,
    >)
        ensures
            changes(old(self)@.join(tail, next, to), final(self)@, r),
            r is Ok ==> old(self)@.extends_to(final(self)@),
    {
        if node_position(tail) != node_position(next) {
            match self.goto(tail, to) {
                Ok(_) => Ok(()),
                Err(e) => Err(e),
            }
        } else {
            Ok(())
        }
    }

    /// Lowers a loop: the body starts in an entry block of its own, and
    /// its tail goes back to that block.
    fn expr_loop(
        &mut self,
        pred: NodeIndex<u32>,
        next: NodeIndex<u32>,
        scope: &Vec<String>,
        block: &Block,
    ) -> (r: Result<NodeIndex<u32>, CfgError>)
        ensures
            proceeds(cfg_loop(old(self)@, pred, next, names_view(scope@), block), final(self)@, r),
            r is Ok ==> old(self)@.extends_to(final(self)@),
        decreases block, 2nat,
    {
        let entry = match self.add_bb("Loop", scope) {
            Ok(entry) => entry,
            Err(e) => {
                return Err(e);
            },
        };
        match self.goto(pred, entry) {
            Ok(_) => {},
            Err(e) => {
                return Err(e);
            },
        }
        let old_inside_loop = self.inside_loop;
        let old_loop_entry = self.loop_entry;
        self.inside_loop = true;
        self.loop_entry = Some(entry);
        let (entry, tail) = match self.block_inner(block, entry, next, scope) {
            Ok(ends) => ends,
            Err(e) => {
                return Err(e);
            },
        };
        match self.join(tail, next, entry) {
            Ok(_) => {},
            Err(e) => {
                return Err(e);
            },
        }
        self.inside_loop = old_inside_loop;
        self.loop_entry = old_loop_entry;
        Ok(tail)
    }

    /// Lowers a conditional.
    fn expr_if(
        &mut self,
        pred: NodeIndex<u32>,
        next: NodeIndex<u32>,
        scope: &Vec<String>,
        expr: &Expr,
    ) -> (r: Result<NodeIndex<u32>, CfgError>)
        ensures
            proceeds(cfg_if(old(self)@, pred, next, names_view(scope@), expr), final(self)@, r),
            r is Ok ==> old(self)@.extends_to(final(self)@),
        decreases expr, 0nat,
    {
        let (cond, then, otherwise) = match &expr.node {
            ExprKind::If(cond, then, otherwise) => (cond, then, otherwise),
            _ => {
                return Err(CfgError::Unsupported(expr.id));
            },
        };
        if self.contains_transition_expr(cond) {
            return Err(CfgError::TransitionInCondition(cond.id));
        }
        match &then.expr {
            Some(value) => {
                return Err(CfgError::BlockTailExpression(value.id));
            },
            None => {},
        }
        let then_nx = match self.add_bb("Then", scope) {
            Ok(nx) => nx,
            Err(e) => {
                return Err(e);
            },
        };
        let else_nx = match self.add_bb("Else", scope) {
            Ok(nx) => nx,
            Err(e) => {
                return Err(e);
            },
        };
        let endif_nx = match self.add_bb("EndIf", scope) {
            Ok(nx) => nx,
            Err(e) => {
                return Err(e);
            },
        };
        match self.add_stmt(pred, Stmt::If(cond.id, then_nx, else_nx)) {
            Ok(_) => {},
            Err(e) => {
                return Err(e);
            },
        }
        match self.add_edge(pred, then_nx) {
            Ok(_) => {},
            Err(e) => {
                return Err(e);
            },
        }
        match self.add_edge(pred, else_nx) {
            Ok(_) => {},
            Err(e) => {
                return Err(e);
            },
        }
        let then_tail = match self.block_inner(then, then_nx, next, scope) {
            Ok((_, tail)) => tail,
            Err(e) => {
                return Err(e);
            },
        };
        match self.join(then_tail, next, endif_nx) {
            Ok(_) => {},
            Err(e) => {
                return Err(e);
            },
        }
        let else_tail = match otherwise {
            Some(e) => {
                if self.contains_transition_expr(e) {
                    match self.stmt_semi(else_nx, next, scope, e) {
                        Ok(tail) => tail,
                        Err(e) => {
                            return Err(e);
                        },
                    }
                } else {
                    match self.add_stmt(else_nx, Stmt::Stmt(e.id)) {
                        Ok(_) => else_nx,
                        Err(e) => {
                            return Err(e);
                        },
                    }
                }
            },
            None => else_nx,
        };
        match self.join(else_tail, next, endif_nx) {
            Ok(_) => Ok(endif_nx),
            Err(e) => Err(e),
        }
    }
}

impl CFG {
    /// The handle of the entry block.
    pub fn entry(&self) -> (r: NodeIndex<u32>)
        ensures
            r == self.entry_node(),
    {
        self.entry
    }

    /// The handle of the exit node.
    pub fn exit(&self) -> (r: NodeIndex<u32>)
        ensures
            r == self.exit_node(),
    {
        self.exit
    }

    /// The node at the index, if the graph has one there.
    pub fn get_node(&self, nx: NodeIndex<u32>) -> (r: Option<&Node>)
        ensures
            match r {
                Some(node) => 0 <= index_of(nx) < self.nodes().len() && *node
                    == self.nodes()[index_of(nx)],
                None => !(0 <= index_of(nx) < self.nodes().len()),
            },
    {
        graph_node_weight(&self.graph, nx)
    }

    /// The names that are in scope at the entry of the node at the index,
    /// if the graph has a node there.
    pub fn get_node_decls(&self, nx: NodeIndex<u32>) -> (r: Option<&[String]>)
        ensures
            match r {
                Some(decls) => 0 <= index_of(nx) < self.nodes().len() && names_view(
                    decls@,
                ) == match self.nodes()[index_of(nx)]@ {
                    NodeView::BasicBlock(bb) => bb.decls,
                    NodeView::Exit => Seq::empty(),
                },
                None => !(0 <= index_of(nx) < self.nodes().len()),
            },
    {
        match self.get_node(nx) {
            Some(node) => Some(node.decls()),
            None => None,
        }
    }

    /// The edges on one side of the node at the index, each by its source
    /// and its target, the one added last first.
    pub fn get_edges(&self, nx: NodeIndex<u32>, direction: EdgeDirection) -> (r: Vec<
        (NodeIndex<u32>, NodeIndex<u32>),
    >)
        ensures
            positions(r@) == edges_at(
                self.edges(),
                index_of(nx),
                direction is Incoming,
                self.edges().len() as int,
            ),
    {
        graph_edges_directed(&self.graph, nx, direction)
    }

    /// The edges that leave the node at the index.
    pub fn get_child_edges(&self, nx: NodeIndex<u32>) -> (r: Vec<(NodeIndex<u32>, NodeIndex<u32>)>)
        ensures
            positions(r@) == edges_at(
                self.edges(),
                index_of(nx),
                false,
                self.edges().len() as int,
            ),
    {
        self.get_edges(nx, EdgeDirection::Outgoing)
    }
}

} // verus!

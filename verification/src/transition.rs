//! Recognition of suspension points and other control transfers.

use vstd::prelude::*;
use vstd::string::StringExecFns;
use crate::ast::{Arm, Block, Expr, ExprKind, Local, Mac, Path, Stmt, StmtKind};

verus! {

/// The path is the single plain segment `name`.
pub open spec fn path_is(path: &Path, name: Seq<char>) -> bool {
    &&& !path.global
    &&& path.segments@.len() == 1
    &&& path.segments@[0]@ == name
}

pub open spec fn path_is_yield(path: &Path) -> bool {
    path_is(path, "yield_"@)
}

pub open spec fn path_is_await(path: &Path) -> bool {
    path_is(path, "await"@)
}

pub open spec fn path_is_transition(path: &Path) -> bool {
    path_is_yield(path) || path_is_await(path)
}

fn is_path(path: &Path, name: &str) -> (r: bool)
    ensures
        r == path_is(path, name@),
{
    if path.global || path.segments.len() != 1 {
        return false;
    }
    let wanted = String::from_str(name);
    path.segments[0] == wanted
}

pub fn is_yield_path(path: &Path) -> (r: bool)
    ensures
        r == path_is_yield(path),
{
    is_path(path, "yield_")
}

pub fn is_await_path(path: &Path) -> (r: bool)
    ensures
        r == path_is_await(path),
{
    is_path(path, "await")
}

pub fn is_transition_path(path: &Path) -> (r: bool)
    ensures
        r == path_is_transition(path),
{
    is_yield_path(path) || is_await_path(path)
}

/// Whether `expr` holds a control transfer that forces a new block: a
/// `return` with a value, a suspension marker, or, inside a loop, a `break`
/// or `continue`. The arguments of a macro are not searched.
pub open spec fn expr_has_transition(expr: &Expr, inside_loop: bool) -> bool
    decreases expr, 0nat,
{
    match &expr.node {
        ExprKind::Ret(Some(_)) => true,
        ExprKind::Ret(None) => false,
        ExprKind::Assign(place, value) => expr_has_transition(place, inside_loop)
            || expr_has_transition(value, inside_loop),
        ExprKind::Break => inside_loop,
        ExprKind::Continue => inside_loop,
        ExprKind::Mac(mac) => path_is_transition(&mac.path),
        ExprKind::Block(block) => block_has_transition(block, inside_loop),
        ExprKind::Loop(block) => block_has_transition(block, inside_loop),
        ExprKind::If(cond, then, otherwise) => {
            ||| expr_has_transition(cond, inside_loop)
            ||| block_has_transition(then, inside_loop)
            ||| match otherwise {
                Some(e) => expr_has_transition(e, inside_loop),
                None => false,
            }
        },
        ExprKind::Match(discr, arms) => {
            ||| expr_has_transition(discr, inside_loop)
            ||| arms_have_transition(arms, arms@.len() as int, inside_loop)
        },
        ExprKind::Other(children) => exprs_have_transition(
            children,
            children@.len() as int,
            inside_loop,
        ),
    }
}

/// Whether one of the first `n` expressions holds a transition.
pub open spec fn exprs_have_transition(exprs: &Vec<Expr>, n: int, inside_loop: bool) -> bool
    decreases exprs, n,
{
    if 0 < n <= exprs@.len() {
        ||| exprs_have_transition(exprs, n - 1, inside_loop)
        ||| expr_has_transition(&exprs@[n - 1], inside_loop)
    } else {
        false
    }
}

/// Whether the body of one of the first `n` arms holds a transition.
pub open spec fn arms_have_transition(arms: &Vec<Arm>, n: int, inside_loop: bool) -> bool
    decreases arms, n,
{
    if 0 < n <= arms@.len() {
        ||| arms_have_transition(arms, n - 1, inside_loop)
        ||| expr_has_transition(&arms@[n - 1].body, inside_loop)
    } else {
        false
    }
}

/// Whether one of the first `n` statements holds a transition.
pub open spec fn stmts_have_transition(stmts: &Vec<Stmt>, n: int, inside_loop: bool) -> bool
    decreases stmts, n,
{
    if 0 < n <= stmts@.len() {
        ||| stmts_have_transition(stmts, n - 1, inside_loop)
        ||| stmt_has_transition(&stmts@[n - 1], inside_loop)
    } else {
        false
    }
}

pub open spec fn local_has_transition(local: &Local, inside_loop: bool) -> bool
    decreases local, 0nat,
{
    match &local.init {
        Some(e) => expr_has_transition(e, inside_loop),
        None => false,
    }
}

pub open spec fn stmt_has_transition(stmt: &Stmt, inside_loop: bool) -> bool
    decreases stmt, 0nat,
{
    match &stmt.node {
        StmtKind::Local(local) => local_has_transition(local, inside_loop),
        StmtKind::Item => false,
        StmtKind::Expr(e) => expr_has_transition(e, inside_loop),
        StmtKind::Semi(e) => expr_has_transition(e, inside_loop),
        StmtKind::Mac(mac) => path_is_transition(&mac.path),
    }
}

pub open spec fn block_has_transition(block: &Block, inside_loop: bool) -> bool
    decreases block, 0nat,
{
    ||| stmts_have_transition(&block.stmts, block.stmts@.len() as int, inside_loop)
    ||| match &block.expr {
        Some(e) => expr_has_transition(e, inside_loop),
        None => false,
    }
}

/// Whether `expr` holds a suspension marker. The arguments of a macro are
/// not searched.
pub open spec fn expr_has_marker(expr: &Expr) -> bool
    decreases expr, 0nat,
{
    match &expr.node {
        ExprKind::Ret(Some(value)) => expr_has_marker(value),
        ExprKind::Ret(None) => false,
        ExprKind::Assign(place, value) => expr_has_marker(place) || expr_has_marker(value),
        ExprKind::Break => false,
        ExprKind::Continue => false,
        ExprKind::Mac(mac) => path_is_transition(&mac.path),
        ExprKind::Block(block) => block_has_marker(block),
        ExprKind::Loop(block) => block_has_marker(block),
        ExprKind::If(cond, then, otherwise) => {
            ||| expr_has_marker(cond)
            ||| block_has_marker(then)
            ||| match otherwise {
                Some(e) => expr_has_marker(e),
                None => false,
            }
        },
        ExprKind::Match(discr, arms) => {
            ||| expr_has_marker(discr)
            ||| arms_have_marker(arms, arms@.len() as int)
        },
        ExprKind::Other(children) => exprs_have_marker(children, children@.len() as int),
    }
}

/// Whether one of the first `n` expressions holds a suspension marker.
pub open spec fn exprs_have_marker(exprs: &Vec<Expr>, n: int) -> bool
    decreases exprs, n,
{
    if 0 < n <= exprs@.len() {
        exprs_have_marker(exprs, n - 1) || expr_has_marker(&exprs@[n - 1])
    } else {
        false
    }
}

/// Whether the body of one of the first `n` arms holds a suspension
/// marker.
pub open spec fn arms_have_marker(arms: &Vec<Arm>, n: int) -> bool
    decreases arms, n,
{
    if 0 < n <= arms@.len() {
        arms_have_marker(arms, n - 1) || expr_has_marker(&arms@[n - 1].body)
    } else {
        false
    }
}

pub open spec fn stmt_has_marker(stmt: &Stmt) -> bool
    decreases stmt, 0nat,
{
    match &stmt.node {
        StmtKind::Local(local) => match &local.init {
            Some(e) => expr_has_marker(e),
            None => false,
        },
        StmtKind::Item => false,
        StmtKind::Expr(e) => expr_has_marker(e),
        StmtKind::Semi(e) => expr_has_marker(e),
        StmtKind::Mac(mac) => path_is_transition(&mac.path),
    }
}

/// Whether one of the first `n` statements holds a suspension marker.
pub open spec fn stmts_have_marker(stmts: &Vec<Stmt>, n: int) -> bool
    decreases stmts, n,
{
    if 0 < n <= stmts@.len() {
        stmts_have_marker(stmts, n - 1) || stmt_has_marker(&stmts@[n - 1])
    } else {
        false
    }
}

pub open spec fn block_has_marker(block: &Block) -> bool
    decreases block, 0nat,
{
    ||| stmts_have_marker(&block.stmts, block.stmts@.len() as int)
    ||| match &block.expr {
        Some(e) => expr_has_marker(e),
        None => false,
    }
}

/// No statement before position `n` holds a suspension marker where the
/// first `n` together hold none.
pub proof fn lemma_stmts_without_marker(stmts: &Vec<Stmt>, n: int, i: int)
    requires
        0 <= i < n <= stmts@.len(),
        !stmts_have_marker(stmts, n),
    ensures
        !stmt_has_marker(&stmts@[i]),
    decreases n,
{
    if i < n - 1 {
        lemma_stmts_without_marker(stmts, n - 1, i);
    }
}

/// No arm before position `n` holds a suspension marker in its body where
/// the first `n` together hold none.
pub proof fn lemma_arms_without_marker(arms: &Vec<Arm>, n: int, i: int)
    requires
        0 <= i < n <= arms@.len(),
        !arms_have_marker(arms, n),
    ensures
        !expr_has_marker(&arms@[i].body),
    decreases n,
{
    if i < n - 1 {
        lemma_arms_without_marker(arms, n - 1, i);
    }
}

/// A form that can be searched for transitions.
pub trait ContainsTransition {
    /// Whether the form holds a transition, given whether it stands inside
    /// a loop.
    spec fn has_transition(&self, inside_loop: bool) -> bool;

    fn contains_transition(&self, inside_loop: bool) -> (r: bool)
        ensures
            r == self.has_transition(inside_loop),
    ;
}

impl ContainsTransition for Block {
    open spec fn has_transition(&self, inside_loop: bool) -> bool {
        block_has_transition(self, inside_loop)
    }

    fn contains_transition(&self, inside_loop: bool) -> (r: bool) {
        let mut visitor = ContainsTransitionVisitor::new(inside_loop);
        visitor.visit_block(self);
        visitor.contains_transition
    }
}

impl ContainsTransition for Stmt {
    open spec fn has_transition(&self, inside_loop: bool) -> bool {
        stmt_has_transition(self, inside_loop)
    }

    fn contains_transition(&self, inside_loop: bool) -> (r: bool) {
        let mut visitor = ContainsTransitionVisitor::new(inside_loop);
        visitor.visit_stmt(self);
        visitor.contains_transition
    }
}

impl ContainsTransition for Expr {
    open spec fn has_transition(&self, inside_loop: bool) -> bool {
        expr_has_transition(self, inside_loop)
    }

    fn contains_transition(&self, inside_loop: bool) -> (r: bool) {
        let mut visitor = ContainsTransitionVisitor::new(inside_loop);
        visitor.visit_expr(self);
        visitor.contains_transition
    }
}

impl ContainsTransition for Mac {
    open spec fn has_transition(&self, inside_loop: bool) -> bool {
        path_is_transition(&self.path)
    }

    fn contains_transition(&self, _inside_loop: bool) -> (r: bool) {
        is_transition_path(&self.path)
    }
}

/// How a suspension marker hands control back.
#[derive(Debug)]
pub enum Transition<'a> {
    /// `yield_!(operand)`: the operand is the next element of a sequence.
    Yield(&'a Expr),
    /// `await!(operand)`: the operand is what the computation waits for.
    Await(&'a Expr),
}

/// The operand of a `yield_!` marker. The arguments of the macro must be
/// one expression.
pub fn parse_mac_yield(mac: &Mac) -> (r: &Expr)
    requires
        mac.operand is Some,
    ensures
        *r == *mac.operand->Some_0,
{
    match &mac.operand {
        Some(operand) => &**operand,
        None => unreached(),
    }
}

/// The operand of an `await!` marker. The arguments of the macro must be
/// one expression.
pub fn parse_mac_await(mac: &Mac) -> (r: &Expr)
    requires
        mac.operand is Some,
    ensures
        *r == *mac.operand->Some_0,
{
    match &mac.operand {
        Some(operand) => &**operand,
        None => unreached(),
    }
}

/// Whether the macro is a suspension marker, and if so of which kind and
/// with what operand.
pub fn parse_mac_transition(mac: &Mac) -> (r: Option<Transition<'_>>)
    requires
        path_is_transition(&mac.path) ==> mac.operand is Some,
    ensures
        match r {
            Some(Transition::Yield(operand)) => path_is_yield(&mac.path) && *operand
                == *mac.operand->Some_0,
            Some(Transition::Await(operand)) => !path_is_yield(&mac.path) && path_is_await(
                &mac.path,
            ) && *operand == *mac.operand->Some_0,
            None => !path_is_transition(&mac.path),
        },
{
    if is_yield_path(&mac.path) {
        Some(Transition::Yield(parse_mac_yield(mac)))
    } else if is_await_path(&mac.path) {
        Some(Transition::Await(parse_mac_await(mac)))
    } else {
        None
    }
}

/// No statement before position `n` holds a transition where the first
/// `n` together hold none.
pub proof fn lemma_stmts_without_transition(stmts: &Vec<Stmt>, n: int, i: int, inside_loop: bool)
    requires
        0 <= i < n <= stmts@.len(),
        !stmts_have_transition(stmts, n, inside_loop),
    ensures
        !stmt_has_transition(&stmts@[i], inside_loop),
    decreases n,
{
    if i < n - 1 {
        lemma_stmts_without_transition(stmts, n - 1, i, inside_loop);
    }
}

/// Walks a tree and records whether a transition was seen.
pub struct ContainsTransitionVisitor {
    pub inside_loop: bool,
    pub contains_transition: bool,
}

impl ContainsTransitionVisitor {
    pub fn new(inside_loop: bool) -> (r: Self)
        ensures
            r.inside_loop == inside_loop,
            !r.contains_transition,
    {
        ContainsTransitionVisitor { inside_loop, contains_transition: false }
    }

    pub fn visit_stmt(&mut self, stmt: &Stmt)
        ensures
            final(self).inside_loop == old(self).inside_loop,
            final(self).contains_transition == (old(self).contains_transition
                || stmt_has_transition(stmt, old(self).inside_loop)),
        decreases stmt, 1nat,
    {
        match &stmt.node {
            StmtKind::Local(local) => {
                match &local.init {
                    Some(e) => self.visit_expr(e),
                    None => {},
                }
            },
            StmtKind::Item => {},
            StmtKind::Expr(e) => self.visit_expr(e),
            StmtKind::Semi(e) => self.visit_expr(e),
            StmtKind::Mac(mac) => {
                if is_transition_path(&mac.path) {
                    self.contains_transition = true;
                } else {
                    self.visit_mac(mac);
                }
            },
        }
    }

    pub fn visit_block(&mut self, block: &Block)
        ensures
            final(self).inside_loop == old(self).inside_loop,
            final(self).contains_transition == (old(self).contains_transition
                || block_has_transition(block, old(self).inside_loop)),
        decreases block, 1nat,
    {
        let mut i: usize = 0;
        while i < block.stmts.len()
            invariant
                0 <= i <= block.stmts.len(),
                self.inside_loop == old(self).inside_loop,
                self.contains_transition == (old(self).contains_transition
                    || stmts_have_transition(&block.stmts, i as int, self.inside_loop)),
            decreases block.stmts.len() - i,
        {
            self.visit_stmt(&block.stmts[i]);
            i += 1;
        }
        match &block.expr {
            Some(e) => self.visit_expr(e),
            None => {},
        }
    }

    pub fn visit_expr(&mut self, expr: &Expr)
        ensures
            final(self).inside_loop == old(self).inside_loop,
            final(self).contains_transition == (old(self).contains_transition
                || expr_has_transition(expr, old(self).inside_loop)),
        decreases expr, 1nat,
    {
        match &expr.node {
            ExprKind::Ret(Some(_)) => {
                self.contains_transition = true;
            },
            ExprKind::Ret(None) => {},
            ExprKind::Assign(place, value) => {
                self.visit_expr(place);
                self.visit_expr(value);
            },
            ExprKind::Break => {
                if self.inside_loop {
                    self.contains_transition = true;
                }
            },
            ExprKind::Continue => {
                if self.inside_loop {
                    self.contains_transition = true;
                }
            },
            ExprKind::Mac(mac) => {
                if is_transition_path(&mac.path) {
                    self.contains_transition = true;
                } else {
                    self.visit_mac(mac);
                }
            },
            ExprKind::Block(block) => self.visit_block(block),
            ExprKind::Loop(block) => self.visit_block(block),
            ExprKind::If(cond, then, otherwise) => {
                self.visit_expr(cond);
                self.visit_block(then);
                match otherwise {
                    Some(e) => self.visit_expr(e),
                    None => {},
                }
            },
            ExprKind::Match(discr, arms) => {
                self.visit_expr(discr);
                self.visit_arms(arms);
            },
            ExprKind::Other(children) => self.visit_exprs(children),
        }
    }

    pub fn visit_exprs(&mut self, exprs: &Vec<Expr>)
        ensures
            final(self).inside_loop == old(self).inside_loop,
            final(self).contains_transition == (old(self).contains_transition
                || exprs_have_transition(exprs, exprs@.len() as int, old(self).inside_loop)),
        decreases exprs, 1nat,
    {
        let mut i: usize = 0;
        while i < exprs.len()
            invariant
                0 <= i <= exprs.len(),
                self.inside_loop == old(self).inside_loop,
                self.contains_transition == (old(self).contains_transition
                    || exprs_have_transition(exprs, i as int, self.inside_loop)),
            decreases exprs.len() - i,
        {
            self.visit_expr(&exprs[i]);
            i += 1;
        }
    }

    pub fn visit_arms(&mut self, arms: &Vec<Arm>)
        ensures
            final(self).inside_loop == old(self).inside_loop,
            final(self).contains_transition == (old(self).contains_transition
                || arms_have_transition(arms, arms@.len() as int, old(self).inside_loop)),
        decreases arms, 1nat,
    {
        let mut i: usize = 0;
        while i < arms.len()
            invariant
                0 <= i <= arms.len(),
                self.inside_loop == old(self).inside_loop,
                self.contains_transition == (old(self).contains_transition
                    || arms_have_transition(arms, i as int, self.inside_loop)),
            decreases arms.len() - i,
        {
            self.visit_expr(&arms[i].body);
            i += 1;
        }
    }

    /// The arguments of a macro are not searched.
    pub fn visit_mac(&mut self, _mac: &Mac)
        ensures
            *final(self) == *old(self),
    {
    }
}

} // verus!

//! The graphs and machines of three small functions, worked out from the
//! definitions: one that yields twice and then returns, one that shadows
//! a local between two suspensions, and one that loops until it is done.

use vstd::prelude::*;
use crate::ast::{ExprKind, Item, ItemKind, NodeId, Stmt, StmtKind};
use crate::build::lowering::{
    construct_spec, enter_loop, expr_is_empty_spec, lower_block, lower_expr, lower_function,
    lower_if, lower_loop, lower_stmt, lower_stmts,
};
use crate::build::model::LoopScope;
use crate::build::model::{
    drop_statement, emit_drops, emit_exit, find_in_decls, find_in_scopes, BuilderModel, ScopeModel,
};
use crate::ast::Mutability;
use crate::build::Error;
use crate::repr::{
    Alias, Local, Statement, first_open, first_unrecorded, recorded, BasicBlock, BlockName, LiveDecl, LocalDeclModel,
    LetInit, LetPat, Lvalue, MarModel, StateMachineKind, StatementKind, TerminatorKindModel,
    RETURN_POINTER,
};
use crate::transition::{
    block_has_transition, expr_has_transition, path_is_yield, stmt_has_transition,
    stmts_have_transition,
};
use crate::translate::drive::Drive;
use crate::translate::names::shadowed_name;
use crate::translate::state::{scope_fields, shadow_chain, Field};

verus! {

/// The statement is `yield_!(value);`, and `value` holds no transition.
pub open spec fn yields_value(stmt: &Stmt, value: NodeId) -> bool {
    &&& stmt.node matches StmtKind::Mac(mac)
    &&& path_is_yield(&mac.path)
    &&& mac.operand matches Some(operand)
    &&& operand.id == value
    &&& !expr_has_transition(&operand, false)
}

/// The statement is `return value;`, and `value` holds no transition.
pub open spec fn returns_value(stmt: &Stmt, value: NodeId) -> bool {
    &&& stmt.node matches StmtKind::Semi(e)
    &&& e.node matches ExprKind::Ret(Some(v))
    &&& v.id == value
    &&& !expr_has_transition(&v, false)
}

/// The item is a function without parameters whose body is
/// `yield_!(a); yield_!(b); return c;`.
pub open spec fn yields_twice_and_returns(item: &Item, a: NodeId, b: NodeId, c: NodeId) -> bool {
    &&& item.node matches ItemKind::Fn(decl, body)
    &&& decl.inputs@.len() == 0
    &&& body.expr is None
    &&& body.stmts@.len() == 3
    &&& yields_value(&body.stmts@[0], a)
    &&& yields_value(&body.stmts@[1], b)
    &&& returns_value(&body.stmts@[2], c)
}

/// The graph of `yield_!(a); yield_!(b); return c;` has five blocks: the
/// entry block suspends with `a`, the next with `b`, the third goes to the
/// return block, and the fifth, for what follows the `return`, goes there
/// too. The third block starts with the unit value that the suspension
/// resumes with, and then stores `c` in the return slot.
#[verifier::rlimit(100)]
pub proof fn lemma_graph_of_two_yields(item: &Item, kind: StateMachineKind, a: NodeId, b: NodeId, c: NodeId)
    requires
        yields_twice_and_returns(item, a, b, c),
    ensures
        construct_spec(item, kind) matches Ok(m) && {
            &&& m.kind == kind
            &&& m.blocks.len() == 5
            &&& m.blocks[0].terminator matches Some(t) && t.kind == (TerminatorKindModel::Suspend {
                rvalue: a,
                target: 1,
            })
            &&& m.blocks[1].terminator matches Some(t) && t.kind == (TerminatorKindModel::Suspend {
                rvalue: b,
                target: 2,
            })
            &&& m.blocks[2].terminator matches Some(t) && t.kind == (TerminatorKindModel::Goto {
                target: 3,
            })
            &&& m.blocks[3].terminator matches Some(t) && t.kind == TerminatorKindModel::Return
            &&& m.blocks[4].terminator matches Some(t) && t.kind == (TerminatorKindModel::Goto {
                target: 3,
            })
            &&& m.blocks[2].statements.len() == 2
            &&& m.blocks[2].statements[0].kind == Lvalue::Ignore.assign_unit()
            &&& m.blocks[2].statements[1].kind == (StatementKind::Let {
                pat: LetPat::Local(RETURN_POINTER),
                ty: None,
                init: LetInit::Expr(c),
            })
        },
{
    reveal_with_fuel(lower_stmts, 5);
    reveal_with_fuel(emit_exit, 4);
    reveal_with_fuel(emit_drops, 2);
    reveal_with_fuel(first_open, 7);
    reveal_with_fuel(first_unrecorded, 3);
    reveal_with_fuel(find_in_scopes, 3);
    let (decl, body) = match &item.node {
        ItemKind::Fn(decl, body) => (decl, body),
        _ => arbitrary(),
    };
    let span = item.id;
    let fresh = BuilderModel::empty(span, kind);
    let opened = fresh.start_new_extent(span).push_scope(0, span);
    assert(fresh.next_extent() == 0);
    let declared = opened.declare(
        LocalDeclModel {
            ident: "return_"@,
            mutability: Mutability::Immutable,
            ty: None,
            source_info: opened.source_info(span),
            shadowed_decl: opened.find_decl("return_"@),
        },
        LiveDecl::Forward(RETURN_POINTER),
    );
    assert(declared.declare_arguments(0, &decl.inputs, 0) == declared);
    assert(declared.blocks.len() == 0);
    assert(declared.next_block() == 0);
    let started = declared.start_new_block(span, Some(BlockName::Start));
    assert(started.next_extent() == 1);
    let sb = started.start_new_extent(body.id).push_scope(1, body.id);
    assert(!sb.inside_loop());
    assert(sb.blocks.len() == 1);
    let stmts = &body.stmts;
    // yield a
    let (s1, b1) = sb.suspend(Lvalue::Ignore, 0, a);
    assert(lower_stmt(sb, 1, 0, &stmts@[0]) == Ok::<(BuilderModel, BasicBlock), Error>((s1, b1)));
    assert(b1 == 1 && s1.blocks.len() == 2 && !s1.inside_loop());
    // yield b
    let (s2, b2) = s1.suspend(Lvalue::Ignore, 1, b);
    assert(lower_stmt(s1, 1, 1, &stmts@[1]) == Ok::<(BuilderModel, BasicBlock), Error>((s2, b2)));
    assert(b2 == 2 && s2.blocks.len() == 3 && !s2.inside_loop());
    // return c
    let e = stmts@[2].node->Semi_0;
    let (s3, b3) = s2.return_value(2, e.id, c);
    assert(lower_expr(s2, 1, 2, &e) == Ok::<(BuilderModel, BasicBlock), Error>((s3, b3)));
    assert(lower_stmt(s2, 1, 2, &stmts@[2]) == Ok::<(BuilderModel, BasicBlock), Error>((s3, b3)));
    assert(s3.blocks.len() == 5 && b3 == 4);
    assert(lower_stmts(s3, 1, 4, stmts, 3) == Ok::<(BuilderModel, BasicBlock), Error>((s3, 4)));
    assert(lower_stmts(s2, 1, 2, stmts, 2) == Ok::<(BuilderModel, BasicBlock), Error>((s3, 4)));
    assert(lower_stmts(s1, 1, 1, stmts, 1) == Ok::<(BuilderModel, BasicBlock), Error>((s3, 4)));
    assert(lower_stmts(sb, 1, 0, stmts, 0) == Ok::<(BuilderModel, BasicBlock), Error>((s3, 4)));
    let s4 = s3.pop_scope(4);
    assert(lower_block(started, 0, body) == Ok::<(BuilderModel, BasicBlock), Error>((s4, 4)));
    let lowered = lower_function(span, kind, decl, body);
    assert(lowered is Ok);
    let s = lowered->Ok_0;
    assert(s.blocks.len() == 5);
    assert(s.local_decls.len() == 1);
    assert(s.blocks[3].decls[0].decls[0] == LiveDecl::Active(0));
    assert(s.blocks[3].decls[0].decls.contains(LiveDecl::Active(0)));
    assert(s.blocks[3].records(0));
    assert(recorded(s.blocks, 0));
}

/// The machine of `yield_!(a); yield_!(b); return c;` has four states,
/// those of the first four blocks: control never reaches the block for
/// what follows the `return`. Driven from its entry state, it hands `a`
/// to the driver; driven again, `b`; driven a third time, it stores `c` in
/// the return slot, goes to the return block and finishes.
pub proof fn lemma_machine_of_two_yields(
    item: &Item,
    kind: StateMachineKind,
    a: NodeId,
    b: NodeId,
    c: NodeId,
)
    requires
        yields_twice_and_returns(item, a, b, c),
    ensures
        construct_spec(item, kind) matches Ok(m) && {
            &&& m.reachable_blocks(m.blocks.len() as int) == seq![0usize, 1usize, 2usize, 3usize]
            &&& m.drive(0, m.blocks.len()) == (Drive::Suspended {
                output: m.suspend_output(a),
                next: 1,
            })
            &&& m.drive(1, m.blocks.len()) == (Drive::Suspended {
                output: m.suspend_output(b),
                next: 2,
            })
            &&& m.blocks[2].statements.len() == 2
            &&& m.blocks[2].statements[1].kind == (StatementKind::Let {
                pat: LetPat::Local(RETURN_POINTER),
                ty: None,
                init: LetInit::Expr(c),
            })
            &&& m.drive(2, m.blocks.len()) == (Drive::Finished { output: m.return_output() })
        },
{
    lemma_graph_of_two_yields(item, kind, a, b, c);
    let m = construct_spec(item, kind)->Ok_0;
    reveal_with_fuel(MarModel::reachable_blocks, 6);
    reveal_with_fuel(MarModel::drive, 3);
    m.lemma_reachable_start();
    assert(m.successors(0)[0] == 1);
    m.lemma_reachable_step(0, 1);
    assert(m.successors(1)[0] == 2);
    m.lemma_reachable_step(1, 2);
    assert(m.successors(2)[0] == 3);
    m.lemma_reachable_step(2, 3);
    let marks = seq![true, true, true, true, false];
    if m.reachable(4) {
        let path = choose|path: Seq<BasicBlock>| #[trigger] m.is_path(path) && path.last() == 4;
        assert forall|b: int, k: int|
            0 <= b < marks.len() && marks[b] && 0 <= k < m.successors(b as usize).len() implies {
            let next = #[trigger] m.successors(b as usize)[k];
            next < marks.len() && marks[next as int]
        } by {
            if b == 0 {
                assert(m.successors(0) == seq![1usize]);
            } else if b == 1 {
                assert(m.successors(1) == seq![2usize]);
            } else if b == 2 {
                assert(m.successors(2) == seq![3usize]);
            } else {
                assert(b == 3);
                assert(m.successors(3).len() == 0);
            }
        }
        m.lemma_closed_holds_path(marks, path, path.len() - 1);
    }
    assert(m.reachable_blocks(5) =~= seq![0usize, 1usize, 2usize, 3usize]);
}

/// The statement is `let name = init;`, with the pattern `pat`, without a
/// type, and `init` holds no transition.
pub open spec fn binds(stmt: &Stmt, pat: NodeId, name: Seq<char>, init: NodeId) -> bool {
    &&& stmt.node matches StmtKind::Local(local)
    &&& local.pat.id == pat
    &&& local.pat.bindings@.len() == 1
    &&& local.pat.bindings@[0].ident@ == name
    &&& local.ty is None
    &&& local.init matches Some(e)
    &&& e.id == init
    &&& !expr_has_transition(&e, false)
}

/// The item is a function without parameters whose body is
/// `let x = one; yield_!(a); let x = two; yield_!(b);`, where `x` is not
/// the name of the return slot.
pub open spec fn shadows_between_yields(
    item: &Item,
    x: Seq<char>,
    first: (NodeId, NodeId),
    a: NodeId,
    second: (NodeId, NodeId),
    b: NodeId,
) -> bool {
    &&& item.node matches ItemKind::Fn(decl, body)
    &&& decl.inputs@.len() == 0
    &&& body.expr is None
    &&& body.stmts@.len() == 4
    &&& x != "return_"@
    &&& binds(&body.stmts@[0], first.0, x, first.1)
    &&& yields_value(&body.stmts@[1], a)
    &&& binds(&body.stmts@[2], second.0, x, second.1)
    &&& yields_value(&body.stmts@[3], b)
}

/// The name of the only record of the innermost of two scopes is found.
proof fn lemma_finds_the_inner_local(s: BuilderModel, x: Seq<char>, local: Local)
    requires
        s.scopes.len() == 2,
        s.scopes[1].decls == seq![LiveDecl::Active(local)],
        local < s.local_decls.len(),
        s.local_decls[local as int].ident == x,
    ensures
        s.find_decl(x) == Some(local),
{
    reveal_with_fuel(find_in_scopes, 2);
    reveal_with_fuel(find_in_decls, 2);
}

/// A scope that owes two teardowns, of locals that are both active in it,
/// tears down the second, and then the first.
proof fn lemma_two_teardowns(statements: Seq<Statement>, scope: ScopeModel)
    requires
        scope.drops.len() == 2,
        scope.decls.contains(LiveDecl::Active(scope.drops[0].local)),
        scope.decls.contains(LiveDecl::Active(scope.drops[1].local)),
    ensures
        emit_drops(statements, scope, 2) == statements.push(
            drop_statement(scope.drops[1], scope.visibility),
        ).push(drop_statement(scope.drops[0], scope.visibility)),
{
    reveal_with_fuel(emit_drops, 3);
}

/// In the graph of `let x = one; yield_!(a); let x = two; yield_!(b);`
/// the two declarations are two locals of the same name, of which the
/// second shadows the first. The entry block binds the first and suspends
/// with `a`. The block in which the computation resumes renames the value
/// of the first, binds the second, and suspends with `b`. Where the body
/// ends, the second is torn down and the first bound to its name again,
/// and then the first is torn down.
#[verifier::rlimit(60)]
pub proof fn lemma_graph_of_a_shadowed_local(
    item: &Item,
    kind: StateMachineKind,
    x: Seq<char>,
    first: (NodeId, NodeId),
    a: NodeId,
    second: (NodeId, NodeId),
    b: NodeId,
)
    requires
        shadows_between_yields(item, x, first, a, second, b),
    ensures
        construct_spec(item, kind) matches Ok(m) && {
            &&& m.local_decls.len() == 3
            &&& m.local_decls[1].ident == x
            &&& m.local_decls[1].shadowed_decl is None
            &&& m.local_decls[2].ident == x
            &&& m.local_decls[2].shadowed_decl == Some(1usize)
            &&& m.blocks.len() == 4
            &&& m.blocks[0].statements.len() == 1
            &&& m.blocks[0].statements[0].kind == (StatementKind::Let {
                pat: LetPat::Syntax(first.0),
                ty: None,
                init: LetInit::Expr(first.1),
            })
            &&& m.blocks[0].terminator matches Some(t) && t.kind == (TerminatorKindModel::Suspend {
                rvalue: a,
                target: 1,
            })
            &&& m.blocks[1].statements.len() == 3
            &&& m.blocks[1].statements[1].kind == (StatementKind::Let {
                pat: LetPat::Shadow(1),
                ty: None,
                init: LetInit::Local(1),
            })
            &&& m.blocks[1].statements[2].kind == (StatementKind::Let {
                pat: LetPat::Syntax(second.0),
                ty: None,
                init: LetInit::Expr(second.1),
            })
            &&& m.blocks[1].terminator matches Some(t) && t.kind == (TerminatorKindModel::Suspend {
                rvalue: b,
                target: 2,
            })
            &&& m.blocks[2].statements.len() == 3
            &&& m.blocks[2].statements[1].kind == (StatementKind::Drop {
                local: 2,
                alias: Some(Alias { decl: 1 }),
            })
            &&& m.blocks[2].statements[2].kind == (StatementKind::Drop { local: 1, alias: None })
            &&& m.blocks[1].decls.len() == 2
            &&& m.blocks[1].decls[1].decls.len() == 1
            &&& m.blocks[1].decls[1].decls[0] == LiveDecl::Active(1)
            &&& m.blocks[2].decls.len() == 2
            &&& m.blocks[2].decls[1].decls.len() == 2
            &&& m.blocks[2].decls[1].decls[0] == LiveDecl::Active(1)
            &&& m.blocks[2].decls[1].decls[1] == LiveDecl::Active(2)
        },
{
    reveal_with_fuel(lower_stmts, 6);
    reveal_with_fuel(first_open, 6);
    reveal_with_fuel(first_unrecorded, 5);
    reveal_with_fuel(find_in_scopes, 3);
    reveal_with_fuel(find_in_decls, 2);
    reveal_with_fuel(BuilderModel::declare_locals, 2);
    let (decl, body) = match &item.node {
        ItemKind::Fn(decl, body) => (decl, body),
        _ => arbitrary(),
    };
    let span = item.id;
    let fresh = BuilderModel::empty(span, kind);
    let opened = fresh.start_new_extent(span).push_scope(0, span);
    assert(fresh.next_extent() == 0);
    assert(opened.find_decl("return_"@) is None);
    let declared = opened.declare(
        LocalDeclModel {
            ident: "return_"@,
            mutability: Mutability::Immutable,
            ty: None,
            source_info: opened.source_info(span),
            shadowed_decl: opened.find_decl("return_"@),
        },
        LiveDecl::Forward(RETURN_POINTER),
    );
    assert(declared.declare_arguments(0, &decl.inputs, 0) == declared);
    assert(declared.next_block() == 0);
    let started = declared.start_new_block(span, Some(BlockName::Start));
    assert(started.next_extent() == 1);
    let sb = started.start_new_extent(body.id).push_scope(1, body.id);
    assert(!sb.inside_loop());
    let stmts = &body.stmts;
    // let x = one
    let l0 = stmts@[0].node->Local_0;
    assert(sb.find_decl(x) is None);
    assert(sb.next_local() == 1);
    let d0 = sb.declare_locals(1, 0, stmts@[0].id, None, &l0.pat.bindings, 0, false);
    assert(d0 == sb.declare_local(
        1,
        0,
        stmts@[0].id,
        None,
        x,
        l0.pat.bindings@[0].mutability,
        false,
    ));
    let s0 = d0.push(
        0,
        stmts@[0].id,
        StatementKind::Let { pat: LetPat::Syntax(first.0), ty: None, init: LetInit::Expr(first.1) },
    );
    assert(lower_stmt(sb, 1, 0, &stmts@[0]) == Ok::<(BuilderModel, BasicBlock), Error>((s0, 0)));
    assert(!s0.inside_loop() && s0.blocks.len() == 1);
    assert(s0.scopes.len() == 2);
    assert(s0.scopes[1].decls == seq![LiveDecl::Active(1)]);
    // yield a
    let (s1, b1) = s0.suspend(Lvalue::Ignore, 0, a);
    assert(lower_stmt(s0, 1, 0, &stmts@[1]) == Ok::<(BuilderModel, BasicBlock), Error>((s1, b1)));
    assert(b1 == 1 && s1.blocks.len() == 2 && !s1.inside_loop());
    // let x = two
    let l2 = stmts@[2].node->Local_0;
    assert(s1.local_decls.len() == 2);
    assert(s1.local_decls[1].ident == x);
    assert(s1.scopes[1].decls == seq![LiveDecl::Active(1)]);
    lemma_finds_the_inner_local(s1, x, 1);
    let d2 = s1.declare_locals(1, 1, stmts@[2].id, None, &l2.pat.bindings, 0, false);
    assert(d2 == s1.declare_local(
        1,
        1,
        stmts@[2].id,
        None,
        x,
        l2.pat.bindings@[0].mutability,
        false,
    ));
    let s2 = d2.push(
        1,
        stmts@[2].id,
        StatementKind::Let {
            pat: LetPat::Syntax(second.0),
            ty: None,
            init: LetInit::Expr(second.1),
        },
    );
    assert(lower_stmt(s1, 1, 1, &stmts@[2]) == Ok::<(BuilderModel, BasicBlock), Error>((s2, 1)));
    assert(!s2.inside_loop() && s2.blocks.len() == 2);
    // yield b
    let (s3, b3) = s2.suspend(Lvalue::Ignore, 1, b);
    assert(lower_stmt(s2, 1, 1, &stmts@[3]) == Ok::<(BuilderModel, BasicBlock), Error>((s3, b3)));
    assert(b3 == 2 && s3.blocks.len() == 3);
    assert(lower_stmts(s3, 1, 2, stmts, 4) == Ok::<(BuilderModel, BasicBlock), Error>((s3, 2)));
    assert(lower_stmts(s2, 1, 1, stmts, 3) == Ok::<(BuilderModel, BasicBlock), Error>((s3, 2)));
    assert(lower_stmts(s1, 1, 1, stmts, 2) == Ok::<(BuilderModel, BasicBlock), Error>((s3, 2)));
    assert(lower_stmts(s0, 1, 0, stmts, 1) == Ok::<(BuilderModel, BasicBlock), Error>((s3, 2)));
    assert(lower_stmts(sb, 1, 0, stmts, 0) == Ok::<(BuilderModel, BasicBlock), Error>((s3, 2)));
    assert(s3.scopes[1].decls == seq![LiveDecl::Active(1), LiveDecl::Active(2)]);
    assert(s3.scopes[1].drops.len() == 2);
    assert(s3.scopes[1].decls[0] == LiveDecl::Active(1));
    assert(s3.scopes[1].decls[1] == LiveDecl::Active(2));
    lemma_two_teardowns(s3.blocks[2].statements, s3.scopes[1]);
    let s4 = s3.pop_scope(2);
    assert(lower_block(started, 0, body) == Ok::<(BuilderModel, BasicBlock), Error>((s4, 2)));
    assert(s4.blocks[2].statements.len() == 3);
    let lowered = lower_function(span, kind, decl, body);
    assert(lowered is Ok);
    let s = lowered->Ok_0;
    assert(s.blocks.len() == 4);
    assert(s.local_decls.len() == 3);
    assert(s.blocks[3].decls[0].decls[0] == LiveDecl::Active(0));
    assert(s.blocks[3].decls[0].decls.contains(LiveDecl::Active(0)));
    assert(s.blocks[3].records(0));
    assert(recorded(s.blocks, 0));
    assert(s.blocks[1].decls[1].decls[0] == LiveDecl::Active(1));
    assert(s.blocks[1].decls[1].decls.contains(LiveDecl::Active(1)));
    assert(s.blocks[1].records(1));
    assert(recorded(s.blocks, 1));
    assert(s.blocks[2].decls[1].decls[0] == LiveDecl::Active(1));
    assert(s.blocks[2].decls[1].decls[1] == LiveDecl::Active(2));
    assert(s.blocks[2].decls[1].decls.contains(LiveDecl::Active(2)));
    assert(s.blocks[2].records(2));
    assert(recorded(s.blocks, 2));
}

/// The states of `let x = one; yield_!(a); let x = two; yield_!(b);`:
/// the state in which the machine resumes after the first suspension
/// captures the first `x`; the state after the second captures the first
/// `x`, the second `x`, and the first once more, under the name under
/// which its value survives.
pub proof fn lemma_states_of_a_shadowed_local(
    item: &Item,
    kind: StateMachineKind,
    x: Seq<char>,
    first: (NodeId, NodeId),
    a: NodeId,
    second: (NodeId, NodeId),
    b: NodeId,
)
    requires
        shadows_between_yields(item, x, first, a, second, b),
    ensures
        construct_spec(item, kind) matches Ok(m) && {
            &&& m.incoming(1).len() == 2
            &&& m.incoming(1)[1] == seq![Field { local: 1, shadowed: false }]
            &&& m.incoming(2).len() == 2
            &&& m.incoming(2)[1] == seq![
                Field { local: 1, shadowed: false },
                Field { local: 2, shadowed: false },
                Field { local: 1, shadowed: true },
            ]
            &&& m.field_name(Field { local: 1, shadowed: false }) == x
            &&& m.field_name(Field { local: 2, shadowed: false }) == x
            &&& m.field_name(Field { local: 1, shadowed: true }) == shadowed_name(x, 1)
        },
{
    lemma_graph_of_a_shadowed_local(item, kind, x, first, a, second, b);
    let m = construct_spec(item, kind)->Ok_0;
    reveal_with_fuel(scope_fields, 3);
    reveal_with_fuel(shadow_chain, 3);
    let locals = m.local_decls;
    assert(shadow_chain(locals, 1) =~= Seq::<Field>::empty());
    assert(shadow_chain(locals, 2) =~= seq![Field { local: 1, shadowed: true }]);
    let one = m.blocks[1].decls[1].decls;
    assert(scope_fields(locals, one, 1) =~= seq![Field { local: 1, shadowed: false }]);
    let two = m.blocks[2].decls[1].decls;
    assert(scope_fields(locals, two, 1) =~= seq![Field { local: 1, shadowed: false }]);
    assert(scope_fields(locals, two, 2) =~= seq![
        Field { local: 1, shadowed: false },
        Field { local: 2, shadowed: false },
        Field { local: 1, shadowed: true },
    ]);
}

/// The item is a function without parameters whose body is
/// `loop { if done { break; } else { yield_!(v); } }`.
pub open spec fn loops_until_done(item: &Item, done: NodeId, v: NodeId) -> bool {
    &&& item.node matches ItemKind::Fn(decl, body)
    &&& decl.inputs@.len() == 0
    &&& body.expr is None
    &&& body.stmts@.len() == 1
    &&& body.stmts@[0].node matches StmtKind::Semi(looping)
    &&& looping.node matches ExprKind::Loop(inner)
    &&& inner.expr is None
    &&& inner.stmts@.len() == 1
    &&& inner.stmts@[0].node matches StmtKind::Semi(branch)
    &&& branch.node matches ExprKind::If(cond, then, otherwise)
    &&& cond.id == done
    &&& !expr_has_transition(&cond, true)
    &&& then.expr is None
    &&& then.stmts@.len() == 1
    &&& then.stmts@[0].node matches StmtKind::Semi(leave)
    &&& leave.node is Break
    &&& otherwise matches Some(other)
    &&& other.node matches ExprKind::Block(yielding)
    &&& yielding.expr is None
    &&& yielding.stmts@.len() == 1
    &&& yielding.stmts@[0].node matches StmtKind::Mac(mac)
    &&& path_is_yield(&mac.path)
    &&& mac.operand matches Some(operand)
    &&& operand.id == v
    &&& !expr_has_transition(&operand, true)
}

/// In `loop { if done { break; } else { yield_!(v); } }` the conditional
/// holds a transition inside the loop, and the loop holds one outside.
proof fn lemma_loop_holds_transitions(item: &Item, done: NodeId, v: NodeId)
    requires
        loops_until_done(item, done, v),
    ensures
        ({
            let body = item.node->Fn_1;
            let looping = body.stmts@[0].node->Semi_0;
            let inner = looping.node->Loop_0;
            let branch = inner.stmts@[0].node->Semi_0;
            let then = branch.node->If_1;
            let other = branch.node->If_2->Some_0;
            let leave = then.stmts@[0].node->Semi_0;
            &&& expr_has_transition(&looping, false)
            &&& expr_has_transition(&branch, true)
            &&& expr_has_transition(&leave, true)
            &&& expr_has_transition(&other, true)
            &&& !expr_is_empty_spec(&looping)
            &&& !expr_is_empty_spec(&branch)
            &&& !expr_is_empty_spec(&leave)
        }),
{
    reveal_with_fuel(stmts_have_transition, 2);
    let body = item.node->Fn_1;
    let looping = body.stmts@[0].node->Semi_0;
    let inner = looping.node->Loop_0;
    let branch = inner.stmts@[0].node->Semi_0;
    let then = branch.node->If_1;
    let other = branch.node->If_2->Some_0;
    let yielding = other.node->Block_0;
    assert(stmt_has_transition(&yielding.stmts@[0], false));
    assert(stmt_has_transition(&yielding.stmts@[0], true));
    assert(block_has_transition(&yielding, false));
    assert(block_has_transition(&yielding, true));
    assert(expr_has_transition(&other, false));
    assert(expr_has_transition(&branch, false));
    assert(stmt_has_transition(&inner.stmts@[0], false));
    assert(block_has_transition(&inner, false));
    assert(expr_has_transition(&looping, false));
    let leave = then.stmts@[0].node->Semi_0;
    assert(expr_has_transition(&leave, true));
    assert(expr_has_transition(&other, true));
    assert(expr_has_transition(&branch, true));
    assert(!expr_is_empty_spec(&looping));
    assert(!expr_is_empty_spec(&branch));
    assert(!expr_is_empty_spec(&leave));
}

/// The graph of `loop { if done { break; } else { yield_!(v); } }`: the
/// entry block of the loop branches; the `break` goes to the exit block
/// of the loop, which is not the entry block, and from which control goes
/// on to the return block; the other branch suspends with `v`, and where
/// the computation resumes it goes on to the end of the conditional,
/// which is the tail of the body and goes back to the entry block of the
/// loop.
#[verifier::rlimit(100)]
pub proof fn lemma_graph_of_a_loop(item: &Item, kind: StateMachineKind, done: NodeId, v: NodeId)
    requires
        loops_until_done(item, done, v),
    ensures
        construct_spec(item, kind) matches Ok(m) && {
            &&& m.blocks.len() == 9
            &&& m.blocks[0].terminator matches Some(t) && t.kind == (TerminatorKindModel::Goto {
                target: 1,
            })
            &&& m.blocks[1].terminator matches Some(t) && t.kind == (TerminatorKindModel::If {
                cond: done,
                targets: (3, 4),
            })
            &&& m.blocks[3].terminator matches Some(t) && t.kind == (TerminatorKindModel::Goto {
                target: 2,
            })
            &&& m.blocks[4].terminator matches Some(t) && t.kind == (TerminatorKindModel::Suspend {
                rvalue: v,
                target: 7,
            })
            &&& m.blocks[7].terminator matches Some(t) && t.kind == (TerminatorKindModel::Goto {
                target: 5,
            })
            &&& m.blocks[5].terminator matches Some(t) && t.kind == (TerminatorKindModel::Goto {
                target: 1,
            })
            &&& m.blocks[2].terminator matches Some(t) && t.kind == (TerminatorKindModel::Goto {
                target: 8,
            })
            &&& m.blocks[8].terminator matches Some(t) && t.kind == TerminatorKindModel::Return
        },
{
    lemma_loop_holds_transitions(item, done, v);
    reveal_with_fuel(lower_stmts, 3);
    reveal_with_fuel(emit_exit, 5);
    reveal_with_fuel(first_open, 11);
    reveal_with_fuel(first_unrecorded, 3);
    reveal_with_fuel(find_in_scopes, 3);
    let (decl, body) = match &item.node {
        ItemKind::Fn(decl, body) => (decl, body),
        _ => arbitrary(),
    };
    let looping = body.stmts@[0].node->Semi_0;
    let inner = looping.node->Loop_0;
    let branch = inner.stmts@[0].node->Semi_0;
    let cond = branch.node->If_0;
    let then = branch.node->If_1;
    let other = branch.node->If_2->Some_0;
    let leave = then.stmts@[0].node->Semi_0;
    let yielding = other.node->Block_0;
    let span = item.id;
    let fresh = BuilderModel::empty(span, kind);
    let opened = fresh.start_new_extent(span).push_scope(0, span);
    assert(fresh.next_extent() == 0);
    let declared = opened.declare(
        LocalDeclModel {
            ident: "return_"@,
            mutability: Mutability::Immutable,
            ty: None,
            source_info: opened.source_info(span),
            shadowed_decl: opened.find_decl("return_"@),
        },
        LiveDecl::Forward(RETURN_POINTER),
    );
    assert(declared.declare_arguments(0, &decl.inputs, 0) == declared);
    assert(declared.next_block() == 0);
    let started = declared.start_new_block(span, Some(BlockName::Start));
    assert(started.next_extent() == 1);
    let sb = started.start_new_extent(body.id).push_scope(1, body.id);
    assert(!sb.inside_loop() && sb.blocks.len() == 1 && sb.scopes.len() == 2);
    // the loop
    let sl = enter_loop(sb, 0, &looping);
    assert(sl.blocks.len() == 3 && sl.inside_loop());
    assert(sl.loop_scopes.last() == (LoopScope { depth: 2, continue_block: 1, break_block: 2 }));
    assert(sl.next_extent() == 2);
    let si = sl.start_new_extent(inner.id).push_scope(2, inner.id);
    assert(si.inside_loop() && si.blocks.len() == 3 && si.scopes.len() == 3);
    // the conditional
    let s3 = si.start_new_block(then.id, Some(BlockName::Then)).start_new_block(
        branch.id,
        Some(BlockName::Else),
    ).start_new_block(branch.id, Some(BlockName::EndIf)).terminate(
        1,
        branch.id,
        TerminatorKindModel::If { cond: done, targets: (3, 4) },
    );
    assert(s3.blocks.len() == 6 && s3.inside_loop() && s3.next_extent() == 3);
    // the first branch: break
    let st = s3.start_new_extent(then.id).push_scope(3, then.id);
    assert(st.loop_scopes.last() == (LoopScope { depth: 2, continue_block: 1, break_block: 2 }));
    let (sbr, after_break) = st.break_loop(3, leave.id);
    assert(lower_expr(st, 3, 3, &leave) == Ok::<(BuilderModel, BasicBlock), Error>(
        (sbr, after_break),
    ));
    assert(after_break == 6 && sbr.blocks.len() == 7);
    assert(lower_stmts(st, 3, 3, &then.stmts, 0) == Ok::<(BuilderModel, BasicBlock), Error>(
        (sbr, 6),
    ));
    let s4 = sbr.pop_scope(6);
    assert(lower_block(s3, 3, &then) == Ok::<(BuilderModel, BasicBlock), Error>((s4, 6)));
    let s5 = s4.terminate(6, then.id, TerminatorKindModel::Goto { target: 5 });
    assert(s5.inside_loop() && s5.blocks.len() == 7 && s5.next_extent() == 4);
    // the second branch: yield
    let sy = s5.start_new_extent(yielding.id).push_scope(4, yielding.id);
    let (ssu, resumed) = sy.suspend(Lvalue::Ignore, 4, v);
    assert(lower_stmt(sy, 4, 4, &yielding.stmts@[0]) == Ok::<(BuilderModel, BasicBlock), Error>(
        (ssu, resumed),
    ));
    assert(resumed == 7 && ssu.blocks.len() == 8);
    assert(lower_stmts(sy, 4, 4, &yielding.stmts, 0) == Ok::<(BuilderModel, BasicBlock), Error>(
        (ssu, 7),
    ));
    let s6 = ssu.pop_scope(7);
    assert(lower_block(s5, 4, &yielding) == Ok::<(BuilderModel, BasicBlock), Error>((s6, 7)));
    assert(lower_expr(s5, 2, 4, &other) == Ok::<(BuilderModel, BasicBlock), Error>((s6, 7)));
    let s7 = s6.terminate(7, branch.id, TerminatorKindModel::Goto { target: 5 });
    assert(lower_if(si, 2, 1, &branch) == Ok::<(BuilderModel, BasicBlock), Error>((s7, 5)));
    assert(lower_expr(si, 2, 1, &branch) == Ok::<(BuilderModel, BasicBlock), Error>((s7, 5)));
    assert(lower_stmts(si, 2, 1, &inner.stmts, 0) == Ok::<(BuilderModel, BasicBlock), Error>(
        (s7, 5),
    ));
    let s8 = s7.pop_scope(5);
    assert(lower_block(sl, 1, &inner) == Ok::<(BuilderModel, BasicBlock), Error>((s8, 5)));
    let s9 = s8.pop_loop_scope().terminate(5, looping.id, TerminatorKindModel::Goto { target: 1 });
    assert(lower_loop(sb, 0, &looping) == Ok::<(BuilderModel, BasicBlock), Error>((s9, 2)));
    assert(lower_expr(sb, 1, 0, &looping) == Ok::<(BuilderModel, BasicBlock), Error>((s9, 2)));
    assert(lower_stmts(sb, 1, 0, &body.stmts, 0) == Ok::<(BuilderModel, BasicBlock), Error>(
        (s9, 2),
    ));
    let s10 = s9.pop_scope(2);
    assert(lower_block(started, 0, body) == Ok::<(BuilderModel, BasicBlock), Error>((s10, 2)));
    assert(s10.blocks.len() == 8);
    let lowered = lower_function(span, kind, decl, body);
    assert(lowered is Ok);
    let s = lowered->Ok_0;
    assert(s.blocks.len() == 9);
    assert(s.local_decls.len() == 1);
    assert(s.blocks[8].decls[0].decls[0] == LiveDecl::Active(0));
    assert(s.blocks[8].decls[0].decls.contains(LiveDecl::Active(0)));
    assert(s.blocks[8].records(0));
    assert(recorded(s.blocks, 0));
}

/// The graph of `loop { if done { break; } else { yield_!(v); } }` holds
/// a cycle that control can reach: from the entry block of the loop
/// through the suspension and the block in which the computation resumes
/// to the tail of the body, and from the tail back to the entry block.
pub proof fn lemma_cycle_of_a_loop(item: &Item, kind: StateMachineKind, done: NodeId, v: NodeId)
    requires
        loops_until_done(item, done, v),
    ensures
        construct_spec(item, kind) matches Ok(m) && {
            &&& m.reachable(1)
            &&& m.successors(1).contains(4)
            &&& m.successors(4) == seq![7usize]
            &&& m.successors(7) == seq![5usize]
            &&& m.successors(5) == seq![1usize]
            &&& m.reachable(5)
        },
{
    lemma_graph_of_a_loop(item, kind, done, v);
    let m = construct_spec(item, kind)->Ok_0;
    assert(m.successors(0) =~= seq![1usize]);
    assert(m.successors(1) =~= seq![3usize, 4usize]);
    assert(m.successors(4) =~= seq![7usize]);
    assert(m.successors(7) =~= seq![5usize]);
    assert(m.successors(5) =~= seq![1usize]);
    assert(m.successors(0)[0] == 1);
    assert(m.successors(1)[1] == 4);
    assert(m.successors(4)[0] == 7);
    assert(m.successors(7)[0] == 5);
    m.lemma_reachable_start();
    m.lemma_reachable_step(0, 1);
    m.lemma_reachable_step(1, 4);
    m.lemma_reachable_step(4, 7);
    m.lemma_reachable_step(7, 5);
}

} // verus!

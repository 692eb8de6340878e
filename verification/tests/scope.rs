use stateful::ast::{Block, Expr, ExprKind, Mutability, NodeId, Stmt, StmtKind};
use stateful::build::model::{DropData, LoopScope};
use stateful::build::stmt::{expr_is_empty, stmt_is_empty};
use stateful::build::{and, unit, Builder, CFG};
use stateful::repr::{
    Alias, BasicBlockData, BlockName, DeclScope, LetInit, LetPat, LiveDecl, Lvalue, SourceInfo,
    Statement, StatementKind, StateMachineKind, TerminatorKind,
};

fn started() -> (Builder, usize, usize) {
    let mut builder = Builder::new(NodeId(1), StateMachineKind::Generator);
    let extent = builder.start_new_extent(NodeId(1));
    builder.push_scope(extent, NodeId(1));
    let block = builder.start_new_block(NodeId(1), Some(BlockName::Start));
    (builder, extent, block)
}

fn kinds(builder: &Builder, block: usize) -> Vec<StatementKind> {
    builder.cfg.block_data(block).statements.iter().map(|s| s.kind).collect()
}

#[test]
fn blocks_are_started_ended_and_filled_by_handle() {
    let mut cfg = CFG { basic_blocks: vec![] };
    let first = cfg.start_new_block(NodeId(1), Some(BlockName::Start), vec![]);
    let second = cfg.start_new_block(
        NodeId(2),
        None,
        vec![DeclScope { extent: 0, decls: vec![LiveDecl::Active(3)] }],
    );
    assert_eq!((first, second), (0, 1));
    assert_eq!(cfg.block_data(1).span, NodeId(2));
    assert_eq!(cfg.block_data(1).decls[0].decls, vec![LiveDecl::Active(3)]);
    let info = SourceInfo { span: NodeId(5), scope: 0 };
    let statement = Statement { source_info: info, kind: StatementKind::Expr(NodeId(5)) };
    cfg.push(0, statement);
    cfg.push(0, Statement { source_info: info, kind: StatementKind::Expr(NodeId(6)) });
    assert_eq!(cfg.block_data(0).statements.len(), 2);
    assert_eq!(cfg.block_data(0).statements[0], statement);
    assert!(cfg.block_data(1).statements.is_empty());
    assert!(cfg.block_data(0).terminator.is_none());
    cfg.terminate(0, info, TerminatorKind::Goto { target: 1 });
    let terminator = cfg.block_data(0).terminator.as_ref().unwrap();
    assert_eq!(terminator.source_info, info);
    assert!(matches!(terminator.kind, TerminatorKind::Goto { target: 1 }));
    cfg.block_data_mut(1).name = Some(BlockName::End);
    assert_eq!(cfg.block_data(1).name, Some(BlockName::End));
    let fresh = BasicBlockData::new(NodeId(9), Some(BlockName::Loop), vec![]);
    assert!(fresh.statements.is_empty() && fresh.terminator.is_none());
}

#[test]
fn a_block_records_the_scopes_as_they_stand_when_it_starts() {
    let (mut builder, extent, start) = started();
    let a = builder.declare_binding(NodeId(2), Mutability::Immutable, "a".to_string(), None);
    let inner = builder.start_new_extent(NodeId(3));
    builder.push_scope(inner, NodeId(3));
    let b = builder.reserve_binding(NodeId(4), Mutability::Mutable, "b".to_string(), None);
    let second = builder.start_new_block(NodeId(5), None);
    // what is declared later does not reach back into a block that was
    // started before
    builder.initialize(b);
    builder.schedule_move(a);
    let third = builder.start_new_block(NodeId(6), None);
    assert_eq!((a, b), (0, 1));
    assert_eq!((extent, inner), (0, 1));
    assert!(builder.cfg.block_data(start).decls[0].decls.is_empty());
    let recorded = &builder.cfg.block_data(second).decls;
    assert_eq!(recorded.len(), 2);
    assert_eq!((recorded[0].extent, recorded[1].extent), (0, 1));
    assert_eq!(recorded[0].decls, vec![LiveDecl::Active(0)]);
    assert_eq!(recorded[1].decls, vec![LiveDecl::Forward(1)]);
    let recorded = &builder.cfg.block_data(third).decls;
    assert_eq!(recorded[0].decls, vec![LiveDecl::Moved(0)]);
    assert_eq!(recorded[1].decls, vec![LiveDecl::Active(1)]);
    assert_eq!(builder.find_live_decls(1).len(), 1);
    // each scope has a visibility scope of its own below the one around it
    assert_eq!(builder.visibility(), 1);
    assert_eq!(builder.visibility_scopes[0].parent_scope, None);
    assert_eq!(builder.visibility_scopes[1].parent_scope, Some(0));
}

#[test]
fn the_innermost_live_declaration_of_a_name_is_found() {
    let (mut builder, _, _) = started();
    let outer = builder.declare_binding(NodeId(2), Mutability::Immutable, "x".to_string(), None);
    let other = builder.declare_binding(NodeId(2), Mutability::Immutable, "y".to_string(), None);
    assert_eq!(builder.find_decl(&"x".to_string()), Some(outer));
    assert_eq!(builder.find_decl(&"z".to_string()), None);
    let inner_extent = builder.start_new_extent(NodeId(3));
    builder.push_scope(inner_extent, NodeId(3));
    let inner = builder.declare_binding(NodeId(4), Mutability::Immutable, "x".to_string(), None);
    assert_eq!(builder.find_decl(&"x".to_string()), Some(inner));
    assert_eq!(builder.local_decls[inner].shadowed_decl, Some(outer));
    assert_eq!(builder.local_decls[other].shadowed_decl, None);
    // a moved local is passed over, a reserved one is found
    builder.schedule_move(inner);
    assert_eq!(builder.find_decl(&"x".to_string()), Some(outer));
    let reserved = builder.reserve_binding(NodeId(5), Mutability::Immutable, "x".to_string(), None);
    assert_eq!(builder.find_decl(&"x".to_string()), Some(reserved));
}

#[test]
fn closing_a_scope_tears_down_what_is_still_active_last_first() {
    let (mut builder, extent, block) = started();
    let a = builder.declare_binding(NodeId(2), Mutability::Immutable, "a".to_string(), None);
    let b = builder.declare_binding(NodeId(3), Mutability::Immutable, "b".to_string(), None);
    let c = builder.declare_binding(NodeId(4), Mutability::Immutable, "c".to_string(), None);
    builder.schedule_drop(NodeId(2), extent, a, None);
    builder.schedule_drop(NodeId(3), extent, b, None);
    builder.schedule_drop(NodeId(4), extent, c, Some(Alias { decl: a }));
    assert_eq!(
        builder.scopes[0].drops[2],
        DropData { span: NodeId(4), local: c, alias: Some(Alias { decl: a }) }
    );
    // b is moved out: it is not torn down again
    builder.schedule_move(b);
    builder.pop_scope(extent, block);
    assert_eq!(
        kinds(&builder, block),
        vec![
            StatementKind::Drop { local: c, alias: Some(Alias { decl: a }) },
            StatementKind::Drop { local: a, alias: None },
        ]
    );
    assert!(builder.scopes.is_empty());
}

#[test]
fn leaving_scopes_tears_them_down_innermost_first_and_keeps_them_open() {
    let (mut builder, extent, block) = started();
    let a = builder.declare_binding(NodeId(2), Mutability::Immutable, "a".to_string(), None);
    builder.schedule_drop(NodeId(2), extent, a, None);
    let middle = builder.start_new_extent(NodeId(3));
    builder.push_scope(middle, NodeId(3));
    let b = builder.declare_binding(NodeId(4), Mutability::Immutable, "b".to_string(), None);
    builder.schedule_drop(NodeId(4), middle, b, None);
    let inner = builder.start_new_extent(NodeId(5));
    builder.push_scope(inner, NodeId(5));
    let c = builder.declare_binding(NodeId(6), Mutability::Immutable, "c".to_string(), None);
    builder.schedule_drop(NodeId(6), inner, c, None);
    builder.exit_scopes(1, block);
    assert_eq!(
        kinds(&builder, block),
        vec![
            StatementKind::Drop { local: c, alias: None },
            StatementKind::Drop { local: b, alias: None },
        ]
    );
    assert_eq!(builder.scopes.len(), 3);
    // each teardown stands in the visibility scope that it closes
    let scopes: Vec<usize> =
        builder.cfg.block_data(block).statements.iter().map(|s| s.source_info.scope).collect();
    assert_eq!(scopes, vec![2, 1]);
}

#[test]
fn the_return_block_is_started_once() {
    let (mut builder, _, _) = started();
    assert!(!builder.is_inside_loop());
    builder.push_loop_scope(LoopScope { depth: 1, continue_block: 0, break_block: 0 });
    assert!(builder.is_inside_loop());
    builder.pop_loop_scope();
    assert!(!builder.is_inside_loop());
    let first = builder.return_block();
    let second = builder.return_block();
    assert_eq!(first, 1);
    assert_eq!(second, 1);
    assert_eq!(builder.cfg.basic_blocks.len(), 2);
    assert_eq!(builder.cfg.block_data(1).name, Some(BlockName::End));
}

#[test]
fn suspension_ends_the_block_and_starts_the_next() {
    let (mut builder, extent, block) = started();
    let next = builder.expr_suspend(Lvalue::Local(3), block, NodeId(7));
    assert_eq!(next.0, 1);
    assert!(matches!(
        builder.cfg.block_data(block).terminator.as_ref().unwrap().kind,
        TerminatorKind::Suspend { rvalue: NodeId(7), target: 1 }
    ));
    assert_eq!(builder.cfg.block_data(1).name, Some(BlockName::AfterSuspend));
    let kept = builder.into_stmt(extent, 1, NodeId(8));
    assert_eq!(kept, 1);
    // the new block starts by giving the destination the unit value
    assert_eq!(
        kinds(&builder, 1),
        vec![
            StatementKind::Let { pat: LetPat::Local(3), ty: None, init: LetInit::Unit },
            StatementKind::Expr(NodeId(8)),
        ]
    );
    builder.push_assign_unit(NodeId(9), 1, Lvalue::Pattern { pat: NodeId(10), ty: Some(NodeId(11)) });
    builder.push_assign_unit(NodeId(9), 1, Lvalue::Ignore);
    assert_eq!(
        kinds(&builder, 1)[2..],
        [
            StatementKind::Let {
                pat: LetPat::Syntax(NodeId(10)),
                ty: Some(NodeId(11)),
                init: LetInit::Unit
            },
            StatementKind::Let { pat: LetPat::Wildcard, ty: None, init: LetInit::Unit },
        ]
    );
    let alias = builder.alias(1, NodeId(9), 4);
    assert_eq!(alias, Alias { decl: 4 });
}

#[test]
fn forms_are_lowered_into_a_block_whatever_they_are() {
    let (mut builder, extent, block) = started();
    let expr = Expr { id: NodeId(5), node: ExprKind::Break };
    // outside a loop a `break` is kept whole
    assert_eq!(Builder::into(&mut builder, extent, block, &Some(expr)).unwrap(), block);
    assert_eq!(Builder::into(&mut builder, extent, block, &None::<Expr>).unwrap(), block);
    let stmt = Stmt { id: NodeId(6), node: StmtKind::Item };
    assert_eq!(Builder::into(&mut builder, extent, block, &stmt).unwrap(), block);
    let empty = Block { id: NodeId(7), stmts: vec![], expr: None };
    assert_eq!(Builder::into(&mut builder, extent, block, &empty).unwrap(), block);
    assert_eq!(
        kinds(&builder, block),
        vec![StatementKind::Expr(NodeId(5)), StatementKind::Expr(NodeId(6))]
    );
    assert!(!builder.contains_transition(&empty));
}

#[test]
fn only_blocks_that_do_nothing_are_empty() {
    let nothing = Block { id: NodeId(1), stmts: vec![], expr: None };
    let empty = Expr { id: NodeId(2), node: ExprKind::Block(nothing) };
    assert!(expr_is_empty(&empty));
    let nested = Expr {
        id: NodeId(3),
        node: ExprKind::Block(Block {
            id: NodeId(4),
            stmts: vec![Stmt { id: NodeId(5), node: StmtKind::Semi(empty) }],
            expr: None,
        }),
    };
    assert!(expr_is_empty(&nested));
    assert!(stmt_is_empty(&Stmt { id: NodeId(6), node: StmtKind::Expr(nested) }));
    let work = Expr { id: NodeId(7), node: ExprKind::Other(vec![]) };
    assert!(!expr_is_empty(&work));
    let busy = Expr {
        id: NodeId(8),
        node: ExprKind::Block(Block {
            id: NodeId(9),
            stmts: vec![Stmt { id: NodeId(10), node: StmtKind::Semi(work) }],
            expr: None,
        }),
    };
    assert!(!expr_is_empty(&busy));
    assert!(!stmt_is_empty(&Stmt { id: NodeId(11), node: StmtKind::Item }));
}

#[test]
fn a_block_is_paired_with_a_value() {
    let pair = and(3, "value");
    assert_eq!((pair.0, pair.1), (3, "value"));
    assert_eq!(unit(4).0, 4);
}

use stateful::ast::{
    Binding, Block, Expr, ExprKind, FnDecl, Item, ItemKind, Local, Mac, Mutability, NodeId, Pat,
    Path, Stmt, StmtKind,
};
use stateful::build::construct;
use stateful::repr::{
    Alias, BasicBlockData, BlockName, LetInit, LetPat, Mar, MatchArm, SourceInfo, Statement,
    StatementKind, StateMachineKind, Terminator, TerminatorKind, VisibilityScopeData,
};
use stateful::translate::block::{Action, HandlerStmt, OutStmt, Output, ScopeStatement};
use stateful::translate::drive::Drive;
use stateful::translate::names::{scope_ident, shadowed_ident_of, state_id_of, ty_param_ident};
use stateful::translate::state::{Field, PatField};
use stateful::translate::{translate, Builder};

fn path(name: &str) -> Path {
    Path { global: false, segments: vec![name.to_string()] }
}

fn other(id: u32) -> Expr {
    Expr { id: NodeId(id), node: ExprKind::Other(vec![]) }
}

fn yield_(id: u32, operand: Expr) -> Expr {
    Expr {
        id: NodeId(id),
        node: ExprKind::Mac(Mac {
            id: NodeId(id),
            path: path("yield_"),
            operand: Some(Box::new(operand)),
        }),
    }
}

fn semi(id: u32, e: Expr) -> Stmt {
    Stmt { id: NodeId(id), node: StmtKind::Semi(e) }
}

fn let_mut(id: u32, name: &str, mutability: Mutability, init: Expr) -> Stmt {
    Stmt {
        id: NodeId(id),
        node: StmtKind::Local(Local {
            pat: Pat {
                id: NodeId(id + 1),
                bindings: vec![Binding { ident: name.to_string(), mutability }],
            },
            ty: None,
            init: Some(init),
        }),
    }
}

fn let_(id: u32, name: &str, init: Expr) -> Stmt {
    let_mut(id, name, Mutability::Immutable, init)
}

fn block(id: u32, stmts: Vec<Stmt>) -> Block {
    Block { id: NodeId(id), stmts, expr: None }
}

fn function(body: Block) -> Item {
    Item { id: NodeId(1), node: ItemKind::Fn(FnDecl { inputs: vec![] }, body) }
}

fn ret(id: u32, value: Expr) -> Expr {
    Expr { id: NodeId(id), node: ExprKind::Ret(Some(Box::new(value))) }
}

fn yield_yield_return(kind: StateMachineKind) -> Mar {
    let item = function(block(
        2,
        vec![
            semi(3, yield_(4, other(10))),
            semi(5, yield_(6, other(11))),
            semi(7, ret(8, other(12))),
        ],
    ));
    construct(&item, kind).unwrap()
}

fn shadowing() -> Mar {
    // let x = 1; yield x; let mut x = x + 1; yield x;
    let item = function(block(
        2,
        vec![
            let_(3, "x", other(10)),
            semi(5, yield_(6, other(11))),
            let_mut(7, "x", Mutability::Mutable, other(12)),
            semi(9, yield_(13, other(14))),
        ],
    ));
    construct(&item, StateMachineKind::Generator).unwrap()
}

#[test]
fn names_are_made_of_positions() {
    assert_eq!(state_id_of(0, Some(BlockName::Start)), "State0Start");
    assert_eq!(state_id_of(12, Some(BlockName::AfterSuspend)), "State12AfterSuspend");
    assert_eq!(state_id_of(305, None), "State305");
    assert_eq!(shadowed_ident_of(&"x".to_string(), 7), "x_shadowed_7");
    assert_eq!(shadowed_ident_of(&"count".to_string(), 1048576), "count_shadowed_1048576");
    assert_eq!(ty_param_ident(0), "T0");
    assert_eq!(ty_param_ident(90), "T90");
    assert_eq!(scope_ident(3), "scope3");
    assert_eq!(BlockName::LoopExit.as_str(), "LoopExit");
    assert_eq!(BlockName::EndIf.as_str(), "EndIf");
}

#[test]
fn yield_yield_return_gives_four_states() {
    let mar = yield_yield_return(StateMachineKind::Generator);
    let machine = translate(&mar).unwrap();
    // the entry, the two blocks after the suspensions and the return
    // block; the block for what follows the `return` in the source is
    // never reached and gets no state
    let states: Vec<usize> = machine.state_enum.variants.iter().map(|v| v.block).collect();
    assert_eq!(states, vec![0, 1, 2, 3]);
    assert_eq!(machine.arms.len(), 4);
    assert_eq!(machine.start_state.block, 0);
    let builder = Builder { mar: &mar };
    assert_eq!(builder.state_id(0), "State0Start");
    assert_eq!(builder.state_id(3), "State3End");
    assert_eq!(builder.state_path(1), vec!["State".to_string(), "State1AfterSuspend".to_string()]);
    assert_eq!(builder.reachable(), vec![true, true, true, true, false]);
}

#[test]
fn driving_three_times_yields_a_b_and_the_end() {
    let mar = yield_yield_return(StateMachineKind::Generator);
    let builder = Builder { mar: &mar };
    let first = builder.drive(0);
    assert_eq!(first, Drive::Suspended { output: Output::Element(NodeId(10)), next: 1 });
    let second = builder.drive(1);
    assert_eq!(second, Drive::Suspended { output: Output::Element(NodeId(11)), next: 2 });
    // the third drive stores c in the return slot and finishes
    assert_eq!(
        mar.basic_blocks[2].statements[1].kind,
        StatementKind::Let { pat: LetPat::Local(0), ty: None, init: LetInit::Expr(NodeId(12)) }
    );
    let third = builder.drive(2);
    assert_eq!(third, Drive::Finished { output: Output::End });
}

#[test]
fn an_eventual_value_is_not_ready_until_the_return() {
    let mar = yield_yield_return(StateMachineKind::Async);
    let builder = Builder { mar: &mar };
    assert_eq!(
        builder.drive(0),
        Drive::Suspended { output: Output::NotReady(NodeId(10)), next: 1 }
    );
    assert_eq!(builder.drive(2), Drive::Finished { output: Output::Ready(0) });
}

#[test]
fn machine_without_suspension_has_two_states_and_no_adapter() {
    let item = function(block(2, vec![semi(3, other(4))]));
    let mar = construct(&item, StateMachineKind::Generator).unwrap();
    let machine = translate(&mar).unwrap();
    assert_eq!(machine.state_enum.variants.len(), 2);
    assert!(machine.coroutine.is_none());
    assert!(machine.state_enum.ty_params.len() == 1);
    let builder = Builder { mar: &mar };
    assert_eq!(builder.drive(0), Drive::Finished { output: Output::End });
    assert!(builder.resume_blocks().is_empty());
}

#[test]
fn states_capture_active_locals_and_what_they_shadow() {
    let mar = shadowing();
    let builder = Builder { mar: &mar };
    // at the entry only the function's own scope is open, and nothing is
    // captured: the return slot is only reserved
    assert_eq!(builder.get_incoming_decl_scopes(0), vec![Vec::<Field>::new()]);
    // after the first suspension, the first x
    assert_eq!(
        builder.get_incoming_decl_scopes(1),
        vec![vec![], vec![Field { local: 1, shadowed: false }]]
    );
    // after the second, the first x, the second x, and the first again
    // under the name under which its value survives
    assert_eq!(
        builder.get_incoming_decl_scopes(2),
        vec![
            vec![],
            vec![
                Field { local: 1, shadowed: false },
                Field { local: 2, shadowed: false },
                Field { local: 1, shadowed: true },
            ]
        ]
    );
    assert_eq!(builder.field_ident(Field { local: 2, shadowed: false }), "x");
    assert_eq!(builder.field_ident(Field { local: 1, shadowed: true }), "x_shadowed_1");
    assert_eq!(builder.shadowed_ident(1), "x_shadowed_1");
    let (variant, params) = builder.state_variant(2);
    assert_eq!(variant.block, 2);
    assert_eq!(params, vec![1, 2, 1]);
    let pat = builder.state_pat(2);
    assert_eq!(
        pat.scopes[1],
        vec![
            PatField {
                field: Field { local: 1, shadowed: false },
                mutability: Mutability::Immutable
            },
            PatField { field: Field { local: 2, shadowed: false }, mutability: Mutability::Mutable },
            PatField {
                field: Field { local: 1, shadowed: true },
                mutability: Mutability::Immutable
            },
        ]
    );
    let expr = builder.state_expr(1);
    assert_eq!(expr.block, 1);
    assert_eq!(expr.scopes, vec![vec![], vec![Field { local: 1, shadowed: false }]]);
}

#[test]
fn each_captured_local_gets_one_type_parameter() {
    let mar = shadowing();
    let builder = Builder { mar: &mar };
    let (state_enum, arms) = builder.state_enum_default_and_arms();
    // the first x, the second x, and the return slot, in the order of
    // first use; none twice
    assert_eq!(state_enum.ty_params, vec![1, 2, 0]);
    assert_eq!(state_enum.variants.len(), 4);
    assert_eq!(arms.len(), 4);
    let adapter = builder.coroutine_state().unwrap();
    let resumed: Vec<usize> = adapter.variants.iter().map(|v| v.block).collect();
    assert_eq!(resumed, vec![1, 2]);
    assert_eq!(adapter.ty_params, vec![1, 2]);
    assert_eq!(adapter.arms.len(), 2);
    assert_eq!(adapter.arms[0].block, 1);
    assert_eq!(adapter.arms[0].scopes, vec![0, 1]);
    assert_eq!(builder.coroutine_state_expr(1).block, 1);
    assert_eq!(builder.coroutine_arm(2).scopes, vec![0, 1]);
}

#[test]
fn statements_are_rendered_one_by_one() {
    let mar = shadowing();
    let builder = Builder { mar: &mar };
    let info = SourceInfo { span: NodeId(1), scope: 0 };
    let kept = Statement { source_info: info, kind: StatementKind::Expr(NodeId(5)) };
    assert_eq!(builder.stmt(0, &kept), vec![OutStmt::Syntax(NodeId(5))]);
    let bound = Statement {
        source_info: info,
        kind: StatementKind::Let { pat: LetPat::Shadow(1), ty: None, init: LetInit::Local(1) },
    };
    assert_eq!(
        builder.stmt(0, &bound),
        vec![OutStmt::Let { pat: LetPat::Shadow(1), ty: None, init: LetInit::Local(1) }]
    );
    let dropped =
        Statement { source_info: info, kind: StatementKind::Drop { local: 2, alias: None } };
    assert_eq!(builder.stmt(0, &dropped), vec![OutStmt::Drop { local: 2 }]);
    let rebound = Statement {
        source_info: info,
        kind: StatementKind::Drop { local: 2, alias: Some(Alias { decl: 1 }) },
    };
    assert_eq!(
        builder.stmt(0, &rebound),
        vec![OutStmt::Drop { local: 2 }, OutStmt::Rebind { local: 1 }]
    );
}

#[test]
fn handler_nests_statements_by_their_scope() {
    let mar = shadowing();
    let builder = Builder { mar: &mar };
    // the scopes: 0 for the function, 1 below it for the body
    assert_eq!(mar.visibility_scopes.len(), 2);
    assert_eq!(mar.visibility_scopes[1].parent_scope, Some(0));
    assert_eq!(builder.scope_path(1), vec![0, 1]);
    let entries = builder.build_scope_block(1).stmts;
    // the statements of the body stand in a nested block, which ends
    // behind the terminator
    assert_eq!(entries[0], ScopeStatement::Open(1));
    assert!(matches!(entries[1], ScopeStatement::Statement(_)));
    assert!(matches!(entries[2], ScopeStatement::Statement(_)));
    assert!(matches!(entries[3], ScopeStatement::Statement(_)));
    assert_eq!(entries[4], ScopeStatement::Terminator);
    assert_eq!(entries[5], ScopeStatement::Close);
    assert_eq!(entries.len(), 6);
    let handler = builder.block(1);
    assert!(matches!(handler[0], HandlerStmt::Open));
    assert!(matches!(handler[1], HandlerStmt::Stmt(OutStmt::Let { pat: LetPat::Wildcard, .. })));
    assert!(matches!(handler[2], HandlerStmt::Stmt(OutStmt::Let { pat: LetPat::Shadow(1), .. })));
    assert!(matches!(handler[3], HandlerStmt::Stmt(OutStmt::Let { .. })));
    match &handler[4] {
        HandlerStmt::Step(Action::Suspend { output, next }) => {
            assert_eq!(*output, Output::Element(NodeId(14)));
            assert_eq!(next.block, 2);
        }
        other => panic!("unexpected {:?}", other),
    }
    assert!(matches!(handler[5], HandlerStmt::Close));
}

fn hand_made(statements: Vec<Statement>, scopes: Vec<VisibilityScopeData>) -> Mar {
    Mar {
        state_machine_kind: StateMachineKind::Generator,
        span: NodeId(1),
        basic_blocks: vec![BasicBlockData {
            span: NodeId(1),
            name: None,
            decls: vec![],
            statements,
            terminator: Some(Terminator {
                source_info: SourceInfo { span: NodeId(1), scope: 0 },
                kind: TerminatorKind::Return,
            }),
        }],
        local_decls: vec![],
        visibility_scopes: scopes,
        extents: vec![],
    }
}

fn at(scope: usize, id: u32) -> Statement {
    Statement {
        source_info: SourceInfo { span: NodeId(id), scope },
        kind: StatementKind::Expr(NodeId(id)),
    }
}

#[test]
fn regrouping_closes_down_to_the_last_common_scope() {
    // 0 is the root; 1 and 3 lie below 0, 2 below 1, 4 below 3
    let scopes = vec![
        VisibilityScopeData { span: NodeId(1), parent_scope: None },
        VisibilityScopeData { span: NodeId(1), parent_scope: Some(0) },
        VisibilityScopeData { span: NodeId(1), parent_scope: Some(1) },
        VisibilityScopeData { span: NodeId(1), parent_scope: Some(0) },
        VisibilityScopeData { span: NodeId(1), parent_scope: Some(3) },
    ];
    let mar = hand_made(vec![at(2, 10), at(2, 11), at(1, 12), at(4, 13)], scopes);
    assert!(mar.is_well_formed());
    let builder = Builder { mar: &mar };
    assert_eq!(builder.scope_path(4), vec![0, 3, 4]);
    assert_eq!(
        builder.build_scope_block(0).stmts,
        vec![
            ScopeStatement::Open(1),
            ScopeStatement::Open(2),
            ScopeStatement::Statement(at(2, 10)),
            ScopeStatement::Statement(at(2, 11)),
            ScopeStatement::Close,
            ScopeStatement::Statement(at(1, 12)),
            ScopeStatement::Close,
            ScopeStatement::Open(3),
            ScopeStatement::Open(4),
            ScopeStatement::Statement(at(4, 13)),
            ScopeStatement::Terminator,
            ScopeStatement::Close,
            ScopeStatement::Close,
        ]
    );
    let machine = translate(&mar).unwrap();
    assert_eq!(machine.arms.len(), 1);
    assert!(matches!(
        machine.arms[0].body.last(),
        Some(HandlerStmt::Close)
    ));
}

#[test]
fn malformed_graph_has_no_machine() {
    // a statement in a scope that does not exist
    let mar = hand_made(
        vec![at(3, 10)],
        vec![VisibilityScopeData { span: NodeId(1), parent_scope: None }],
    );
    assert!(!mar.is_well_formed());
    assert!(translate(&mar).is_none());
    // a terminator that leads out of the graph
    let mut mar =
        hand_made(vec![], vec![VisibilityScopeData { span: NodeId(1), parent_scope: None }]);
    mar.basic_blocks[0].terminator = Some(Terminator {
        source_info: SourceInfo { span: NodeId(1), scope: 0 },
        kind: TerminatorKind::Goto { target: 1 },
    });
    assert!(!mar.is_well_formed());
    // a block without a terminator
    mar.basic_blocks[0].terminator = None;
    assert!(!mar.is_well_formed());
    // no block at all
    mar.basic_blocks.clear();
    assert!(mar.is_well_formed());
    assert!(translate(&mar).is_none());
}

#[test]
fn a_match_keeps_its_shape_with_a_change_of_state_in_each_arm() {
    let mut mar =
        hand_made(vec![], vec![VisibilityScopeData { span: NodeId(1), parent_scope: None }]);
    let info = SourceInfo { span: NodeId(1), scope: 0 };
    let ret = |span| BasicBlockData {
        span,
        name: None,
        decls: vec![],
        statements: vec![],
        terminator: Some(Terminator { source_info: info, kind: TerminatorKind::Return }),
    };
    mar.basic_blocks.push(ret(NodeId(2)));
    mar.basic_blocks.push(ret(NodeId(3)));
    mar.basic_blocks[0].terminator = Some(Terminator {
        source_info: info,
        kind: TerminatorKind::Match {
            discr: NodeId(9),
            arms: vec![
                MatchArm { id: NodeId(10), block: 2 },
                MatchArm { id: NodeId(11), block: 1 },
                MatchArm { id: NodeId(12), block: 2 },
            ],
        },
    });
    assert!(mar.is_well_formed());
    let builder = Builder { mar: &mar };
    assert_eq!(builder.successors(0), vec![2, 1, 2]);
    assert_eq!(builder.drive(0), Drive::Branch { at: 0 });
    assert_eq!(builder.reachable_blocks(), vec![0, 1, 2]);
    match builder.terminator(mar.basic_blocks[0].terminator.as_ref().unwrap()) {
        Action::Match { discr, arms } => {
            assert_eq!(discr, NodeId(9));
            let steps: Vec<(NodeId, usize)> = arms.iter().map(|s| (s.arm, s.next.block)).collect();
            assert_eq!(steps, vec![(NodeId(10), 2), (NodeId(11), 1), (NodeId(12), 2)]);
        }
        other => panic!("unexpected {:?}", other),
    }
    match builder.goto(1) {
        Action::Goto { next } => assert_eq!(next.block, 1),
        other => panic!("unexpected {:?}", other),
    }
    // a branch keeps its shape too
    mar.basic_blocks[0].terminator = Some(Terminator {
        source_info: info,
        kind: TerminatorKind::If { cond: NodeId(9), targets: (1, 2) },
    });
    let builder = Builder { mar: &mar };
    match builder.terminator(mar.basic_blocks[0].terminator.as_ref().unwrap()) {
        Action::If { cond, then, otherwise } => {
            assert_eq!((cond, then.block, otherwise.block), (NodeId(9), 1, 2));
        }
        other => panic!("unexpected {:?}", other),
    }
    assert_eq!(builder.drive(0), Drive::Branch { at: 0 });
}

#[test]
fn goto_cycle_is_held_to_spin() {
    let mut mar =
        hand_made(vec![], vec![VisibilityScopeData { span: NodeId(1), parent_scope: None }]);
    mar.basic_blocks[0].terminator = Some(Terminator {
        source_info: SourceInfo { span: NodeId(1), scope: 0 },
        kind: TerminatorKind::Goto { target: 0 },
    });
    let builder = Builder { mar: &mar };
    assert_eq!(builder.drive(0), Drive::Spins { at: 0 });
    assert_eq!(builder.successors(0), vec![0]);
}

use stateful::ast::{
    Arm, Binding, Block, Expr, ExprKind, FnDecl, Item, ItemKind, Local, Mac, Mutability, NodeId,
    Pat, Path, Stmt, StmtKind,
};
use stateful::build::{construct, Builder, Error, ErrorKind, ScopeId};
use stateful::repr::{
    Alias, BlockName, LetInit, LetPat, LiveDecl, StateMachineKind, StatementKind, TerminatorKind,
};

fn path(name: &str) -> Path {
    Path { global: false, segments: vec![name.to_string()] }
}

fn other(id: u32) -> Expr {
    Expr { id: NodeId(id), node: ExprKind::Other(vec![]) }
}

fn mac(id: u32, name: &str, operand: Option<Expr>) -> Expr {
    Expr {
        id: NodeId(id),
        node: ExprKind::Mac(Mac { id: NodeId(id), path: path(name), operand: operand.map(Box::new) }),
    }
}

fn yield_(id: u32, operand: Expr) -> Expr {
    mac(id, "yield_", Some(operand))
}

fn semi(id: u32, e: Expr) -> Stmt {
    Stmt { id: NodeId(id), node: StmtKind::Semi(e) }
}

fn pat(id: u32, name: &str) -> Pat {
    Pat {
        id: NodeId(id),
        bindings: vec![Binding { ident: name.to_string(), mutability: Mutability::Immutable }],
    }
}

fn let_(id: u32, name: &str, init: Expr) -> Stmt {
    Stmt {
        id: NodeId(id),
        node: StmtKind::Local(Local { pat: pat(id + 1, name), ty: None, init: Some(init) }),
    }
}

fn block(id: u32, stmts: Vec<Stmt>) -> Block {
    Block { id: NodeId(id), stmts, expr: None }
}

fn function(inputs: Vec<Pat>, body: Block) -> Item {
    Item { id: NodeId(1), node: ItemKind::Fn(FnDecl { inputs }, body) }
}

fn ret(id: u32, value: Expr) -> Expr {
    Expr { id: NodeId(id), node: ExprKind::Ret(Some(Box::new(value))) }
}

fn if_(id: u32, cond: Expr, then: Block, otherwise: Option<Expr>) -> Expr {
    Expr { id: NodeId(id), node: ExprKind::If(Box::new(cond), then, otherwise.map(Box::new)) }
}

fn loop_(id: u32, body: Block) -> Expr {
    Expr { id: NodeId(id), node: ExprKind::Loop(body) }
}

fn block_expr(id: u32, b: Block) -> Expr {
    Expr { id: NodeId(id), node: ExprKind::Block(b) }
}

fn kind_of(mar: &stateful::repr::Mar, b: usize) -> &TerminatorKind {
    &mar.basic_blocks[b].terminator.as_ref().unwrap().kind
}

fn names(mar: &stateful::repr::Mar) -> Vec<Option<BlockName>> {
    mar.basic_blocks.iter().map(|b| b.name).collect()
}

fn error_of(item: &Item) -> Error {
    construct(item, StateMachineKind::Generator).unwrap_err()
}

#[test]
fn no_suspension_gives_two_states() {
    let item = function(vec![], block(2, vec![semi(3, other(4)), semi(5, other(6))]));
    let mar = construct(&item, StateMachineKind::Generator).unwrap();
    assert_eq!(names(&mar), vec![Some(BlockName::Start), Some(BlockName::End)]);
    assert!(matches!(kind_of(&mar, 0), TerminatorKind::Goto { target: 1 }));
    assert!(matches!(kind_of(&mar, 1), TerminatorKind::Return));
    assert_eq!(mar.basic_blocks[0].statements.len(), 2);
    assert_eq!(mar.basic_blocks[0].statements[0].kind, StatementKind::Expr(NodeId(4)));
    assert_eq!(mar.basic_blocks[0].statements[1].kind, StatementKind::Expr(NodeId(6)));
    assert!(mar.is_well_formed());
}

#[test]
fn parameters_are_recorded_at_the_entry() {
    let item = function(vec![pat(20, "a"), pat(21, "b")], block(2, vec![]));
    let mar = construct(&item, StateMachineKind::Generator).unwrap();
    assert_eq!(mar.local_decls.len(), 3);
    assert_eq!(mar.local_decls[0].ident, "return_");
    assert_eq!(mar.local_decls[1].ident, "a");
    assert_eq!(mar.local_decls[2].ident, "b");
    // the entry block records the return slot as reserved and the
    // parameters as active
    assert_eq!(mar.basic_blocks[0].decls.len(), 1);
    assert_eq!(
        mar.basic_blocks[0].decls[0].decls,
        vec![LiveDecl::Forward(0), LiveDecl::Active(1), LiveDecl::Active(2)]
    );
    // the return block records the return slot as holding its value, and
    // tears the parameters down, the last declared first
    assert_eq!(
        mar.basic_blocks[1].decls[0].decls,
        vec![LiveDecl::Active(0), LiveDecl::Active(1), LiveDecl::Active(2)]
    );
    let drops: Vec<StatementKind> = mar.basic_blocks[1].statements.iter().map(|s| s.kind).collect();
    assert_eq!(
        drops,
        vec![
            StatementKind::Drop { local: 2, alias: None },
            StatementKind::Drop { local: 1, alias: None },
        ]
    );
}

#[test]
fn yield_yield_return_graph() {
    // yield a; yield b; return c;
    let item = function(
        vec![],
        block(
            2,
            vec![
                semi(3, yield_(4, other(10))),
                semi(5, yield_(6, other(11))),
                semi(7, ret(8, other(12))),
            ],
        ),
    );
    let mar = construct(&item, StateMachineKind::Generator).unwrap();
    assert_eq!(
        names(&mar),
        vec![
            Some(BlockName::Start),
            Some(BlockName::AfterSuspend),
            Some(BlockName::AfterSuspend),
            Some(BlockName::End),
            Some(BlockName::AfterReturn),
        ]
    );
    match kind_of(&mar, 0) {
        TerminatorKind::Suspend { rvalue, target } => {
            assert_eq!(*rvalue, NodeId(10));
            assert_eq!(*target, 1);
        }
        other => panic!("unexpected terminator {:?}", other),
    }
    match kind_of(&mar, 1) {
        TerminatorKind::Suspend { rvalue, target } => {
            assert_eq!(*rvalue, NodeId(11));
            assert_eq!(*target, 2);
        }
        other => panic!("unexpected terminator {:?}", other),
    }
    assert!(matches!(kind_of(&mar, 2), TerminatorKind::Goto { target: 3 }));
    // no value comes back in from the driver: each block in which the
    // computation resumes starts with the unit value
    let unit = StatementKind::Let { pat: LetPat::Wildcard, ty: None, init: LetInit::Unit };
    assert_eq!(mar.basic_blocks[1].statements[0].kind, unit);
    assert_eq!(mar.basic_blocks[2].statements[0].kind, unit);
    assert_eq!(
        mar.basic_blocks[2].statements[1].kind,
        StatementKind::Let { pat: LetPat::Local(0), ty: None, init: LetInit::Expr(NodeId(12)) }
    );
    assert!(matches!(kind_of(&mar, 3), TerminatorKind::Return));
    // what follows the `return` in the source goes on to the return block
    assert!(matches!(kind_of(&mar, 4), TerminatorKind::Goto { target: 3 }));
    // the return block records the return slot as holding its value
    assert_eq!(mar.basic_blocks[3].decls.len(), 1);
    assert_eq!(mar.basic_blocks[3].decls[0].decls, vec![LiveDecl::Active(0)]);
}

#[test]
fn shadowing_renames_and_drops_the_outer_local() {
    // let x = 1; yield x; let x = x + 1; yield x;
    let item = function(
        vec![],
        block(
            2,
            vec![
                let_(3, "x", other(10)),
                semi(5, yield_(6, other(11))),
                let_(7, "x", other(12)),
                semi(9, yield_(13, other(14))),
            ],
        ),
    );
    let mar = construct(&item, StateMachineKind::Generator).unwrap();
    // return_, the first x, the second x
    assert_eq!(mar.local_decls.len(), 3);
    assert_eq!(mar.local_decls[1].ident, "x");
    assert_eq!(mar.local_decls[1].shadowed_decl, None);
    assert_eq!(mar.local_decls[2].ident, "x");
    assert_eq!(mar.local_decls[2].shadowed_decl, Some(1));
    // the first suspension yields the first operand, the second the second
    assert!(matches!(kind_of(&mar, 0), TerminatorKind::Suspend { rvalue: NodeId(11), target: 1 }));
    assert!(matches!(kind_of(&mar, 1), TerminatorKind::Suspend { rvalue: NodeId(14), target: 2 }));
    // the state after the first suspension holds the first x only, the
    // one after the second holds both
    assert_eq!(mar.basic_blocks[1].decls[1].decls, vec![LiveDecl::Active(1)]);
    assert_eq!(
        mar.basic_blocks[2].decls[1].decls,
        vec![LiveDecl::Active(1), LiveDecl::Active(2)]
    );
    // the second `let` first renames the value of the first x
    let kinds: Vec<StatementKind> = mar.basic_blocks[1].statements.iter().map(|s| s.kind).collect();
    assert_eq!(
        kinds,
        vec![
            StatementKind::Let { pat: LetPat::Wildcard, ty: None, init: LetInit::Unit },
            StatementKind::Let { pat: LetPat::Shadow(1), ty: None, init: LetInit::Local(1) },
            StatementKind::Let {
                pat: LetPat::Syntax(NodeId(8)),
                ty: None,
                init: LetInit::Expr(NodeId(12))
            },
        ]
    );
    // where the scope closes, the second x is torn down and the first
    // bound to its name again, then the first is torn down
    let kinds: Vec<StatementKind> = mar.basic_blocks[2].statements.iter().map(|s| s.kind).collect();
    assert_eq!(
        kinds,
        vec![
            StatementKind::Let { pat: LetPat::Wildcard, ty: None, init: LetInit::Unit },
            StatementKind::Drop { local: 2, alias: Some(Alias { decl: 1 }) },
            StatementKind::Drop { local: 1, alias: None },
        ]
    );
}

#[test]
fn loop_goes_back_to_its_entry_and_break_leaves_to_its_exit() {
    // loop { if done { break } else { yield v } }
    let body = block(
        20,
        vec![semi(
            21,
            if_(
                22,
                other(23),
                block(24, vec![semi(25, Expr { id: NodeId(26), node: ExprKind::Break })]),
                Some(block_expr(27, block(28, vec![semi(29, yield_(30, other(31)))]))),
            ),
        )],
    );
    let item = function(vec![], block(2, vec![semi(3, loop_(4, body))]));
    let mar = construct(&item, StateMachineKind::Generator).unwrap();
    assert_eq!(
        names(&mar),
        vec![
            Some(BlockName::Start),
            Some(BlockName::Loop),
            Some(BlockName::LoopExit),
            Some(BlockName::Then),
            Some(BlockName::Else),
            Some(BlockName::EndIf),
            Some(BlockName::AfterBreak),
            Some(BlockName::AfterSuspend),
            Some(BlockName::End),
        ]
    );
    // the block before the loop goes to the entry of the body
    assert!(matches!(kind_of(&mar, 0), TerminatorKind::Goto { target: 1 }));
    // the body branches
    match kind_of(&mar, 1) {
        TerminatorKind::If { cond, targets } => {
            assert_eq!(*cond, NodeId(23));
            assert_eq!(*targets, (3, 4));
        }
        other => panic!("unexpected terminator {:?}", other),
    }
    // `break` goes to the exit of the loop, never to its entry
    assert!(matches!(kind_of(&mar, 3), TerminatorKind::Goto { target: 2 }));
    // the other arm suspends
    assert!(matches!(kind_of(&mar, 4), TerminatorKind::Suspend { rvalue: NodeId(31), target: 7 }));
    // both arms go on to the block after the conditional
    assert!(matches!(kind_of(&mar, 6), TerminatorKind::Goto { target: 5 }));
    assert!(matches!(kind_of(&mar, 7), TerminatorKind::Goto { target: 5 }));
    // the tail of the body goes back to the entry of the body
    assert!(matches!(kind_of(&mar, 5), TerminatorKind::Goto { target: 1 }));
    // control continues behind the loop
    assert!(matches!(kind_of(&mar, 2), TerminatorKind::Goto { target: 8 }));
    assert!(matches!(kind_of(&mar, 8), TerminatorKind::Return));
}

#[test]
fn match_has_one_way_out_for_each_arm() {
    // match v { a => yield a, b => {} }; w;
    let arms = vec![
        Arm { id: NodeId(30), pat: pat(31, "a"), body: yield_(32, other(33)) },
        Arm { id: NodeId(40), pat: pat(41, "b"), body: block_expr(42, block(43, vec![])) },
    ];
    let matched = Expr { id: NodeId(20), node: ExprKind::Match(Box::new(other(21)), arms) };
    let item = function(vec![], block(2, vec![semi(3, matched), semi(4, other(5))]));
    let mar = construct(&item, StateMachineKind::Generator).unwrap();
    assert_eq!(
        names(&mar),
        vec![
            Some(BlockName::Start),
            Some(BlockName::EndMatch),
            Some(BlockName::Arm),
            Some(BlockName::AfterSuspend),
            Some(BlockName::Arm),
            Some(BlockName::End),
        ]
    );
    match kind_of(&mar, 0) {
        TerminatorKind::Match { discr, arms } => {
            assert_eq!(*discr, NodeId(21));
            let ways: Vec<(NodeId, usize)> = arms.iter().map(|a| (a.id, a.block)).collect();
            assert_eq!(ways, vec![(NodeId(30), 2), (NodeId(40), 4)]);
        }
        other => panic!("unexpected terminator {:?}", other),
    }
    // the block of an arm records the names of its pattern
    assert_eq!(mar.basic_blocks[2].decls.len(), 3);
    assert_eq!(mar.basic_blocks[2].decls[2].decls, vec![LiveDecl::Active(1)]);
    assert_eq!(mar.basic_blocks[4].decls[2].decls, vec![LiveDecl::Active(2)]);
    assert_eq!(mar.local_decls[1].ident, "a");
    assert_eq!(mar.local_decls[2].ident, "b");
    // the first arm suspends, and goes on to the end of the match after
    // tearing down what its pattern bound
    assert!(matches!(kind_of(&mar, 2), TerminatorKind::Suspend { rvalue: NodeId(33), target: 3 }));
    assert_eq!(mar.basic_blocks[3].statements[1].kind, StatementKind::Drop { local: 1, alias: None });
    assert!(matches!(kind_of(&mar, 3), TerminatorKind::Goto { target: 1 }));
    // the second arm does nothing but that
    assert_eq!(
        mar.basic_blocks[4].statements.last().unwrap().kind,
        StatementKind::Drop { local: 2, alias: None }
    );
    assert!(matches!(kind_of(&mar, 4), TerminatorKind::Goto { target: 1 }));
    // what follows the match stands in the block in which control continues
    assert_eq!(mar.basic_blocks[1].statements[0].kind, StatementKind::Expr(NodeId(5)));
    assert!(matches!(kind_of(&mar, 1), TerminatorKind::Goto { target: 5 }));
    assert!(mar.is_well_formed());
    // a suspension in the value that is matched on is rejected
    let matched = Expr {
        id: NodeId(20),
        node: ExprKind::Match(Box::new(yield_(21, other(22))), vec![]),
    };
    let item = function(vec![], block(2, vec![semi(3, matched)]));
    assert_eq!(error_of(&item), Error { kind: ErrorKind::TransitionInCondition, span: NodeId(21) });
}

#[test]
fn continue_goes_to_the_entry_of_the_loop() {
    // loop { yield v; continue; }
    let body = block(
        20,
        vec![
            semi(21, yield_(22, other(23))),
            semi(24, Expr { id: NodeId(25), node: ExprKind::Continue }),
        ],
    );
    let item = function(vec![], block(2, vec![semi(3, loop_(4, body))]));
    let mar = construct(&item, StateMachineKind::Generator).unwrap();
    assert_eq!(mar.basic_blocks[3].name, Some(BlockName::AfterSuspend));
    assert!(matches!(kind_of(&mar, 3), TerminatorKind::Goto { target: 1 }));
    assert_eq!(mar.basic_blocks[4].name, Some(BlockName::AfterContinue));
    assert!(matches!(kind_of(&mar, 4), TerminatorKind::Goto { target: 1 }));
}

#[test]
fn item_that_is_no_function_is_rejected() {
    let item = Item { id: NodeId(9), node: ItemKind::Other };
    assert_eq!(
        construct(&item, StateMachineKind::Async).unwrap_err(),
        Error { kind: ErrorKind::NotAFunction, span: NodeId(9) }
    );
}

#[test]
fn local_recorded_nowhere_fails_construction() {
    // yield a; let x = b;
    let item =
        function(vec![], block(2, vec![semi(3, yield_(4, other(10))), let_(5, "x", other(11))]));
    assert_eq!(
        error_of(&item),
        Error { kind: ErrorKind::UninitializedVariable(1), span: NodeId(1) }
    );
    // let x = b; yield a;
    let item =
        function(vec![], block(2, vec![let_(5, "x", other(11)), semi(3, yield_(4, other(10)))]));
    assert!(construct(&item, StateMachineKind::Generator).is_ok());
}

#[test]
fn unsupported_forms_are_rejected_where_they_stand() {
    // an item declared in the body
    let item = function(vec![], block(2, vec![Stmt { id: NodeId(3), node: StmtKind::Item }]));
    assert_eq!(error_of(&item), Error { kind: ErrorKind::ItemDeclaration, span: NodeId(3) });
    // a block that ends in a value
    let item = function(
        vec![],
        Block { id: NodeId(2), stmts: vec![], expr: Some(Box::new(other(3))) },
    );
    assert_eq!(error_of(&item), Error { kind: ErrorKind::BlockTailExpression, span: NodeId(3) });
    // a return without a value
    let item = function(
        vec![],
        block(2, vec![semi(3, Expr { id: NodeId(4), node: ExprKind::Ret(None) })]),
    );
    assert_eq!(error_of(&item), Error { kind: ErrorKind::EmptyReturn, span: NodeId(4) });
    // a let without an initializer
    let item = function(
        vec![],
        block(
            2,
            vec![Stmt {
                id: NodeId(3),
                node: StmtKind::Local(Local { pat: pat(4, "x"), ty: None, init: None }),
            }],
        ),
    );
    assert_eq!(error_of(&item), Error { kind: ErrorKind::MissingInitializer, span: NodeId(3) });
    // a suspension in the condition of a conditional
    let item = function(
        vec![],
        block(2, vec![semi(3, if_(4, yield_(5, other(6)), block(7, vec![]), None))]),
    );
    assert_eq!(
        error_of(&item),
        Error { kind: ErrorKind::TransitionInCondition, span: NodeId(5) }
    );
    // a suspension marker without an operand
    let item = function(vec![], block(2, vec![semi(3, mac(4, "yield_", None))]));
    assert_eq!(error_of(&item), Error { kind: ErrorKind::MalformedSuspension, span: NodeId(4) });
    // a suspension inside a form that is not lowered
    let item = function(
        vec![],
        block(
            2,
            vec![semi(3, Expr { id: NodeId(4), node: ExprKind::Other(vec![yield_(5, other(6))]) })],
        ),
    );
    assert_eq!(
        error_of(&item),
        Error { kind: ErrorKind::UnsupportedExpression, span: NodeId(4) }
    );
}

#[test]
fn block_without_terminator_fails_the_end_of_the_pass() {
    let mut builder = Builder::new(NodeId(1), StateMachineKind::Generator);
    let extent = builder.start_new_extent(NodeId(1));
    builder.push_scope(extent, NodeId(1));
    let start = builder.start_new_block(NodeId(1), Some(BlockName::Start));
    let second = builder.start_new_block(NodeId(1), None);
    builder.terminate(NodeId(1), start, TerminatorKind::Goto { target: second });
    assert_eq!(
        builder.finish().unwrap_err(),
        Error { kind: ErrorKind::MissingTerminator(1), span: NodeId(1) }
    );
}

#[test]
fn empty_statements_are_passed_over() {
    let empty = block_expr(4, block(5, vec![semi(6, block_expr(7, block(8, vec![])))]));
    let item = function(vec![], block(2, vec![semi(3, empty), semi(9, other(10))]));
    let mar = construct(&item, StateMachineKind::Generator).unwrap();
    assert_eq!(mar.basic_blocks[0].statements.len(), 1);
    assert_eq!(mar.basic_blocks[0].statements[0].kind, StatementKind::Expr(NodeId(10)));
}

#[test]
fn let_bound_to_a_suspension_resumes_with_unit() {
    // let x = yield_!(a); yield_!(b);
    let item = function(
        vec![],
        block(2, vec![let_(3, "x", yield_(5, other(6))), semi(7, yield_(8, other(9)))]),
    );
    let mar = construct(&item, StateMachineKind::Generator).unwrap();
    assert!(matches!(kind_of(&mar, 0), TerminatorKind::Suspend { rvalue: NodeId(6), target: 1 }));
    // the block in which the computation resumes starts by binding the
    // pattern to the unit value
    assert_eq!(
        mar.basic_blocks[1].statements[0].kind,
        StatementKind::Let { pat: LetPat::Syntax(NodeId(4)), ty: None, init: LetInit::Unit }
    );
    // across the suspension the name is reserved and holds no value; after
    // that it is active
    assert_eq!(mar.basic_blocks[1].decls[1].decls, vec![LiveDecl::Forward(1)]);
    assert_eq!(mar.basic_blocks[2].decls[1].decls, vec![LiveDecl::Active(1)]);
    // a statement that suspends has nowhere to put the unit value
    assert_eq!(
        mar.basic_blocks[2].statements[0].kind,
        StatementKind::Let { pat: LetPat::Wildcard, ty: None, init: LetInit::Unit }
    );
}

#[test]
fn assignment_does_not_split_a_block() {
    let assign = |id: u32| Expr {
        id: NodeId(id),
        node: ExprKind::Assign(Box::new(other(id + 1)), Box::new(other(id + 2))),
    };
    // if c { x = 1; }
    let branch = if_(10, other(11), block(12, vec![semi(13, assign(14))]), None);
    let item = function(vec![], block(2, vec![semi(3, branch), semi(4, assign(20))]));
    let mar = construct(&item, StateMachineKind::Generator).unwrap();
    assert_eq!(names(&mar), vec![Some(BlockName::Start), Some(BlockName::End)]);
    let kinds: Vec<StatementKind> = mar.basic_blocks[0].statements.iter().map(|s| s.kind).collect();
    assert_eq!(kinds, vec![StatementKind::Expr(NodeId(10)), StatementKind::Expr(NodeId(20))]);
    // let x = { y = 1; }; yield x;
    let init = block_expr(30, block(31, vec![semi(32, assign(33))]));
    let item =
        function(vec![], block(2, vec![let_(3, "x", init), semi(5, yield_(6, other(7)))]));
    assert!(construct(&item, StateMachineKind::Generator).is_ok());
    // a suspension in a side of an assignment is rejected where it stands
    let bad = Expr {
        id: NodeId(40),
        node: ExprKind::Assign(Box::new(other(41)), Box::new(yield_(42, other(43)))),
    };
    let item = function(vec![], block(2, vec![semi(3, bad)]));
    assert_eq!(error_of(&item), Error { kind: ErrorKind::UnsupportedExpression, span: NodeId(42) });
}

#[test]
fn construction_is_repeatable() {
    let make = || {
        function(
            vec![pat(20, "a")],
            block(
                2,
                vec![
                    let_(3, "x", other(10)),
                    semi(5, yield_(6, other(11))),
                    semi(
                        7,
                        if_(
                            8,
                            other(9),
                            block(12, vec![semi(13, yield_(14, other(15)))]),
                            None,
                        ),
                    ),
                ],
            ),
        )
    };
    let first = construct(&make(), StateMachineKind::Async).unwrap();
    let second = construct(&make(), StateMachineKind::Async).unwrap();
    assert_eq!(first.basic_blocks.len(), second.basic_blocks.len());
    assert_eq!(format!("{:?}", first), format!("{:?}", second));
}

#[test]
fn scope_ids_count_from_zero() {
    assert_eq!(ScopeId::new(7).index(), 7);
    assert_eq!(ScopeId::new(0), ScopeId(0));
}

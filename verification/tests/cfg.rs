use petgraph::graph::NodeIndex;
use stateful::ast::{
    Binding, Block, Expr, ExprKind, FnDecl, Local, Mutability, NodeId, Pat, Stmt as AstStmt,
    StmtKind,
};
use stateful::cfg::{CfgError, CFGBuilder, Node, Stmt, CFG};
use stateful::graph::EdgeDirection;

fn other(id: u32) -> Expr {
    Expr { id: NodeId(id), node: ExprKind::Other(vec![]) }
}

fn semi(id: u32, e: Expr) -> AstStmt {
    AstStmt { id: NodeId(id), node: StmtKind::Semi(e) }
}

fn block(id: u32, stmts: Vec<AstStmt>) -> Block {
    Block { id: NodeId(id), stmts, expr: None }
}

fn ret(id: u32, value: Expr) -> Expr {
    Expr { id: NodeId(id), node: ExprKind::Ret(Some(Box::new(value))) }
}

fn pat(id: u32, names: &[&str]) -> Pat {
    Pat {
        id: NodeId(id),
        bindings: names
            .iter()
            .map(|n| Binding { ident: n.to_string(), mutability: Mutability::Immutable })
            .collect(),
    }
}

fn build(inputs: Vec<Pat>, body: Block) -> Result<CFG, CfgError> {
    CFGBuilder::new().build(&FnDecl { inputs }, &body)
}

fn stmts(cfg: &CFG, position: usize) -> Vec<Stmt> {
    match cfg.get_node(NodeIndex::new(position)).unwrap() {
        Node::BasicBlock(bb) => bb.stmts.clone(),
        Node::Exit => panic!("the exit node has no entries"),
    }
}

fn node_count(cfg: &CFG) -> usize {
    (0..).take_while(|&i| cfg.get_node(NodeIndex::new(i)).is_some()).count()
}

fn edge_count(cfg: &CFG) -> usize {
    (0..node_count(cfg)).map(|i| cfg.get_child_edges(NodeIndex::new(i)).len()).sum()
}

fn targets(edges: Vec<(NodeIndex<u32>, NodeIndex<u32>)>) -> Vec<(usize, usize)> {
    edges.into_iter().map(|(a, b)| (a.index(), b.index())).collect()
}

#[test]
fn straight_body_stays_in_the_entry_block() {
    let cfg = build(
        vec![pat(20, &["a", "b"]), pat(21, &["c"])],
        block(2, vec![semi(3, other(4)), semi(5, other(6))]),
    )
    .unwrap();
    assert_eq!(cfg.entry.index(), 0);
    assert_eq!(cfg.exit.index(), 1);
    assert_eq!(node_count(&cfg), 3);
    assert_eq!(cfg.entry(), cfg.entry);
    assert_eq!(cfg.exit(), cfg.exit);
    assert_eq!(cfg.get_node(cfg.entry).unwrap().name(), "Entry");
    assert_eq!(cfg.get_node(cfg.exit).unwrap().name(), "Exit");
    assert_eq!(cfg.get_node(NodeIndex::new(2)).unwrap().name(), "BlockExit");
    assert!(cfg.get_node(NodeIndex::new(3)).is_none());
    // the parameters are in scope at the entry
    let decls: Vec<String> = cfg.get_node_decls(cfg.entry).unwrap().to_vec();
    assert_eq!(decls, vec!["a", "b", "c"]);
    assert!(cfg.get_node_decls(cfg.exit).unwrap().is_empty());
    assert!(cfg.get_node_decls(NodeIndex::new(9)).is_none());
    let entries = stmts(&cfg, 0);
    assert_eq!(entries.len(), 3);
    assert!(matches!(entries[0], Stmt::Stmt(NodeId(3))));
    assert!(matches!(entries[1], Stmt::Stmt(NodeId(5))));
    match entries[2] {
        Stmt::Goto(nx) => assert_eq!(nx.index(), 2),
        ref other => panic!("unexpected {:?}", other),
    }
    assert_eq!(targets(cfg.get_child_edges(cfg.entry)), vec![(0, 2)]);
}

#[test]
fn return_with_a_value_yields_and_resumes_in_a_new_block() {
    let body = block(
        2,
        vec![
            AstStmt {
                id: NodeId(3),
                node: StmtKind::Local(Local {
                    pat: pat(4, &["x"]),
                    ty: None,
                    init: Some(other(5)),
                }),
            },
            semi(6, ret(7, other(8))),
            semi(9, other(10)),
        ],
    );
    let cfg = build(vec![], body).unwrap();
    let entries = stmts(&cfg, 0);
    assert!(matches!(entries[0], Stmt::Stmt(NodeId(3))));
    match entries[1] {
        Stmt::Yield(nx, value) => {
            assert_eq!(nx.index(), 2);
            assert_eq!(value, NodeId(8));
        }
        ref other => panic!("unexpected {:?}", other),
    }
    // the name that the `let` brought into scope is in scope where the
    // computation resumes
    assert_eq!(cfg.get_node(NodeIndex::new(2)).unwrap().name(), "Yield");
    assert_eq!(cfg.get_node_decls(NodeIndex::new(2)).unwrap().to_vec(), vec!["x"]);
    assert!(matches!(stmts(&cfg, 2)[0], Stmt::Stmt(NodeId(9))));
}

#[test]
fn loop_graph_holds_a_cycle_and_break_leaves_to_the_exit() {
    // loop { if done { break } else { return v } }
    let branch = Expr {
        id: NodeId(22),
        node: ExprKind::If(
            Box::new(other(23)),
            block(24, vec![semi(25, Expr { id: NodeId(26), node: ExprKind::Break })]),
            Some(Box::new(Expr {
                id: NodeId(27),
                node: ExprKind::Block(block(28, vec![semi(29, ret(30, other(31)))])),
            })),
        ),
    };
    let body = block(
        2,
        vec![semi(3, Expr { id: NodeId(4), node: ExprKind::Loop(block(20, vec![semi(21, branch)])) })],
    );
    let cfg = build(vec![], body).unwrap();
    let names: Vec<String> = (0..node_count(&cfg))
        .map(|i| cfg.get_node(NodeIndex::new(i)).unwrap().name().to_string())
        .collect();
    assert_eq!(
        names,
        vec![
            "Entry",
            "Exit",
            "Loop",
            "Then",
            "Else",
            "EndIf",
            "Yield",
            "BlockExit",
            "BlockExit"
        ]
    );
    // the block before the loop goes to the entry block of the loop
    match stmts(&cfg, 0)[0] {
        Stmt::Goto(nx) => assert_eq!(nx.index(), 2),
        ref other => panic!("unexpected {:?}", other),
    }
    // the body starts in the entry block of the loop, which branches
    match stmts(&cfg, 2)[0] {
        Stmt::If(cond, then, otherwise) => {
            assert_eq!(cond, NodeId(23));
            assert_eq!((then.index(), otherwise.index()), (3, 4));
        }
        ref other => panic!("unexpected {:?}", other),
    }
    // `break` leads to the node that was given as the way out, not to the
    // entry of the loop, and does not go on to the end of the conditional
    assert_eq!(stmts(&cfg, 3).len(), 1);
    match stmts(&cfg, 3)[0] {
        Stmt::Goto(nx) => assert_eq!(nx, cfg.exit),
        ref other => panic!("unexpected {:?}", other),
    }
    assert_eq!(targets(cfg.get_child_edges(NodeIndex::new(3))), vec![(3, 1)]);
    // the other branch yields, and its tail goes on to the end of the
    // conditional
    match stmts(&cfg, 4)[0] {
        Stmt::Yield(nx, value) => assert_eq!((nx.index(), value), (6, NodeId(31))),
        ref other => panic!("unexpected {:?}", other),
    }
    assert_eq!(targets(cfg.get_child_edges(NodeIndex::new(7))), vec![(7, 5)]);
    assert_eq!(targets(cfg.get_edges(NodeIndex::new(5), EdgeDirection::Incoming)), vec![(7, 5)]);
    // the tail of the body goes back to the entry block of the loop
    match stmts(&cfg, 5)[0] {
        Stmt::Goto(nx) => assert_eq!(nx.index(), 2),
        ref other => panic!("unexpected {:?}", other),
    }
    // the edges of a node come out the one added last first
    assert_eq!(targets(cfg.get_child_edges(cfg.entry)), vec![(0, 2)]);
    assert_eq!(targets(cfg.get_child_edges(NodeIndex::new(2))), vec![(2, 4), (2, 3)]);
    assert_eq!(targets(cfg.get_child_edges(NodeIndex::new(5))), vec![(5, 8), (5, 2)]);
    assert_eq!(
        targets(cfg.get_edges(NodeIndex::new(2), EdgeDirection::Incoming)),
        vec![(5, 2), (0, 2)]
    );
    assert_eq!(targets(cfg.get_edges(cfg.exit, EdgeDirection::Incoming)), vec![(3, 1)]);
    assert_eq!(edge_count(&cfg), 9);
}

#[test]
fn continue_goes_to_the_entry_block_of_the_loop() {
    // loop { if c { continue } else { return v } }
    let branch = Expr {
        id: NodeId(22),
        node: ExprKind::If(
            Box::new(other(23)),
            block(24, vec![semi(25, Expr { id: NodeId(26), node: ExprKind::Continue })]),
            Some(Box::new(Expr {
                id: NodeId(27),
                node: ExprKind::Block(block(28, vec![semi(29, ret(30, other(31)))])),
            })),
        ),
    };
    let body = block(
        2,
        vec![semi(3, Expr { id: NodeId(4), node: ExprKind::Loop(block(20, vec![semi(21, branch)])) })],
    );
    let cfg = build(vec![], body).unwrap();
    assert_eq!(cfg.get_node(NodeIndex::new(2)).unwrap().name(), "Loop");
    assert_eq!(stmts(&cfg, 3).len(), 1);
    match stmts(&cfg, 3)[0] {
        Stmt::Goto(nx) => assert_eq!(nx.index(), 2),
        ref other => panic!("unexpected {:?}", other),
    }
    assert_eq!(
        targets(cfg.get_edges(NodeIndex::new(2), EdgeDirection::Incoming)),
        vec![(5, 2), (3, 2), (0, 2)]
    );
    // outside a loop a `continue` is no transfer of control
    let plain = block(2, vec![semi(3, Expr { id: NodeId(4), node: ExprKind::Continue })]);
    let cfg = build(vec![], plain).unwrap();
    assert!(matches!(stmts(&cfg, 0)[0], Stmt::Stmt(NodeId(3))));
}

#[test]
fn both_branches_of_a_conditional_reach_its_end() {
    // if c { return a } ; after
    let branch = Expr {
        id: NodeId(10),
        node: ExprKind::If(
            Box::new(other(11)),
            block(12, vec![semi(13, ret(14, other(15)))]),
            None,
        ),
    };
    let cfg = build(vec![], block(2, vec![semi(3, branch), semi(4, other(5))])).unwrap();
    let names: Vec<String> = (0..node_count(&cfg))
        .map(|i| cfg.get_node(NodeIndex::new(i)).unwrap().name().to_string())
        .collect();
    assert_eq!(names, vec!["Entry", "Exit", "Then", "Else", "EndIf", "Yield", "BlockExit"]);
    // the tail of the first branch and the empty second branch both go on
    // to the end of the conditional, in which what follows stands
    assert_eq!(
        targets(cfg.get_edges(NodeIndex::new(4), EdgeDirection::Incoming)),
        vec![(3, 4), (5, 4)]
    );
    assert!(matches!(stmts(&cfg, 4)[0], Stmt::Stmt(NodeId(4))));
    match stmts(&cfg, 3)[0] {
        Stmt::Goto(nx) => assert_eq!(nx.index(), 4),
        ref other => panic!("unexpected {:?}", other),
    }
}

#[test]
fn forms_that_are_not_lowered_are_rejected() {
    let item = block(2, vec![AstStmt { id: NodeId(3), node: StmtKind::Item }]);
    assert_eq!(build(vec![], item).err(), Some(CfgError::ItemDeclaration(NodeId(3))));
    let tail = Block { id: NodeId(2), stmts: vec![], expr: Some(Box::new(other(3))) };
    assert_eq!(build(vec![], tail).err(), Some(CfgError::BlockTailExpression(NodeId(3))));
    // a return inside a form that is not lowered
    let hidden = Expr { id: NodeId(4), node: ExprKind::Other(vec![ret(5, other(6))]) };
    assert_eq!(
        build(vec![], block(2, vec![semi(3, hidden)])).err(),
        Some(CfgError::Unsupported(NodeId(4)))
    );
    // a return in the condition
    let cond = Expr {
        id: NodeId(4),
        node: ExprKind::If(Box::new(ret(5, other(6))), block(7, vec![]), None),
    };
    assert_eq!(
        build(vec![], block(2, vec![semi(3, cond)])).err(),
        Some(CfgError::TransitionInCondition(NodeId(5)))
    );
    // a statement behind a `break` that left to the exit node
    let body = block(
        20,
        vec![semi(21, Expr { id: NodeId(22), node: ExprKind::Break }), semi(23, other(24))],
    );
    // the second statement is needed to make the loop one that is lowered
    let looped = Expr {
        id: NodeId(4),
        node: ExprKind::Loop(Block {
            id: NodeId(20),
            stmts: vec![semi(25, ret(26, other(27)))].into_iter().chain(body.stmts).collect(),
            expr: None,
        }),
    };
    assert_eq!(
        build(vec![], block(2, vec![semi(3, looped)])).err(),
        Some(CfgError::NotABasicBlock)
    );
}

use stateful::ast::{Block, Expr, ExprKind, Mac, NodeId, Path, Stmt, StmtKind};
use stateful::transition::{
    is_await_path, is_transition_path, is_yield_path, parse_mac_transition, ContainsTransition,
    ContainsTransitionVisitor, Transition,
};

fn plain(name: &str) -> Path {
    Path { global: false, segments: vec![name.to_string()] }
}

fn expr(id: u32, node: ExprKind) -> Expr {
    Expr { id: NodeId(id), node }
}

fn marker(name: &str, operand: Option<Expr>) -> Mac {
    Mac { id: NodeId(90), path: plain(name), operand: operand.map(Box::new) }
}

#[test]
fn suspension_markers_are_recognized_by_their_path() {
    assert!(is_yield_path(&plain("yield_")));
    assert!(!is_yield_path(&plain("await")));
    assert!(is_await_path(&plain("await")));
    assert!(!is_await_path(&plain("yield_")));
    assert!(is_transition_path(&plain("yield_")));
    assert!(is_transition_path(&plain("await")));
    assert!(!is_transition_path(&plain("println")));
    // a global path and a longer path are no markers
    assert!(!is_yield_path(&Path { global: true, segments: vec!["yield_".to_string()] }));
    assert!(!is_yield_path(&Path {
        global: false,
        segments: vec!["a".to_string(), "yield_".to_string()]
    }));
    assert!(!is_transition_path(&Path { global: false, segments: vec![] }));
}

#[test]
fn markers_are_parsed_to_their_kind_and_operand() {
    let mac = marker("yield_", Some(expr(7, ExprKind::Other(vec![]))));
    match parse_mac_transition(&mac) {
        Some(Transition::Yield(operand)) => assert_eq!(operand.id, NodeId(7)),
        other => panic!("unexpected {:?}", other),
    }
    let mac = marker("await", Some(expr(8, ExprKind::Other(vec![]))));
    match parse_mac_transition(&mac) {
        Some(Transition::Await(operand)) => assert_eq!(operand.id, NodeId(8)),
        other => panic!("unexpected {:?}", other),
    }
    let mac = marker("vec", None);
    assert!(parse_mac_transition(&mac).is_none());
}

#[test]
fn transitions_are_found_where_they_stand() {
    let ret = expr(1, ExprKind::Ret(Some(Box::new(expr(2, ExprKind::Other(vec![]))))));
    assert!(ret.contains_transition(false));
    let empty_ret = expr(1, ExprKind::Ret(None));
    assert!(!empty_ret.contains_transition(true));
    // an assignment is none by itself, but both its sides are searched
    let assign = expr(
        1,
        ExprKind::Assign(
            Box::new(expr(2, ExprKind::Other(vec![]))),
            Box::new(expr(3, ExprKind::Other(vec![]))),
        ),
    );
    assert!(!assign.contains_transition(false));
    assert!(!assign.contains_transition(true));
    let assign = expr(
        1,
        ExprKind::Assign(
            Box::new(expr(2, ExprKind::Other(vec![]))),
            Box::new(expr(3, ExprKind::Mac(marker("yield_", None)))),
        ),
    );
    assert!(assign.contains_transition(false));
    let assign = expr(
        1,
        ExprKind::Assign(
            Box::new(expr(2, ExprKind::Break)),
            Box::new(expr(3, ExprKind::Other(vec![]))),
        ),
    );
    assert!(!assign.contains_transition(false));
    assert!(assign.contains_transition(true));
    // break and continue count inside a loop only
    assert!(!expr(1, ExprKind::Break).contains_transition(false));
    assert!(expr(1, ExprKind::Break).contains_transition(true));
    assert!(!expr(1, ExprKind::Continue).contains_transition(false));
    assert!(expr(1, ExprKind::Continue).contains_transition(true));
    // a marker counts, another macro does not
    assert!(expr(1, ExprKind::Mac(marker("yield_", None))).contains_transition(false));
    assert!(!expr(1, ExprKind::Mac(marker("vec", None))).contains_transition(false));
    assert!(marker("await", None).contains_transition(false));
    // the arguments of a macro are not searched
    let hidden = expr(
        1,
        ExprKind::Mac(marker(
            "vec",
            Some(expr(2, ExprKind::Ret(Some(Box::new(expr(3, ExprKind::Other(vec![]))))))),
        )),
    );
    assert!(!hidden.contains_transition(false));
}

#[test]
fn transitions_are_found_in_nested_forms() {
    let yield_stmt = Stmt { id: NodeId(5), node: StmtKind::Mac(marker("yield_", None)) };
    assert!(yield_stmt.contains_transition(false));
    let inner = Block { id: NodeId(4), stmts: vec![yield_stmt], expr: None };
    assert!(inner.contains_transition(false));
    let nested = expr(
        1,
        ExprKind::Other(vec![
            expr(2, ExprKind::Other(vec![])),
            expr(3, ExprKind::Loop(inner)),
        ]),
    );
    assert!(nested.contains_transition(false));
    let quiet = expr(
        1,
        ExprKind::If(
            Box::new(expr(2, ExprKind::Other(vec![]))),
            Block { id: NodeId(3), stmts: vec![], expr: None },
            Some(Box::new(expr(4, ExprKind::Break))),
        ),
    );
    assert!(!quiet.contains_transition(false));
    assert!(quiet.contains_transition(true));
    // the value of a block is searched too
    let tail = Block {
        id: NodeId(1),
        stmts: vec![],
        expr: Some(Box::new(expr(
            2,
            ExprKind::Ret(Some(Box::new(expr(3, ExprKind::Other(vec![]))))),
        ))),
    };
    assert!(tail.contains_transition(false));
}

#[test]
fn visitor_keeps_what_it_has_seen() {
    let mut visitor = ContainsTransitionVisitor::new(true);
    assert!(visitor.inside_loop);
    assert!(!visitor.contains_transition);
    visitor.visit_expr(&expr(1, ExprKind::Other(vec![])));
    assert!(!visitor.contains_transition);
    visitor.visit_expr(&expr(
        1,
        ExprKind::Assign(
            Box::new(expr(2, ExprKind::Other(vec![]))),
            Box::new(expr(3, ExprKind::Other(vec![]))),
        ),
    ));
    assert!(!visitor.contains_transition);
    visitor.visit_expr(&expr(1, ExprKind::Break));
    assert!(visitor.contains_transition);
    visitor.visit_expr(&expr(1, ExprKind::Other(vec![])));
    assert!(visitor.contains_transition);
    visitor.visit_mac(&marker("yield_", None));
    assert!(visitor.inside_loop);
}

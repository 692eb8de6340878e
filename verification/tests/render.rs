use stateful::ast::{
    Block, Expr, ExprKind, FnDecl, Item, ItemKind, Mac, Mutability, NodeId, Path, Stmt, StmtKind,
};
use stateful::build::construct;
use stateful::repr::{LetInit, LetPat, Mar, StateMachineKind};
use stateful::translate::block::{Action, HandlerStmt, OutStmt, Output};
use stateful::translate::names::{scope_ident, ty_param_ident, ILLEGAL_STATE, STATE_TYPE};
use stateful::translate::resume_state::CoroutineState;
use stateful::translate::state::{Arm, Field, StateEnum, StateExpr, StatePat};
use stateful::translate::{translate, Builder, Machine};

/// Prints a machine, with `<n>` for the syntax node with the number n.
struct Printer<'a> {
    mar: &'a Mar,
    names: Builder<'a>,
}

impl<'a> Printer<'a> {
    fn field(&self, field: Field) -> String {
        assert!(field.local < self.mar.local_decls.len());
        self.names.field_ident(field)
    }

    fn state(&self, block: usize) -> String {
        format!("{}::{}", STATE_TYPE, self.names.state_id(block))
    }

    fn state_expr(&self, state: &StateExpr) -> String {
        let scopes: Vec<String> = state
            .scopes
            .iter()
            .map(|scope| {
                let names: Vec<String> = scope.iter().map(|&f| self.field(f)).collect();
                format!("({})", names.join(", "))
            })
            .collect();
        format!("{}({})", self.state(state.block), scopes.join(", "))
    }

    fn state_pat(&self, pat: &StatePat) -> String {
        let scopes: Vec<String> = pat
            .scopes
            .iter()
            .map(|scope| {
                let names: Vec<String> = scope
                    .iter()
                    .map(|p| match p.mutability {
                        Mutability::Immutable => self.field(p.field),
                        Mutability::Mutable => format!("mut {}", self.field(p.field)),
                    })
                    .collect();
                format!("({})", names.join(", "))
            })
            .collect();
        format!("{}({})", self.state(pat.block), scopes.join(", "))
    }

    fn state_enum(&self, state_enum: &StateEnum) -> String {
        let params: Vec<String> = state_enum.ty_params.iter().map(|&l| ty_param_ident(l)).collect();
        let mut variants = vec![ILLEGAL_STATE.to_string()];
        for variant in &state_enum.variants {
            let scopes: Vec<String> = variant
                .scopes
                .iter()
                .map(|scope| {
                    let tys: Vec<String> = scope.iter().map(|f| ty_param_ident(f.local)).collect();
                    format!("({})", tys.join(", "))
                })
                .collect();
            variants.push(format!("{}({})", self.names.state_id(variant.block), scopes.join(", ")));
        }
        format!("enum {}<{}> {{ {} }}", STATE_TYPE, params.join(", "), variants.join(", "))
    }

    fn output(&self, output: Output) -> String {
        match output {
            Output::Element(NodeId(value)) => format!("Some(<{}>)", value),
            Output::NotReady(NodeId(value)) => format!("<{}>", value),
            Output::End => "None".to_string(),
            Output::Ready(local) => {
                format!("Ready({})", self.field(Field { local, shadowed: false }))
            }
        }
    }

    fn out_stmt(&self, stmt: &OutStmt) -> String {
        match *stmt {
            OutStmt::Syntax(NodeId(id)) => format!("<{}>;", id),
            OutStmt::Let { pat, init, .. } => {
                let pat = match pat {
                    LetPat::Syntax(NodeId(id)) => format!("<{}>", id),
                    LetPat::Local(local) => self.field(Field { local, shadowed: false }),
                    LetPat::Shadow(local) => self.field(Field { local, shadowed: true }),
                    LetPat::Wildcard => "_".to_string(),
                };
                let init = match init {
                    LetInit::Expr(NodeId(id)) => format!("<{}>", id),
                    LetInit::Local(local) => self.field(Field { local, shadowed: false }),
                    LetInit::Unit => "()".to_string(),
                };
                format!("let {} = {};", pat, init)
            }
            OutStmt::Drop { local } => {
                format!("drop({});", self.field(Field { local, shadowed: false }))
            }
            OutStmt::Rebind { local } => format!(
                "let {} = {};",
                self.field(Field { local, shadowed: false }),
                self.field(Field { local, shadowed: true })
            ),
        }
    }

    fn action(&self, action: &Action) -> String {
        match *action {
            Action::Goto { ref next } => format!("state = {}; continue;", self.state_expr(next)),
            Action::If { cond: NodeId(cond), ref then, ref otherwise } => format!(
                "if <{}> {{ state = {}; continue; }} else {{ state = {}; continue; }}",
                cond,
                self.state_expr(then),
                self.state_expr(otherwise)
            ),
            Action::Match { discr: NodeId(discr), ref arms } => {
                let arms: Vec<String> = arms
                    .iter()
                    .map(|step| {
                        format!("<{}> => {{ state = {}; continue; }}", step.arm.0, self.state_expr(&step.next))
                    })
                    .collect();
                format!("match <{}> {{ {} }}", discr, arms.join(" "))
            }
            Action::Suspend { output, ref next } => {
                format!("return ({}, {});", self.output(output), self.state_expr(next))
            }
            Action::Return { output } => {
                format!("return ({}, {}::{});", self.output(output), STATE_TYPE, ILLEGAL_STATE)
            }
        }
    }

    fn arm(&self, arm: &Arm) -> String {
        let body: Vec<String> = arm
            .body
            .iter()
            .map(|entry| match *entry {
                HandlerStmt::Open => "{".to_string(),
                HandlerStmt::Close => "}".to_string(),
                HandlerStmt::Stmt(ref stmt) => self.out_stmt(stmt),
                HandlerStmt::Step(ref action) => self.action(action),
            })
            .collect();
        format!("{} => {{ {} }}", self.state_pat(&arm.pat), body.join(" "))
    }

    fn adapter(&self, state: &CoroutineState) -> Vec<String> {
        let params: Vec<String> = state.ty_params.iter().map(|&l| ty_param_ident(l)).collect();
        let mut variants = vec![ILLEGAL_STATE.to_string()];
        for variant in &state.variants {
            let scopes: Vec<String> = variant
                .scopes
                .iter()
                .map(|scope| {
                    let tys: Vec<String> = scope.iter().map(|f| ty_param_ident(f.local)).collect();
                    format!("({})", tys.join(", "))
                })
                .collect();
            variants.push(format!("{}({})", self.names.state_id(variant.block), scopes.join(", ")));
        }
        let mut lines =
            vec![format!("enum CoroutineState<{}> {{ {} }}", params.join(", "), variants.join(", "))];
        for arm in &state.arms {
            let id = self.names.state_id(arm.block);
            let scopes: Vec<String> = arm.scopes.iter().map(|&scope| scope_ident(scope)).collect();
            lines.push(format!(
                "CoroutineState::{id}({scopes}) => {state}::{id}({scopes})",
                id = id,
                scopes = scopes.join(", "),
                state = STATE_TYPE
            ));
        }
        lines
    }

    fn machine(&self, machine: &Machine) -> Vec<String> {
        let mut lines = vec![self.state_enum(&machine.state_enum)];
        lines.push(format!("start: {}", self.state_expr(&machine.start_state)));
        lines.extend(machine.arms.iter().map(|arm| self.arm(arm)));
        if let Some(ref state) = machine.coroutine {
            lines.extend(self.adapter(state));
        }
        lines
    }
}

fn other(id: u32) -> Expr {
    Expr { id: NodeId(id), node: ExprKind::Other(vec![]) }
}

fn yield_(id: u32, operand: Expr) -> Stmt {
    Stmt {
        id: NodeId(id),
        node: StmtKind::Mac(Mac {
            id: NodeId(id),
            path: Path { global: false, segments: vec!["yield_".to_string()] },
            operand: Some(Box::new(operand)),
        }),
    }
}

#[test]
fn a_machine_reads_as_a_loop_over_its_states() {
    // yield a; yield b; return c;
    let body = Block {
        id: NodeId(2),
        stmts: vec![
            yield_(3, other(10)),
            yield_(4, other(11)),
            Stmt {
                id: NodeId(5),
                node: StmtKind::Semi(Expr {
                    id: NodeId(6),
                    node: ExprKind::Ret(Some(Box::new(other(12)))),
                }),
            },
        ],
        expr: None,
    };
    let item = Item { id: NodeId(1), node: ItemKind::Fn(FnDecl { inputs: vec![] }, body) };
    let mar = construct(&item, StateMachineKind::Generator).unwrap();
    let machine = translate(&mar).unwrap();
    let printer = Printer { mar: &mar, names: Builder { mar: &mar } };
    assert_eq!(
        printer.machine(&machine),
        vec![
            "enum State<T0> { Illegal, State0Start(()), State1AfterSuspend((), ()), \
             State2AfterSuspend((), ()), State3End((T0)) }",
            "start: State::State0Start(())",
            "State::State0Start(()) => { return (Some(<10>), State::State1AfterSuspend((), ())); }",
            "State::State1AfterSuspend((), ()) => { { let _ = (); return (Some(<11>), \
             State::State2AfterSuspend((), ())); } }",
            "State::State2AfterSuspend((), ()) => { { let _ = (); let return_ = <12>; \
             state = State::State3End((return_)); continue; } }",
            "State::State3End((return_)) => { return (None, State::Illegal); }",
            "enum CoroutineState<> { Illegal, State1AfterSuspend((), ()), \
             State2AfterSuspend((), ()) }",
            "CoroutineState::State1AfterSuspend(scope0, scope1) => \
             State::State1AfterSuspend(scope0, scope1)",
            "CoroutineState::State2AfterSuspend(scope0, scope1) => \
             State::State2AfterSuspend(scope0, scope1)",
        ]
    );
}

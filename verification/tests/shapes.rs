use stateful::ast::{
    Arm, Binding, Block, Expr, ExprKind, FnDecl, Item, ItemKind, Local, Mac, Mutability, NodeId,
    Pat, Path, Stmt, StmtKind,
};
use stateful::build::{construct, ErrorKind};
use stateful::repr::{Mar, StateMachineKind, TerminatorKind};
use stateful::translate::drive::Drive;
use stateful::translate::{translate, Builder};

/// Builds bodies from a stream of numbers, with a fresh number for every
/// node.
struct Shapes {
    state: u64,
    next_id: u32,
}

impl Shapes {
    fn number(&mut self, bound: u64) -> u64 {
        self.state = self.state.wrapping_mul(6364136223846793005).wrapping_add(1442695040888963407);
        (self.state >> 33) % bound
    }

    fn id(&mut self) -> NodeId {
        self.next_id += 1;
        NodeId(self.next_id)
    }

    fn plain(&mut self) -> Expr {
        Expr { id: self.id(), node: ExprKind::Other(vec![]) }
    }

    fn marker(&mut self) -> Expr {
        let operand = self.plain();
        let name = if self.number(2) == 0 { "yield_" } else { "await" };
        let id = self.id();
        Expr {
            id,
            node: ExprKind::Mac(Mac {
                id,
                path: Path { global: false, segments: vec![name.to_string()] },
                operand: Some(Box::new(operand)),
            }),
        }
    }

    fn block(&mut self, depth: u32, in_loop: bool) -> Block {
        let count = self.number(4);
        let mut stmts = Vec::new();
        for _ in 0..count {
            stmts.push(self.stmt(depth, in_loop));
        }
        Block { id: self.id(), stmts, expr: None }
    }

    fn stmt(&mut self, depth: u32, in_loop: bool) -> Stmt {
        let choice = if depth == 0 { self.number(4) } else { self.number(10) };
        let node = match choice {
            0 => StmtKind::Semi(self.plain()),
            1 => StmtKind::Semi(self.marker()),
            2 => {
                let names = ["x", "y", "z"];
                let ident = names[self.number(3) as usize].to_string();
                let init = if self.number(4) == 0 { self.marker() } else { self.plain() };
                StmtKind::Local(Local {
                    pat: Pat {
                        id: self.id(),
                        bindings: vec![Binding { ident, mutability: Mutability::Immutable }],
                    },
                    ty: None,
                    init: Some(init),
                })
            }
            3 => {
                let value = self.plain();
                StmtKind::Semi(Expr { id: self.id(), node: ExprKind::Ret(Some(Box::new(value))) })
            }
            4 | 5 => {
                let cond = self.plain();
                let then = self.block(depth - 1, in_loop);
                let otherwise = if self.number(2) == 0 {
                    let inner = self.block(depth - 1, in_loop);
                    Some(Box::new(Expr { id: self.id(), node: ExprKind::Block(inner) }))
                } else {
                    None
                };
                StmtKind::Semi(Expr {
                    id: self.id(),
                    node: ExprKind::If(Box::new(cond), then, otherwise),
                })
            }
            6 => {
                let body = self.block(depth - 1, true);
                StmtKind::Semi(Expr { id: self.id(), node: ExprKind::Loop(body) })
            }
            7 => {
                let inner = self.block(depth - 1, in_loop);
                StmtKind::Semi(Expr { id: self.id(), node: ExprKind::Block(inner) })
            }
            8 => {
                let discr = self.plain();
                let count = self.number(3);
                let mut arms = Vec::new();
                for _ in 0..count {
                    let inner = self.block(depth - 1, in_loop);
                    let body = Expr { id: self.id(), node: ExprKind::Block(inner) };
                    let ident = if self.number(2) == 0 { "x" } else { "m" }.to_string();
                    let pat = Pat {
                        id: self.id(),
                        bindings: vec![Binding { ident, mutability: Mutability::Mutable }],
                    };
                    arms.push(Arm { id: self.id(), pat, body });
                }
                StmtKind::Semi(Expr { id: self.id(), node: ExprKind::Match(Box::new(discr), arms) })
            }
            _ => {
                let node = if in_loop && self.number(2) == 0 {
                    ExprKind::Break
                } else if in_loop {
                    ExprKind::Continue
                } else {
                    ExprKind::Other(vec![])
                };
                StmtKind::Semi(Expr { id: self.id(), node })
            }
        };
        Stmt { id: self.id(), node }
    }

    fn function(&mut self) -> Item {
        let body = self.block(3, false);
        Item { id: NodeId(0), node: ItemKind::Fn(FnDecl { inputs: vec![] }, body) }
    }
}

fn suspensions(mar: &Mar) -> usize {
    mar.basic_blocks
        .iter()
        .filter(|b| matches!(b.terminator.as_ref().unwrap().kind, TerminatorKind::Suspend { .. }))
        .count()
}

#[test]
fn every_graph_that_is_handed_over_is_well_formed_and_has_a_machine() {
    let mut shapes = Shapes { state: 7, next_id: 0 };
    let mut built = 0;
    let mut suspended = 0;
    for _ in 0..400 {
        let item = shapes.function();
        match construct(&item, StateMachineKind::Generator) {
            Ok(mar) => {
                built += 1;
                assert!(mar.is_well_formed());
                assert!(mar.basic_blocks.iter().all(|b| b.terminator.is_some()));
                let machine = translate(&mar).unwrap();
                let builder = Builder { mar: &mar };
                let reach = builder.reachable_blocks();
                assert_eq!(machine.arms.len(), reach.len());
                assert_eq!(machine.state_enum.variants.len(), reach.len());
                assert_eq!(reach[0], 0);
                // an adapter exactly where control can reach a suspension
                let resumes = builder.resume_blocks();
                assert_eq!(machine.coroutine.is_some(), !resumes.is_empty());
                if suspensions(&mar) == 0 {
                    assert!(machine.coroutine.is_none());
                } else {
                    suspended += 1;
                }
                for &block in &resumes {
                    assert!(reach.contains(&block));
                }
                // no type parameter twice
                let mut params = machine.state_enum.ty_params.clone();
                params.sort();
                params.dedup();
                assert_eq!(params.len(), machine.state_enum.ty_params.len());
                // every drive ends in a block of the graph
                for &block in &reach {
                    match builder.drive(block) {
                        Drive::Suspended { next, .. } => assert!(reach.contains(&next)),
                        Drive::Branch { at } | Drive::Spins { at } => assert!(reach.contains(&at)),
                        Drive::Finished { .. } => {}
                    }
                }
                // the same input gives the same graph
                let again = construct(&item, StateMachineKind::Generator).unwrap();
                assert_eq!(format!("{:?}", mar), format!("{:?}", again));
            }
            Err(error) => {
                // a pass never leaves a block without a terminator
                assert!(!matches!(error.kind, ErrorKind::MissingTerminator(_)));
            }
        }
    }
    assert!(built > 20);
    assert!(suspended > 5);
}

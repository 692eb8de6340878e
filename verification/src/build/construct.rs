//! The entry point: from a function to its finished graph.

use vstd::prelude::*;
use vstd::string::StringExecFns;
use crate::ast::{Block, Item, ItemKind, Mutability, Pat};
use crate::build::lowering::{constructs, lower_block, refines};
use crate::build::{Builder, Error, ErrorKind};
use crate::repr::{
    BasicBlock, BlockName, CodeExtent, Mar, MarModel, StateMachineKind, TerminatorKind,
    TerminatorKindModel,
    RETURN_POINTER,
};
use crate::transition::{block_has_marker, block_has_transition};

verus! {

impl MarModel {
    /// The graph of a function that never suspends: the entry block, which
    /// goes to the return block, and the return block. Control reaches
    /// both, and the machine resumes in neither.
    pub open spec fn has_two_states(self) -> bool {
        &&& self.blocks.len() == 2
        &&& self.reachable(0)
        &&& self.reachable(1)
        &&& self.blocks[0].terminator matches Some(entry)
        &&& entry.kind == (TerminatorKindModel::Goto { target: 1 })
        &&& self.blocks[1].terminator matches Some(exit)
        &&& exit.kind == TerminatorKindModel::Return
        &&& forall|block: BasicBlock| !self.is_resume_block(block)
    }
}

/// Construction is a function of its input: two passes over the same item
/// for the same kind of machine end alike, with graphs that hold the same
/// blocks, locals and scopes, or with the same error.
pub proof fn lemma_construction_is_deterministic(
    item: &Item,
    kind: StateMachineKind,
    first: Result<Mar, Error>,
    second: Result<Mar, Error>,
)
    requires
        constructs(item, kind, first),
        constructs(item, kind, second),
    ensures
        match (first, second) {
            (Ok(a), Ok(b)) => a@ == b@,
            (Err(a), Err(b)) => a == b,
            _ => false,
        },
{
}

impl Builder {
    /// Declares the names of the parameters in the innermost scope, which
    /// owes their teardown from then on.
    fn declare_arguments(&mut self, extent: CodeExtent, arguments: &Vec<Pat>)
        requires
            old(self)@.wf(),
            old(self)@.in_extent(extent),
        ensures
            final(self)@ == old(self)@.declare_arguments(extent, arguments, 0),
            old(self)@.declares(final(self)@),
    {
        let mut i: usize = 0;
        while i < arguments.len()
            invariant
                0 <= i <= arguments.len(),
                self@.in_extent(extent),
                old(self)@.declares(self@),
                old(self)@.declare_arguments(extent, arguments, 0) == self@.declare_arguments(
                    extent,
                    arguments,
                    i as int,
                ),
            decreases arguments.len() - i,
        {
            self.declare_pattern(extent, &arguments[i]);
            i += 1;
        }
    }

    /// Declares the parameters, starts the entry block, which records them,
    /// and lowers the body from it.
    pub fn args_and_body(&mut self, extent: CodeExtent, arguments: &Vec<Pat>, body: &Block) -> (r:
        Result<BasicBlock, Error>)
        requires
            old(self)@.wf(),
            old(self)@.in_extent(extent),
        ensures
            r matches Err(e) ==> e.kind.is_rejection(),
            r is Ok && !block_has_marker(body) && old(self)@.suspend_free() ==> final(self)@.suspend_free(),
            r matches Ok(end) ==> forall|b: int|
                0 <= b < final(self)@.blocks.len() && (#[trigger] final(self)@.blocks[b]).terminator is None ==> {
                    ||| b == end
                    ||| final(self)@.is_return_block(b)
                    ||| (b < old(self)@.blocks.len() && old(self)@.blocks[b].terminator is None)
                },
            refines(
                lower_block(
                    old(self)@.declare_arguments(extent, arguments, 0).start_new_block(
                        old(self)@.fn_span,
                        Some(BlockName::Start),
                    ),
                    old(self)@.declare_arguments(extent, arguments, 0).next_block(),
                    body,
                ),
                final(self)@,
                r,
            ),
            r matches Ok(end) ==> {
                &&& final(self)@.ready(end)
                &&& final(self)@.in_extent(extent)
                &&& final(self)@.scopes.len() == old(self)@.scopes.len()
                &&& (!block_has_transition(body, old(self)@.inside_loop()) ==> {
                    &&& end == old(self)@.blocks.len()
                    &&& final(self)@.blocks.len() == old(self)@.blocks.len() + 1
                    &&& final(self)@.cached_return_block == old(self)@.cached_return_block
                })
            },
    {
        self.declare_arguments(extent, arguments);
        let start = self.start_new_block(self.fn_span, Some(BlockName::Start));
        self.ast_block(start, body)
    }
}

/// Builds the graph of a function.
///
/// The outcome is the one that [`construct_spec`] gives: an item that is no
/// function, a form that is not lowered or a local that no block records
/// as active ends the pass with the error that names it. No block is left
/// without a terminator. A graph that is handed over is well-formed. A
/// body without a suspension marker gives a machine that resumes nowhere;
/// a body without any transition gives the entry block and the return
/// block, and nothing else.
///
/// [`construct_spec`]: crate::build::lowering::construct_spec
pub fn construct(item: &Item, state_machine_kind: StateMachineKind) -> (r: Result<Mar, Error>)
    ensures
        constructs(item, state_machine_kind, r),
        r matches Ok(mar) ==> mar@.wf(),
        r matches Ok(mar) ==> (item.node matches ItemKind::Fn(_, body) && !block_has_transition(
            &body,
            false,
        ) ==> mar@.has_two_states()),
        r matches Ok(mar) ==> (item.node matches ItemKind::Fn(_, body) && !block_has_marker(&body)
            ==> forall|block: BasicBlock| !mar@.is_resume_block(block)),
        r matches Err(e) ==> !(e.kind is MissingTerminator),
{
    let (fn_decl, body) = match &item.node {
        ItemKind::Fn(fn_decl, body) => (fn_decl, body),
        ItemKind::Other => {
            return Err(Error { kind: ErrorKind::NotAFunction, span: item.id });
        },
    };
    let mut builder = Builder::new(item.id, state_machine_kind);
    let ghost fresh = builder@;
    let extent = builder.start_new_extent(item.id);
    builder.push_scope(extent, item.id);
    let ghost opened = builder@;
    assert(extent == fresh.next_extent());
    assert(opened == fresh.start_new_extent(item.id).push_scope(extent, item.id));
    builder.reserve_binding(item.id, Mutability::Immutable, String::from_str("return_"), None);
    let ghost reserved = builder@;
    assert(reserved == opened.declare(
        crate::repr::LocalDeclModel {
            ident: "return_"@,
            mutability: Mutability::Immutable,
            ty: None,
            source_info: opened.source_info(item.id),
            shadowed_decl: opened.find_decl("return_"@),
        },
        crate::repr::LiveDecl::Forward(RETURN_POINTER),
    ));
    assert(builder@.loop_scopes =~= Seq::empty());
    assert(builder@.wf());
    assert(builder@.blocks.len() == 0);
    let block = match builder.args_and_body(extent, &fn_decl.inputs, body) {
        Ok(block) => block,
        Err(e) => {
            return Err(e);
        },
    };
    let ghost lowered = builder@;
    assert(forall|b: int|
        0 <= b < lowered.blocks.len() && (#[trigger] lowered.blocks[b]).terminator is None ==> b
            == block || lowered.is_return_block(b));
    builder.initialize(RETURN_POINTER);
    let ghost returned = builder@;
    assert(returned.blocks == lowered.blocks);
    let return_block = builder.return_block();
    assert(forall|b: int|
        0 <= b < returned.blocks.len() ==> #[trigger] builder@.blocks[b] == returned.blocks[b]);
    assert(forall|b: int|
        0 <= b < builder@.blocks.len() && (#[trigger] builder@.blocks[b]).terminator is None ==> b
            == block || b == return_block);
    builder.terminate(item.id, block, TerminatorKind::Goto { target: return_block });
    assert(forall|b: int|
        0 <= b < builder@.blocks.len() && (#[trigger] builder@.blocks[b]).terminator is None ==> b
            == return_block);
    builder.schedule_move(RETURN_POINTER);
    builder.pop_scope(extent, return_block);
    assert(forall|b: int|
        0 <= b < builder@.blocks.len() && (#[trigger] builder@.blocks[b]).terminator is None ==> b
            == return_block);
    builder.terminate(item.id, return_block, TerminatorKind::Return);
    proof {
        let m = builder@;
        assert forall|b: int| 0 <= b < m.blocks.len() implies (#[trigger] m.blocks[b]).terminator is Some by {}
        crate::repr::lemma_first_open(m.blocks, 0);
        if !block_has_marker(body) {
            assert(m.suspend_free());
            let mar = m.graph();
            assert forall|target: BasicBlock| !mar.is_resume_block(target) by {
                if mar.is_resume_block(target) {
                    let b = choose|b: BasicBlock|
                        b < mar.blocks.len() && #[trigger] mar.reachable(b) && mar.blocks[b as int].suspends_to(
                            target,
                        );
                    assert(m.blocks[b as int].terminator is Some);
                }
            }
        }
        if !block_has_transition(body, false) {
            assert(m.blocks.len() == 2);
            assert(block == 0 && return_block == 1);
            let mar = m.graph();
            assert forall|target: BasicBlock| !mar.is_resume_block(target) by {
                if mar.is_resume_block(target) {
                    let b = choose|b: BasicBlock|
                        b < mar.blocks.len() && #[trigger] mar.reachable(b) && mar.blocks[b as int].suspends_to(
                            target,
                        );
                    assert(b == 0 || b == 1);
                }
            }
            mar.lemma_reachable_start();
            assert(mar.successors(0)[0] == 1);
            mar.lemma_reachable_step(0, 1);
        }
    }
    builder.finish()
}

} // verus!

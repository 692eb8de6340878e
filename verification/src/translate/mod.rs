//! Synthesis of the state machine from a finished graph: one state per
//! block, which captures what is live at the block's entry, and for each
//! block the step that the machine takes from it.

use vstd::prelude::*;
use crate::repr::{Mar, StateMachineKind, START_BLOCK};
use block::handler_view;
use resume_state::{recorded_extents, CoroutineState};
use state::{groups_view, Arm, StateEnum, StateExpr};

pub mod block;
pub mod drive;
pub mod examples;
pub mod names;
pub mod reach;
pub mod resume_state;
pub mod state;

verus! {

/// The context of the synthesis for one graph.
#[derive(Debug)]
pub struct Builder<'a> {
    pub mar: &'a Mar,
}

/// The machine of one function: the state in which it starts, the state
/// type, one arm for each block, and, where the machine suspends, the
/// reduced states and the adapter for a driver that supplies a value when
/// it resumes the machine.
#[derive(Debug)]
pub struct Machine {
    pub kind: StateMachineKind,
    pub start_state: StateExpr,
    pub state_enum: StateEnum,
    pub arms: Vec<Arm>,
    pub coroutine: Option<CoroutineState>,
}

/// Synthesizes the machine of a graph. There is one for a graph that is
/// well-formed and has an entry block, and for no other. The machine
/// starts in the state of the entry block; it has one variant and one arm
/// for each block that control can reach, and an adapter exactly where it
/// suspends; the adapter has one reduced state and one arm for each block
/// in which the machine resumes.
pub fn translate(mar: &Mar) -> (r: Option<Machine>)
    ensures
        r is Some <==> mar@.wf() && mar@.blocks.len() > 0,
        r matches Some(machine) ==> {
            let reach = mar@.reachable_blocks(mar@.blocks.len() as int);
            &&& machine.kind == mar@.kind
            &&& machine.start_state@ == mar@.state_expr(START_BLOCK)
            &&& machine.state_enum.ty_params@ == mar@.params_over(reach, reach.len() as int)
            &&& machine.state_enum.variants@.len() == reach.len()
            &&& forall|i: int|
                0 <= i < reach.len() ==> (#[trigger] machine.state_enum.variants@[i]).block
                    == reach[i] && groups_view(machine.state_enum.variants@[i].scopes@)
                    == mar@.incoming(reach[i])
            &&& machine.arms@.len() == reach.len()
            &&& forall|i: int|
                0 <= i < reach.len() ==> (#[trigger] machine.arms@[i]).pat.block == reach[i]
                    && groups_view(machine.arms@[i].pat.scopes@) == mar@.state_pat(reach[i])
                    && handler_view(machine.arms@[i].body@) == mar@.handler(reach[i])
            &&& machine.coroutine is None <==> mar@.resume_blocks(mar@.blocks.len() as int).len()
                == 0
            &&& machine.coroutine matches Some(state) ==> {
                let resume = mar@.resume_blocks(mar@.blocks.len() as int);
                &&& state.ty_params@ == mar@.params_over(resume, resume.len() as int)
                &&& state.variants@.len() == resume.len()
                &&& forall|i: int|
                    0 <= i < resume.len() ==> (#[trigger] state.variants@[i]).block == resume[i]
                        && groups_view(state.variants@[i].scopes@) == mar@.incoming(resume[i])
                &&& state.arms@.len() == resume.len()
                &&& forall|i: int|
                    0 <= i < resume.len() ==> (#[trigger] state.arms@[i]).block == resume[i]
                        && state.arms@[i].scopes@ == recorded_extents(
                        mar@.blocks[resume[i] as int],
                    )
            }
        },
{
    if !mar.is_well_formed() || mar.basic_blocks.len() == 0 {
        return None;
    }
    let builder = Builder { mar };
    let start_state = builder.state_expr(START_BLOCK);
    let (state_enum, arms) = builder.state_enum_default_and_arms();
    let coroutine = builder.coroutine_state();
    Some(Machine { kind: mar.state_machine_kind, start_state, state_enum, arms, coroutine })
}

} // verus!

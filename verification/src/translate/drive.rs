//! One drive of the machine: from a state to the point at which control
//! goes back to the driver.

use vstd::prelude::*;
use crate::repr::{
    terminator_view, BasicBlock, MarModel, StateMachineKind, TerminatorKind, TerminatorKindModel,
    RETURN_POINTER,
};
use crate::translate::block::Output;
use crate::translate::Builder;

verus! {

/// How a drive of the machine ends.
#[derive(Clone, Copy, Debug, PartialEq, Eq, Structural)]
pub enum Drive {
    /// The machine suspended: `output` goes to the driver, and the next
    /// drive starts in the state of `next`.
    Suspended { output: Output, next: BasicBlock },
    /// The machine finished: `output` goes to the driver, and the machine
    /// must not be driven again.
    Finished { output: Output },
    /// The machine stands at the end of `at`, before a branch or a match
    /// whose outcome depends on the values of the computation.
    Branch { at: BasicBlock },
    /// The machine changed its state as often as the graph has blocks
    /// without giving control back: it is held to go round in `at`.
    Spins { at: BasicBlock },
}

impl MarModel {
    /// The end of a drive that starts in the state of `block` and may
    /// change the state `fuel` times.
    pub open spec fn drive(self, block: BasicBlock, fuel: nat) -> Drive
        decreases fuel,
    {
        match self.blocks[block as int].terminator {
            Some(terminator) => match terminator.kind {
                TerminatorKindModel::Goto { target } => if fuel == 0 {
                    Drive::Spins { at: block }
                } else {
                    self.drive(target, (fuel - 1) as nat)
                },
                TerminatorKindModel::If { .. } => Drive::Branch { at: block },
                TerminatorKindModel::Match { .. } => Drive::Branch { at: block },
                TerminatorKindModel::Suspend { rvalue, target } => Drive::Suspended {
                    output: self.suspend_output(rvalue),
                    next: target,
                },
                TerminatorKindModel::Return => Drive::Finished { output: self.return_output() },
            },
            None => Drive::Spins { at: block },
        }
    }
}

impl<'a> Builder<'a> {
    /// Drives the machine from the state of `state`: every change of
    /// state that gives no control back is followed, up to the suspension,
    /// the return, or the branch at which the drive ends.
    pub fn drive(&self, state: BasicBlock) -> (r: Drive)
        requires
            self.mar@.wf(),
            state < self.mar@.blocks.len(),
        ensures
            r == self.mar@.drive(state, self.mar@.blocks.len()),
    {
        let ghost m = self.mar@;
        let mut block = state;
        let mut fuel = self.mar.basic_blocks.len();
        loop
            invariant
                m == self.mar@,
                m.wf(),
                block < m.blocks.len(),
                fuel <= m.blocks.len(),
                m.drive(state, m.blocks.len()) == m.drive(block, fuel as nat),
            decreases fuel,
        {
            proof {
                assert(m.blocks[block as int].wf(
                    m.blocks.len(),
                    m.local_decls.len(),
                    m.visibility_scopes.len(),
                ));
                assert(m.blocks[block as int].terminator == terminator_view(
                    self.mar.basic_blocks@[block as int].terminator,
                ));
            }
            match &self.mar.basic_blocks[block].terminator {
                Some(terminator) => match &terminator.kind {
                    TerminatorKind::Goto { target } => {
                        if fuel == 0 {
                            return Drive::Spins { at: block };
                        }
                        assert(terminator.kind@.successors()[0] == *target);
                        block = *target;
                        fuel -= 1;
                    },
                    TerminatorKind::If { .. } => {
                        return Drive::Branch { at: block };
                    },
                    TerminatorKind::Match { .. } => {
                        return Drive::Branch { at: block };
                    },
                    TerminatorKind::Suspend { rvalue, target } => {
                        let output = match self.mar.state_machine_kind {
                            StateMachineKind::Generator => Output::Element(*rvalue),
                            StateMachineKind::Async => Output::NotReady(*rvalue),
                        };
                        return Drive::Suspended { output, next: *target };
                    },
                    TerminatorKind::Return => {
                        let output = match self.mar.state_machine_kind {
                            StateMachineKind::Generator => Output::End,
                            StateMachineKind::Async => Output::Ready(RETURN_POINTER),
                        };
                        return Drive::Finished { output };
                    },
                },
                None => {
                    return Drive::Spins { at: block };
                },
            }
        }
    }
}

} // verus!

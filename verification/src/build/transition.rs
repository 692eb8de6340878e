//! Whether a form holds a transition where the pass stands.

use vstd::prelude::*;
use crate::build::Builder;
use crate::transition::ContainsTransition;

verus! {

impl Builder {
    /// Whether the form holds a transition where it stands.
    pub fn contains_transition<E: ContainsTransition>(&self, expr: &E) -> (r: bool)
        ensures
            r == expr.has_transition(self@.inside_loop()),
    {
        expr.contains_transition(self.is_inside_loop())
    }
}

} // verus!

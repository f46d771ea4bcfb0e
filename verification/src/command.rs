//! The protocol between the execution loop and what it drives: commands, and
//! states that can be snapshotted.

use vstd::prelude::*;

verus! {

/// A state of which the loop can keep a copy, to hand it to a postcondition
/// after the state itself has moved on.
pub trait Snapshot: View + Sized {
    fn snapshot(&self) -> (copy: Self)
        ensures
            copy@ == self@,
    ;
}

impl Snapshot for usize {
    fn snapshot(&self) -> (copy: usize) {
        *self
    }
}

/// One action on a system under test of type `S`, with its counterpart on a
/// model of type `M`. The spec functions say, over the views of the two
/// states, what the four executable methods compute.
pub trait Command<S: View, M: View>: Sized {
    /// Whether the command may be applied in the given states.
    spec fn pre_spec(&self, actual: S::V, model: M::V) -> bool;

    /// The system's state after the command.
    spec fn actual_spec(&self, actual: S::V) -> S::V;

    /// The command itself after it was applied to the system: it may have
    /// recorded what it saw.
    spec fn observed(&self, actual: S::V) -> Self;

    /// Whether the model's update stays within machine limits.
    spec fn model_fits(&self, model: M::V) -> bool;

    /// The model's state after the command.
    spec fn model_spec(&self, model: M::V) -> M::V;

    /// Whether the step from the old states to the new ones is as expected.
    spec fn post_spec(
        &self,
        actual_old: S::V,
        actual_new: S::V,
        model_old: M::V,
        model_new: M::V,
    ) -> bool;

    fn pre(&self, actual: &S, model: &M) -> (legal: bool)
        ensures
            legal == self.pre_spec(actual@, model@),
    ;

    fn post(&self, actual_old: &S, actual_new: &S, model_old: &M, model_new: &M) -> (holds: bool)
        ensures
            holds == self.post_spec(actual_old@, actual_new@, model_old@, model_new@),
    ;

    fn model(&self, model: M) -> (next: M)
        requires
            self.model_fits(model@),
        ensures
            next@ == self.model_spec(model@),
    ;

    fn actual(&mut self, actual: S) -> (next: S)
        ensures
            next@ == old(self).actual_spec(actual@),
            *final(self) == old(self).observed(actual@),
    ;
}

} // verus!

//! The property that is tested of the queue: run from an empty queue and a
//! count of zero, every command sequence passes.

use vstd::prelude::*;
use crate::command::Command;
use crate::engine::{confirm_model, fits_from, outcome, run, Verdict};
use crate::queue::Queue;
use crate::queue_commands::{into_steps, steps, QueueCommand, QueueStep};
use crate::search::Property;

verus! {

/// A count that leaves room for one more for each command still to come
/// never outgrows the machine's integers.
pub proof fn lemma_queue_run_fits<T: Copy>(
    commands: Seq<QueueStep<T>>,
    at: int,
    actual: Seq<T>,
    model: usize,
)
    requires
        0 <= at <= commands.len(),
        model + (commands.len() - at) <= usize::MAX,
    ensures
        fits_from::<QueueStep<T>, Queue<T>, usize>(commands, at, actual, model),
    decreases commands.len() - at,
{
    if at < commands.len() {
        let command = commands[at].observed(actual);
        let actual_new = commands[at].actual_spec(actual);
        let model_new = command.model_spec(model);
        lemma_queue_run_fits(commands, at + 1, actual_new, model_new);
    }
}

/// Whether the run of `commands` from an empty queue and a count of zero
/// passes.
pub open spec fn passes<T: Copy>(commands: Seq<QueueCommand<T>>) -> bool {
    outcome::<QueueStep<T>, Queue<T>, usize>(steps(commands), Seq::empty(), 0) is Passed
}

/// The property itself.
#[derive(Clone, Copy, Debug)]
pub struct QueueProperty {}

impl<T: Copy> Property<QueueCommand<T>> for QueueProperty {
    open spec fn holds(&self, input: Seq<QueueCommand<T>>) -> bool {
        passes(input)
    }

    fn check(&self, input: &Vec<QueueCommand<T>>) -> (passed: bool) {
        let ready = into_steps(input);
        proof {
            assert(ready.len() <= usize::MAX);
            lemma_queue_run_fits(ready@, 0, Seq::<T>::empty(), 0);
        }
        confirm_model(ready, Queue::new(), 0usize)
    }
}

/// Runs `commands` against an empty queue and a count of zero, and tells how
/// the run ended.
pub fn run_queue<T: Copy>(
    commands: &Vec<QueueCommand<T>>,
) -> (verdict: Verdict<QueueStep<T>, Queue<T>, usize>)
    ensures
        verdict@ == outcome::<QueueStep<T>, Queue<T>, usize>(steps(commands@), Seq::empty(), 0),
{
    let ready = into_steps(commands);
    proof {
        assert(ready.len() <= usize::MAX);
        lemma_queue_run_fits(ready@, 0, Seq::<T>::empty(), 0);
    }
    run(ready, Queue::new(), 0usize)
}

/// Whether a sequence of commands with integer payloads passes.
pub fn prop_i32(commands: Vec<QueueCommand<i32>>) -> (passed: bool)
    ensures
        passed == passes(commands@),
{
    QueueProperty {  }.check(&commands)
}

/// Whether a sequence of commands with empty payloads passes.
pub fn prop_unit(commands: Vec<QueueCommand<()>>) -> (passed: bool)
    ensures
        passed == passes(commands@),
{
    QueueProperty {  }.check(&commands)
}

} // verus!

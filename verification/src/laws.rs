//! What holds of every run and of every search, proved from the definitions
//! that the contracts use.

use vstd::prelude::*;
use crate::command::Command;
use crate::engine::{
    applied, applied_from, legal, legal_from, model_after, outcome, outcome_from, Outcome,
};
use crate::generate::command_candidates;
use crate::queue::{after_reset, Queue, RESET_COUNT};
use crate::queue_commands::{steps, QueueCommand, QueueStep};
use crate::search::{reduces_by, shrinks_to, Shrink};

verus! {

/// The model at the end of the run from `at` on is the model at its start
/// after the updates of the commands that were applied, in their order.
proof fn lemma_model_follows_applied<C: Command<S, M>, S: View, M: View>(
    commands: Seq<C>,
    at: int,
    actual: S::V,
    model: M::V,
)
    requires
        0 <= at <= commands.len(),
    ensures
        outcome_from::<C, S, M>(commands, at, actual, model).last_model() == model_after::<C, S, M>(
            applied_from::<C, S, M>(commands, at, actual, model),
            model,
        ),
    decreases commands.len() - at,
{
    if at < commands.len() {
        if !commands[at].pre_spec(actual, model) {
            lemma_model_follows_applied::<C, S, M>(commands, at + 1, actual, model);
        } else {
            let command = commands[at].observed(actual);
            let actual_new = commands[at].actual_spec(actual);
            let model_new = command.model_spec(model);
            let applied = applied_from::<C, S, M>(commands, at, actual, model);
            if command.post_spec(actual, actual_new, model, model_new) {
                lemma_model_follows_applied::<C, S, M>(commands, at + 1, actual_new, model_new);
                let rest = applied_from::<C, S, M>(commands, at + 1, actual_new, model_new);
                assert(applied.drop_first() =~= rest);
                assert(applied.first() == command);
            } else {
                assert(applied.drop_first() =~= Seq::<C>::empty());
                assert(applied.first() == command);
                assert(model_after::<C, S, M>(applied.drop_first(), model_new) == model_new);
            }
        }
    }
}

/// Where the precondition of every command holds when the run reaches it, a
/// run that passes has applied every command from `at` on, and a run that
/// fails has applied every command up to the failing one.
proof fn lemma_legal_run_applies_all<C: Command<S, M>, S: View, M: View>(
    commands: Seq<C>,
    at: int,
    actual: S::V,
    model: M::V,
)
    requires
        0 <= at <= commands.len(),
        legal_from::<C, S, M>(commands, at, actual, model),
    ensures
        match outcome_from::<C, S, M>(commands, at, actual, model) {
            Outcome::Passed { .. } => applied_from::<C, S, M>(commands, at, actual, model).len()
                == commands.len() - at,
            Outcome::Failed { at: failed, .. } => at <= failed < commands.len() && applied_from::<
                C,
                S,
                M,
            >(commands, at, actual, model).len() == failed + 1 - at,
        },
    decreases commands.len() - at,
{
    if at < commands.len() {
        let command = commands[at].observed(actual);
        let actual_new = commands[at].actual_spec(actual);
        let model_new = command.model_spec(model);
        if command.post_spec(actual, actual_new, model, model_new) {
            lemma_legal_run_applies_all::<C, S, M>(commands, at + 1, actual_new, model_new);
        }
    }
}

/// Where the precondition of every command holds when the run reaches it,
/// the model at the end is the model at the start after the updates of the
/// commands that were applied, once each and in their order; and those are
/// all the commands if the run passes, and the commands up to the failing
/// one if it fails. No update is lost and none is made twice.
pub proof fn lemma_no_update_lost<C: Command<S, M>, S: View, M: View>(
    commands: Seq<C>,
    actual: S::V,
    model: M::V,
)
    requires
        legal::<C, S, M>(commands, actual, model),
    ensures
        outcome::<C, S, M>(commands, actual, model).last_model() == model_after::<C, S, M>(
            applied::<C, S, M>(commands, actual, model),
            model,
        ),
        match outcome::<C, S, M>(commands, actual, model) {
            Outcome::Passed { .. } => applied::<C, S, M>(commands, actual, model).len()
                == commands.len(),
            Outcome::Failed { at, .. } => 0 <= at < commands.len() && applied::<C, S, M>(
                commands,
                actual,
                model,
            ).len() == at + 1,
        },
{
    lemma_model_follows_applied::<C, S, M>(commands, 0, actual, model);
    lemma_legal_run_applies_all::<C, S, M>(commands, 0, actual, model);
}

/// Whether the model is asked at all does not matter for that: also in a run
/// that passes over commands, the model at the end is the model at the start
/// after the updates of the commands that were applied.
pub proof fn lemma_model_tracks_applied<C: Command<S, M>, S: View, M: View>(
    commands: Seq<C>,
    actual: S::V,
    model: M::V,
)
    ensures
        outcome::<C, S, M>(commands, actual, model).last_model() == model_after::<C, S, M>(
            applied::<C, S, M>(commands, actual, model),
            model,
        ),
{
    lemma_model_follows_applied::<C, S, M>(commands, 0, actual, model);
}

/// Two runs from `at` on that start in the same states end alike if the
/// sequences agree up to the command at which the first run fails.
proof fn lemma_failure_ends_run_from<C: Command<S, M>, S: View, M: View>(
    commands: Seq<C>,
    other: Seq<C>,
    at: int,
    actual: S::V,
    model: M::V,
)
    requires
        0 <= at <= commands.len(),
        outcome_from::<C, S, M>(commands, at, actual, model) is Failed,
        outcome_from::<C, S, M>(commands, at, actual, model)->at < other.len(),
        forall|j: int|
            0 <= j <= outcome_from::<C, S, M>(commands, at, actual, model)->at ==> commands[j]
                == other[j],
    ensures
        outcome_from::<C, S, M>(other, at, actual, model) == outcome_from::<C, S, M>(
            commands,
            at,
            actual,
            model,
        ),
        at <= outcome_from::<C, S, M>(commands, at, actual, model)->at < commands.len(),
    decreases commands.len() - at,
{
    if at < commands.len() {
        if !commands[at].pre_spec(actual, model) {
            lemma_failure_ends_run_from::<C, S, M>(commands, other, at + 1, actual, model);
        } else {
            let command = commands[at].observed(actual);
            let actual_new = commands[at].actual_spec(actual);
            let model_new = command.model_spec(model);
            if command.post_spec(actual, actual_new, model, model_new) {
                lemma_failure_ends_run_from::<C, S, M>(
                    commands,
                    other,
                    at + 1,
                    actual_new,
                    model_new,
                );
            }
        }
    }
}

/// A run ends at the first postcondition that does not hold: whatever
/// follows the failing command has no part in the outcome.
pub proof fn lemma_failure_ends_run<C: Command<S, M>, S: View, M: View>(
    commands: Seq<C>,
    other: Seq<C>,
    actual: S::V,
    model: M::V,
)
    requires
        outcome::<C, S, M>(commands, actual, model) is Failed,
        outcome::<C, S, M>(commands, actual, model)->at < other.len(),
        forall|j: int|
            0 <= j <= outcome::<C, S, M>(commands, actual, model)->at ==> commands[j] == other[j],
    ensures
        outcome::<C, S, M>(other, actual, model) == outcome::<C, S, M>(commands, actual, model),
{
    lemma_failure_ends_run_from::<C, S, M>(commands, other, 0, actual, model);
}

/// No queue command is ever passed over: the precondition of each holds in
/// every state.
pub proof fn lemma_queue_run_is_legal<T: Copy>(
    commands: Seq<QueueStep<T>>,
    at: int,
    actual: Seq<T>,
    model: usize,
)
    requires
        0 <= at <= commands.len(),
    ensures
        legal_from::<QueueStep<T>, Queue<T>, usize>(commands, at, actual, model),
    decreases commands.len() - at,
{
    if at < commands.len() {
        let command = commands[at].observed(actual);
        let actual_new = commands[at].actual_spec(actual);
        let model_new = command.model_spec(model);
        lemma_queue_run_is_legal(commands, at + 1, actual_new, model_new);
    }
}

/// The count that a model started at zero holds after `commands`: a `Push`
/// adds one, a `Get` takes one away if there is one, a `Reset` leaves none.
pub open spec fn predicted_count<T>(commands: Seq<QueueCommand<T>>) -> nat
    decreases commands.len(),
{
    if commands.len() == 0 {
        0
    } else {
        let before = predicted_count(commands.drop_last());
        match commands.last() {
            QueueCommand::Get => if before == 0 {
                0
            } else {
                (before - 1) as nat
            },
            QueueCommand::Push(_) => before + 1,
            QueueCommand::Reset => 0,
        }
    }
}

/// The predicted count never exceeds the number of commands.
pub proof fn lemma_predicted_count_bounded<T>(commands: Seq<QueueCommand<T>>)
    ensures
        predicted_count(commands) <= commands.len(),
    decreases commands.len(),
{
    if commands.len() > 0 {
        lemma_predicted_count_bounded(commands.drop_last());
    }
}

/// A run of queue commands that has come to position `at` with the count
/// predicted for the commands before it, and with as many items in the queue,
/// ends with the count predicted for all the commands it applied.
proof fn lemma_count_follows_commands<T: Copy>(
    commands: Seq<QueueCommand<T>>,
    at: int,
    actual: Seq<T>,
    model: usize,
)
    requires
        0 <= at <= commands.len() <= usize::MAX,
        model == predicted_count(commands.take(at)),
        actual.len() == model,
    ensures
        match outcome_from::<QueueStep<T>, Queue<T>, usize>(steps(commands), at, actual, model) {
            Outcome::Passed { actual: last, model: count } => count == predicted_count(commands)
                && last.len() == count,
            Outcome::Failed { at: failed, model_new, .. } => at <= failed < commands.len()
                && model_new == predicted_count(commands.take(failed + 1)),
        },
    decreases commands.len() - at,
{
    let ready = steps(commands);
    if at < commands.len() {
        let command = ready[at].observed(actual);
        let actual_new = ready[at].actual_spec(actual);
        let model_new = command.model_spec(model);
        assert(commands.take(at + 1).drop_last() =~= commands.take(at));
        assert(commands.take(at + 1).last() == commands[at]);
        lemma_predicted_count_bounded(commands.take(at));
        assert(model_new == predicted_count(commands.take(at + 1)));
        if command.post_spec(actual, actual_new, model, model_new) {
            lemma_count_follows_commands(commands, at + 1, actual_new, model_new);
        }
    } else {
        assert(commands.take(at) =~= commands);
    }
}

/// A run of queue commands from an empty queue and a count of zero ends with
/// the count predicted for the commands that it applied: for the whole
/// sequence if it passes, and then the queue holds as many items; for the
/// commands up to the failing one if it fails.
pub proof fn lemma_final_count<T: Copy>(commands: Seq<QueueCommand<T>>)
    requires
        commands.len() <= usize::MAX,
    ensures
        match outcome::<QueueStep<T>, Queue<T>, usize>(steps(commands), Seq::empty(), 0) {
            Outcome::Passed { actual, model } => model == predicted_count(commands) && actual.len()
                == model,
            Outcome::Failed { at, model_new, .. } => 0 <= at < commands.len() && model_new
                == predicted_count(commands.take(at + 1)),
        },
{
    lemma_count_follows_commands(commands, 0, Seq::<T>::empty(), 0);
}

/// A second `reset` right after a first leaves the queue as the first left
/// it exactly when the queue held no more than `RESET_COUNT` items before:
/// only then does `reset` clear the queue, as the model takes it to do.
pub proof fn lemma_reset_twice<T>(items: Seq<T>)
    ensures
        after_reset(after_reset(items)) == after_reset(items) <==> items.len() <= RESET_COUNT,
        after_reset(after_reset(items)).len() == after_reset(items).len() <==> items.len()
            <= RESET_COUNT,
        after_reset(items).len() == 0 <==> items.len() <= RESET_COUNT,
{
}

/// Every candidate of a command is a command of the same operation.
pub proof fn lemma_candidates_keep_kind<T: Shrink + Copy>(command: QueueCommand<T>, k: int)
    requires
        0 <= k < command_candidates(command).len(),
    ensures
        command_candidates(command)[k].kind_spec() == command.kind_spec(),
{
}

/// However often a command is shrunk, its operation stays.
pub proof fn lemma_shrinking_keeps_kind<T: Shrink + Copy>(
    from: QueueCommand<T>,
    to: QueueCommand<T>,
)
    requires
        shrinks_to(from, to),
    ensures
        to.kind_spec() == from.kind_spec(),
    decreases from.rank(),
{
    if from != to {
        let k = choose|k: int|
            0 <= k < from.candidates().len() && (#[trigger] from.candidates()[k]).rank()
                < from.rank() && shrinks_to(from.candidates()[k], to);
        lemma_candidates_keep_kind(from, k);
        lemma_shrinking_keeps_kind(from.candidates()[k], to);
    }
}

/// A reduced sequence is no longer than the one it comes from, and each of
/// its commands has the operation of the command that it comes from.
pub proof fn lemma_reduction_keeps_order_and_kinds<T: Shrink + Copy>(
    origin: Seq<int>,
    input: Seq<QueueCommand<T>>,
    output: Seq<QueueCommand<T>>,
)
    requires
        reduces_by(origin, input, output),
    ensures
        output.len() <= input.len(),
        forall|j: int|
            0 <= j < output.len() ==> (#[trigger] output[j]).kind_spec()
                == input[origin[j]].kind_spec(),
{
    assert forall|j: int| 0 <= j < output.len() implies (#[trigger] output[j]).kind_spec()
        == input[origin[j]].kind_spec() by {
        lemma_shrinking_keeps_kind(input[origin[j]], output[j]);
    }
    lemma_rising_positions_fit(origin, input.len() as int, origin.len() as int);
}

/// Positions that rise and lie below `bound` are at most `bound` many.
proof fn lemma_rising_positions_fit(origin: Seq<int>, bound: int, count: int)
    requires
        0 <= count <= origin.len(),
        0 <= bound,
        forall|j: int| 0 <= j < origin.len() ==> 0 <= #[trigger] origin[j] < bound,
        forall|i: int, j: int| 0 <= i < j < origin.len() ==> origin[i] < origin[j],
    ensures
        count <= bound,
        count > 0 ==> origin[count - 1] >= count - 1,
    decreases count,
{
    if count > 0 {
        lemma_rising_positions_fit(origin, bound, count - 1);
        if count > 1 {
            assert(origin[count - 2] < origin[count - 1]);
        }
        assert(0 <= origin[count - 1] < bound);
    }
}

} // verus!

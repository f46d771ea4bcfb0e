//! The execution loop: it folds a command sequence over a system under test
//! and its model, and stops at the first postcondition that does not hold.

use vstd::prelude::*;
use crate::command::{Command, Snapshot};

verus! {

/// How a run ends, over the views of the states.
pub enum Outcome<C, SV, MV> {
    /// Every applied command met its postcondition; the states are the final ones.
    Passed { actual: SV, model: MV },
    /// The command at position `at` was applied and its postcondition did not hold.
    Failed { at: int, command: C, actual_old: SV, actual_new: SV, model_old: MV, model_new: MV },
}

impl<C, SV, MV> Outcome<C, SV, MV> {
    /// The model's state at the end of the run.
    pub open spec fn last_model(self) -> MV {
        match self {
            Outcome::Passed { model, .. } => model,
            Outcome::Failed { model_new, .. } => model_new,
        }
    }

    /// The system's state at the end of the run.
    pub open spec fn last_actual(self) -> SV {
        match self {
            Outcome::Passed { actual, .. } => actual,
            Outcome::Failed { actual_new, .. } => actual_new,
        }
    }
}

/// How a run ended, with the states themselves.
#[derive(Debug)]
pub enum Verdict<C, S, M> {
    Passed { actual: S, model: M },
    Failed { at: usize, command: C, actual_old: S, actual_new: S, model_old: M, model_new: M },
}

impl<C, S: View, M: View> View for Verdict<C, S, M> {
    type V = Outcome<C, S::V, M::V>;

    open spec fn view(&self) -> Outcome<C, S::V, M::V> {
        match *self {
            Verdict::Passed { actual, model } => Outcome::Passed { actual: actual@, model: model@ },
            Verdict::Failed { at, command, actual_old, actual_new, model_old, model_new } => {
                Outcome::Failed {
                    at: at as int,
                    command,
                    actual_old: actual_old@,
                    actual_new: actual_new@,
                    model_old: model_old@,
                    model_new: model_new@,
                }
            },
        }
    }
}

/// The run of `commands` from position `at` on, started in the given states.
/// A command whose precondition does not hold is passed over; any other is
/// applied to the system, then to the model, and then judged.
pub open spec fn outcome_from<C: Command<S, M>, S: View, M: View>(
    commands: Seq<C>,
    at: int,
    actual: S::V,
    model: M::V,
) -> Outcome<C, S::V, M::V>
    decreases commands.len() - at,
{
    if at < 0 || at >= commands.len() {
        Outcome::Passed { actual, model }
    } else if !commands[at].pre_spec(actual, model) {
        outcome_from::<C, S, M>(commands, at + 1, actual, model)
    } else {
        let command = commands[at].observed(actual);
        let actual_new = commands[at].actual_spec(actual);
        let model_new = command.model_spec(model);
        if command.post_spec(actual, actual_new, model, model_new) {
            outcome_from::<C, S, M>(commands, at + 1, actual_new, model_new)
        } else {
            Outcome::Failed {
                at,
                command,
                actual_old: actual,
                actual_new,
                model_old: model,
                model_new,
            }
        }
    }
}

/// The run of the whole sequence.
pub open spec fn outcome<C: Command<S, M>, S: View, M: View>(
    commands: Seq<C>,
    actual: S::V,
    model: M::V,
) -> Outcome<C, S::V, M::V> {
    outcome_from::<C, S, M>(commands, 0, actual, model)
}

/// The commands that the run from `at` on applies, each as it is after it
/// was applied, in order. A command that is passed over is not among them;
/// one whose postcondition fails is the last.
pub open spec fn applied_from<C: Command<S, M>, S: View, M: View>(
    commands: Seq<C>,
    at: int,
    actual: S::V,
    model: M::V,
) -> Seq<C>
    decreases commands.len() - at,
{
    if at < 0 || at >= commands.len() {
        Seq::empty()
    } else if !commands[at].pre_spec(actual, model) {
        applied_from::<C, S, M>(commands, at + 1, actual, model)
    } else {
        let command = commands[at].observed(actual);
        let actual_new = commands[at].actual_spec(actual);
        let model_new = command.model_spec(model);
        if command.post_spec(actual, actual_new, model, model_new) {
            seq![command] + applied_from::<C, S, M>(commands, at + 1, actual_new, model_new)
        } else {
            seq![command]
        }
    }
}

/// The model after the updates of `applied`, made in order and once each.
pub open spec fn model_after<C: Command<S, M>, S: View, M: View>(
    applied: Seq<C>,
    model: M::V,
) -> M::V
    decreases applied.len(),
{
    if applied.len() == 0 {
        model
    } else {
        model_after::<C, S, M>(applied.drop_first(), applied.first().model_spec(model))
    }
}

/// Whether the precondition of every command that the run from `at` on
/// reaches holds, so that none is passed over.
pub open spec fn legal_from<C: Command<S, M>, S: View, M: View>(
    commands: Seq<C>,
    at: int,
    actual: S::V,
    model: M::V,
) -> bool
    decreases commands.len() - at,
{
    if at < 0 || at >= commands.len() {
        true
    } else {
        let command = commands[at].observed(actual);
        let actual_new = commands[at].actual_spec(actual);
        let model_new = command.model_spec(model);
        &&& commands[at].pre_spec(actual, model)
        &&& command.post_spec(actual, actual_new, model, model_new) ==> legal_from::<C, S, M>(
            commands,
            at + 1,
            actual_new,
            model_new,
        )
    }
}

/// The commands that the whole run applies.
pub open spec fn applied<C: Command<S, M>, S: View, M: View>(
    commands: Seq<C>,
    actual: S::V,
    model: M::V,
) -> Seq<C> {
    applied_from::<C, S, M>(commands, 0, actual, model)
}

/// Whether the whole run passes over no command.
pub open spec fn legal<C: Command<S, M>, S: View, M: View>(
    commands: Seq<C>,
    actual: S::V,
    model: M::V,
) -> bool {
    legal_from::<C, S, M>(commands, 0, actual, model)
}

/// Whether every model update that the run from `at` on makes stays within
/// machine limits.
pub open spec fn fits_from<C: Command<S, M>, S: View, M: View>(
    commands: Seq<C>,
    at: int,
    actual: S::V,
    model: M::V,
) -> bool
    decreases commands.len() - at,
{
    if at < 0 || at >= commands.len() {
        true
    } else if !commands[at].pre_spec(actual, model) {
        fits_from::<C, S, M>(commands, at + 1, actual, model)
    } else {
        let command = commands[at].observed(actual);
        let actual_new = commands[at].actual_spec(actual);
        let model_new = command.model_spec(model);
        &&& command.model_fits(model)
        &&& command.post_spec(actual, actual_new, model, model_new) ==> fits_from::<C, S, M>(
            commands,
            at + 1,
            actual_new,
            model_new,
        )
    }
}

/// Whether every model update of the whole run stays within machine limits.
pub open spec fn fits<C: Command<S, M>, S: View, M: View>(
    commands: Seq<C>,
    actual: S::V,
    model: M::V,
) -> bool {
    fits_from::<C, S, M>(commands, 0, actual, model)
}

/// Runs `commands` in order against `actual` and `model`, and tells how the
/// run ended.
pub fn run<C, S, M>(commands: Vec<C>, actual: S, model: M) -> (verdict: Verdict<C, S, M>) where
    C: Command<S, M>,
    S: Snapshot,
    M: Snapshot,

    requires
        fits::<C, S, M>(commands@, actual@, model@),
    ensures
        verdict@ == outcome::<C, S, M>(commands@, actual@, model@),
{
    let count = commands.len();
    let mut sut = actual;
    let mut reference = model;
    let mut at: usize = 0;
    for command in iter: commands
        invariant
            iter.seq() == commands@,
            count == commands@.len(),
            at == iter.index(),
            fits_from::<C, S, M>(commands@, at as int, sut@, reference@),
            outcome_from::<C, S, M>(commands@, at as int, sut@, reference@) == outcome::<C, S, M>(
                commands@,
                actual@,
                model@,
            ),
    {
        let mut command = command;
        if command.pre(&sut, &reference) {
            let actual_old = sut.snapshot();
            let model_old = reference.snapshot();
            sut = command.actual(sut);
            reference = command.model(reference);
            if !command.post(&actual_old, &sut, &model_old, &reference) {
                return Verdict::Failed {
                    at,
                    command,
                    actual_old,
                    actual_new: sut,
                    model_old,
                    model_new: reference,
                };
            }
        }
        at += 1;
    }
    Verdict::Passed { actual: sut, model: reference }
}

/// Whether the run of `commands` against `actual` and `model` passes.
pub fn confirm_model<C, S, M>(commands: Vec<C>, actual: S, model: M) -> (passed: bool) where
    C: Command<S, M>,
    S: Snapshot,
    M: Snapshot,

    requires
        fits::<C, S, M>(commands@, actual@, model@),
    ensures
        passed == (outcome::<C, S, M>(commands@, actual@, model@) is Passed),
{
    match run(commands, actual, model) {
        Verdict::Passed { .. } => true,
        Verdict::Failed { .. } => false,
    }
}

} // verus!

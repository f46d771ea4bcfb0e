//! The commands that drive a `Queue`, judged against a model that only
//! counts the stored items.

use vstd::prelude::*;
use crate::command::Command;
use crate::queue::{after_reset, Queue};

verus! {

/// The count that the model predicts after a `get`.
pub open spec fn count_after_get(count: usize) -> usize {
    if count == 0 {
        0
    } else {
        (count - 1) as usize
    }
}

/// The items left after a `get`.
pub open spec fn items_after_get<T>(items: Seq<T>) -> Seq<T> {
    if items.len() == 0 {
        items
    } else {
        items.drop_last()
    }
}

/// What a `get` hands back.
pub open spec fn item_got<T>(items: Seq<T>) -> Option<T> {
    if items.len() == 0 {
        None
    } else {
        Some(items.last())
    }
}

/// Resets the queue; the model expects it to be empty afterwards.
#[derive(Clone, Copy, Debug)]
pub struct QueueReset {}

impl<T: Copy> Command<Queue<T>, usize> for QueueReset {
    open spec fn pre_spec(&self, actual: Seq<T>, model: usize) -> bool {
        true
    }

    open spec fn actual_spec(&self, actual: Seq<T>) -> Seq<T> {
        after_reset(actual)
    }

    open spec fn observed(&self, actual: Seq<T>) -> QueueReset {
        *self
    }

    open spec fn model_fits(&self, model: usize) -> bool {
        true
    }

    open spec fn model_spec(&self, model: usize) -> usize {
        0
    }

    open spec fn post_spec(
        &self,
        actual_old: Seq<T>,
        actual_new: Seq<T>,
        model_old: usize,
        model_new: usize,
    ) -> bool {
        model_new == actual_new.len()
    }

    fn pre(&self, _actual: &Queue<T>, _model: &usize) -> (legal: bool) {
        true
    }

    fn post(
        &self,
        _actual_old: &Queue<T>,
        actual_new: &Queue<T>,
        _model_old: &usize,
        model_new: &usize,
    ) -> (holds: bool) {
        *model_new == actual_new.len()
    }

    fn model(&self, _model: usize) -> (next: usize) {
        0
    }

    fn actual(&mut self, actual: Queue<T>) -> (next: Queue<T>) {
        let mut actual = actual;
        actual.reset();
        actual
    }
}

/// Takes one item out of the queue and keeps what came out.
#[derive(Clone, Copy, Debug)]
pub struct QueueGet<T> {
    /// What the queue handed back when the command was applied.
    pub actual_result: Option<T>,
}

impl<T: Copy> Command<Queue<T>, usize> for QueueGet<T> {
    open spec fn pre_spec(&self, actual: Seq<T>, model: usize) -> bool {
        true
    }

    open spec fn actual_spec(&self, actual: Seq<T>) -> Seq<T> {
        items_after_get(actual)
    }

    open spec fn observed(&self, actual: Seq<T>) -> QueueGet<T> {
        QueueGet { actual_result: item_got(actual) }
    }

    open spec fn model_fits(&self, model: usize) -> bool {
        true
    }

    open spec fn model_spec(&self, model: usize) -> usize {
        count_after_get(model)
    }

    open spec fn post_spec(
        &self,
        actual_old: Seq<T>,
        actual_new: Seq<T>,
        model_old: usize,
        model_new: usize,
    ) -> bool {
        model_new == actual_new.len() && (model_old >= 1 ==> self.actual_result.is_some())
    }

    fn pre(&self, _actual: &Queue<T>, _model: &usize) -> (legal: bool) {
        true
    }

    fn post(
        &self,
        _actual_old: &Queue<T>,
        actual_new: &Queue<T>,
        model_old: &usize,
        model_new: &usize,
    ) -> (holds: bool) {
        *model_new == actual_new.len() && (if *model_old >= 1 {
            self.actual_result.is_some()
        } else {
            true
        })
    }

    fn model(&self, model: usize) -> (next: usize) {
        if model == 0 {
            0
        } else {
            model - 1
        }
    }

    fn actual(&mut self, actual: Queue<T>) -> (next: Queue<T>) {
        let mut actual = actual;
        self.actual_result = actual.get();
        actual
    }
}

/// Puts one item into the queue.
#[derive(Clone, Copy, Debug)]
pub struct QueuePush<T> {
    pub input_value: T,
}

impl<T: Copy> Command<Queue<T>, usize> for QueuePush<T> {
    open spec fn pre_spec(&self, actual: Seq<T>, model: usize) -> bool {
        true
    }

    open spec fn actual_spec(&self, actual: Seq<T>) -> Seq<T> {
        actual.push(self.input_value)
    }

    open spec fn observed(&self, actual: Seq<T>) -> QueuePush<T> {
        *self
    }

    open spec fn model_fits(&self, model: usize) -> bool {
        model < usize::MAX
    }

    open spec fn model_spec(&self, model: usize) -> usize {
        (model + 1) as usize
    }

    open spec fn post_spec(
        &self,
        actual_old: Seq<T>,
        actual_new: Seq<T>,
        model_old: usize,
        model_new: usize,
    ) -> bool {
        model_new == actual_new.len()
    }

    fn pre(&self, _actual: &Queue<T>, _model: &usize) -> (legal: bool) {
        true
    }

    fn post(
        &self,
        _actual_old: &Queue<T>,
        actual_new: &Queue<T>,
        _model_old: &usize,
        model_new: &usize,
    ) -> (holds: bool) {
        *model_new == actual_new.len()
    }

    fn model(&self, model: usize) -> (next: usize) {
        model + 1
    }

    fn actual(&mut self, actual: Queue<T>) -> (next: Queue<T>) {
        let mut actual = actual;
        actual.push(self.input_value);
        actual
    }
}

/// A queue command as it is generated: the operation and what it needs, with
/// no room yet for what applying it will show.
#[derive(Clone, Copy, Debug, PartialEq, Eq)]
pub enum QueueCommand<T> {
    Get,
    Push(T),
    Reset,
}

/// A queue command ready to be applied: one of the three commands.
#[derive(Clone, Copy, Debug)]
pub enum QueueStep<T> {
    Get(QueueGet<T>),
    Push(QueuePush<T>),
    Reset(QueueReset),
}

impl<T: Copy> QueueCommand<T> {
    /// The command that applies this operation; a `Get` has seen nothing yet.
    pub open spec fn step(self) -> QueueStep<T> {
        match self {
            QueueCommand::Get => QueueStep::Get(QueueGet { actual_result: None }),
            QueueCommand::Push(value) => QueueStep::Push(QueuePush { input_value: value }),
            QueueCommand::Reset => QueueStep::Reset(QueueReset {  }),
        }
    }

    pub fn into(self) -> (step: QueueStep<T>)
        ensures
            step == self.step(),
    {
        match self {
            QueueCommand::Get => QueueStep::Get(QueueGet { actual_result: None }),
            QueueCommand::Push(value) => QueueStep::Push(QueuePush { input_value: value }),
            QueueCommand::Reset => QueueStep::Reset(QueueReset {  }),
        }
    }
}

/// The commands that apply `commands`, in the same order.
pub open spec fn steps<T: Copy>(commands: Seq<QueueCommand<T>>) -> Seq<QueueStep<T>> {
    Seq::new(commands.len(), |at: int| commands[at].step())
}

/// Makes each of `commands` ready to be applied.
pub fn into_steps<T: Copy>(commands: &Vec<QueueCommand<T>>) -> (ready: Vec<QueueStep<T>>)
    ensures
        ready@ == steps(commands@),
{
    let mut ready: Vec<QueueStep<T>> = Vec::new();
    let mut at: usize = 0;
    while at < commands.len()
        invariant
            at <= commands@.len(),
            ready@ == steps(commands@.take(at as int)),
        decreases commands@.len() - at,
    {
        ready.push(commands[at].into());
        assert(ready@ =~= steps(commands@.take(at + 1)));
        at += 1;
    }
    assert(commands@.take(at as int) =~= commands@);
    ready
}

impl<T: Copy> Command<Queue<T>, usize> for QueueStep<T> {
    open spec fn pre_spec(&self, actual: Seq<T>, model: usize) -> bool {
        match *self {
            QueueStep::Get(get) => Command::<Queue<T>, usize>::pre_spec(&get, actual, model),
            QueueStep::Push(push) => Command::<Queue<T>, usize>::pre_spec(&push, actual, model),
            QueueStep::Reset(reset) => Command::<Queue<T>, usize>::pre_spec(&reset, actual, model),
        }
    }

    open spec fn actual_spec(&self, actual: Seq<T>) -> Seq<T> {
        match *self {
            QueueStep::Get(get) => Command::<Queue<T>, usize>::actual_spec(&get, actual),
            QueueStep::Push(push) => Command::<Queue<T>, usize>::actual_spec(&push, actual),
            QueueStep::Reset(reset) => Command::<Queue<T>, usize>::actual_spec(&reset, actual),
        }
    }

    open spec fn observed(&self, actual: Seq<T>) -> QueueStep<T> {
        match *self {
            QueueStep::Get(get) => QueueStep::Get(
                Command::<Queue<T>, usize>::observed(&get, actual),
            ),
            QueueStep::Push(push) => QueueStep::Push(
                Command::<Queue<T>, usize>::observed(&push, actual),
            ),
            QueueStep::Reset(reset) => QueueStep::Reset(
                Command::<Queue<T>, usize>::observed(&reset, actual),
            ),
        }
    }

    open spec fn model_fits(&self, model: usize) -> bool {
        match *self {
            QueueStep::Get(get) => Command::<Queue<T>, usize>::model_fits(&get, model),
            QueueStep::Push(push) => Command::<Queue<T>, usize>::model_fits(&push, model),
            QueueStep::Reset(reset) => Command::<Queue<T>, usize>::model_fits(&reset, model),
        }
    }

    open spec fn model_spec(&self, model: usize) -> usize {
        match *self {
            QueueStep::Get(get) => Command::<Queue<T>, usize>::model_spec(&get, model),
            QueueStep::Push(push) => Command::<Queue<T>, usize>::model_spec(&push, model),
            QueueStep::Reset(reset) => Command::<Queue<T>, usize>::model_spec(&reset, model),
        }
    }

    open spec fn post_spec(
        &self,
        actual_old: Seq<T>,
        actual_new: Seq<T>,
        model_old: usize,
        model_new: usize,
    ) -> bool {
        match *self {
            QueueStep::Get(get) => Command::<Queue<T>, usize>::post_spec(
                &get,
                actual_old,
                actual_new,
                model_old,
                model_new,
            ),
            QueueStep::Push(push) => Command::<Queue<T>, usize>::post_spec(
                &push,
                actual_old,
                actual_new,
                model_old,
                model_new,
            ),
            QueueStep::Reset(reset) => Command::<Queue<T>, usize>::post_spec(
                &reset,
                actual_old,
                actual_new,
                model_old,
                model_new,
            ),
        }
    }

    fn pre(&self, actual: &Queue<T>, model: &usize) -> (legal: bool) {
        match self {
            QueueStep::Get(get) => get.pre(actual, model),
            QueueStep::Push(push) => push.pre(actual, model),
            QueueStep::Reset(reset) => reset.pre(actual, model),
        }
    }

    fn post(
        &self,
        actual_old: &Queue<T>,
        actual_new: &Queue<T>,
        model_old: &usize,
        model_new: &usize,
    ) -> (holds: bool) {
        match self {
            QueueStep::Get(get) => get.post(actual_old, actual_new, model_old, model_new),
            QueueStep::Push(push) => push.post(actual_old, actual_new, model_old, model_new),
            QueueStep::Reset(reset) => reset.post(actual_old, actual_new, model_old, model_new),
        }
    }

    fn model(&self, model: usize) -> (next: usize) {
        match self {
            QueueStep::Get(get) => Command::<Queue<T>, usize>::model(get, model),
            QueueStep::Push(push) => Command::<Queue<T>, usize>::model(push, model),
            QueueStep::Reset(reset) => Command::<Queue<T>, usize>::model(reset, model),
        }
    }

    fn actual(&mut self, actual: Queue<T>) -> (next: Queue<T>) {
        match self {
            QueueStep::Get(get) => get.actual(actual),
            QueueStep::Push(push) => push.actual(actual),
            QueueStep::Reset(reset) => reset.actual(actual),
        }
    }
}

} // verus!

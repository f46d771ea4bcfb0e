//! Random commands and their simpler variants. The random numbers come from
//! `rand`, the simpler variants of an integer from `quickcheck`.

use vstd::prelude::*;
use quickcheck::StdGen;
use rand::StdRng;
use crate::queue_commands::QueueCommand;
use crate::search::Shrink;

verus! {

/// `quickcheck::StdGen`, the generator that commands are drawn from. Nothing
/// is claimed of what it holds.
#[verifier::external_type_specification]
#[verifier::external_body]
#[verifier::reject_recursive_types(R)]
pub struct ExStdGen<R>(StdGen<R>);

/// `rand::StdRng`, the source of random numbers inside the generator.
/// Nothing is claimed of what it holds.
#[verifier::external_type_specification]
#[verifier::external_body]
pub struct ExStdRng(StdRng);

/// `rand::Rng::gen_range(0, bound)` on the generator. The contract claims
/// what its documentation gives: the number drawn lies in `[0, bound)`; the
/// call panics unless `0 < bound`.
#[verifier::external_body]
fn draw_below(g: &mut StdGen<StdRng>, bound: usize) -> (drawn: usize)
    requires
        bound > 0,
    ensures
        drawn < bound,
{
    rand::Rng::gen_range(g, 0, bound)
}

/// `rand::Rng::gen::<i32>` on the generator. Any `i32` may come back, so the
/// contract claims nothing.
#[verifier::external_body]
fn draw_i32(g: &mut StdGen<StdRng>) -> (drawn: i32) {
    rand::Rng::gen::<i32>(g)
}

/// What quickcheck's shrinker for `i32` yields for `value`, in its order.
pub uninterp spec fn shrunk_i32(value: i32) -> Seq<i32>;

/// How far an integer is from zero, a negative one counting as further than
/// its positive twin.
pub open spec fn rank_i32(value: i32) -> nat {
    if value < 0 {
        (-2 * value + 1) as nat
    } else {
        (2 * value) as nat
    }
}

/// Whether `candidate` is zero, or the positive twin of a negative `value`,
/// or nearer to zero than `value`.
pub open spec fn nearer_zero(candidate: i32, value: i32) -> bool {
    ||| candidate == 0 && value != 0
    ||| value < 0 && candidate == -value
    ||| vstd::math::abs(candidate as int) < vstd::math::abs(value as int)
}

/// `<i32 as quickcheck::Arbitrary>::shrink`, collected. The contract names
/// the sequence that comes out and claims of it what the shrinker's source
/// shows: it starts with zero, adds the absolute value of a negative number,
/// and goes on only with numbers whose absolute value is below that of
/// `value`. On `i32::MIN` the shrinker takes an absolute value that does not
/// exist, so that input is left out.
#[verifier::external_body]
fn shrink_i32(value: i32) -> (smaller: Vec<i32>)
    requires
        value != i32::MIN,
    ensures
        smaller@ == shrunk_i32(value),
        forall|k: int| 0 <= k < smaller@.len() ==> nearer_zero(#[trigger] smaller@[k], value),
{
    quickcheck::Arbitrary::shrink(&value).collect()
}

impl Shrink for i32 {
    open spec fn rank(&self) -> nat {
        rank_i32(*self)
    }

    open spec fn candidates(&self) -> Seq<i32> {
        shrunk_i32(*self)
    }

    open spec fn shrinkable(&self) -> bool {
        *self != i32::MIN
    }

    fn shrink(&self) -> (smaller: Vec<i32>) {
        shrink_i32(*self)
    }
}

impl Shrink for () {
    open spec fn rank(&self) -> nat {
        0
    }

    open spec fn candidates(&self) -> Seq<()> {
        Seq::empty()
    }

    open spec fn shrinkable(&self) -> bool {
        true
    }

    fn shrink(&self) -> (smaller: Vec<()>) {
        Vec::new()
    }
}

/// The simpler variants of a command: those of a `Push` are the pushes of the
/// simpler payloads, and the other commands have none.
pub open spec fn command_candidates<T: Shrink + Copy>(command: QueueCommand<T>) -> Seq<QueueCommand<T>> {
    match command {
        QueueCommand::Push(value) => Seq::new(
            value.candidates().len(),
            |k: int| QueueCommand::Push(value.candidates()[k]),
        ),
        _ => Seq::empty(),
    }
}

impl<T: Shrink + Copy> Shrink for QueueCommand<T> {
    open spec fn rank(&self) -> nat {
        match *self {
            QueueCommand::Push(value) => value.rank(),
            _ => 0,
        }
    }

    open spec fn candidates(&self) -> Seq<QueueCommand<T>> {
        command_candidates(*self)
    }

    open spec fn shrinkable(&self) -> bool {
        match *self {
            QueueCommand::Push(value) => value.shrinkable(),
            _ => true,
        }
    }

    fn shrink(&self) -> (smaller: Vec<QueueCommand<T>>) {
        let mut smaller: Vec<QueueCommand<T>> = Vec::new();
        match self {
            QueueCommand::Get => {},
            QueueCommand::Reset => {},
            QueueCommand::Push(value) => {
                let payloads = value.shrink();
                let mut at: usize = 0;
                while at < payloads.len()
                    invariant
                        at <= payloads@.len(),
                        payloads@ == value.candidates(),
                        *self == QueueCommand::Push(*value),
                        smaller@ == command_candidates(*self).take(at as int),
                    decreases payloads@.len() - at,
                {
                    smaller.push(QueueCommand::Push(payloads[at]));
                    assert(smaller@ =~= command_candidates(*self).take(at + 1));
                    at += 1;
                }
                assert(smaller@ =~= command_candidates(*self));
            },
        }
        smaller
    }
}

/// A payload that can be drawn at random.
pub trait Payload: Shrink {
    fn arbitrary(g: &mut StdGen<StdRng>) -> Self;
}

impl Payload for i32 {
    fn arbitrary(g: &mut StdGen<StdRng>) -> i32 {
        draw_i32(g)
    }
}

impl Payload for () {
    fn arbitrary(_g: &mut StdGen<StdRng>) -> () {
        ()
    }
}

/// The three operations, without their payloads.
#[derive(Clone, Copy, Debug, PartialEq, Eq, Structural)]
pub enum CommandKind {
    Get,
    Push,
    Reset,
}

/// How many operations there are to draw from.
pub const KINDS: usize = 3;

/// The operation that a draw of `index` stands for.
pub open spec fn kind_at(index: usize) -> CommandKind {
    if index == 0 {
        CommandKind::Get
    } else if index == 1 {
        CommandKind::Push
    } else {
        CommandKind::Reset
    }
}

/// Tells which operation a number drawn below `KINDS` stands for.
pub fn kind_of_draw(index: usize) -> (kind: CommandKind)
    requires
        index < KINDS,
    ensures
        kind == kind_at(index),
{
    if index == 0 {
        CommandKind::Get
    } else if index == 1 {
        CommandKind::Push
    } else {
        CommandKind::Reset
    }
}

impl<T> QueueCommand<T> {
    /// The command's operation.
    pub open spec fn kind_spec(&self) -> CommandKind {
        match *self {
            QueueCommand::Get => CommandKind::Get,
            QueueCommand::Push(_) => CommandKind::Push,
            QueueCommand::Reset => CommandKind::Reset,
        }
    }

    pub fn kind(&self) -> (kind: CommandKind)
        ensures
            kind == self.kind_spec(),
    {
        match self {
            QueueCommand::Get => CommandKind::Get,
            QueueCommand::Push(_) => CommandKind::Push,
            QueueCommand::Reset => CommandKind::Reset,
        }
    }
}

impl<T: Payload + Copy> QueueCommand<T> {
    /// Draws one of the three operations, each as likely as the others, and
    /// for a `Push` a payload.
    pub fn arbitrary(g: &mut StdGen<StdRng>) -> (command: QueueCommand<T>) {
        let index = draw_below(g, KINDS);
        match kind_of_draw(index) {
            CommandKind::Get => QueueCommand::Get,
            CommandKind::Push => QueueCommand::Push(T::arbitrary(g)),
            CommandKind::Reset => QueueCommand::Reset,
        }
    }
}

} // verus!

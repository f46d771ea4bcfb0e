//! The search for a smaller failing input: values that know their simpler
//! variants, properties that judge a sequence of them, and the search that
//! edits a failing sequence until no single edit still fails.

use vstd::prelude::*;

verus! {

/// A value that can offer simpler variants of itself.
pub trait Shrink: Sized {
    /// A measure that every candidate lowers, so that shrinking ends.
    spec fn rank(&self) -> nat;

    /// The simpler variants, in the order in which they are to be tried.
    spec fn candidates(&self) -> Seq<Self>;

    /// Whether the value's variants can be computed.
    spec fn shrinkable(&self) -> bool;

    fn shrink(&self) -> (smaller: Vec<Self>)
        requires
            self.shrinkable(),
        ensures
            smaller@ == self.candidates(),
            forall|k: int|
                0 <= k < smaller@.len() ==> (#[trigger] smaller@[k]).rank() < self.rank()
                    && smaller@[k].shrinkable(),
    ;
}

/// A property of sequences: what a test checks of one generated input.
pub trait Property<G> {
    /// Whether the property holds of `input`.
    spec fn holds(&self, input: Seq<G>) -> bool;

    fn check(&self, input: &Vec<G>) -> (passed: bool)
        ensures
            passed == self.holds(input@),
    ;
}

/// Whether every single edit of `input` satisfies the property: each
/// sequence that lacks one element of it, and each that has one element
/// replaced by one of that element's candidates.
pub open spec fn minimal<G: Shrink, P: Property<G>>(property: &P, input: Seq<G>) -> bool {
    &&& forall|at: int| 0 <= at < input.len() ==> property.holds(#[trigger] input.remove(at))
    &&& forall|at: int, k: int|
        0 <= at < input.len() && 0 <= k < input[at].candidates().len() ==> property.holds(
            #[trigger] input.update(at, input[at].candidates()[k]),
        )
}

/// Whether `to` is `from` or comes out of it by shrinking, in any number of
/// steps that each lower the rank.
pub open spec fn shrinks_to<G: Shrink>(from: G, to: G) -> bool
    decreases from.rank(),
{
    from == to || exists|k: int|
        0 <= k < from.candidates().len() && (#[trigger] from.candidates()[k]).rank() < from.rank()
            && shrinks_to(from.candidates()[k], to)
}

/// Whether `origin` tells, for each element of `output`, the position in
/// `input` of the element that it is or was shrunk from, the positions rising.
pub open spec fn reduces_by<G: Shrink>(origin: Seq<int>, input: Seq<G>, output: Seq<G>) -> bool {
    &&& origin.len() == output.len()
    &&& forall|j: int| 0 <= j < origin.len() ==> 0 <= #[trigger] origin[j] < input.len()
    &&& forall|i: int, j: int| 0 <= i < j < origin.len() ==> origin[i] < origin[j]
    &&& forall|j: int|
        0 <= j < output.len() ==> shrinks_to(input[origin[j]], #[trigger] output[j])
}

/// Whether `output` is what is left of `input` after some elements were taken
/// out and others shrunk, the order kept.
pub open spec fn reduces<G: Shrink>(input: Seq<G>, output: Seq<G>) -> bool {
    exists|origin: Seq<int>| reduces_by(origin, input, output)
}

/// The size of a sequence for the search: one for each element, and each
/// element's rank.
pub open spec fn weight<G: Shrink>(input: Seq<G>) -> nat
    decreases input.len(),
{
    if input.len() == 0 {
        0
    } else {
        weight(input.drop_last()) + input.last().rank() + 1
    }
}

/// Whether the candidates of every element can be computed.
pub open spec fn all_shrinkable<G: Shrink>(input: Seq<G>) -> bool {
    forall|at: int| 0 <= at < input.len() ==> (#[trigger] input[at]).shrinkable()
}

proof fn lemma_shrinks_to_transitive<G: Shrink>(a: G, b: G, c: G)
    requires
        shrinks_to(a, b),
        shrinks_to(b, c),
    ensures
        shrinks_to(a, c),
    decreases a.rank(),
{
    if a != b {
        let k = choose|k: int|
            0 <= k < a.candidates().len() && (#[trigger] a.candidates()[k]).rank() < a.rank()
                && shrinks_to(a.candidates()[k], b);
        lemma_shrinks_to_transitive(a.candidates()[k], b, c);
    }
}

proof fn lemma_weight_remove<G: Shrink>(input: Seq<G>, at: int)
    requires
        0 <= at < input.len(),
    ensures
        weight(input.remove(at)) + input[at].rank() + 1 == weight(input),
    decreases input.len(),
{
    if at == input.len() - 1 {
        assert(input.remove(at) =~= input.drop_last());
    } else {
        lemma_weight_remove(input.drop_last(), at);
        assert(input.remove(at).drop_last() =~= input.drop_last().remove(at));
        assert(input.remove(at).last() == input.last());
    }
}

proof fn lemma_weight_update<G: Shrink>(input: Seq<G>, at: int, value: G)
    requires
        0 <= at < input.len(),
    ensures
        weight(input.update(at, value)) + input[at].rank() == weight(input) + value.rank(),
    decreases input.len(),
{
    if at == input.len() - 1 {
        assert(input.update(at, value).drop_last() =~= input.drop_last());
    } else {
        lemma_weight_update(input.drop_last(), at, value);
        assert(input.update(at, value).drop_last() =~= input.drop_last().update(at, value));
    }
}

proof fn lemma_reduces_reflexive<G: Shrink>(input: Seq<G>)
    ensures
        reduces(input, input),
{
    let origin = Seq::new(input.len(), |j: int| j);
    assert(reduces_by(origin, input, input));
}

proof fn lemma_reduces_transitive<G: Shrink>(first: Seq<G>, second: Seq<G>, third: Seq<G>)
    requires
        reduces(first, second),
        reduces(second, third),
    ensures
        reduces(first, third),
{
    let early = choose|origin: Seq<int>| reduces_by(origin, first, second);
    let late = choose|origin: Seq<int>| reduces_by(origin, second, third);
    let origin = Seq::new(third.len(), |j: int| early[late[j]]);
    assert forall|j: int| 0 <= j < third.len() implies shrinks_to(
        first[origin[j]],
        #[trigger] third[j],
    ) by {
        lemma_shrinks_to_transitive(first[early[late[j]]], second[late[j]], third[j]);
    }
    assert(reduces_by(origin, first, third));
}

proof fn lemma_reduces_remove<G: Shrink>(input: Seq<G>, at: int)
    requires
        0 <= at < input.len(),
    ensures
        reduces(input, input.remove(at)),
{
    let origin = Seq::new(
        (input.len() - 1) as nat,
        |j: int|
            if j < at {
                j
            } else {
                j + 1
            },
    );
    assert(reduces_by(origin, input, input.remove(at)));
}

proof fn lemma_reduces_update<G: Shrink>(input: Seq<G>, at: int, k: int)
    requires
        0 <= at < input.len(),
        0 <= k < input[at].candidates().len(),
        input[at].candidates()[k].rank() < input[at].rank(),
    ensures
        reduces(input, input.update(at, input[at].candidates()[k])),
{
    let origin = Seq::new(input.len(), |j: int| j);
    let output = input.update(at, input[at].candidates()[k]);
    assert(shrinks_to(output[at], output[at]));
    assert(shrinks_to(input[at], output[at]));
    assert(reduces_by(origin, input, output));
}

/// What follows when the property fails on `current` without its element at
/// `at`: the shorter sequence is a lighter reduction of `origin`, and
/// `current` was not minimal.
proof fn lemma_removal_kept<G: Shrink, P: Property<G>>(
    property: &P,
    origin: Seq<G>,
    current: Seq<G>,
    at: int,
)
    requires
        0 <= at < current.len(),
        all_shrinkable(current),
        reduces(origin, current),
        !property.holds(current.remove(at)),
    ensures
        all_shrinkable(current.remove(at)),
        reduces(origin, current.remove(at)),
        weight(current.remove(at)) < weight(current),
        !minimal(property, current),
{
    lemma_weight_remove(current, at);
    lemma_reduces_remove(current, at);
    lemma_reduces_transitive(origin, current, current.remove(at));
    let rest = current.remove(at);
    assert forall|j: int| 0 <= j < rest.len() implies (#[trigger] rest[j]).shrinkable() by {
        if j < at {
            assert(rest[j] == current[j]);
        } else {
            assert(rest[j] == current[j + 1]);
        }
    }
}

/// What follows when the property fails on `current` with the candidate
/// number `k` in the place of its element at `at`.
proof fn lemma_replacement_kept<G: Shrink, P: Property<G>>(
    property: &P,
    current: Seq<G>,
    at: int,
    k: int,
)
    requires
        0 <= at < current.len(),
        0 <= k < current[at].candidates().len(),
        current[at].candidates()[k].rank() < current[at].rank(),
        current[at].candidates()[k].shrinkable(),
        all_shrinkable(current),
        !property.holds(current.update(at, current[at].candidates()[k])),
    ensures
        all_shrinkable(current.update(at, current[at].candidates()[k])),
        reduces(current, current.update(at, current[at].candidates()[k])),
        weight(current.update(at, current[at].candidates()[k])) < weight(current),
        !minimal(property, current),
{
    lemma_weight_update(current, at, current[at].candidates()[k]);
    lemma_reduces_update(current, at, k);
}

/// A copy of `input` that lacks the element at `at`.
fn copy_without<G: Copy>(input: &Vec<G>, at: usize) -> (rest: Vec<G>)
    requires
        at < input@.len(),
    ensures
        rest@ == input@.remove(at as int),
{
    let mut rest: Vec<G> = Vec::new();
    let mut from: usize = 0;
    while from < input.len()
        invariant
            at < input@.len(),
            from <= input@.len(),
            from <= at ==> rest@ == input@.take(from as int),
            from > at ==> rest@ == input@.remove(at as int).take(from - 1),
        decreases input@.len() - from,
    {
        if from != at {
            rest.push(input[from]);
        }
        from += 1;
        proof {
            if from <= at {
                assert(rest@ =~= input@.take(from as int));
            } else {
                assert(rest@ =~= input@.remove(at as int).take(from - 1));
            }
        }
    }
    assert(rest@ =~= input@.remove(at as int));
    rest
}

/// A copy of `input` with `value` in place of the element at `at`.
fn copy_with<G: Copy>(input: &Vec<G>, at: usize, value: G) -> (edited: Vec<G>)
    requires
        at < input@.len(),
    ensures
        edited@ == input@.update(at as int, value),
{
    let mut edited: Vec<G> = Vec::new();
    let mut from: usize = 0;
    while from < input.len()
        invariant
            at < input@.len(),
            from <= input@.len(),
            edited@ == input@.update(at as int, value).take(from as int),
        decreases input@.len() - from,
    {
        if from != at {
            edited.push(input[from]);
        } else {
            edited.push(value);
        }
        from += 1;
        assert(edited@ =~= input@.update(at as int, value).take(from as int));
    }
    assert(edited@ =~= input@.update(at as int, value));
    edited
}

/// Tries to take each element out in turn, and keeps every removal after
/// which the property still fails.
fn remove_pass<G: Shrink + Copy, P: Property<G>>(
    property: &P,
    current: &mut Vec<G>,
) -> (changed: bool)
    requires
        !property.holds(old(current)@),
        all_shrinkable(old(current)@),
    ensures
        !property.holds(final(current)@),
        all_shrinkable(final(current)@),
        reduces(old(current)@, final(current)@),
        weight(final(current)@) <= weight(old(current)@),
        changed ==> weight(final(current)@) < weight(old(current)@),
        changed ==> !minimal(property, old(current)@),
        !changed ==> final(current)@ == old(current)@,
        !changed ==> forall|at: int|
            0 <= at < old(current)@.len() ==> property.holds(#[trigger] old(current)@.remove(at)),
{
    let mut changed = false;
    let mut at: usize = 0;
    proof {
        lemma_reduces_reflexive(current@);
    }
    while at < current.len()
        invariant
            at <= current@.len(),
            !property.holds(current@),
            all_shrinkable(current@),
            reduces(old(current)@, current@),
            weight(current@) <= weight(old(current)@),
            changed ==> weight(current@) < weight(old(current)@),
            changed ==> !minimal(property, old(current)@),
            !changed ==> current@ == old(current)@,
            !changed ==> forall|j: int|
                0 <= j < at ==> property.holds(#[trigger] old(current)@.remove(j)),
        decreases current@.len() - at,
    {
        let candidate = copy_without(current, at);
        if property.check(&candidate) {
            at += 1;
        } else {
            proof {
                lemma_removal_kept(property, old(current)@, current@, at as int);
            }
            *current = candidate;
            changed = true;
        }
    }
    changed
}

/// Tries each candidate of the element at `at` in its place, and keeps the
/// first with which the property still fails.
fn replace_at<G: Shrink + Copy, P: Property<G>>(
    property: &P,
    current: &mut Vec<G>,
    at: usize,
) -> (accepted: bool)
    requires
        at < old(current)@.len(),
        !property.holds(old(current)@),
        all_shrinkable(old(current)@),
    ensures
        !property.holds(final(current)@),
        all_shrinkable(final(current)@),
        final(current)@.len() == old(current)@.len(),
        reduces(old(current)@, final(current)@),
        accepted ==> weight(final(current)@) < weight(old(current)@),
        accepted ==> !minimal(property, old(current)@),
        !accepted ==> final(current)@ == old(current)@,
        !accepted ==> forall|k: int|
            0 <= k < old(current)@[at as int].candidates().len() ==> property.holds(
                #[trigger] old(current)@.update(
                    at as int,
                    old(current)@[at as int].candidates()[k],
                ),
            ),
{
    let smaller = current[at].shrink();
    let mut k: usize = 0;
    while k < smaller.len()
        invariant
            k <= smaller@.len(),
            at < current@.len(),
            current@ == old(current)@,
            !property.holds(current@),
            all_shrinkable(current@),
            smaller@ == current@[at as int].candidates(),
            forall|j: int|
                0 <= j < smaller@.len() ==> (#[trigger] smaller@[j]).rank() < current@[at as int].rank()
                    && smaller@[j].shrinkable(),
            forall|j: int|
                0 <= j < k ==> property.holds(
                    #[trigger] current@.update(at as int, current@[at as int].candidates()[j]),
                ),
        decreases smaller@.len() - k,
    {
        let candidate = copy_with(current, at, smaller[k]);
        if property.check(&candidate) {
            k += 1;
        } else {
            proof {
                lemma_replacement_kept(property, current@, at as int, k as int);
            }
            *current = candidate;
            return true;
        }
    }
    proof {
        lemma_reduces_reflexive(current@);
    }
    false
}

/// Tries, for each element in turn, to put one of its candidates in its
/// place, and keeps every replacement with which the property still fails.
fn replace_pass<G: Shrink + Copy, P: Property<G>>(
    property: &P,
    current: &mut Vec<G>,
) -> (changed: bool)
    requires
        !property.holds(old(current)@),
        all_shrinkable(old(current)@),
    ensures
        !property.holds(final(current)@),
        all_shrinkable(final(current)@),
        reduces(old(current)@, final(current)@),
        weight(final(current)@) <= weight(old(current)@),
        changed ==> weight(final(current)@) < weight(old(current)@),
        changed ==> !minimal(property, old(current)@),
        !changed ==> final(current)@ == old(current)@,
        !changed ==> forall|at: int, k: int|
            0 <= at < old(current)@.len() && 0 <= k < old(current)@[at].candidates().len()
                ==> property.holds(
                #[trigger] old(current)@.update(at, old(current)@[at].candidates()[k]),
            ),
{
    let mut changed = false;
    let mut at: usize = 0;
    proof {
        lemma_reduces_reflexive(current@);
    }
    while at < current.len()
        invariant
            at <= current@.len(),
            !property.holds(current@),
            all_shrinkable(current@),
            reduces(old(current)@, current@),
            weight(current@) <= weight(old(current)@),
            changed ==> weight(current@) < weight(old(current)@),
            changed ==> !minimal(property, old(current)@),
            !changed ==> current@ == old(current)@,
            !changed ==> forall|j: int, k: int|
                0 <= j < at && 0 <= k < old(current)@[j].candidates().len() ==> property.holds(
                    #[trigger] old(current)@.update(j, old(current)@[j].candidates()[k]),
                ),
        decreases current@.len() - at,
    {
        let ghost before = current@;
        let accepted = replace_at(property, current, at);
        proof {
            lemma_reduces_transitive(old(current)@, before, current@);
        }
        if accepted {
            changed = true;
        }
        at += 1;
    }
    changed
}

/// Edits a failing `input` until no single edit of it fails any more: first
/// it takes elements out, then it puts candidates in the place of elements,
/// and it starts over as long as a round changed anything.
pub fn shrink_failure<G: Shrink + Copy, P: Property<G>>(
    property: &P,
    input: Vec<G>,
) -> (smallest: Vec<G>)
    requires
        !property.holds(input@),
        all_shrinkable(input@),
    ensures
        !property.holds(smallest@),
        minimal(property, smallest@),
        reduces(input@, smallest@),
        minimal(property, input@) ==> smallest@ == input@,
{
    let mut current = input;
    let mut changed = true;
    proof {
        lemma_reduces_reflexive(current@);
    }
    while changed
        invariant
            !property.holds(current@),
            all_shrinkable(current@),
            reduces(input@, current@),
            current@ == input@ || !minimal(property, input@),
            !changed ==> minimal(property, current@),
        decreases
                weight(current@),
                if changed {
                    1nat
                } else {
                    0nat
                },
    {
        let ghost start = current@;
        let removed = remove_pass(property, &mut current);
        let ghost middle = current@;
        let replaced = replace_pass(property, &mut current);
        proof {
            lemma_reduces_transitive(start, middle, current@);
            lemma_reduces_transitive(input@, start, current@);
        }
        changed = removed || replaced;
    }
    current
}

/// Checks the property of `input` and, where it fails, searches for a
/// smallest input on which it fails too.
pub fn falsify<G: Shrink + Copy, P: Property<G>>(
    property: &P,
    input: Vec<G>,
) -> (found: Option<Vec<G>>)
    requires
        all_shrinkable(input@),
    ensures
        match found {
            None => property.holds(input@),
            Some(smallest) => {
                &&& !property.holds(input@)
                &&& !property.holds(smallest@)
                &&& minimal(property, smallest@)
                &&& reduces(input@, smallest@)
                &&& minimal(property, input@) ==> smallest@ == input@
            },
        },
{
    if property.check(&input) {
        None
    } else {
        Some(shrink_failure(property, input))
    }
}

} // verus!

//! Twins: atoms whose input is a pair of emissions, stacked into one.

use std::marker::PhantomData;

use vstd::prelude::*;

use crate::error::AtomError;
use crate::failure::{refused_by, says, Failure};
use crate::ids::Uuid;
use crate::message::EmissionId;

verus! {

/// Calls `rand::random` for a `bool`.
///
/// The value is drawn from a generator seeded by the operating system, so
/// nothing is claimed of it.
#[verifier::external_body]
fn random_side() -> (left: bool)
{
    rand::random::<bool>()
}

/// An emission with the sequences it refers to.
pub struct Stackable<M, T> {
    pub metadata: M,
    pub results: Vec<T>,
}

/// Which emission is the base of the stack.
#[derive(Clone, Copy, Debug, PartialEq, Eq, Structural)]
pub enum StackSide {
    Left,
    Right,
}

impl StackSide {
    /// The side that a drawn value stands for: the left one where it is true.
    pub fn of_draw(choose_left: bool) -> (side: StackSide)
        ensures
            side == if choose_left {
                StackSide::Left
            } else {
                StackSide::Right
            },
    {
        if choose_left {
            StackSide::Left
        } else {
            StackSide::Right
        }
    }
}

/// `stacked` keeps the metadata of the base and has the sequences of the other
/// behind its own.
pub open spec fn stacks<M, T>(
    base: Stackable<M, T>,
    other: Stackable<M, T>,
    stacked: Stackable<M, T>,
) -> bool {
    &&& stacked.metadata == base.metadata
    &&& stacked.results@ == base.results@ + other.results@
}

fn stack_on<M, T>(base: Stackable<M, T>, other: Stackable<M, T>) -> (stacked: Stackable<M, T>)
    ensures
        stacks(base, other, stacked),
{
    let mut results = base.results;
    let mut more = other.results;
    results.append(&mut more);
    Stackable { metadata: base.metadata, results }
}

/// Stacks two emissions on the base that `side` names.
pub fn stack<M, T>(side: StackSide, left: Stackable<M, T>, right: Stackable<M, T>) -> (stacked:
    Stackable<M, T>)
    ensures
        side is Left ==> stacks(left, right, stacked),
        side is Right ==> stacks(right, left, stacked),
{
    match side {
        StackSide::Left => stack_on(left, right),
        StackSide::Right => stack_on(right, left),
    }
}

/// Stacks on the left emission.
pub struct LeftStackEffect<M>(pub PhantomData<M>);

impl<M> LeftStackEffect<M> {
    pub fn stack<T>(left: Stackable<M, T>, right: Stackable<M, T>) -> (stacked: Stackable<M, T>)
        ensures
            stacks(left, right, stacked),
    {
        stack(StackSide::Left, left, right)
    }
}

/// Stacks on the right emission.
pub struct RightStackEffect<M>(pub PhantomData<M>);

impl<M> RightStackEffect<M> {
    pub fn stack<T>(left: Stackable<M, T>, right: Stackable<M, T>) -> (stacked: Stackable<M, T>)
        ensures
            stacks(right, left, stacked),
    {
        stack(StackSide::Right, left, right)
    }
}

/// Stacks on an emission chosen at random.
pub struct RandStackEffect<M>(pub PhantomData<M>);

impl<M> RandStackEffect<M> {
    /// Chooses the base of a stack.
    ///
    /// The draw decides between the two sides, as `StackSide::of_draw` says;
    /// which one comes out is chance, and either may.
    pub fn choose_side() -> (side: StackSide) {
        StackSide::of_draw(random_side())
    }

    pub fn stack<T>(left: Stackable<M, T>, right: Stackable<M, T>) -> (stacked: Stackable<M, T>)
        ensures
            stacks(left, right, stacked) || stacks(right, left, stacked),
    {
        stack(Self::choose_side(), left, right)
    }
}

/// Keeps the left metadata and puts the right sequences behind the left ones.
pub struct LeftStack<S>(pub PhantomData<S>);

impl<S> LeftStack<S> {
    pub fn emit(input: (Uuid, (EmissionId, EmissionId))) -> (sent: ((EmissionId, EmissionId), Uuid))
        ensures
            sent == (input.1, input.0),
    {
        (input.1, input.0)
    }

    pub fn absorb(output: Result<EmissionId, AtomError>, model_id: Uuid) -> (result: Result<
        (Uuid, EmissionId),
        Failure,
    >)
        ensures
            output matches Ok(id) ==> result == Ok::<(Uuid, EmissionId), Failure>((model_id, id)),
            output matches Err(error) ==> result is Err && says(
                result->Err_0,
                "left stack failed: "@ + error.text(),
            ),
    {
        match output {
            Ok(id) => Ok((model_id, id)),
            Err(error) => Err(refused_by("left stack failed: ", &error)),
        }
    }
}

/// Keeps the right metadata and puts the left sequences behind the right ones.
pub struct RightStack<S>(pub PhantomData<S>);

impl<S> RightStack<S> {
    pub fn emit(input: (Uuid, (EmissionId, EmissionId))) -> (sent: ((EmissionId, EmissionId), Uuid))
        ensures
            sent == (input.1, input.0),
    {
        (input.1, input.0)
    }

    pub fn absorb(output: Result<EmissionId, AtomError>, model_id: Uuid) -> (result: Result<
        (Uuid, EmissionId),
        Failure,
    >)
        ensures
            output matches Ok(id) ==> result == Ok::<(Uuid, EmissionId), Failure>((model_id, id)),
            output matches Err(error) ==> result is Err && says(
                result->Err_0,
                "right stack failed: "@ + error.text(),
            ),
    {
        match output {
            Ok(id) => Ok((model_id, id)),
            Err(error) => Err(refused_by("right stack failed: ", &error)),
        }
    }
}

/// Stacks to the left or to the right at random.
pub struct RandStack<S>(pub PhantomData<S>);

impl<S> RandStack<S> {
    pub fn emit(input: (Uuid, (EmissionId, EmissionId))) -> (sent: ((EmissionId, EmissionId), Uuid))
        ensures
            sent == (input.1, input.0),
    {
        (input.1, input.0)
    }

    pub fn absorb(output: Result<EmissionId, AtomError>, model_id: Uuid) -> (result: Result<
        (Uuid, EmissionId),
        Failure,
    >)
        ensures
            output matches Ok(id) ==> result == Ok::<(Uuid, EmissionId), Failure>((model_id, id)),
            output matches Err(error) ==> result is Err && says(
                result->Err_0,
                "rand stack failed: "@ + error.text(),
            ),
    {
        match output {
            Ok(id) => Ok((model_id, id)),
            Err(error) => Err(refused_by("rand stack failed: ", &error)),
        }
    }
}

/// Whichever side is the base, no sequence is lost.
pub proof fn law_stacks_keep_all<M, T>(
    base: Stackable<M, T>,
    other: Stackable<M, T>,
    stacked: Stackable<M, T>,
    item: T,
)
    requires
        stacks(base, other, stacked),
    ensures
        stacked.results@.len() == base.results@.len() + other.results@.len(),
        stacked.results@.contains(item) <==> base.results@.contains(item) || other.results@.contains(
            item,
        ),
{
    if base.results@.contains(item) {
        let i = choose|i: int| 0 <= i < base.results@.len() && base.results@[i] == item;
        assert(stacked.results@[i] == item);
    }
    if other.results@.contains(item) {
        let i = choose|i: int| 0 <= i < other.results@.len() && other.results@[i] == item;
        assert(stacked.results@[base.results@.len() + i] == item);
    }
}

/// A stack keeps the metadata of its base, has the sequences of the base first
/// and in order, and those of the other behind them in order.
pub proof fn law_stacks_begin_with_their_base<M, T>(
    base: Stackable<M, T>,
    other: Stackable<M, T>,
    stacked: Stackable<M, T>,
    i: int,
)
    requires
        stacks(base, other, stacked),
    ensures
        stacked.metadata == base.metadata,
        0 <= i < base.results@.len() ==> stacked.results@[i] == base.results@[i],
        0 <= i < other.results@.len() ==> stacked.results@[base.results@.len() + i]
            == other.results@[i],
{
}

/// The left stack has the left emission as its base, the right one the right,
/// and the random one either; nothing of the other is lost.
pub proof fn law_stacks_have_their_base<M, T>(
    l: Stackable<M, T>,
    r: Stackable<M, T>,
    left: Stackable<M, T>,
    right: Stackable<M, T>,
    either: Stackable<M, T>,
    drawn: bool,
    side: StackSide,
)
    requires
        call_ensures(LeftStackEffect::<M>::stack::<T>, (l, r), left),
        call_ensures(RightStackEffect::<M>::stack::<T>, (l, r), right),
        call_ensures(RandStackEffect::<M>::stack::<T>, (l, r), either),
        call_ensures(StackSide::of_draw, (drawn,), side),
    ensures
        left.metadata == l.metadata,
        left.results@ == l.results@ + r.results@,
        right.metadata == r.metadata,
        right.results@ == r.results@ + l.results@,
        (either.metadata == l.metadata && either.results@ == l.results@ + r.results@) || (
        either.metadata == r.metadata && either.results@ == r.results@ + l.results@),
        side is Left <==> drawn,
{
}

} // verus!

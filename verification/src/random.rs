//! The random source of the game: the thread-local generator of the `rand`
//! crate. What this module states of `rand` is believed, not proved.

use crate::action::PlayerAction;
use crate::card::Card;
use rand::rngs::ThreadRng;
use rand::seq::IndexedRandom;
use rand::seq::SliceRandom;
use rand::Rng;
use vstd::prelude::*;

verus! {

/// `rand::rngs::ThreadRng`: a handle to the generator of the current
/// thread. Nothing of its state is visible here.
#[verifier::external_type_specification]
#[verifier::external_body]
pub struct ExThreadRng(ThreadRng);

/// `rand::rng` returns a handle to the generator of the current thread.
/// Nothing is claimed of the handle.
pub assume_specification[ rand::rng ]() -> (handle: ThreadRng)
;

/// `rand::Rng::random_ratio` draws `true` with probability `numerator` in
/// `denominator`. It panics on a zero denominator and on a numerator above
/// the denominator, which the precondition rules out. Of the draw only the
/// two certain cases are claimed: a ratio of one always gives `true`, a
/// ratio of zero always `false`.
#[verifier::external_body]
pub(crate) fn random_ratio(rng: &mut ThreadRng, numerator: u32, denominator: u32) -> (hit: bool)
    requires
        denominator > 0,
        numerator <= denominator,
    ensures
        numerator == denominator ==> hit,
        numerator == 0 ==> !hit,
{
    rng.random_ratio(numerator, denominator)
}

/// `rand::seq::SliceRandom::shuffle` reorders a slice in place by swapping
/// its elements. Claimed: the cards after the call are the cards before it,
/// each as often; nothing of their order.
#[verifier::external_body]
pub(crate) fn shuffle_cards(rng: &mut ThreadRng, deck: &mut [Card; 3])
    ensures
        final(deck)@.to_multiset() == old(deck)@.to_multiset(),
{
    deck.shuffle(rng)
}

/// `rand::seq::IndexedRandom::choose` returns `None` for an empty slice and
/// otherwise a reference to the element at a random index. Claimed: the
/// result is `None` exactly for an empty list, and else one of its elements;
/// nothing of which.
#[verifier::external_body]
pub(crate) fn pick_one(rng: &mut ThreadRng, actions: &Vec<PlayerAction>) -> (picked: Option<
    PlayerAction,
>)
    ensures
        actions@.len() == 0 ==> picked is None,
        actions@.len() > 0 ==> picked is Some && actions@.contains(picked->0),
{
    actions.choose(rng).copied()
}

} // verus!

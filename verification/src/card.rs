//! The three-card deck and its ranking.

use vstd::prelude::*;

verus! {

/// A card of the deck. The ranks are totally ordered: `J < Q < K`.
#[derive(Debug, Copy, Clone, PartialEq, Eq, Structural, PartialOrd, Ord)]
pub enum Card {
    J,
    Q,
    K,
}

impl Card {
    /// The rank as a number: 0 for `J`, 1 for `Q`, 2 for `K`.
    pub open spec fn rank(self) -> int {
        match self {
            Card::J => 0,
            Card::Q => 1,
            Card::K => 2,
        }
    }

    /// The label of the card: one letter.
    pub open spec fn label(self) -> Seq<char> {
        match self {
            Card::J => "J"@,
            Card::Q => "Q"@,
            Card::K => "K"@,
        }
    }

    /// The label of the card, as a strategy table names it.
    pub fn as_str(&self) -> (s: &'static str)
        ensures
            s@ == self.label(),
    {
        match self {
            Card::J => "J",
            Card::Q => "Q",
            Card::K => "K",
        }
    }

    /// The rank as a number.
    pub fn rank_value(&self) -> (r: u8)
        ensures
            r == self.rank(),
    {
        match self {
            Card::J => 0,
            Card::Q => 1,
            Card::K => 2,
        }
    }
}

/// `label` is the label of a card.
pub open spec fn is_card_label(label: Seq<char>) -> bool {
    label == Card::J.label() || label == Card::Q.label() || label == Card::K.label()
}

/// The three cards in their order before a shuffle.
pub open spec fn fresh_deck() -> Seq<Card> {
    seq![Card::J, Card::Q, Card::K]
}

/// `deck` holds each of the three cards once, in some order.
pub open spec fn is_deck(deck: Seq<Card>) -> bool {
    deck.len() == 3 && deck.no_duplicates()
}

/// The seat that wins a showdown between the card of seat 0 and the card of
/// seat 1: the seat with the higher rank. Two equal cards, which no deal
/// produces, leave the pot with seat 0.
pub open spec fn showdown_seat(first: Card, second: Card) -> int {
    if first.rank() >= second.rank() {
        0
    } else {
        1
    }
}

/// The seat whose card wins the showdown.
pub fn showdown_winner(first: Card, second: Card) -> (seat: usize)
    ensures
        seat == showdown_seat(first, second),
{
    if first.rank_value() >= second.rank_value() {
        0
    } else {
        1
    }
}

/// The ranks order the cards totally: two cards have the same rank only if
/// they are the same card, so a showdown between two different cards has a
/// strict winner.
pub proof fn lemma_rank_is_total(a: Card, b: Card)
    ensures
        0 <= a.rank() <= 2,
        a.rank() == b.rank() <==> a == b,
        a != b ==> (a.rank() < b.rank() || b.rank() < a.rank()),
        Card::J.rank() < Card::Q.rank() < Card::K.rank(),
{
}

/// At a showdown between two different cards the winning seat holds the
/// strictly higher card, whichever seat that is.
pub proof fn lemma_showdown_picks_higher_card(first: Card, second: Card)
    requires
        first != second,
    ensures
        showdown_seat(first, second) == 0 <==> first.rank() > second.rank(),
        showdown_seat(first, second) == 1 <==> second.rank() > first.rank(),
        showdown_seat(first, second) == 1 - showdown_seat(second, first),
{
}

/// Any arrangement of the three cards is a deck: a sequence with the same
/// cards as the fresh deck, each as often, has three different cards.
pub proof fn lemma_shuffled_is_deck(deck: Seq<Card>)
    requires
        deck.to_multiset() == fresh_deck().to_multiset(),
    ensures
        is_deck(deck),
{
    let fresh = fresh_deck();
    assert(fresh.no_duplicates());
    fresh.lemma_multiset_has_no_duplicates();
    deck.lemma_multiset_has_no_duplicates_conv();
    deck.to_multiset_ensures();
    fresh.to_multiset_ensures();
}

} // verus!

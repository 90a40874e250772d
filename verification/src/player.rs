//! The players: whoever chooses a move when the engine asks for one.
//!
//! The engine asks through the trait [`Player`] and checks what comes back;
//! a player promises nothing. `Fish` plays at random. `Client` names a seat
//! held by a person, whose choice is asked for outside this library.

use crate::action::{committed, legal_actions_of, PlayerAction};
use crate::game::ANTE;
use crate::card::is_card_label;
use crate::random::pick_one;
use rand::rngs::ThreadRng;
use vstd::prelude::*;
use vstd::string::StringExecFns;

verus! {

/// What sits at a seat: a program or a person.
#[derive(PartialEq, Eq, Debug, Structural)]
pub enum PlayerKind {
    Agent,
    Client,
}

/// A source of decisions. The engine hands it the moves it may make, the
/// history of the hand, its own hole card by label, the pot and its own
/// stack, and takes one move back.
///
/// A player is asked only when it can move: `actions` holds the legal moves
/// after `history`, and there is at least one; `hole_card` is the label of a
/// card; `pot` holds the two antes and the chips that the moves of
/// `history` have cost. A player is expected to answer with one of the
/// moves, but nothing is taken on trust: the engine refuses a move that it
/// did not offer.
pub trait Player {
    /// Chooses a move among `actions`.
    fn select_action(
        &mut self,
        actions: Vec<PlayerAction>,
        history: &[PlayerAction],
        hole_card: &str,
        pot: u64,
        antes: u64,
    ) -> (chosen: PlayerAction)
        requires
            actions@.len() > 0,
            actions@ == legal_actions_of(history@),
            is_card_label(hole_card@),
            pot == 2 * ANTE + committed(history@),
    ;

    /// The name under which the player is reported.
    fn name(&self) -> &str;

    /// Whether a program or a person plays.
    fn player_kind(&self) -> &PlayerKind;
}

/// A seat held by a person.
pub struct Client {
    name: String,
    player_kind: PlayerKind,
}

impl Client {
    /// The name under which the seat was made.
    pub closed spec fn spec_name(&self) -> Seq<char> {
        self.name@
    }

    /// What holds the seat.
    pub closed spec fn spec_kind(&self) -> PlayerKind {
        self.player_kind
    }

    /// A seat for the person called `name`.
    pub fn new(name: String) -> (client: Self)
        ensures
            client.spec_name() == name@,
            client.spec_kind() == PlayerKind::Client,
    {
        Self { name, player_kind: PlayerKind::Client }
    }

    /// The person's name.
    pub fn name(&self) -> (name: &str)
        ensures
            name@ == self.spec_name(),
    {
        self.name.as_str()
    }

    /// Always `PlayerKind::Client`, for a seat made by `new`.
    pub fn player_kind(&self) -> (kind: &PlayerKind)
        ensures
            *kind == self.spec_kind(),
    {
        &self.player_kind
    }
}

/// A player that picks one of the offered moves at random, each with the
/// same chance, and remembers nothing.
pub struct Fish {
    name: String,
    rng: ThreadRng,
    player_kind: PlayerKind,
}

impl Fish {
    /// The name of the player.
    pub closed spec fn spec_name(&self) -> Seq<char> {
        self.name@
    }

    /// What holds the seat.
    pub closed spec fn spec_kind(&self) -> PlayerKind {
        self.player_kind
    }

    /// A random player, called "Fish", with its own handle to the thread's
    /// generator.
    pub fn new() -> (fish: Self)
        ensures
            fish.spec_name() == "Fish"@,
            fish.spec_kind() == PlayerKind::Agent,
    {
        Self { name: String::from_str("Fish"), rng: rand::rng(), player_kind: PlayerKind::Agent }
    }
}

impl Player for Fish {
    /// One of the offered moves, whichever the generator picks.
    fn select_action(
        &mut self,
        actions: Vec<PlayerAction>,
        history: &[PlayerAction],
        hole_card: &str,
        pot: u64,
        antes: u64,
    ) -> (chosen: PlayerAction)
        ensures
            actions@.contains(chosen),
            final(self).spec_name() == old(self).spec_name(),
            final(self).spec_kind() == old(self).spec_kind(),
    {
        pick_one(&mut self.rng, &actions).unwrap()
    }

    fn name(&self) -> (name: &str)
        ensures
            name@ == self.spec_name(),
    {
        self.name.as_str()
    }

    fn player_kind(&self) -> (kind: &PlayerKind)
        ensures
            *kind == self.spec_kind(),
    {
        &self.player_kind
    }
}

} // verus!

//! The model of a match: what a game state is, which states are sound, and
//! how a hand moves from one state to the next.
//!
//! A match is a sequence of hands between seat 0 and seat 1. Between hands
//! the pot is empty. A hand starts when both seats post the ante and are
//! dealt a card each; it then runs through the betting round move by move,
//! and ends when the pot goes to the winning seat. The chips in the pot and
//! in the two stacks together never change.

use crate::action::{
    committed, ends_in_fold, legal_actions_of, lemma_committed_in_tree,
    lemma_legal_move_stays_in_tree, lemma_open_or_complete, valid_history, PlayerAction,
};
use crate::card::{lemma_rank_is_total, showdown_seat, Card};
use vstd::prelude::*;

verus! {

/// The chips that each seat posts at the start of a hand.
pub const ANTE: u64 = 1;

/// The chips with which each seat starts a match, unless told otherwise.
pub const STARTING_STACK: u64 = 100;

/// Why the engine refused a move.
#[derive(Debug, Copy, Clone, PartialEq, Eq, Structural)]
pub enum EngineError {
    /// No hand is being played: the pot is empty.
    NoHandInProgress,
    /// The move is not among the legal moves at this point of the round.
    IllegalAction,
    /// The move costs a chip and the mover's stack is empty.
    InsufficientChips,
}

/// What a step of the engine did.
#[derive(Debug, Copy, Clone, PartialEq, Eq, Structural)]
pub enum Event {
    /// The antes were posted and the cards dealt; `button` acts last.
    HandStarted { button: usize },
    /// `player` made the move `action`.
    ActionTaken { player: usize, action: PlayerAction },
    /// The hand ended and `winner` took the `pot`; `showdown` tells whether
    /// the cards decided, or a fold.
    HandSettled { winner: usize, pot: u64, showdown: bool },
    /// A seat cannot post the ante: `winner` holds all the chips.
    MatchEnded { winner: usize },
}

/// The other of the two seats.
pub open spec fn other_seat(seat: int) -> int {
    1 - seat
}

/// A game state as plain mathematics.
pub struct GameView {
    /// The seat that acts last in the betting round.
    pub button: int,
    /// The chips in the pot.
    pub pot: nat,
    /// The chips of seat 0 and of seat 1.
    pub stacks: Seq<nat>,
    /// The hole card of seat 0 and of seat 1.
    pub hands: Seq<Card>,
    /// The moves of the current hand, oldest first.
    pub history: Seq<PlayerAction>,
}

/// The state before the first hand of a match in which each seat has
/// `stack` chips.
pub open spec fn opening(stack: nat) -> GameView {
    GameView {
        button: 0,
        pot: 0,
        stacks: seq![stack, stack],
        hands: seq![Card::J, Card::Q],
        history: Seq::empty(),
    }
}

impl GameView {
    /// All the chips of the match: the pot and both stacks.
    pub open spec fn total(self) -> nat {
        self.pot + self.stacks[0] + self.stacks[1]
    }

    /// A hand is being played: there are chips in the pot.
    pub open spec fn in_hand(self) -> bool {
        self.pot > 0
    }

    /// The state is sound: two seats with different cards, a history of the
    /// tree, chips that fit the machine, and during a hand a pot that holds
    /// the two antes and one chip for each bet or call.
    pub open spec fn wf(self) -> bool {
        &&& self.button == 0 || self.button == 1
        &&& self.stacks.len() == 2
        &&& self.hands.len() == 2
        &&& self.hands[0] != self.hands[1]
        &&& valid_history(self.history)
        &&& 0 < self.total() <= u64::MAX
        &&& self.in_hand() ==> self.pot == 2 * ANTE + committed(self.history)
    }

    /// The seat that acts first in the betting round.
    pub open spec fn out_of_position(self) -> int {
        if self.button == 1 {
            0
        } else {
            1
        }
    }

    /// The seat whose turn it is: the seat out of position after an even
    /// number of moves, the button after an odd number.
    pub open spec fn to_act(self) -> int {
        if self.history.len() % 2 == 0 {
            self.out_of_position()
        } else {
            self.button
        }
    }

    /// The seat that made the last move of the history.
    pub open spec fn last_mover(self) -> int {
        if self.history.len() % 2 == 1 {
            self.out_of_position()
        } else {
            self.button
        }
    }

    /// The moves open to the seat whose turn it is.
    pub open spec fn legal(self) -> Seq<PlayerAction> {
        legal_actions_of(self.history)
    }

    /// A hand is being played and a seat has to move.
    pub open spec fn awaits_move(self) -> bool {
        self.in_hand() && self.legal().len() > 0
    }

    /// A hand is being played, its round is over, and the pot is not yet
    /// awarded.
    pub open spec fn awaits_settlement(self) -> bool {
        self.in_hand() && self.legal().len() == 0
    }

    /// No hand is being played and both seats can post the ante.
    pub open spec fn can_start_hand(self) -> bool {
        !self.in_hand() && self.stacks[0] >= ANTE && self.stacks[1] >= ANTE
    }

    /// No hand is being played and a seat cannot post the ante.
    pub open spec fn match_over(self) -> bool {
        !self.in_hand() && (self.stacks[0] < ANTE || self.stacks[1] < ANTE)
    }

    /// At the end of a match, the seat that holds the chips.
    pub open spec fn match_winner(self) -> int {
        if self.stacks[0] > 0 {
            0
        } else {
            1
        }
    }

    /// The state after both seats have posted the ante and the cards
    /// `hands` have been dealt, with the button at `button`.
    pub open spec fn started(self, button: int, hands: Seq<Card>) -> GameView {
        GameView {
            button,
            pot: 2 * ANTE as nat,
            stacks: seq![
                (self.stacks[0] - ANTE) as nat,
                (self.stacks[1] - ANTE) as nat,
            ],
            hands,
            history: Seq::empty(),
        }
    }

    /// Why move `a` is refused in this state, if it is: in this order,
    /// because no hand is played, because the move is not legal after the
    /// history, or because the mover cannot pay for it.
    pub open spec fn refusal(self, a: PlayerAction) -> Option<EngineError> {
        if !self.in_hand() {
            Some(EngineError::NoHandInProgress)
        } else if !self.legal().contains(a) {
            Some(EngineError::IllegalAction)
        } else if self.stacks[self.to_act()] < a.cost() {
            Some(EngineError::InsufficientChips)
        } else {
            None
        }
    }

    /// The state after the seat to act has made move `a`: the move's cost
    /// goes from the mover's stack into the pot, and the move joins the
    /// history.
    pub open spec fn after(self, a: PlayerAction) -> GameView {
        GameView {
            pot: self.pot + a.cost(),
            stacks: self.stacks.update(
                self.to_act(),
                (self.stacks[self.to_act()] - a.cost()) as nat,
            ),
            history: self.history.push(a),
            ..self
        }
    }

    /// The seat with the higher card.
    pub open spec fn showdown_winner(self) -> int {
        showdown_seat(self.hands[0], self.hands[1])
    }

    /// The seat that wins the hand once its round is over: after a fold the
    /// seat that did not fold, whatever the cards; else the seat with the
    /// higher card.
    pub open spec fn winner(self) -> int {
        if ends_in_fold(self.history) {
            other_seat(self.last_mover())
        } else {
            self.showdown_winner()
        }
    }

    /// The state after the whole pot has gone to `seat`.
    pub open spec fn awarded(self, seat: int) -> GameView {
        GameView {
            pot: 0,
            stacks: self.stacks.update(seat, self.stacks[seat] + self.pot),
            ..self
        }
    }

    /// The state after the hand has been settled.
    pub open spec fn settled(self) -> GameView {
        self.awarded(self.winner())
    }
}

/// A step of the engine led from state `s` to state `t` and reported `e`.
///
/// Each event belongs to one situation: the end of the match to a state
/// between hands in which a seat cannot post the ante; the start of a hand
/// to a state between hands in which both can; a move to a hand that waits
/// for one; a settlement to a hand whose round is over.
pub open spec fn step_taken(s: GameView, e: Event, t: GameView) -> bool {
    match e {
        Event::MatchEnded { winner } => {
            &&& s.match_over()
            &&& winner == s.match_winner()
            &&& t == s
        },
        Event::HandStarted { button } => {
            &&& s.can_start_hand()
            &&& button == t.button
            &&& button < 2
            &&& t.hands.len() == 2
            &&& t.hands[0] != t.hands[1]
            &&& t == s.started(t.button, t.hands)
        },
        Event::ActionTaken { player, action } => {
            &&& s.awaits_move()
            &&& player == s.to_act()
            &&& s.refusal(action) is None
            &&& t == s.after(action)
        },
        Event::HandSettled { winner, pot, showdown } => {
            &&& s.awaits_settlement()
            &&& winner == s.winner()
            &&& pot == s.pot
            &&& showdown == !ends_in_fold(s.history)
            &&& t == s.settled()
        },
    }
}

/// The steps that reported `events` led through the states `states`: one
/// state more than events, each step from a state to the next.
pub open spec fn steps_taken(states: Seq<GameView>, events: Seq<Event>) -> bool {
    &&& states.len() == events.len() + 1
    &&& forall|i: int|
        0 <= i < events.len() ==> step_taken(#[trigger] states[i], events[i], states[i + 1])
}

/// The opening state of a match is sound whenever the two stacks are not
/// empty and together fit the machine.
pub proof fn lemma_opening_is_sound(stack: nat)
    requires
        0 < stack,
        2 * stack <= u64::MAX,
    ensures
        opening(stack).wf(),
        opening(stack).total() == 2 * stack,
        opening(stack).can_start_hand(),
{
}

/// Starting a hand keeps the state sound and the chips constant: the two
/// antes leave the stacks and make up the pot.
pub proof fn lemma_start_is_sound(s: GameView, button: int, hands: Seq<Card>)
    requires
        s.wf(),
        s.can_start_hand(),
        button == 0 || button == 1,
        hands.len() == 2,
        hands[0] != hands[1],
    ensures
        s.started(button, hands).wf(),
        s.started(button, hands).total() == s.total(),
        s.started(button, hands).awaits_move(),
        s.started(button, hands).legal() == seq![PlayerAction::Check, PlayerAction::Bet],
{
    reveal_with_fuel(committed, 1);
}

/// A move that is not refused keeps the state sound and the chips constant.
/// In particular the history stays one of the nine histories of the tree.
pub proof fn lemma_move_is_sound(s: GameView, a: PlayerAction)
    requires
        s.wf(),
        s.refusal(a) is None,
    ensures
        s.after(a).wf(),
        valid_history(s.after(a).history),
        s.after(a).total() == s.total(),
        s.after(a).in_hand(),
{
    lemma_legal_move_stays_in_tree(s.history, a);
}

/// Awarding the pot to a seat keeps the state sound and the chips constant,
/// and ends the hand.
pub proof fn lemma_award_is_sound(s: GameView, seat: int)
    requires
        s.wf(),
        seat == 0 || seat == 1,
    ensures
        s.awarded(seat).wf(),
        s.awarded(seat).total() == s.total(),
        !s.awarded(seat).in_hand(),
        s.awarded(seat).stacks[seat] == s.stacks[seat] + s.pot,
        s.awarded(seat).stacks[other_seat(seat)] == s.stacks[other_seat(seat)],
{
}

/// Chip conservation: whatever the engine does to a sound state (start a
/// hand, apply a move, settle the hand), the pot and the two stacks together
/// hold as many chips after it as before.
pub proof fn lemma_chips_are_conserved(
    s: GameView,
    a: PlayerAction,
    button: int,
    hands: Seq<Card>,
)
    requires
        s.wf(),
    ensures
        s.can_start_hand() ==> s.started(button, hands).total() == s.total(),
        s.refusal(a) is None ==> s.after(a).total() == s.total(),
        s.settled().total() == s.total(),
{
}

/// Showdown: when the round ends without a fold (both seats checked, or a
/// bet was called), the seat with the strictly higher card wins, and
/// settling the hand gives that seat the whole pot and the other seat
/// nothing.
pub proof fn lemma_showdown_goes_to_higher_card(s: GameView)
    requires
        s.wf(),
        s.history =~= seq![PlayerAction::Check, PlayerAction::Check] || s.history =~= seq![
            PlayerAction::Bet,
            PlayerAction::Call,
        ] || s.history =~= seq![PlayerAction::Check, PlayerAction::Bet, PlayerAction::Call],
    ensures
        s.winner() == 0 || s.winner() == 1,
        s.hands[s.winner()].rank() > s.hands[other_seat(s.winner())].rank(),
        s.settled().stacks[s.winner()] == s.stacks[s.winner()] + s.pot,
        s.settled().stacks[other_seat(s.winner())] == s.stacks[other_seat(s.winner())],
        s.settled().pot == 0,
{
    lemma_rank_is_total(s.hands[0], s.hands[1]);
}

/// Fold: the seat whose fold ended the round never wins the pot, whatever
/// the cards. Settling the hand leaves the folder's stack as it is and
/// gives the whole pot to the other seat.
pub proof fn lemma_folder_never_wins(s: GameView)
    requires
        s.wf(),
        ends_in_fold(s.history),
    ensures
        s.winner() == other_seat(s.last_mover()),
        s.winner() != s.last_mover(),
        s.settled().stacks[s.last_mover()] == s.stacks[s.last_mover()],
        s.settled().stacks[s.winner()] == s.stacks[s.winner()] + s.pot,
        s.settled().pot == 0,
{
}

/// The folder is the seat that was to act when the fold was made.
pub proof fn lemma_mover_becomes_last_mover(s: GameView, a: PlayerAction)
    requires
        s.wf(),
    ensures
        s.after(a).last_mover() == s.to_act(),
        s.after(a).to_act() == other_seat(s.to_act()),
{
}

/// The legal moves depend on the history alone: two states with the same
/// history offer the same moves, whatever their cards, chips and button.
pub proof fn lemma_legal_moves_depend_on_history_only(s: GameView, t: GameView)
    requires
        s.history == t.history,
    ensures
        s.legal() == t.legal(),
{
}

/// The pot during a hand: two chips while nobody has bet, three after a
/// bet, four after a bet and a call.
pub proof fn lemma_pot_by_history(s: GameView)
    requires
        s.wf(),
        s.in_hand(),
    ensures
        2 <= s.pot <= 4,
        s.history.len() <= 3,
        s.history =~= seq![PlayerAction::Bet, PlayerAction::Call] || s.history =~= seq![
            PlayerAction::Check,
            PlayerAction::Bet,
            PlayerAction::Call,
        ] ==> s.pot == 4,
        s.history =~= seq![PlayerAction::Check, PlayerAction::Bet, PlayerAction::Fold]
            || s.history =~= seq![PlayerAction::Bet, PlayerAction::Fold] ==> s.pot == 3,
        s.history =~= seq![PlayerAction::Check, PlayerAction::Check] ==> s.pot == 2,
{
    lemma_committed_in_tree(s.history);
}

/// Between two hands of a sound match exactly one of two things holds: both
/// seats can post the ante, or the match is over and its winner holds every
/// chip of the match.
pub proof fn lemma_match_ends_with_all_chips(s: GameView)
    requires
        s.wf(),
        !s.in_hand(),
    ensures
        s.can_start_hand() != s.match_over(),
        s.match_over() ==> s.stacks[s.match_winner()] == s.total(),
        s.match_over() ==> s.stacks[other_seat(s.match_winner())] == 0,
{
}

/// A sound state is in exactly one of four situations: the match is over,
/// a hand can start, a seat has to move, or the hand waits to be settled.
pub proof fn lemma_one_situation(s: GameView)
    requires
        s.wf(),
    ensures
        s.match_over() || s.can_start_hand() || s.awaits_move() || s.awaits_settlement(),
        !(s.match_over() && s.can_start_hand()),
        !(s.awaits_move() && s.awaits_settlement()),
        (s.match_over() || s.can_start_hand()) != (s.awaits_move() || s.awaits_settlement()),
        s.awaits_move() ==> s.history.len() <= 2 && s.legal().len() == 2,
        s.awaits_settlement() ==> 2 <= s.history.len() <= 3,
{
    lemma_open_or_complete(s.history);
}

/// Every step keeps the state sound and the chips constant: after any step
/// the history is one of the nine histories of the tree, and the pot and
/// the stacks together hold what they held before.
pub proof fn lemma_step_is_sound(s: GameView, e: Event, t: GameView)
    requires
        s.wf(),
        step_taken(s, e, t),
    ensures
        t.wf(),
        valid_history(t.history),
        t.total() == s.total(),
{
    match e {
        Event::MatchEnded { .. } => {},
        Event::HandStarted { .. } => {
            lemma_start_is_sound(s, t.button, t.hands);
        },
        Event::ActionTaken { action, .. } => {
            lemma_move_is_sound(s, action);
        },
        Event::HandSettled { .. } => {
            lemma_one_situation(s);
            lemma_award_is_sound(s, s.winner());
        },
    }
}

/// Chip conservation over a whole run: however many steps were taken, the
/// last state is sound and holds as many chips as the first.
pub proof fn lemma_run_is_sound(states: Seq<GameView>, events: Seq<Event>)
    requires
        steps_taken(states, events),
        states[0].wf(),
    ensures
        forall|i: int| 0 <= i < states.len() ==> (#[trigger] states[i]).wf(),
        forall|i: int| 0 <= i < states.len() ==> (#[trigger] states[i]).total() == states[0].total(),
    decreases events.len(),
{
    if events.len() > 0 {
        let n = events.len() as int;
        let shorter_states = states.drop_last();
        let shorter_events = events.drop_last();
        assert(steps_taken(shorter_states, shorter_events)) by {
            assert forall|i: int| 0 <= i < shorter_events.len() implies step_taken(
                #[trigger] shorter_states[i],
                shorter_events[i],
                shorter_states[i + 1],
            ) by {
                assert(step_taken(states[i], events[i], states[i + 1]));
            }
        }
        lemma_run_is_sound(shorter_states, shorter_events);
        assert(shorter_states[n - 1] == states[n - 1]);
        lemma_step_is_sound(states[n - 1], events[n - 1], states[n]);
        assert forall|i: int| 0 <= i < states.len() implies (#[trigger] states[i]).wf()
            && states[i].total() == states[0].total() by {
            if i < n {
                assert(shorter_states[i] == states[i]);
            }
        }
    }
}

} // verus!

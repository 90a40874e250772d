//! The engine: it holds the state of a match, deals, asks the players for
//! their moves, checks and applies them, and settles each hand.
//!
//! The engine moves in steps. Between hands a step starts the next hand, or
//! reports the end of the match if a seat cannot post the ante. During a
//! hand a step asks the seat to act for a move and applies it, or, once the
//! round is over, awards the pot.

use crate::action::{is_among, legal_actions, PlayerAction};
use crate::card::{lemma_shuffled_is_deck, showdown_winner, Card};
use crate::game::{
    lemma_award_is_sound, lemma_move_is_sound, lemma_one_situation, lemma_start_is_sound, opening,
    other_seat, step_taken, steps_taken, EngineError, Event, GameView, ANTE, STARTING_STACK,
};
use crate::player::{Player, PlayerKind};
use crate::random::{random_ratio, shuffle_cards};
use rand::rngs::ThreadRng;
use vstd::prelude::*;

verus! {

/// The state of a match: the button, the pot, the two stacks, the two hole
/// cards and the moves of the current hand.
pub struct GameState {
    button: usize,
    pot: u64,
    player_antes: [u64; 2],
    player_hands: [Card; 2],
    actions: Vec<PlayerAction>,
}

impl View for GameState {
    type V = GameView;

    closed spec fn view(&self) -> GameView {
        GameView {
            button: self.button as int,
            pot: self.pot as nat,
            stacks: seq![self.player_antes[0] as nat, self.player_antes[1] as nat],
            hands: self.player_hands@,
            history: self.actions@,
        }
    }
}

impl GameState {
    /// The state before the first hand of a match in which each seat has
    /// one hundred chips.
    pub fn new() -> (state: Self)
        ensures
            state@ == opening(STARTING_STACK as nat),
            state@.wf(),
    {
        Self {
            button: 0,
            pot: 0,
            player_antes: [STARTING_STACK, STARTING_STACK],
            player_hands: [Card::J, Card::Q],
            actions: Vec::with_capacity(3),
        }
    }

    /// The state before the first hand of a match in which each seat has
    /// `stack` chips; `None` if that is no chips at all, or more than two
    /// stacks can hold together.
    pub fn with_stacks(stack: u64) -> (made: Option<Self>)
        ensures
            made is Some <==> 0 < stack && 2 * stack <= u64::MAX,
            made matches Some(state) ==> state@ == opening(stack as nat) && state@.wf(),
    {
        if stack == 0 || stack > u64::MAX / 2 {
            None
        } else {
            Some(
                Self {
                    button: 0,
                    pot: 0,
                    player_antes: [stack, stack],
                    player_hands: [Card::J, Card::Q],
                    actions: Vec::with_capacity(3),
                },
            )
        }
    }

    /// What the seat to act is to be handed: the legal moves after the
    /// history, the history, the seat's own hole card, the pot as it
    /// stands, and the seat's own stack.
    pub fn decision_request(&self) -> (request: DecisionRequest<'_>)
        requires
            self@.wf(),
        ensures
            request.player == self@.to_act(),
            request.actions@ == self@.legal(),
            request.history@ == self@.history,
            request.hole_card@ == self@.hands[self@.to_act()].label(),
            request.pot == self@.pot,
            request.antes == self@.stacks[self@.to_act()],
    {
        let player: usize = if self.actions.len() % 2 == 0 {
            if self.button == 1 {
                0
            } else {
                1
            }
        } else {
            self.button
        };
        DecisionRequest {
            player,
            actions: legal_actions(self.actions.as_slice()),
            history: self.actions.as_slice(),
            hole_card: self.player_hands[player].as_str(),
            pot: self.pot,
            antes: self.player_antes[player],
        }
    }
}

/// What a player is handed when it is asked for a move.
pub struct DecisionRequest<'a> {
    /// The seat that is asked.
    pub player: usize,
    /// The moves that the seat may make.
    pub actions: Vec<PlayerAction>,
    /// The moves of the hand so far.
    pub history: &'a [PlayerAction],
    /// The label of the seat's own hole card.
    pub hole_card: &'static str,
    /// The chips in the pot.
    pub pot: u64,
    /// The chips of the seat's own stack.
    pub antes: u64,
}

/// A seat at the table, with the player that sits there.
pub struct Seat {
    /// The player in the seat.
    pub player: Box<dyn Player>,
}

/// A match between two players.
pub struct Engine {
    game_state: GameState,
    rng: ThreadRng,
    player_a: Seat,
    player_b: Seat,
}

impl View for Engine {
    type V = GameView;

    closed spec fn view(&self) -> GameView {
        self.game_state@
    }
}

impl Engine {
    /// The engine is sound: its game state is.
    pub open spec fn wf(&self) -> bool {
        self@.wf()
    }

    /// Seat `seat` of the table.
    pub closed spec fn seat(&self, seat: int) -> Seat {
        if seat == 0 {
            self.player_a
        } else {
            self.player_b
        }
    }

    /// The same players sit at the same seats in `self` and in `other`.
    pub open spec fn same_players(&self, other: &Engine) -> bool {
        self.seat(0) == other.seat(0) && self.seat(1) == other.seat(1)
    }

    /// An engine for a match that stands at `game_state`, with `player_a`
    /// at seat 0 and `player_b` at seat 1.
    pub fn new(
        game_state: GameState,
        rng: ThreadRng,
        player_a: Box<dyn Player>,
        player_b: Box<dyn Player>,
    ) -> (engine: Self)
        requires
            game_state@.wf(),
        ensures
            engine.wf(),
            engine@ == game_state@,
            engine.seat(0) == (Seat { player: player_a }),
            engine.seat(1) == (Seat { player: player_b }),
    {
        Self {
            game_state,
            rng,
            player_a: Seat { player: player_a },
            player_b: Seat { player: player_b },
        }
    }

    /// The seat that acts last.
    pub fn button(&self) -> (seat: usize)
        requires
            self.wf(),
        ensures
            seat == self@.button,
            seat < 2,
    {
        self.game_state.button
    }

    /// The seat that acts first.
    pub fn out_of_position_player(&self) -> (seat: usize)
        requires
            self.wf(),
        ensures
            seat == self@.out_of_position(),
            seat < 2,
    {
        if self.button() == 1 {
            0
        } else {
            1
        }
    }

    /// The seat whose turn it is.
    pub fn player_to_act(&self) -> (seat: usize)
        requires
            self.wf(),
        ensures
            seat == self@.to_act(),
            seat < 2,
    {
        if self.game_state.actions.len() % 2 == 0 {
            self.out_of_position_player()
        } else {
            self.button()
        }
    }

    /// The hole card of seat `ptr`.
    pub fn player_hand(&self, ptr: usize) -> (card: Card)
        requires
            self.wf(),
            ptr < 2,
        ensures
            card == self@.hands[ptr as int],
    {
        self.game_state.player_hands[ptr]
    }

    /// The name of the player at seat `ptr`, as the player gives it.
    pub fn player_name(&self, ptr: usize) -> (name: &str)
        requires
            self.wf(),
            ptr < 2,
    {
        if ptr == 0 {
            self.player_a.player.name()
        } else {
            self.player_b.player.name()
        }
    }

    /// What holds seat `ptr`, as the player gives it.
    pub fn player_kind(&self, ptr: usize) -> (kind: &PlayerKind)
        requires
            self.wf(),
            ptr < 2,
    {
        if ptr == 0 {
            self.player_a.player.player_kind()
        } else {
            self.player_b.player.player_kind()
        }
    }

    /// The chips of seat `ptr`.
    pub fn player_antes(&self, ptr: usize) -> (chips: u64)
        requires
            self.wf(),
            ptr < 2,
        ensures
            chips == self@.stacks[ptr as int],
    {
        self.game_state.player_antes[ptr]
    }

    /// The chips in the pot.
    pub fn pot(&self) -> (chips: u64)
        ensures
            chips == self@.pot,
    {
        self.game_state.pot
    }

    /// The moves of the current hand, oldest first.
    pub fn actions(&self) -> (history: &[PlayerAction])
        ensures
            history@ == self@.history,
    {
        self.game_state.actions.as_slice()
    }

    /// The moves open to the seat whose turn it is: a function of the
    /// history alone, and empty once the round is over.
    pub fn get_valid_actions(&self) -> (actions: Vec<PlayerAction>)
        ensures
            actions@ == self@.legal(),
    {
        legal_actions(self.game_state.actions.as_slice())
    }

    /// What the seat to act is to be handed when it is asked for a move:
    /// the legal moves after the history, the history, the seat's own hole
    /// card, the pot as it stands, and the seat's own stack.
    pub fn decision_request(&self) -> (request: DecisionRequest<'_>)
        requires
            self.wf(),
        ensures
            request.player == self@.to_act(),
            request.actions@ == self@.legal(),
            request.history@ == self@.history,
            request.hole_card@ == self@.hands[self@.to_act()].label(),
            request.pot == self@.pot,
            request.antes == self@.stacks[self@.to_act()],
    {
        self.game_state.decision_request()
    }

    /// Puts the button at seat 0 on `heads`, at seat 1 otherwise.
    pub fn place_button(&mut self, heads: bool)
        requires
            old(self).wf(),
        ensures
            final(self).wf(),
            final(self)@ == (GameView { button: if heads { 0int } else { 1int }, ..old(self)@ }),
            final(self)@.total() == old(self)@.total(),
            final(self).same_players(old(self)),
    {
        self.game_state.button = if heads {
            0
        } else {
            1
        };
    }

    /// Puts the button at either seat, by the flip of a fair coin.
    pub fn assign_button(&mut self)
        requires
            old(self).wf(),
        ensures
            final(self).wf(),
            final(self)@ == (GameView { button: final(self)@.button, ..old(self)@ }),
            final(self)@.total() == old(self)@.total(),
            final(self).same_players(old(self)),
    {
        let heads = random_ratio(&mut self.rng, 1, 2);
        self.place_button(heads);
    }

    /// Deals from `deck`: its first card to seat 0 and its second to seat
    /// 1, wherever the button is. The third card stays face down.
    pub fn deal(&mut self, deck: [Card; 3])
        requires
            old(self).wf(),
            deck@.no_duplicates(),
        ensures
            final(self).wf(),
            final(self)@ == (GameView { hands: seq![deck@[0], deck@[1]], ..old(self)@ }),
            final(self)@.total() == old(self)@.total(),
            final(self).same_players(old(self)),
    {
        self.game_state.player_hands[0] = deck[0];
        self.game_state.player_hands[1] = deck[1];
        assert(self.game_state.player_hands@ =~= seq![deck@[0], deck@[1]]);
    }

    /// Assigns the button by a coin flip, shuffles the three cards and
    /// deals one to each seat. Whatever the generator gives, the two cards
    /// differ and nothing else changes.
    pub fn shuffle_and_deal(&mut self)
        requires
            old(self).wf(),
        ensures
            final(self).wf(),
            final(self)@ == (GameView {
                button: final(self)@.button,
                hands: final(self)@.hands,
                ..old(self)@
            }),
            final(self)@.total() == old(self)@.total(),
            final(self).same_players(old(self)),
    {
        let mut deck = [Card::J, Card::Q, Card::K];
        self.assign_button();
        shuffle_cards(&mut self.rng, &mut deck);
        proof {
            assert([Card::J, Card::Q, Card::K]@ =~= crate::card::fresh_deck());
            lemma_shuffled_is_deck(deck@);
        }
        self.deal(deck);
    }

    /// Takes `ante_cost` chips from each stack and returns what was taken.
    /// Until the chips are put into the pot they are in neither place.
    fn collect_antes(&mut self, ante_cost: u64) -> (collected: u64)
        requires
            old(self)@.stacks[0] >= ante_cost,
            old(self)@.stacks[1] >= ante_cost,
            2 * ante_cost <= u64::MAX,
        ensures
            collected == 2 * ante_cost,
            final(self).same_players(old(self)),
            final(self)@ == (GameView {
                stacks: seq![
                    (old(self)@.stacks[0] - ante_cost) as nat,
                    (old(self)@.stacks[1] - ante_cost) as nat,
                ],
                ..old(self)@
            }),
    {
        self.game_state.player_antes[0] -= ante_cost;
        self.game_state.player_antes[1] -= ante_cost;
        assert(self@.stacks =~= seq![
            (old(self)@.stacks[0] - ante_cost) as nat,
            (old(self)@.stacks[1] - ante_cost) as nat,
        ]);
        ante_cost * 2
    }

    /// Starts a hand: both seats post the ante, the history is cleared, the
    /// button is assigned and the cards are dealt.
    pub fn begin_round(&mut self)
        requires
            old(self).wf(),
            old(self)@.can_start_hand(),
        ensures
            final(self).wf(),
            final(self)@ == old(self)@.started(final(self)@.button, final(self)@.hands),
            final(self)@.total() == old(self)@.total(),
            final(self).same_players(old(self)),
    {
        let antes_collected = self.collect_antes(ANTE);
        self.game_state.actions.clear();
        self.game_state.pot = antes_collected;
        proof {
            lemma_start_is_sound(old(self)@, old(self)@.button, old(self)@.hands);
        }
        self.shuffle_and_deal();
    }

    /// Applies the move that the seat to act has chosen, or refuses it and
    /// leaves the state as it is. A bet or a call moves one chip from the
    /// mover's stack into the pot at once; a check or a fold moves none.
    pub fn apply_action(&mut self, action: PlayerAction) -> (done: Result<(), EngineError>)
        requires
            old(self).wf(),
        ensures
            final(self).wf(),
            final(self)@.total() == old(self)@.total(),
            final(self).same_players(old(self)),
            match old(self)@.refusal(action) {
                Some(e) => done == Err::<(), EngineError>(e) && final(self)@ == old(self)@,
                None => done is Ok && final(self)@ == old(self)@.after(action),
            },
    {
        if self.game_state.pot == 0 {
            return Err(EngineError::NoHandInProgress);
        }
        let offered = self.get_valid_actions();
        if !is_among(offered.as_slice(), action) {
            return Err(EngineError::IllegalAction);
        }
        let active = self.player_to_act();
        let cost = action.chip_cost();
        if self.game_state.player_antes[active] < cost {
            return Err(EngineError::InsufficientChips);
        }
        self.game_state.pot += cost;
        self.game_state.player_antes[active] -= cost;
        self.game_state.actions.push(action);
        proof {
            lemma_move_is_sound(old(self)@, action);
            assert(self@.stacks =~= old(self)@.after(action).stacks);
        }
        Ok(())
    }

    /// Gives the whole pot to `seat`.
    fn award_pot(&mut self, seat: usize)
        requires
            old(self).wf(),
            seat < 2,
        ensures
            final(self).wf(),
            final(self)@ == old(self)@.awarded(seat as int),
            final(self)@.total() == old(self)@.total(),
            final(self).same_players(old(self)),
    {
        self.game_state.player_antes[seat] += self.game_state.pot;
        self.game_state.pot = 0;
        proof {
            lemma_award_is_sound(old(self)@, seat as int);
            assert(self@.stacks =~= old(self)@.awarded(seat as int).stacks);
        }
    }

    /// Showdown: gives the whole pot to the seat with the higher card and
    /// returns that seat.
    pub fn reward_winning_hand(&mut self) -> (winner: usize)
        requires
            old(self).wf(),
        ensures
            final(self).wf(),
            winner == old(self)@.showdown_winner(),
            final(self)@ == old(self)@.awarded(winner as int),
            final(self)@.total() == old(self)@.total(),
            final(self).same_players(old(self)),
    {
        let winner = showdown_winner(self.player_hand(0), self.player_hand(1));
        self.award_pot(winner);
        winner
    }

    /// Settles the hand if its round is over and the pot not yet awarded:
    /// after a fold the pot goes to the seat that did not fold, else to the
    /// seat with the higher card. Otherwise nothing happens.
    pub fn settle_hand(&mut self) -> (settled: Option<Event>)
        requires
            old(self).wf(),
        ensures
            final(self).wf(),
            final(self)@.total() == old(self)@.total(),
            final(self).same_players(old(self)),
            settled matches Some(e) ==> step_taken(old(self)@, e, final(self)@),
            settled matches Some(e) ==> e is HandSettled,
            settled is Some <==> old(self)@.awaits_settlement(),
            settled is None ==> final(self)@ == old(self)@,
    {
        if self.game_state.pot == 0 {
            return None;
        }
        let offered = self.get_valid_actions();
        if offered.len() > 0 {
            return None;
        }
        proof {
            lemma_one_situation(self@);
        }
        let pot = self.game_state.pot;
        let moves: usize = self.game_state.actions.len();
        if self.game_state.actions[moves - 1] == PlayerAction::Fold {
            let folder = if moves % 2 == 1 {
                self.out_of_position_player()
            } else {
                self.button()
            };
            let winner: usize = 1 - folder;
            self.award_pot(winner);
            Some(Event::HandSettled { winner, pot, showdown: false })
        } else {
            let winner = self.reward_winning_hand();
            Some(Event::HandSettled { winner, pot, showdown: true })
        }
    }

    /// Whether the match is over: no hand is being played and a seat cannot
    /// post the ante.
    pub fn match_over(&self) -> (over: bool)
        requires
            self.wf(),
        ensures
            over == self@.match_over(),
    {
        self.game_state.pot == 0 && (self.game_state.player_antes[0] < ANTE
            || self.game_state.player_antes[1] < ANTE)
    }

    /// One step of the match.
    ///
    /// Between hands: reports the end of the match if a seat cannot post
    /// the ante, and else starts a hand. During a hand: settles it if its
    /// round is over, and else asks the seat to act for a move and applies
    /// it. The player is handed what `decision_request` gives, as it is. A
    /// move that the player was not offered, or cannot pay for, is refused:
    /// the step fails and the state stays as it was.
    pub fn step(&mut self) -> (outcome: Result<Event, EngineError>)
        requires
            old(self).wf(),
        ensures
            final(self).wf(),
            final(self)@.total() == old(self)@.total(),
            outcome matches Ok(e) ==> step_taken(old(self)@, e, final(self)@),
            !old(self)@.awaits_move() ==> final(self).same_players(old(self)),
            old(self)@.awaits_move() ==> final(self).seat(other_seat(old(self)@.to_act()))
                == old(self).seat(other_seat(old(self)@.to_act())),
            outcome matches Err(e) ==> {
                &&& old(self)@.awaits_move()
                &&& final(self)@ == old(self)@
                &&& exists|a: PlayerAction| old(self)@.refusal(a) == Some(e)
            },
            !old(self)@.awaits_move() ==> outcome is Ok,
    {
        proof {
            lemma_one_situation(self@);
        }
        if self.game_state.pot == 0 {
            if self.match_over() {
                let winner: usize = if self.game_state.player_antes[0] > 0 {
                    0
                } else {
                    1
                };
                return Ok(Event::MatchEnded { winner });
            }
            self.begin_round();
            return Ok(Event::HandStarted { button: self.game_state.button });
        }
        if let Some(event) = self.settle_hand() {
            return Ok(event);
        }
        let request = self.game_state.decision_request();
        let active_player = request.player;
        let chosen_action = if active_player == 0 {
            self.player_a.player.select_action(
                request.actions,
                request.history,
                request.hole_card,
                request.pot,
                request.antes,
            )
        } else {
            self.player_b.player.select_action(
                request.actions,
                request.history,
                request.hole_card,
                request.pot,
                request.antes,
            )
        };
        match self.apply_action(chosen_action) {
            Ok(()) => Ok(Event::ActionTaken { player: active_player, action: chosen_action }),
            Err(e) => Err(e),
        }
    }

    /// Plays the match step by step until it is over or `max_steps` steps
    /// are taken, whichever comes first, and returns what the steps
    /// reported. Stops at the first step that fails, with its error. Once a
    /// step has reported the end of the match no further step is taken: no
    /// ante is asked for after a stack is empty.
    pub fn start_game(&mut self, max_steps: usize) -> (run: Result<Vec<Event>, EngineError>)
        requires
            old(self).wf(),
        ensures
            final(self).wf(),
            final(self)@.total() == old(self)@.total(),
            run matches Ok(events) ==> {
                &&& events@.len() <= max_steps
                &&& exists|states: Seq<GameView>|
                    {
                        &&& #[trigger] steps_taken(states, events@)
                        &&& states[0] == old(self)@
                        &&& states.last() == final(self)@
                    }
                &&& forall|i: int| 0 <= i < events@.len() - 1 ==> !(events@[i] is MatchEnded)
                &&& events@.len() < max_steps ==> events@.len() > 0 && events@.last() is MatchEnded
            },
            run matches Err(e) ==> {
                &&& final(self)@.awaits_move()
                &&& exists|a: PlayerAction| final(self)@.refusal(a) == Some(e)
                &&& exists|states: Seq<GameView>, events: Seq<Event>|
                    {
                        &&& #[trigger] steps_taken(states, events)
                        &&& events.len() < max_steps
                        &&& states[0] == old(self)@
                        &&& states.last() == final(self)@
                    }
            },
            old(self)@.match_over() && max_steps > 0 ==> {
                &&& run is Ok
                &&& run->Ok_0@ == seq![
                    Event::MatchEnded { winner: old(self)@.match_winner() as usize },
                ]
                &&& final(self)@ == old(self)@
            },
            max_steps == 0 ==> run is Ok && run->Ok_0@.len() == 0 && final(self)@ == old(self)@,
    {
        let mut events: Vec<Event> = Vec::new();
        let ghost mut states: Seq<GameView> = seq![self@];
        let mut taken: usize = 0;
        while taken < max_steps
            invariant
                self.wf(),
                self@.total() == old(self)@.total(),
                taken == events@.len(),
                taken <= max_steps,
                steps_taken(states, events@),
                states[0] == old(self)@,
                states.last() == self@,
                forall|i: int| 0 <= i < events@.len() ==> !(events@[i] is MatchEnded),
                old(self)@.match_over() ==> taken == 0 && self@ == old(self)@,
            decreases max_steps - taken,
        {
            let ghost earlier = states;
            let ghost reported = events@;
            match self.step() {
                Ok(event) => {
                    events.push(event);
                    taken += 1;
                    proof {
                        states = states.push(self@);
                        assert forall|i: int| 0 <= i < events@.len() implies step_taken(
                            #[trigger] states[i],
                            events@[i],
                            states[i + 1],
                        ) by {
                            if i < reported.len() {
                                assert(step_taken(earlier[i], reported[i], earlier[i + 1]));
                            }
                        }
                    }
                    if let Event::MatchEnded { .. } = event {
                        proof {
                            assert(steps_taken(states, events@));
                            assert forall|i: int| 0 <= i < events@.len() - 1 implies !(events@[i]
                                is MatchEnded) by {
                                assert(events@[i] == reported[i]);
                            }
                        }
                        return Ok(events);
                    }
                },
                Err(e) => {
                    return Err(e);
                },
            }
        }
        Ok(events)
    }
}

} // verus!

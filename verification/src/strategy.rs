//! The parts of a frequency-table strategy that are exact: the key under
//! which a history is looked up, the index that tells which entry of a
//! table belongs to which hole card and history, and the rule that turns
//! one draw into a move.
//!
//! A table gives, for a hole card and a history, a probability for each
//! move. A player that follows it draws one number, compares it with one of
//! those probabilities, and moves accordingly. The probabilities themselves,
//! the draw and the comparison are kept outside this library; it is told
//! only whether the draw fell below the probability.

use crate::action::{legal_actions_of, valid_history, PlayerAction};
use vstd::prelude::*;
use vstd::string::StringExecFns;

verus! {

/// The key of the empty history.
pub open spec fn start_key() -> Seq<char> {
    "start"@
}

/// What separates the moves in a key.
pub open spec fn key_delimiter() -> Seq<char> {
    ","@
}

/// The lower-case names of the moves of `h`, joined by the delimiter.
pub open spec fn joined_names(h: Seq<PlayerAction>) -> Seq<char>
    decreases h.len(),
{
    if h.len() == 0 {
        Seq::empty()
    } else if h.len() == 1 {
        h[0].key_name()
    } else {
        joined_names(h.drop_last()) + key_delimiter() + h.last().key_name()
    }
}

/// The key under which a table holds the entry for history `h`: "start" for
/// the empty history, else the lower-case names of its moves, joined by
/// commas.
pub open spec fn history_key(h: Seq<PlayerAction>) -> Seq<char> {
    if h.len() == 0 {
        start_key()
    } else {
        joined_names(h)
    }
}

/// The key under which a table holds the entry for the history `actions`.
pub fn history_to_key(actions: &[PlayerAction]) -> (key: String)
    ensures
        key@ == history_key(actions@),
{
    if actions.len() == 0 {
        return String::from_str("start");
    }
    let mut key = String::from_str(actions[0].key_str());
    let mut i: usize = 1;
    assert(actions@.take(1) =~= seq![actions@[0]]);
    while i < actions.len()
        invariant
            1 <= i <= actions.len(),
            key@ == joined_names(actions@.take(i as int)),
        decreases actions.len() - i,
    {
        key.append(",");
        key.append(actions[i].key_str());
        assert(actions@.take(i + 1).drop_last() =~= actions@.take(i as int));
        i += 1;
    }
    assert(actions@.take(i as int) =~= actions@);
    key
}

/// Which of the configured probabilities decides a move.
#[derive(Debug, Copy, Clone, PartialEq, Eq, Structural)]
pub enum Threshold {
    /// The probability of a check, where a check is offered.
    Check,
    /// The probability of a fold, everywhere else.
    Fold,
}

/// The probability that decides among `actions`.
pub open spec fn deciding(actions: Seq<PlayerAction>) -> Threshold {
    if actions.contains(PlayerAction::Check) {
        Threshold::Check
    } else {
        Threshold::Fold
    }
}

/// The move for one draw: where a check is offered, a check if the draw
/// fell below the probability of a check and a bet if not; elsewhere a fold
/// if it fell below the probability of a fold and a call if not.
pub open spec fn move_for_draw(actions: Seq<PlayerAction>, below: bool) -> PlayerAction {
    match deciding(actions) {
        Threshold::Check => if below {
            PlayerAction::Check
        } else {
            PlayerAction::Bet
        },
        Threshold::Fold => if below {
            PlayerAction::Fold
        } else {
            PlayerAction::Call
        },
    }
}

/// The probability with which the draw is to be compared.
pub fn deciding_threshold(actions: &[PlayerAction]) -> (threshold: Threshold)
    ensures
        threshold == deciding(actions@),
{
    if crate::action::is_among(actions, PlayerAction::Check) {
        Threshold::Check
    } else {
        Threshold::Fold
    }
}

/// The move to make, given whether the draw fell below the deciding
/// probability.
pub fn action_for_draw(actions: &[PlayerAction], below: bool) -> (chosen: PlayerAction)
    ensures
        chosen == move_for_draw(actions@, below),
{
    match deciding_threshold(actions) {
        Threshold::Check => if below {
            PlayerAction::Check
        } else {
            PlayerAction::Bet
        },
        Threshold::Fold => if below {
            PlayerAction::Fold
        } else {
            PlayerAction::Call
        },
    }
}

/// What tells the key of a history of the tree from the keys of the other
/// eight: its length, and where two lengths agree, one character.
proof fn lemma_key_marks(h: Seq<PlayerAction>)
    requires
        valid_history(h),
    ensures
        h =~= Seq::<PlayerAction>::empty() ==> history_key(h).len() == 5 && history_key(h)[0]
            == 's',
        h =~= seq![PlayerAction::Check] ==> history_key(h).len() == 5 && history_key(h)[0] == 'c',
        h =~= seq![PlayerAction::Bet] ==> history_key(h).len() == 3,
        h =~= seq![PlayerAction::Check, PlayerAction::Bet] ==> history_key(h).len() == 9,
        h =~= seq![PlayerAction::Bet, PlayerAction::Fold] ==> history_key(h).len() == 8
            && history_key(h)[4] == 'f',
        h =~= seq![PlayerAction::Bet, PlayerAction::Call] ==> history_key(h).len() == 8
            && history_key(h)[4] == 'c',
        h =~= seq![PlayerAction::Check, PlayerAction::Bet, PlayerAction::Fold] ==> history_key(
            h,
        ).len() == 14 && history_key(h)[10] == 'f',
        h =~= seq![PlayerAction::Check, PlayerAction::Bet, PlayerAction::Call] ==> history_key(
            h,
        ).len() == 14 && history_key(h)[10] == 'c',
        h =~= seq![PlayerAction::Check, PlayerAction::Check] ==> history_key(h).len() == 11,
{
    reveal_strlit("start");
    reveal_strlit("check");
    reveal_strlit("bet");
    reveal_strlit("call");
    reveal_strlit("fold");
    reveal_strlit(",");
    reveal_with_fuel(joined_names, 4);
    if h.len() >= 2 {
        let shorter = h.drop_last();
        assert(shorter.len() == h.len() - 1);
        assert(shorter[0] == h[0]);
        if h.len() == 3 {
            let shortest = shorter.drop_last();
            assert(shortest.len() == 1);
            assert(shortest[0] == h[0]);
            assert(shorter[1] == h[1]);
        }
    }
}

/// Keys are canonical: two histories of the tree with the same key are the
/// same history, so an entry of a table belongs to one point of the game.
pub proof fn lemma_keys_are_canonical(g: Seq<PlayerAction>, h: Seq<PlayerAction>)
    requires
        valid_history(g),
        valid_history(h),
        history_key(g) == history_key(h),
    ensures
        g == h,
{
    lemma_key_marks(g);
    lemma_key_marks(h);
    assert(g =~= h);
}

/// A player that follows a table moves legally: whenever at least one move
/// is offered and the offer is the legal moves after some history, the move
/// for a draw is one of the offered moves, on whichever side of the
/// probability the draw fell.
pub proof fn lemma_draw_gives_offered_move(h: Seq<PlayerAction>, below: bool)
    requires
        legal_actions_of(h).len() > 0,
    ensures
        legal_actions_of(h).contains(move_for_draw(legal_actions_of(h), below)),
{
    let offered = legal_actions_of(h);
    assert(offered.len() == 2);
    if offered[0] == PlayerAction::Check {
        assert(offered.contains(PlayerAction::Check));
        assert(offered[1] == PlayerAction::Bet);
    } else {
        assert(offered[0] == PlayerAction::Fold);
        assert(offered[1] == PlayerAction::Call);
        assert(!offered.contains(PlayerAction::Check));
    }
}

/// Why a table has no entry for a hole card and a history.
#[derive(Debug, Copy, Clone, PartialEq, Eq, Structural)]
pub enum ConfigError {
    /// The table has nothing for the hole card.
    MissingCard,
    /// The table has entries for the hole card, but none for the history.
    MissingHistory,
}

/// A pair of a hole-card label and a history key.
pub type TableKey = (Seq<char>, Seq<char>);

/// Some entry of `keys` is for the hole card `card`.
pub open spec fn has_card(keys: Seq<TableKey>, card: Seq<char>) -> bool {
    exists|i: int| 0 <= i < keys.len() && (#[trigger] keys[i]).0 == card
}

/// One entry of the index.
struct IndexEntry {
    card: String,
    key: String,
}

/// The index of a strategy table: for each pair of a hole-card label and a
/// history key that the table has an entry for, the slot at which the entry
/// is kept. Slots are numbered from zero in the order in which the pairs
/// were entered, and no pair occurs twice.
pub struct StrategyIndex {
    entries: Vec<IndexEntry>,
}

impl View for StrategyIndex {
    type V = Seq<TableKey>;

    closed spec fn view(&self) -> Seq<TableKey> {
        Seq::new(self.entries@.len(), |i: int| (self.entries@[i].card@, self.entries@[i].key@))
    }
}

impl StrategyIndex {
    /// No pair occurs twice.
    pub open spec fn wf(&self) -> bool {
        self@.no_duplicates()
    }

    /// An index without entries.
    pub fn new() -> (index: Self)
        ensures
            index@ == Seq::<TableKey>::empty(),
            index.wf(),
    {
        let index = Self { entries: Vec::new() };
        assert(index@ =~= Seq::<TableKey>::empty());
        index
    }

    /// The number of entries, which is the next free slot.
    pub fn len(&self) -> (n: usize)
        ensures
            n == self@.len(),
    {
        self.entries.len()
    }

    /// The slot of the pair, if the index has it.
    fn position(&self, card: &String, key: &String) -> (at: Option<usize>)
        ensures
            match at {
                Some(slot) => slot < self@.len() && self@[slot as int] == (card@, key@) && forall|
                    j: int,
                | 0 <= j < slot ==> self@[j] != (card@, key@),
                None => !self@.contains((card@, key@)),
            },
    {
        let mut i: usize = 0;
        while i < self.entries.len()
            invariant
                i <= self.entries@.len(),
                self@.len() == self.entries@.len(),
                forall|j: int| 0 <= j < i ==> self@[j] != (card@, key@),
            decreases self.entries.len() - i,
        {
            if self.entries[i].card == *card && self.entries[i].key == *key {
                return Some(i);
            }
            i += 1;
        }
        None
    }

    /// Whether some entry is for the hole card.
    fn knows_card(&self, card: &String) -> (known: bool)
        ensures
            known == has_card(self@, card@),
    {
        let mut i: usize = 0;
        while i < self.entries.len()
            invariant
                i <= self.entries@.len(),
                self@.len() == self.entries@.len(),
                forall|j: int| 0 <= j < i ==> (#[trigger] self@[j]).0 != card@,
            decreases self.entries.len() - i,
        {
            if self.entries[i].card == *card {
                assert(self@[i as int].0 == card@);
                return true;
            }
            i += 1;
        }
        false
    }

    /// Enters the pair of `card` and `key` and returns its slot: the slot
    /// it already has, or else the next free one.
    pub fn insert(&mut self, card: &str, key: &str) -> (slot: usize)
        requires
            old(self).wf(),
        ensures
            final(self).wf(),
            slot < final(self)@.len(),
            final(self)@[slot as int] == (card@, key@),
            old(self)@.contains((card@, key@)) ==> final(self)@ == old(self)@,
            !old(self)@.contains((card@, key@)) ==> final(self)@ == old(self)@.push((card@, key@))
                && slot == old(self)@.len(),
    {
        let card = String::from_str(card);
        let key = String::from_str(key);
        match self.position(&card, &key) {
            Some(slot) => slot,
            None => {
                let slot = self.entries.len();
                self.entries.push(IndexEntry { card, key });
                assert(self@ =~= old(self)@.push((card@, key@)));
                slot
            },
        }
    }

    /// The slot of the entry for the hole card `card` and the history key
    /// `key`. A table without such an entry is misconfigured: the error
    /// tells whether the hole card is missing altogether or only the
    /// history under it.
    pub fn lookup(&self, card: &str, key: &str) -> (found: Result<usize, ConfigError>)
        requires
            self.wf(),
        ensures
            match found {
                Ok(slot) => slot < self@.len() && self@[slot as int] == (card@, key@),
                Err(ConfigError::MissingHistory) => !self@.contains((card@, key@)) && has_card(
                    self@,
                    card@,
                ),
                Err(ConfigError::MissingCard) => !has_card(self@, card@),
            },
    {
        let card = String::from_str(card);
        let key = String::from_str(key);
        match self.position(&card, &key) {
            Some(slot) => Ok(slot),
            None => if self.knows_card(&card) {
                Err(ConfigError::MissingHistory)
            } else {
                Err(ConfigError::MissingCard)
            },
        }
    }
}

/// A lookup has one answer: in an index without duplicates a pair that is
/// present has exactly one slot, and a pair that is present is for a card
/// that is present.
pub proof fn lemma_lookup_is_decided(keys: Seq<TableKey>, pair: TableKey, i: int, j: int)
    requires
        keys.no_duplicates(),
        0 <= i < keys.len(),
        0 <= j < keys.len(),
        keys[i] == pair,
        keys[j] == pair,
    ensures
        i == j,
        has_card(keys, pair.0),
        keys.contains(pair),
{
}

} // verus!

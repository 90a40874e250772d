//! The four moves of a betting round and the tree of legal move sequences.
//!
//! A hand has a single betting round. Its history is the sequence of moves
//! made so far; the tree below fixes which move may follow which:
//!
//! | history            | legal moves    |
//! |--------------------|----------------|
//! | (empty)            | Check, Bet     |
//! | Check              | Check, Bet     |
//! | Bet                | Fold, Call     |
//! | Check, Bet         | Fold, Call     |
//! | any complete round | none           |

use vstd::prelude::*;

verus! {

/// A move in the betting round.
#[derive(Debug, Copy, Clone, PartialEq, Eq, Structural)]
pub enum PlayerAction {
    Bet,
    Call,
    Check,
    Fold,
}

impl PlayerAction {
    /// The name under which the move is shown to a player.
    pub open spec fn name(self) -> Seq<char> {
        match self {
            PlayerAction::Bet => "Bet"@,
            PlayerAction::Call => "Call"@,
            PlayerAction::Check => "Check"@,
            PlayerAction::Fold => "Fold"@,
        }
    }

    /// The lower-case name, as it appears in a history key.
    pub open spec fn key_name(self) -> Seq<char> {
        match self {
            PlayerAction::Bet => "bet"@,
            PlayerAction::Call => "call"@,
            PlayerAction::Check => "check"@,
            PlayerAction::Fold => "fold"@,
        }
    }

    /// The chips that the move takes from the mover's stack into the pot.
    pub open spec fn cost(self) -> nat {
        match self {
            PlayerAction::Bet | PlayerAction::Call => 1,
            PlayerAction::Check | PlayerAction::Fold => 0,
        }
    }

    /// The display name of the move.
    pub fn as_str(&self) -> (s: &'static str)
        ensures
            s@ == self.name(),
    {
        match self {
            PlayerAction::Bet => "Bet",
            PlayerAction::Call => "Call",
            PlayerAction::Check => "Check",
            PlayerAction::Fold => "Fold",
        }
    }

    /// The lower-case name of the move.
    pub fn key_str(&self) -> (s: &'static str)
        ensures
            s@ == self.key_name(),
    {
        match self {
            PlayerAction::Bet => "bet",
            PlayerAction::Call => "call",
            PlayerAction::Check => "check",
            PlayerAction::Fold => "fold",
        }
    }

    /// The number of chips the move costs: one for a bet or a call, none
    /// for a check or a fold.
    pub fn chip_cost(&self) -> (c: u64)
        ensures
            c == self.cost(),
    {
        match self {
            PlayerAction::Bet | PlayerAction::Call => 1,
            PlayerAction::Check | PlayerAction::Fold => 0,
        }
    }
}

/// The lower-case form of an upper-case Latin letter; any other character
/// as it is.
pub open spec fn lower_case(c: char) -> char {
    if 'A' as int <= c as int <= 'Z' as int {
        ((c as int) + 32) as char
    } else {
        c
    }
}

/// The name of a move in a history key is its display name in lower case.
pub proof fn lemma_key_name_is_lower_case(a: PlayerAction)
    ensures
        a.key_name() == a.name().map_values(|c: char| lower_case(c)),
{
    reveal_strlit("Bet");
    reveal_strlit("Call");
    reveal_strlit("Check");
    reveal_strlit("Fold");
    reveal_strlit("bet");
    reveal_strlit("call");
    reveal_strlit("check");
    reveal_strlit("fold");
    assert(a.key_name() =~= a.name().map_values(|c: char| lower_case(c)));
}

/// A decision point of the betting round, or its end.
#[derive(Debug, Copy, Clone, PartialEq, Eq, Structural)]
pub enum Node {
    /// Nobody has moved.
    Start,
    /// The first player checked.
    Checked,
    /// The first player bet.
    Bet1,
    /// The first player checked and the second bet.
    CheckBet,
    /// The round is over, or the history is none of the tree.
    Terminal,
}

impl Node {
    /// The moves open at this node, in the order in which they are offered.
    pub open spec fn legal(self) -> Seq<PlayerAction> {
        match self {
            Node::Start | Node::Checked => seq![PlayerAction::Check, PlayerAction::Bet],
            Node::Bet1 | Node::CheckBet => seq![PlayerAction::Fold, PlayerAction::Call],
            Node::Terminal => Seq::empty(),
        }
    }

    /// The node reached from this one by move `a`.
    pub open spec fn next(self, a: PlayerAction) -> Node {
        match (self, a) {
            (Node::Start, PlayerAction::Check) => Node::Checked,
            (Node::Start, PlayerAction::Bet) => Node::Bet1,
            (Node::Checked, PlayerAction::Bet) => Node::CheckBet,
            _ => Node::Terminal,
        }
    }

    /// The moves open at this node.
    pub fn legal_actions(&self) -> (v: Vec<PlayerAction>)
        ensures
            v@ == self.legal(),
    {
        let mut v: Vec<PlayerAction> = Vec::new();
        match self {
            Node::Start | Node::Checked => {
                v.push(PlayerAction::Check);
                v.push(PlayerAction::Bet);
            },
            Node::Bet1 | Node::CheckBet => {
                v.push(PlayerAction::Fold);
                v.push(PlayerAction::Call);
            },
            Node::Terminal => {},
        }
        v
    }
}

/// The node at which history `h` stands. A history outside the tree stands
/// at `Terminal`, as a complete round does.
pub open spec fn node_of(h: Seq<PlayerAction>) -> Node {
    if h.len() == 0 {
        Node::Start
    } else if h.len() == 1 && h[0] == PlayerAction::Check {
        Node::Checked
    } else if h.len() == 1 && h[0] == PlayerAction::Bet {
        Node::Bet1
    } else if h.len() == 2 && h[0] == PlayerAction::Check && h[1] == PlayerAction::Bet {
        Node::CheckBet
    } else {
        Node::Terminal
    }
}

/// The moves that may follow history `h`: a function of the history alone.
pub open spec fn legal_actions_of(h: Seq<PlayerAction>) -> Seq<PlayerAction> {
    node_of(h).legal()
}

/// `h` is one of the five complete rounds.
pub open spec fn complete_round(h: Seq<PlayerAction>) -> bool {
    ||| h =~= seq![PlayerAction::Bet, PlayerAction::Fold]
    ||| h =~= seq![PlayerAction::Bet, PlayerAction::Call]
    ||| h =~= seq![PlayerAction::Check, PlayerAction::Bet, PlayerAction::Fold]
    ||| h =~= seq![PlayerAction::Check, PlayerAction::Bet, PlayerAction::Call]
    ||| h =~= seq![PlayerAction::Check, PlayerAction::Check]
}

/// `h` is one of the four histories after which a player has to move.
pub open spec fn open_round(h: Seq<PlayerAction>) -> bool {
    ||| h =~= Seq::<PlayerAction>::empty()
    ||| h =~= seq![PlayerAction::Check]
    ||| h =~= seq![PlayerAction::Bet]
    ||| h =~= seq![PlayerAction::Check, PlayerAction::Bet]
}

/// `h` is one of the nine histories of the tree.
pub open spec fn valid_history(h: Seq<PlayerAction>) -> bool {
    open_round(h) || complete_round(h)
}

/// The round ended with a fold.
pub open spec fn ends_in_fold(h: Seq<PlayerAction>) -> bool {
    h.len() > 0 && h.last() == PlayerAction::Fold
}

/// The chips that the moves of `h` have put into the pot.
pub open spec fn committed(h: Seq<PlayerAction>) -> nat
    decreases h.len(),
{
    if h.len() == 0 {
        0
    } else {
        committed(h.drop_last()) + h.last().cost()
    }
}

/// The node at which `history` stands.
pub fn classify(history: &[PlayerAction]) -> (node: Node)
    ensures
        node == node_of(history@),
{
    let n: usize = history.len();
    if n == 0 {
        Node::Start
    } else if n == 1 {
        match history[0] {
            PlayerAction::Check => Node::Checked,
            PlayerAction::Bet => Node::Bet1,
            _ => Node::Terminal,
        }
    } else if n == 2 {
        match (history[0], history[1]) {
            (PlayerAction::Check, PlayerAction::Bet) => Node::CheckBet,
            _ => Node::Terminal,
        }
    } else {
        Node::Terminal
    }
}

/// The moves that may follow `history`; none when the round is over.
pub fn legal_actions(history: &[PlayerAction]) -> (v: Vec<PlayerAction>)
    ensures
        v@ == legal_actions_of(history@),
{
    classify(history).legal_actions()
}

/// Whether `action` is among `actions`.
pub fn is_among(actions: &[PlayerAction], action: PlayerAction) -> (found: bool)
    ensures
        found == actions@.contains(action),
{
    let mut i: usize = 0;
    while i < actions.len()
        invariant
            i <= actions.len(),
            forall|j: int| 0 <= j < i ==> actions@[j] != action,
        decreases actions.len() - i,
    {
        if actions[i] == action {
            return true;
        }
        i += 1;
    }
    false
}

/// An open round stands at a decision node, where two moves are offered; a
/// complete round stands at `Terminal`, where none is.
pub proof fn lemma_open_or_complete(h: Seq<PlayerAction>)
    requires
        valid_history(h),
    ensures
        open_round(h) <==> node_of(h) != Node::Terminal,
        open_round(h) <==> legal_actions_of(h).len() == 2,
        complete_round(h) <==> legal_actions_of(h).len() == 0,
        open_round(h) != complete_round(h),
{
}

/// A legal move leads from a history of the tree to a history of the tree,
/// and to the node that `Node::next` names.
pub proof fn lemma_legal_move_stays_in_tree(h: Seq<PlayerAction>, a: PlayerAction)
    requires
        valid_history(h),
        legal_actions_of(h).contains(a),
    ensures
        valid_history(h.push(a)),
        node_of(h.push(a)) == node_of(h).next(a),
        committed(h.push(a)) == committed(h) + a.cost(),
{
    assert(h.push(a).drop_last() =~= h);
    assert(a == legal_actions_of(h)[0] || a == legal_actions_of(h)[1]);
}

/// Every non-empty history of the tree arises from a shorter history of the
/// tree by a move that was legal there. With the lemma above: the nine
/// histories are exactly those that legal play produces.
pub proof fn lemma_tree_is_closed_under_prefix(h: Seq<PlayerAction>)
    requires
        valid_history(h),
        h.len() > 0,
    ensures
        valid_history(h.drop_last()),
        legal_actions_of(h.drop_last()).contains(h.last()),
{
    let offered = legal_actions_of(h.drop_last());
    if offered.len() == 2 {
        assert(offered[0] == h.last() || offered[1] == h.last());
    }
}

/// The chips that each history of the tree has put into the pot.
pub proof fn lemma_committed_in_tree(h: Seq<PlayerAction>)
    requires
        valid_history(h),
    ensures
        committed(h) == if h =~= seq![PlayerAction::Bet, PlayerAction::Call] || h =~= seq![
            PlayerAction::Check,
            PlayerAction::Bet,
            PlayerAction::Call,
        ] {
            2nat
        } else if h =~= seq![PlayerAction::Bet] || h =~= seq![PlayerAction::Check, PlayerAction::Bet]
            || h =~= seq![PlayerAction::Bet, PlayerAction::Fold] || h =~= seq![
            PlayerAction::Check,
            PlayerAction::Bet,
            PlayerAction::Fold,
        ] {
            1nat
        } else {
            0nat
        },
    decreases h.len(),
{
    if h.len() > 0 {
        lemma_tree_is_closed_under_prefix(h);
        lemma_committed_in_tree(h.drop_last());
    }
}

} // verus!

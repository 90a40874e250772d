use kuhn_poker::action::{classify, is_among, legal_actions, Node, PlayerAction};
use kuhn_poker::card::{showdown_winner, Card};

use PlayerAction::{Bet, Call, Check, Fold};

#[test]
fn card_labels() {
    assert_eq!(Card::J.as_str(), "J");
    assert_eq!(Card::Q.as_str(), "Q");
    assert_eq!(Card::K.as_str(), "K");
}

#[test]
fn card_ranks_are_ordered() {
    assert_eq!(Card::J.rank_value(), 0);
    assert_eq!(Card::Q.rank_value(), 1);
    assert_eq!(Card::K.rank_value(), 2);
    assert!(Card::J < Card::Q);
    assert!(Card::Q < Card::K);
    assert!(Card::J < Card::K);
}

#[test]
fn showdown_goes_to_the_higher_card_for_every_pair() {
    let cards = [Card::J, Card::Q, Card::K];
    for a in cards {
        for b in cards {
            if a == b {
                continue;
            }
            let seat = showdown_winner(a, b);
            let expected: usize = if a > b { 0 } else { 1 };
            assert_eq!(seat, expected, "{:?} against {:?}", a, b);
            assert_eq!(showdown_winner(b, a), 1 - seat);
        }
    }
    assert_eq!(showdown_winner(Card::K, Card::J), 0);
    assert_eq!(showdown_winner(Card::J, Card::K), 1);
    assert_eq!(showdown_winner(Card::Q, Card::K), 1);
    assert_eq!(showdown_winner(Card::Q, Card::J), 0);
}

#[test]
fn action_names() {
    assert_eq!(Bet.as_str(), "Bet");
    assert_eq!(Call.as_str(), "Call");
    assert_eq!(Check.as_str(), "Check");
    assert_eq!(Fold.as_str(), "Fold");
    for a in [Bet, Call, Check, Fold] {
        assert_eq!(a.key_str(), a.as_str().to_lowercase());
    }
}

#[test]
fn only_bet_and_call_cost_a_chip() {
    assert_eq!(Bet.chip_cost(), 1);
    assert_eq!(Call.chip_cost(), 1);
    assert_eq!(Check.chip_cost(), 0);
    assert_eq!(Fold.chip_cost(), 0);
}

#[test]
fn empty_history_offers_check_and_bet() {
    assert_eq!(legal_actions(&[]), vec![Check, Bet]);
    assert_eq!(classify(&[]), Node::Start);
}

#[test]
fn a_check_offers_check_and_bet() {
    assert_eq!(legal_actions(&[Check]), vec![Check, Bet]);
    assert_eq!(classify(&[Check]), Node::Checked);
}

#[test]
fn a_bet_offers_fold_and_call() {
    assert_eq!(legal_actions(&[Bet]), vec![Fold, Call]);
    assert_eq!(classify(&[Bet]), Node::Bet1);
    assert_eq!(legal_actions(&[Check, Bet]), vec![Fold, Call]);
    assert_eq!(classify(&[Check, Bet]), Node::CheckBet);
}

#[test]
fn complete_rounds_offer_nothing() {
    let complete: [&[PlayerAction]; 5] = [
        &[Bet, Fold],
        &[Bet, Call],
        &[Check, Bet, Fold],
        &[Check, Bet, Call],
        &[Check, Check],
    ];
    for h in complete {
        assert!(legal_actions(h).is_empty(), "{:?}", h);
        assert_eq!(classify(h), Node::Terminal);
    }
}

#[test]
fn histories_outside_the_tree_offer_nothing() {
    let outside: [&[PlayerAction]; 6] = [
        &[Fold],
        &[Call],
        &[Check, Fold],
        &[Bet, Bet],
        &[Check, Check, Check],
        &[Check, Bet, Call, Check],
    ];
    for h in outside {
        assert!(legal_actions(h).is_empty(), "{:?}", h);
        assert_eq!(classify(h), Node::Terminal);
    }
}

#[test]
fn node_offers() {
    assert_eq!(Node::Start.legal_actions(), vec![Check, Bet]);
    assert_eq!(Node::Checked.legal_actions(), vec![Check, Bet]);
    assert_eq!(Node::Bet1.legal_actions(), vec![Fold, Call]);
    assert_eq!(Node::CheckBet.legal_actions(), vec![Fold, Call]);
    assert_eq!(Node::Terminal.legal_actions(), vec![]);
}

#[test]
fn legal_actions_depend_on_the_history_alone() {
    let histories: [&[PlayerAction]; 9] = [
        &[],
        &[Check],
        &[Bet],
        &[Check, Bet],
        &[Bet, Fold],
        &[Bet, Call],
        &[Check, Bet, Fold],
        &[Check, Bet, Call],
        &[Check, Check],
    ];
    for h in histories {
        let first = legal_actions(h);
        let again = legal_actions(&h.to_vec());
        assert_eq!(first, again);
    }
}

#[test]
fn the_tree_has_nine_histories() {
    // Walk the tree from the empty history by legal moves only.
    let mut reached: Vec<Vec<PlayerAction>> = vec![vec![]];
    let mut at: usize = 0;
    while at < reached.len() {
        let h = reached[at].clone();
        for a in legal_actions(&h) {
            let mut longer = h.clone();
            longer.push(a);
            reached.push(longer);
        }
        at += 1;
    }
    reached.sort_by_key(|h| format!("{:?}", h));
    let mut expected: Vec<Vec<PlayerAction>> = vec![
        vec![],
        vec![Check],
        vec![Bet],
        vec![Check, Bet],
        vec![Bet, Fold],
        vec![Bet, Call],
        vec![Check, Bet, Fold],
        vec![Check, Bet, Call],
        vec![Check, Check],
    ];
    expected.sort_by_key(|h| format!("{:?}", h));
    assert_eq!(reached, expected);
}

#[test]
fn membership() {
    assert!(is_among(&[Check, Bet], Check));
    assert!(is_among(&[Check, Bet], Bet));
    assert!(!is_among(&[Check, Bet], Fold));
    assert!(!is_among(&[Check, Bet], Call));
    assert!(!is_among(&[], Check));
}

use kuhn_poker::action::PlayerAction;
use kuhn_poker::strategy::{
    action_for_draw, deciding_threshold, history_to_key, ConfigError, StrategyIndex, Threshold,
};
use rand::Rng;

use PlayerAction::{Bet, Call, Check, Fold};

#[test]
fn key_of_the_empty_history_is_start() {
    assert_eq!(history_to_key(&[]), "start");
}

#[test]
fn keys_join_lower_case_names_with_commas() {
    assert_eq!(history_to_key(&[Check]), "check");
    assert_eq!(history_to_key(&[Bet]), "bet");
    assert_eq!(history_to_key(&[Check, Bet]), "check,bet");
    assert_eq!(history_to_key(&[Bet, Call]), "bet,call");
    assert_eq!(history_to_key(&[Check, Bet, Fold]), "check,bet,fold");
    assert_eq!(history_to_key(&[Fold, Call, Check, Bet]), "fold,call,check,bet");
}

#[test]
fn check_probability_decides_where_a_check_is_offered() {
    assert_eq!(deciding_threshold(&[Check, Bet]), Threshold::Check);
    assert_eq!(deciding_threshold(&[Bet, Check]), Threshold::Check);
    assert_eq!(deciding_threshold(&[Fold, Call]), Threshold::Fold);
    assert_eq!(deciding_threshold(&[]), Threshold::Fold);
}

#[test]
fn a_draw_is_partitioned_by_one_threshold() {
    assert_eq!(action_for_draw(&[Check, Bet], true), Check);
    assert_eq!(action_for_draw(&[Check, Bet], false), Bet);
    assert_eq!(action_for_draw(&[Fold, Call], true), Fold);
    assert_eq!(action_for_draw(&[Fold, Call], false), Call);
}

#[test]
fn a_draw_gives_an_offered_move() {
    for offered in [vec![Check, Bet], vec![Fold, Call]] {
        for below in [true, false] {
            assert!(offered.contains(&action_for_draw(&offered, below)));
        }
    }
}

#[test]
fn certain_check_always_checks() {
    // The table entry for a J at the start: bet 0.0, check 1.0.
    let check_probability: f64 = 1.0;
    let mut index = StrategyIndex::new();
    let slot = index.insert("J", "start");
    let mut rng = rand::rng();
    for _ in 0..10_000 {
        let key = history_to_key(&[]);
        assert_eq!(index.lookup("J", &key), Ok(slot));
        assert_eq!(deciding_threshold(&[Check, Bet]), Threshold::Check);
        let draw: f64 = rng.random();
        assert_eq!(action_for_draw(&[Check, Bet], draw < check_probability), Check);
    }
}

#[test]
fn index_slots_follow_insertion_order() {
    let mut index = StrategyIndex::new();
    assert_eq!(index.len(), 0);
    assert_eq!(index.insert("J", "start"), 0);
    assert_eq!(index.insert("J", "check,bet"), 1);
    assert_eq!(index.insert("K", "start"), 2);
    assert_eq!(index.len(), 3);
    assert_eq!(index.lookup("J", "start"), Ok(0));
    assert_eq!(index.lookup("J", "check,bet"), Ok(1));
    assert_eq!(index.lookup("K", "start"), Ok(2));
}

#[test]
fn entering_a_pair_twice_keeps_its_slot() {
    let mut index = StrategyIndex::new();
    assert_eq!(index.insert("Q", "bet"), 0);
    assert_eq!(index.insert("Q", "check"), 1);
    assert_eq!(index.insert("Q", "bet"), 0);
    assert_eq!(index.len(), 2);
    assert_eq!(index.lookup("Q", "bet"), Ok(0));
}

#[test]
fn a_missing_card_is_reported() {
    let mut index = StrategyIndex::new();
    assert_eq!(index.lookup("J", "start"), Err(ConfigError::MissingCard));
    index.insert("J", "start");
    assert_eq!(index.lookup("Q", "start"), Err(ConfigError::MissingCard));
}

#[test]
fn a_missing_history_is_reported() {
    let mut index = StrategyIndex::new();
    index.insert("J", "start");
    index.insert("Q", "bet");
    assert_eq!(index.lookup("J", "bet"), Err(ConfigError::MissingHistory));
    assert_eq!(index.lookup("Q", "start"), Err(ConfigError::MissingHistory));
    assert_eq!(index.lookup("J", "check,bet"), Err(ConfigError::MissingHistory));
}

use poker_in_rust::player::{Active, BetError, Player, PlayerId};
use poker_in_rust::{Card, Hand, Pot, Rank, Suit};

fn create_test_player(id: u8) -> Player<Active> {
    let hand = Hand::new([
        Card::new(Suit::Spade, Rank::Ace),
        Card::new(Suit::Heart, Rank::Queen),
    ]);
    let chips = 100;
    Player::<Active>::new(PlayerId(id), hand, chips)
}

#[test]
fn betting_reduces_chip_count() {
    let mut player = create_test_player(0);
    let mut pot = Pot::default();
    assert!(player.bet(20, &mut pot).is_ok());
    assert_eq!(80, player.chips);
    assert_eq!(20, pot.chips);
}

#[test]
fn cannot_bet_more_chips_than_player_has() {
    let mut player = create_test_player(0);
    let mut pot = Pot::default();
    assert!(player.bet(300, &mut pot).is_err());
}

#[test]
fn cannot_bet_less_than_minimum_pot_bet() {
    let mut player = create_test_player(0);
    let mut pot = Pot::new(50, 10);
    assert!(player.bet(5, &mut pot).is_err());
}

#[test]
fn raising_increases_minimum_bet() {
    let mut player = create_test_player(0);
    let mut pot = Pot::new(50, 10);
    let _ = player.bet(20, &mut pot);
    assert_eq!(20, pot.minimum_bet)
}

#[test]
fn each_rejection_names_its_reason() {
    let mut player = create_test_player(0);
    let mut pot = Pot::new(50, 10);
    assert_eq!(Err(BetError::BelowMinimum), player.bet(5, &mut pot));
    assert_eq!(Err(BetError::InsufficientChips), player.bet(300, &mut pot));
    assert_eq!(100, player.chips);
    assert_eq!(50, pot.chips);
}

#[test]
fn committed_chips_lower_what_a_call_owes() {
    let mut player = create_test_player(0);
    let mut pot = Pot::new(0, 10);
    assert!(player.bet(10, &mut pot).is_ok());
    assert_eq!(10, player.state.chips_bet_in_stage);
    // Already committed 10 against a threshold of 10: a zero bet now passes.
    assert!(player.bet(0, &mut pot).is_ok());
    assert_eq!(90, player.chips);
}

#[test]
fn folding_and_dealing_in_keep_identity_and_chips() {
    let player = create_test_player(7);
    let folded = player.fold();
    assert_eq!(PlayerId(7), folded.id);
    assert_eq!(100, folded.chips);
    let hand = Hand::new([
        Card::new(Suit::Club, Rank::Two),
        Card::new(Suit::Diamond, Rank::Three),
    ]);
    let active = folded.deal_in(hand);
    assert_eq!(PlayerId(7), active.id);
    assert_eq!(100, active.chips);
    assert_eq!(0, active.state.chips_bet_in_stage);
}

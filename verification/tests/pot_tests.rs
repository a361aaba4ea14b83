use poker_in_rust::player::{Active, Player, PlayerId};
use poker_in_rust::{Deck, Hand, Pot};

fn create_test_player(deck: &mut Deck, chips: u32) -> Player<Active> {
    let hand = Hand::new([
        deck.draw().expect("Deck was empty"),
        deck.draw().expect("Deck was empty"),
    ]);
    Player::<Active>::new(PlayerId(0), hand, chips)
}

#[test]
fn can_deal_its_winnings_to_players() {
    let mut deck = Deck::new();
    let player_chips = 100;
    let pot_chips = 50;

    let mut players = vec![
        create_test_player(&mut deck, player_chips),
        create_test_player(&mut deck, player_chips),
    ];

    let mut pot = Pot::new(pot_chips, 0);
    pot.deal_winnings(&mut players);

    let pot_chips_per_player = pot_chips / players.len() as u32;
    assert!(players
        .iter()
        .all(|player| player_chips + pot_chips_per_player == player.chips));
    assert_eq!(0, pot.chips);
}

#[test]
fn distributes_extra_chips_by_player_order() {
    let mut deck = Deck::new();
    let player_chips = 5;
    let pot_chips = 5;

    let mut players = vec![
        create_test_player(&mut deck, player_chips),
        create_test_player(&mut deck, player_chips),
        create_test_player(&mut deck, player_chips),
    ];

    let mut pot = Pot::new(pot_chips, 0);
    pot.deal_winnings(&mut players);

    // 5 into 3 does not go.. so divide based on player order
    assert_eq!(7, players[0].chips);
    assert_eq!(7, players[1].chips);
    assert_eq!(6, players[2].chips);
}

#[test]
fn dealing_winnings_resets_the_minimum_bet() {
    let mut deck = Deck::new();
    let mut players = vec![create_test_player(&mut deck, 5)];
    let mut pot = Pot::new(9, 40);
    pot.deal_winnings(&mut players);
    assert_eq!(14, players[0].chips);
    assert_eq!(0, pot.chips);
    assert_eq!(0, pot.minimum_bet);
}

use poker_in_rust::{Card, Deck, Rank, Suit};

#[test]
fn has_52_cards_at_creation() {
    let deck = Deck::new();
    assert_eq!(52, deck.cards.len())
}

#[test]
fn can_draw_card_if_not_empty() {
    let mut deck = Deck::new();
    assert!(deck.draw().is_some())
}

#[test]
fn cannot_draw_card_if_empty() {
    let mut deck = Deck::new();
    deck.cards.clear();
    assert!(deck.draw().is_none())
}

// Can theoretically fail - but not likely
#[test]
fn can_be_shuffled() {
    let deck = Deck::new();
    let original_order = deck.cards.to_vec();
    let shuffled_order = deck.shuffle().cards;
    assert!(original_order
        .iter()
        .zip(shuffled_order.iter())
        .any(|pair| pair.0 != pair.1))
}

#[test]
fn fresh_deck_has_no_duplicates() {
    let deck = Deck::new();
    for i in 0..deck.cards.len() {
        for j in (i + 1)..deck.cards.len() {
            assert_ne!(deck.cards[i], deck.cards[j]);
        }
    }
}

#[test]
fn shuffling_keeps_the_same_cards() {
    let deck = Deck::new();
    let before = deck.cards.to_vec();
    let mut after = deck.shuffle().cards;
    assert_eq!(52, after.len());
    for card in before {
        let pos = after.iter().position(|c| *c == card);
        assert!(pos.is_some());
        after.remove(pos.unwrap());
    }
    assert!(after.is_empty());
}

#[test]
fn draw_returns_the_last_card() {
    let mut deck = Deck::new();
    let expected = Card::new(Suit::Spade, Rank::Ace);
    assert_eq!(Some(expected), deck.draw());
    assert_eq!(51, deck.cards.len());
}

#[test]
fn card_ordinals_walk_the_canonical_order() {
    assert_eq!(1, Card::new(Suit::Club, Rank::Two).ordinal());
    assert_eq!(2, Card::new(Suit::Diamond, Rank::Two).ordinal());
    assert_eq!(52, Card::new(Suit::Spade, Rank::Ace).ordinal());
    let deck = Deck::new();
    for (k, card) in deck.cards.iter().enumerate() {
        assert_eq!((k + 1) as u8, card.ordinal());
    }
}

use poker_in_rust::{Card, DataBase, HandRank, HandVal, LookupEvaluator, Rank, Suit};

/// A table whose every entry is `value`, long enough that a seven-card walk
/// stays inside it whatever the cards are.
fn constant_table(value: u32) -> LookupEvaluator {
    let len = value as usize + 60;
    let table = vec![value; len];
    LookupEvaluator::new(DataBase(table))
}

#[test]
fn format_data_decodes_little_endian_words() {
    let bytes = vec![0x78, 0x56, 0x34, 0x12, 1, 0, 0, 0];
    assert_eq!(vec![0x12345678, 1], DataBase::format_data(bytes));
}

#[test]
fn format_data_drops_a_trailing_partial_word() {
    let bytes = vec![2, 0, 0, 0, 0xFF, 0xFF];
    assert_eq!(vec![2], DataBase::format_data(bytes));
    assert_eq!(Vec::<u32>::new(), DataBase::format_data(vec![9, 9, 9]));
}

#[test]
fn a_pair_scores_as_category_two() {
    // Under this table every walk ends on the same value, whose top bits
    // encode category 2: the pair hand from the game's card set.
    let evaluator = constant_table(2 << 12);
    let cards = [
        Card::new(Suit::Spade, Rank::Nine),
        Card::new(Suit::Club, Rank::Ace),
        Card::new(Suit::Club, Rank::Nine),
        Card::new(Suit::Heart, Rank::King),
        Card::new(Suit::Spade, Rank::Two),
        Card::new(Suit::Diamond, Rank::Jack),
        Card::new(Suit::Spade, Rank::Three),
    ];
    let val = evaluator.try_evaluate(&cards).expect("walk stayed in the table");
    assert_eq!(HandVal(2 << 12), val);
    assert_eq!(Some(HandRank::Pair), HandRank::of_val(val));
}

#[test]
fn a_royal_flush_scores_as_a_straight_flush() {
    // Category 9 is the top one: a royal flush is reported as a straight
    // flush, not as a category of its own.
    let evaluator = constant_table(9 << 12);
    let cards = [
        Card::new(Suit::Spade, Rank::Ace),
        Card::new(Suit::Spade, Rank::King),
        Card::new(Suit::Spade, Rank::Queen),
        Card::new(Suit::Spade, Rank::Jack),
        Card::new(Suit::Spade, Rank::Ten),
        Card::new(Suit::Club, Rank::Two),
        Card::new(Suit::Diamond, Rank::Seven),
    ];
    let val = evaluator.try_evaluate(&cards).expect("walk stayed in the table");
    assert_eq!(Some(HandRank::StraightFlush), HandRank::of_val(val));
}

#[test]
fn the_walk_follows_the_table_entries() {
    // idx starts at 53; the Two of Clubs has ordinal 1, so each step reads
    // entry idx + 1. The entries below chain 54 -> 70 -> 71 -> 72 ... so
    // seven Twos of Clubs land on 76.
    let mut table = vec![0u32; 100];
    table[54] = 70;
    table[71] = 71;
    table[72] = 72;
    table[73] = 73;
    table[74] = 74;
    table[75] = 75;
    table[76] = 76;
    let evaluator = LookupEvaluator::new(DataBase(table));
    let two_clubs = Card::new(Suit::Club, Rank::Two);
    let cards = [two_clubs; 7];
    assert_eq!(Some(HandVal(76)), evaluator.try_evaluate(&cards));
}

#[test]
fn a_walk_leaving_the_table_is_refused() {
    let evaluator = LookupEvaluator::new(DataBase(vec![0u32; 10]));
    let cards = [Card::new(Suit::Spade, Rank::Ace); 7];
    assert_eq!(None, evaluator.try_evaluate(&cards));
}

#[test]
fn an_unrecognized_category_is_reported_as_none() {
    assert_eq!(None, HandRank::of_val(HandVal(0)));
    assert_eq!(None, HandRank::of_val(HandVal(10 << 12)));
    assert_eq!(Some(HandRank::HighCard), HandRank::of_val(HandVal(1 << 12)));
    assert_eq!(Some(HandRank::FourOfAKind), HandRank::of_val(HandVal(8 << 12)));
}

#[test]
fn card_codes_pack_prime_rank_suit_and_flag() {
    // Two of Clubs: prime 2, rank index 0, suit bit 1, rank flag 1.
    assert_eq!(2 + 4096 + 65536, LookupEvaluator::code_of(Card::new(Suit::Club, Rank::Two)));
    // Ace of Spades: prime 41, rank index 12, suit bit 8, rank flag 1 << 12.
    assert_eq!(
        41 + 256 * 12 + 4096 * 8 + 65536 * 4096,
        LookupEvaluator::code_of(Card::new(Suit::Spade, Rank::Ace))
    );
    let evaluator = constant_table(0);
    assert_eq!(52, evaluator.card_codes.len());
    assert_eq!(
        LookupEvaluator::code_of(Card::new(Suit::Club, Rank::Two)),
        evaluator.card_codes[0]
    );
}

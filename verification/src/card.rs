use vstd::prelude::*;

use crate::rank::{rank_index, rank_of_index, Rank};
use crate::suit::{suit_index, suit_of_index, Suit};

verus! {

/// A playing card: one of the 52 distinct (suit, rank) pairs.
#[derive(Debug, PartialEq, Eq, Clone, Copy, Hash, Structural)]
pub struct Card {
    pub suit: Suit,
    pub rank: Rank,
}

impl Card {
    pub fn new(suit: Suit, rank: Rank) -> (c: Card)
        ensures
            c.suit == suit,
            c.rank == rank,
    {
        Card { suit, rank }
    }
}

/// The card at position `k` (0-based) of the canonical deck layout:
/// rank-major, suit-minor, so positions 0..4 are the Twos, 4..8 the Threes,
/// and position 51 is the Ace of Spades.
pub open spec fn canonical_card(k: int) -> Card {
    Card { suit: suit_of_index(k % 4), rank: rank_of_index(k / 4) }
}

/// The 1-based ordinal of a card within the canonical deck layout; the
/// evaluator walks its lookup table by these ordinals.
pub open spec fn card_ordinal(c: Card) -> int {
    4 * rank_index(c.rank) + suit_index(c.suit) + 1
}

/// A card's ordinal names its canonical position: the two functions invert
/// each other, so distinct canonical positions hold distinct cards.
pub proof fn lemma_canonical_card_ordinal(k: int)
    requires
        0 <= k < 52,
    ensures
        card_ordinal(canonical_card(k)) == k + 1,
{
}

impl Card {
    /// The 1-based canonical ordinal, as executable code. Always in 1..=52.
    pub fn ordinal(self) -> (o: u8)
        ensures
            o as int == card_ordinal(self),
            1 <= o <= 52,
    {
        4 * self.rank.index() + self.suit.index() + 1
    }
}

} // verus!

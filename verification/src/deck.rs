use vstd::prelude::*;

use crate::card::{canonical_card, Card};
use crate::rank::Rank;
use crate::suit::Suit;

verus! {

/// The full 52-card set, as a multiset: each card exactly once.
pub open spec fn full_deck_multiset() -> vstd::multiset::Multiset<Card> {
    Seq::new(52, |k: int| canonical_card(k)).to_multiset()
}

/// An ordered pile of cards. A fresh deck holds all 52 cards in canonical
/// order; `draw` removes and returns the last card.
#[derive(Debug, Clone, PartialEq, Eq, Hash)]
pub struct Deck {
    pub cards: Vec<Card>,
}

impl Deck {
    /// A full deck: the 52 distinct cards, laid out rank-major.
    pub fn new() -> (d: Deck)
        ensures
            d.cards@.len() == 52,
            forall|k: int| 0 <= k < 52 ==> d.cards@[k] == canonical_card(k),
            forall|i: int, j: int| 0 <= i < j < 52 ==> d.cards@[i] != d.cards@[j],
            d.cards@.to_multiset() == full_deck_multiset(),
    {
        let mut cards: Vec<Card> = Vec::new();
        let mut r: u8 = 0;
        while r < 13
            invariant
                r <= 13,
                cards@.len() == 4 * r,
                forall|k: int| 0 <= k < 4 * r ==> cards@[k] == canonical_card(k),
            decreases 13 - r,
        {
            let mut s: u8 = 0;
            while s < 4
                invariant
                    r < 13,
                    s <= 4,
                    cards@.len() == 4 * r + s,
                    forall|k: int| 0 <= k < 4 * r + s ==> cards@[k] == canonical_card(k),
                decreases 4 - s,
            {
                let card = Card::new(Suit::of_index(s), Rank::of_index(r));
                assert((4 * r + s) as int % 4 == s as int && (4 * r + s) as int / 4 == r as int)
                    by (nonlinear_arith)
                    requires
                        r < 13,
                        s < 4,
                ;
                cards.push(card);
                s = s + 1;
            }
            r = r + 1;
        }
        proof {
            assert forall|i: int, j: int| 0 <= i < j < 52 implies cards@[i] != cards@[j] by {
                crate::card::lemma_canonical_card_ordinal(i);
                crate::card::lemma_canonical_card_ordinal(j);
            }
            assert(cards@ =~= Seq::new(52, |k: int| canonical_card(k)));
        }
        Deck { cards }
    }

    /// Permutes the cards uniformly at random. Which order comes out is
    /// unknowable; what is known is that the same cards remain.
    ///
    /// Relies on rand's `SliceRandom::shuffle` (rand 0.8): an in-place
    /// Fisher-Yates walk that only ever swaps two slice elements, so the
    /// slice afterwards holds the same elements, permuted.
    #[verifier::external_body]
    pub fn shuffle(self) -> (r: Deck)
        ensures
            r.cards@.to_multiset() == self.cards@.to_multiset(),
            r.cards@.len() == self.cards@.len(),
    {
        let mut cards = self.cards;
        rand::seq::SliceRandom::shuffle(cards.as_mut_slice(), &mut rand::thread_rng());
        Deck { cards }
    }

    /// Removes and returns the last card, or nothing from an empty deck.
    pub fn draw(&mut self) -> (c: Option<Card>)
        ensures
            old(self).cards@.len() == 0 ==> c is None && final(self).cards@ == old(self).cards@,
            old(self).cards@.len() > 0 ==> c == Some(old(self).cards@.last())
                && final(self).cards@ == old(self).cards@.drop_last(),
    {
        self.cards.pop()
    }
}

} // verus!

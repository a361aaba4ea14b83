use vstd::prelude::*;

use crate::card::Card;

verus! {

/// The two hole cards a player holds for one round. Immutable once dealt.
#[derive(Debug, Clone, Copy, PartialEq, Eq, Hash)]
pub struct Hand {
    pub cards: [Card; 2],
}

impl Hand {
    pub fn new(cards: [Card; 2]) -> (h: Hand)
        ensures
            h.cards == cards,
    {
        Hand { cards }
    }
}

} // verus!

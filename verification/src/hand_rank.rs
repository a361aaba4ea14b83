use vstd::prelude::*;

use crate::evaluator::HandVal;

verus! {

/// The nine hand categories, weakest first. A royal flush is not a category
/// of its own; it scores as a straight flush.
#[derive(Debug, Copy, Clone, PartialEq, Eq, PartialOrd, Ord, Hash, Structural)]
pub enum HandRank {
    HighCard,
    Pair,
    TwoPair,
    ThreeOfAKind,
    Straight,
    Flush,
    FullHouse,
    FourOfAKind,
    StraightFlush,
}

/// The category encoded in a score's top bits: the value shifted right by
/// twelve maps 1 through 9 onto the categories in order, and anything else
/// is unrecognized.
pub open spec fn hand_rank_of(v: HandVal) -> Option<HandRank> {
    let c = v.0 >> 12;
    if c == 1 {
        Some(HandRank::HighCard)
    } else if c == 2 {
        Some(HandRank::Pair)
    } else if c == 3 {
        Some(HandRank::TwoPair)
    } else if c == 4 {
        Some(HandRank::ThreeOfAKind)
    } else if c == 5 {
        Some(HandRank::Straight)
    } else if c == 6 {
        Some(HandRank::Flush)
    } else if c == 7 {
        Some(HandRank::FullHouse)
    } else if c == 8 {
        Some(HandRank::FourOfAKind)
    } else if c == 9 {
        Some(HandRank::StraightFlush)
    } else {
        None
    }
}

impl HandRank {
    /// Reads the category out of a score; `None` means the score's top bits
    /// name no category, which a well-formed lookup table never produces.
    pub fn of_val(v: HandVal) -> (r: Option<HandRank>)
        ensures
            r == hand_rank_of(v),
    {
        let c = v.0 >> 12;
        if c == 1 {
            Some(HandRank::HighCard)
        } else if c == 2 {
            Some(HandRank::Pair)
        } else if c == 3 {
            Some(HandRank::TwoPair)
        } else if c == 4 {
            Some(HandRank::ThreeOfAKind)
        } else if c == 5 {
            Some(HandRank::Straight)
        } else if c == 6 {
            Some(HandRank::Flush)
        } else if c == 7 {
            Some(HandRank::FullHouse)
        } else if c == 8 {
            Some(HandRank::FourOfAKind)
        } else if c == 9 {
            Some(HandRank::StraightFlush)
        } else {
            None
        }
    }
}

} // verus!

use vstd::prelude::*;

verus! {

/// One of the four French suits. Suits never influence card ordering; they
/// only distinguish the 52 cards and feed the evaluator's card codes.
#[derive(Debug, PartialEq, Eq, Clone, Copy, Hash, Structural)]
pub enum Suit {
    Club,
    Diamond,
    Heart,
    Spade,
}

/// Position of a suit in the canonical deck layout (clubs first).
pub open spec fn suit_index(s: Suit) -> int {
    match s {
        Suit::Club => 0,
        Suit::Diamond => 1,
        Suit::Heart => 2,
        Suit::Spade => 3,
    }
}

/// The suit sitting at a canonical position.
pub open spec fn suit_of_index(i: int) -> Suit {
    if i == 0 {
        Suit::Club
    } else if i == 1 {
        Suit::Diamond
    } else if i == 2 {
        Suit::Heart
    } else {
        Suit::Spade
    }
}

impl Suit {
    /// Canonical position of this suit, as executable code.
    pub fn index(self) -> (i: u8)
        ensures
            i as int == suit_index(self),
    {
        match self {
            Suit::Club => 0,
            Suit::Diamond => 1,
            Suit::Heart => 2,
            Suit::Spade => 3,
        }
    }

    /// The suit at canonical position `i`.
    pub fn of_index(i: u8) -> (s: Suit)
        requires
            i < 4,
        ensures
            s == suit_of_index(i as int),
    {
        if i == 0 {
            Suit::Club
        } else if i == 1 {
            Suit::Diamond
        } else if i == 2 {
            Suit::Heart
        } else {
            Suit::Spade
        }
    }
}

} // verus!

use vstd::prelude::*;

use crate::card::{canonical_card, card_ordinal, Card};
use crate::database::DataBase;
use crate::rank::{rank_index, rank_prime, Rank};
use crate::suit::Suit;

verus! {

/// The evaluator's totally ordered strength score for a seven-card hand;
/// a higher value beats a lower one.
#[derive(Debug, PartialEq, Eq, PartialOrd, Ord, Copy, Clone, Hash, Structural)]
pub struct HandVal(pub u32);

/// Scores seven-card hands. Each implementation fixes, as a specification,
/// both the score it assigns and the hands it can score, so callers can
/// reason about showdown outcomes without knowing the implementation.
pub trait Evaluator {
    /// The score this evaluator assigns to `cards`.
    spec fn evaluates_to(&self, cards: Seq<Card>) -> HandVal;

    /// Whether this evaluator can score `cards` at all.
    spec fn can_evaluate(&self, cards: Seq<Card>) -> bool;

    fn evaluate_hand(&self, cards: &[Card; 7]) -> (r: HandVal)
        requires
            self.can_evaluate(cards@),
        ensures
            r == self.evaluates_to(cards@),
    ;
}

/// Where the table walk starts before any card has been folded in.
pub open spec fn walk_start() -> int {
    53
}

/// The running table index after folding `cards` into the walk one by one:
/// each card's canonical ordinal is added to the index, and the table entry
/// at that position becomes the new index.
pub open spec fn walk(table: Seq<u32>, idx: int, cards: Seq<Card>) -> int
    decreases cards.len(),
{
    if cards.len() == 0 {
        idx
    } else {
        walk(table, table[idx + card_ordinal(cards[0])] as int, cards.skip(1))
    }
}

/// Whether every step of the walk lands inside the table.
pub open spec fn walk_ok(table: Seq<u32>, idx: int, cards: Seq<Card>) -> bool
    decreases cards.len(),
{
    cards.len() == 0 || (0 <= idx + card_ordinal(cards[0]) < table.len() && walk_ok(
        table,
        table[idx + card_ordinal(cards[0])] as int,
        cards.skip(1),
    ))
}

/// The bit a suit contributes to a card code.
pub open spec fn suit_bit(s: Suit) -> int {
    match s {
        Suit::Club => 1,
        Suit::Diamond => 2,
        Suit::Heart => 4,
        Suit::Spade => 8,
    }
}

/// The flag bit a rank contributes to a card code.
pub open spec fn rank_bit(r: Rank) -> int {
    match r {
        Rank::Two => 1,
        Rank::Three => 2,
        Rank::Four => 4,
        Rank::Five => 8,
        Rank::Six => 16,
        Rank::Seven => 32,
        Rank::Eight => 64,
        Rank::Nine => 128,
        Rank::Ten => 256,
        Rank::Jack => 512,
        Rank::Queen => 1024,
        Rank::King => 2048,
        Rank::Ace => 4096,
    }
}

/// The 32-bit code the evaluator assigns to a card: a distinct small prime
/// for the rank, the rank index, a suit bitmask, and a rank bit-flag packed
/// into one word.
pub open spec fn card_code(c: Card) -> int {
    rank_prime(c.rank) + 256 * rank_index(c.rank) + 4096 * suit_bit(c.suit) + 65536 * rank_bit(
        c.rank,
    )
}

/// A hand evaluator backed by a precomputed lookup table. The walk over the
/// table starts at a fixed sentinel; after seven cards the table value
/// reached is the hand's score.
pub struct LookupEvaluator {
    pub table: Vec<u32>,
    pub card_codes: Vec<u32>,
}

impl LookupEvaluator {
    /// Builds the evaluator over a decoded table, precomputing the 52 card
    /// codes in canonical deck order.
    pub fn new(db: DataBase) -> (e: LookupEvaluator)
        ensures
            e.table@ == db.0@,
            e.card_codes@.len() == 52,
            forall|k: int| 0 <= k < 52 ==> e.card_codes@[k] == card_code(canonical_card(k)),
    {
        let mut codes: Vec<u32> = Vec::new();
        let mut k: usize = 0;
        while k < 52
            invariant
                k <= 52,
                codes@.len() == k,
                forall|j: int| 0 <= j < k ==> codes@[j] == card_code(canonical_card(j)),
            decreases 52 - k,
        {
            let rank = Rank::of_index((k / 4) as u8);
            let suit = Suit::of_index((k % 4) as u8);
            let card = Card::new(suit, rank);
            codes.push(Self::code_of(card));
            k = k + 1;
        }
        LookupEvaluator { table: db.0, card_codes: codes }
    }

    /// The packed 32-bit code of one card.
    pub fn code_of(c: Card) -> (code: u32)
        ensures
            code as int == card_code(c),
    {
        let suit_mask: u32 = match c.suit {
            Suit::Club => 1,
            Suit::Diamond => 2,
            Suit::Heart => 4,
            Suit::Spade => 8,
        };
        let flag: u32 = match c.rank {
            Rank::Two => 1,
            Rank::Three => 2,
            Rank::Four => 4,
            Rank::Five => 8,
            Rank::Six => 16,
            Rank::Seven => 32,
            Rank::Eight => 64,
            Rank::Nine => 128,
            Rank::Ten => 256,
            Rank::Jack => 512,
            Rank::Queen => 1024,
            Rank::King => 2048,
            Rank::Ace => 4096,
        };
        c.rank.prime() + 256 * (c.rank.index() as u32) + 4096 * suit_mask + 65536 * flag
    }

    /// Scores the hand only when every step of the walk stays inside the
    /// table; hands the score back exactly as `evaluate_hand` would.
    pub fn try_evaluate(&self, cards: &[Card; 7]) -> (r: Option<HandVal>)
        ensures
            r is Some <==> self.can_evaluate(cards@),
            r is Some ==> r == Some(self.evaluates_to(cards@)),
    {
        let mut idx: u64 = 53;
        let mut i: usize = 0;
        proof {
            assert(cards@.skip(0) =~= cards@);
        }
        while i < 7
            invariant
                i <= 7,
                idx <= u32::MAX || idx == 53,
                self.table@.len() == self.table.len(),
                walk_ok(self.table@, walk_start(), cards@) <==> walk_ok(
                    self.table@,
                    idx as int,
                    cards@.skip(i as int),
                ),
                walk_ok(self.table@, walk_start(), cards@) ==> walk(
                    self.table@,
                    walk_start(),
                    cards@,
                ) == walk(self.table@, idx as int, cards@.skip(i as int)),
            decreases 7 - i,
        {
            let o = cards[i].ordinal();
            proof {
                assert(cards@.skip(i as int)[0] == cards@[i as int]);
            }
            let j = idx + o as u64;
            if j >= self.table.len() as u64 {
                proof {
                    assert(!walk_ok(self.table@, idx as int, cards@.skip(i as int)));
                }
                return None;
            }
            let next = self.table[j as usize];
            proof {
                assert(cards@.skip(i as int).skip(1) =~= cards@.skip(i as int + 1));
            }
            idx = next as u64;
            i = i + 1;
        }
        proof {
            assert(cards@.skip(7) =~= Seq::<Card>::empty());
        }
        Some(HandVal(idx as u32))
    }
}

impl Evaluator for LookupEvaluator {
    open spec fn evaluates_to(&self, cards: Seq<Card>) -> HandVal {
        HandVal(walk(self.table@, walk_start(), cards) as u32)
    }

    open spec fn can_evaluate(&self, cards: Seq<Card>) -> bool {
        walk_ok(self.table@, walk_start(), cards)
    }

    fn evaluate_hand(&self, cards: &[Card; 7]) -> (r: HandVal) {
        let mut idx: usize = 53;
        let mut i: usize = 0;
        proof {
            assert(cards@.skip(0) =~= cards@);
        }
        while i < 7
            invariant
                i <= 7,
                idx <= u32::MAX || idx == 53,
                self.table@.len() == self.table.len(),
                walk_ok(self.table@, idx as int, cards@.skip(i as int)),
                walk(self.table@, walk_start(), cards@) == walk(
                    self.table@,
                    idx as int,
                    cards@.skip(i as int),
                ),
            decreases 7 - i,
        {
            let o = cards[i].ordinal();
            proof {
                assert(cards@.skip(i as int)[0] == cards@[i as int]);
                assert(cards@.skip(i as int).skip(1) =~= cards@.skip(i as int + 1));
            }
            let next = self.table[idx + o as usize];
            idx = next as usize;
            i = i + 1;
        }
        proof {
            assert(cards@.skip(7) =~= Seq::<Card>::empty());
        }
        HandVal(idx as u32)
    }
}

/// An evaluator that scores every hand the same; only useful for exercising
/// the round machinery without a real lookup table.
pub struct DummyEvaluator {}

impl Evaluator for DummyEvaluator {
    open spec fn evaluates_to(&self, cards: Seq<Card>) -> HandVal {
        HandVal(0)
    }

    open spec fn can_evaluate(&self, cards: Seq<Card>) -> bool {
        true
    }

    fn evaluate_hand(&self, cards: &[Card; 7]) -> (r: HandVal) {
        HandVal(0)
    }
}

} // verus!

use vstd::prelude::*;

use crate::player::{lemma_sum_chips_push, sum_chips, Active, Player};

verus! {

/// The shared chip total at stake, together with the stage's current call
/// threshold. Chips only ever flow in during a stage and flow out all at
/// once when winnings are dealt.
#[derive(Debug, Clone, Copy, PartialEq, Eq, Hash, Structural)]
pub struct Pot {
    pub chips: u32,
    pub minimum_bet: u32,
}

impl Pot {
    pub fn new(chips: u32, minimum_bet: u32) -> (p: Pot)
        ensures
            p.chips == chips,
            p.minimum_bet == minimum_bet,
    {
        Pot { chips, minimum_bet }
    }
}

impl Default for Pot {
    /// An empty pot with no call threshold.
    fn default() -> (p: Pot)
        ensures
            p.chips == 0,
            p.minimum_bet == 0,
    {
        Pot { chips: 0, minimum_bet: 0 }
    }
}

/// What the winner at position `i` (in the order handed to `deal_winnings`)
/// is credited: the even share, plus one leftover chip for the first
/// `chips % count` positions.
pub open spec fn winner_share(chips: int, count: int, i: int) -> int {
    chips / count + if i < chips % count {
        1int
    } else {
        0int
    }
}

impl Pot {
    /// Distributes the pot to `winners`: everyone gets the even share
    /// (integer division), and the indivisible remainder goes one chip at a
    /// time to the earliest positions. Callers order `winners` by distance
    /// to the dealer, so proximity decides who gets the odd chips. The pot
    /// and its call threshold are reset to zero.
    pub fn deal_winnings(&mut self, winners: &mut Vec<Player<Active>>)
        requires
            1 <= old(winners)@.len() <= u32::MAX,
            forall|i: int|
                0 <= i < old(winners)@.len() ==> old(winners)@[i].chips + old(self).chips
                    <= u32::MAX,
        ensures
            final(winners)@.len() == old(winners)@.len(),
            forall|i: int|
                0 <= i < old(winners)@.len() ==> {
                    let p = old(winners)@[i];
                    #[trigger] final(winners)@[i] == (Player {
                        chips: (p.chips + winner_share(
                            old(self).chips as int,
                            old(winners)@.len() as int,
                            i,
                        )) as u32,
                        ..p
                    })
                },
            sum_chips(final(winners)@) == sum_chips(old(winners)@) + old(self).chips,
            final(self).chips == 0,
            final(self).minimum_bet == 0,
    {
        let count = winners.len();
        let division = self.chips / count as u32;
        let odd_chips = self.chips % count as u32;
        proof {
            vstd::arithmetic::div_mod::lemma_fundamental_div_mod(
                self.chips as int,
                count as int,
            );
        }
        let ghost orig = winners@;
        let ghost chips = self.chips as int;
        let mut paid: Vec<Player<Active>> = Vec::new();
        let mut i: usize = 0;
        while i < count
            invariant
                winners@ == orig,
                count == orig.len(),
                orig.len() <= u32::MAX,
                i <= count,
                division == chips / count as int,
                odd_chips == chips % count as int,
                chips == count * division + odd_chips,
                0 <= chips <= u32::MAX,
                forall|j: int| 0 <= j < count ==> orig[j].chips + chips <= u32::MAX,
                paid@.len() == i,
                forall|j: int|
                    0 <= j < i ==> #[trigger] paid@[j] == (Player {
                        chips: (orig[j].chips + winner_share(chips, count as int, j)) as u32,
                        ..orig[j]
                    }),
                sum_chips(paid@) == sum_chips(orig.take(i as int)) + i * division + (if i
                    <= odd_chips {
                    i as int
                } else {
                    odd_chips as int
                }),
            decreases count - i,
        {
            let p = winners[i];
            proof {
                assert(division <= chips) by (nonlinear_arith)
                    requires
                        chips == count * division + odd_chips,
                        count >= 1,
                        division >= 0,
                        odd_chips >= 0,
                ;
                if i < odd_chips {
                    assert(division + 1 <= chips) by (nonlinear_arith)
                        requires
                            chips == count * division + odd_chips,
                            count >= 1,
                            division >= 0,
                            odd_chips >= 1,
                    ;
                }
            }
            let extra: u32 = if (i as u32) < odd_chips {
                1
            } else {
                0
            };
            let credited = Player { chips: p.chips + division + extra, ..p };
            proof {
                lemma_sum_chips_push(paid@, credited);
                assert(orig.take(i as int + 1).drop_last() =~= orig.take(i as int));
                assert(i as int * division + division == (i + 1) as int * division)
                    by (nonlinear_arith);
            }
            paid.push(credited);
            i = i + 1;
        }
        proof {
            assert(orig.take(count as int) =~= orig);
            assert(count as int * division == count * division) by (nonlinear_arith);
        }
        *winners = paid;
        self.chips = 0;
        self.minimum_bet = 0;
    }
}

} // verus!

use vstd::prelude::*;

use crate::deck::Deck;
use crate::player::{
    copy_players, ids_multiset, lemma_ids_concat, lemma_ids_pointwise, lemma_sum_chips_bound,
    lemma_sum_chips_concat, lemma_sum_chips_nonneg, lemma_sum_chips_pointwise, spec_fold,
    sum_chips, Active, Folded, Player, PlayerId,
};
use crate::pot::{winner_share, Pot};
use crate::stages::pre_round::PreRound;

verus! {

/// The round is over: the players still active at the end share the pot,
/// everyone else only watches. Paying out produces the next round's
/// `PreRound`.
#[derive(Debug)]
pub struct Finished {
    pub active_players: Vec<Player<Active>>,
    pub folded_players: Vec<Player<Folded>>,
    pub pot: Pot,
    pub deck: Deck,
}

impl Finished {
    /// Every chip on the table: all balances plus the pot.
    pub open spec fn total_chips(&self) -> int {
        sum_chips(self.active_players@) + sum_chips(self.folded_players@) + self.pot.chips
    }

    /// Everyone seated at the table, folded or not.
    pub open spec fn roster_size(&self) -> int {
        self.active_players@.len() as int + self.folded_players@.len() as int
    }

    /// Who is seated at the table, folded or not.
    pub open spec fn roster_ids(&self) -> vstd::multiset::Multiset<PlayerId> {
        ids_multiset(self.active_players@).add(ids_multiset(self.folded_players@))
    }

    pub open spec fn wf(&self) -> bool {
        &&& self.active_players@.len() >= 1
        &&& 2 <= self.roster_size() <= 23
        &&& self.total_chips() <= u32::MAX
    }

    /// Folds a roster wholesale, keeping order, identities and chips.
    fn fold_active_players(active_players: Vec<Player<Active>>) -> (r: Vec<Player<Folded>>)
        ensures
            r@.len() == active_players@.len(),
            forall|i: int|
                0 <= i < active_players@.len() ==> r@[i] == spec_fold(active_players@[i]),
    {
        let mut folded: Vec<Player<Folded>> = Vec::new();
        let mut i: usize = 0;
        while i < active_players.len()
            invariant
                active_players@.len() == active_players.len(),
                i <= active_players@.len(),
                folded@.len() == i,
                forall|j: int| 0 <= j < i ==> folded@[j] == spec_fold(active_players@[j]),
            decreases active_players@.len() - i,
        {
            folded.push(active_players[i].fold());
            i = i + 1;
        }
        folded
    }

    /// Deals the pot to the still-active players — the even share each,
    /// with the indivisible remainder going to the earliest seats — then
    /// folds everyone and hands the whole roster, the emptied pot and the
    /// deck to the next round's `PreRound`. Not a chip is created or lost:
    /// the players leave with exactly what was on the table. A sole
    /// remaining player receives the entire pot.
    pub fn payout(self) -> (pr: PreRound)
        requires
            self.wf(),
        ensures
            ({
                let n = self.active_players@.len() as int;
                let k = self.folded_players@.len() as int;
                let chips = self.pot.chips as int;
                &&& pr.players@.len() == k + n
                &&& forall|i: int| 0 <= i < k ==> pr.players@[i] == self.folded_players@[i]
                &&& forall|j: int|
                    0 <= j < n ==> {
                        let p = self.active_players@[j];
                        #[trigger] pr.players@[k + j] == spec_fold(
                            Player {
                                id: p.id,
                                hand: p.hand,
                                chips: (p.chips + winner_share(chips, n, j)) as u32,
                                state: p.state,
                            },
                        )
                    }
                &&& sum_chips(pr.players@) == self.total_chips()
                &&& ids_multiset(pr.players@) == self.roster_ids()
                &&& n == 1 ==> pr.players@[k].chips == self.active_players@[0].chips
                    + self.pot.chips
                &&& pr.pot.chips == 0
                &&& pr.pot.minimum_bet == 0
                &&& pr.deck == self.deck
                &&& pr.wf()
            }),
    {
        let mut winners = copy_players(&self.active_players);
        let mut pot = self.pot;
        proof {
            lemma_sum_chips_nonneg(self.folded_players@);
            assert forall|i: int|
                0 <= i < winners@.len() implies winners@[i].chips + pot.chips
                <= u32::MAX by {
                lemma_sum_chips_bound(self.active_players@, i);
            }
        }
        pot.deal_winnings(&mut winners);
        let ghost paid = winners@;
        let mut players = copy_players(&self.folded_players);
        let mut folded_winners = Self::fold_active_players(winners);
        players.append(&mut folded_winners);
        proof {
            let folded_paid = players@.skip(self.folded_players@.len() as int);
            assert(players@ =~= self.folded_players@ + folded_paid);
            lemma_sum_chips_concat(self.folded_players@, folded_paid);
            lemma_sum_chips_pointwise(folded_paid, paid);
            lemma_ids_concat(self.folded_players@, folded_paid);
            lemma_ids_pointwise(folded_paid, self.active_players@);
            if self.active_players@.len() == 1 {
                assert(self.pot.chips as int / 1int == self.pot.chips as int);
                assert(self.pot.chips as int % 1int == 0);
            }
        }
        PreRound { players, pot, deck: self.deck }
    }
}

} // verus!

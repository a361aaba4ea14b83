use vstd::prelude::*;

use crate::card::Card;
use crate::deck::Deck;
use crate::evaluator::{Evaluator, HandVal};
use crate::hand::Hand;
use crate::player::{
    ids_multiset, lemma_ids_push, lemma_sum_chips_push, spec_fold, sum_chips, Active, Folded,
    Player, PlayerId,
};
use crate::pot::Pot;
use crate::scoring::{
    lemma_max_score_attained, lemma_win_count_pos, max_score, win_count,
};
use crate::stages::finished::Finished;

verus! {

/// The seven cards a player shows down: their two hole cards followed by
/// the five community cards.
pub open spec fn showdown_seven(hand: Hand, community: [Card; 5]) -> Seq<Card> {
    seq![
        hand.cards@[0],
        hand.cards@[1],
        community@[0],
        community@[1],
        community@[2],
        community@[3],
        community@[4],
    ]
}

/// Every remaining player's score under the given evaluator, in seat order.
pub open spec fn scores_of<E: Evaluator>(
    evaluator: &E,
    active: Seq<Player<Active>>,
    community: [Card; 5],
) -> Seq<HandVal> {
    Seq::new(active.len(), |i: int| evaluator.evaluates_to(showdown_seven(active[i].hand, community)))
}

/// The players among the first `upto` whose score equals `m`, in seat
/// order: these stay in for the pot.
pub open spec fn winners_prefix(
    active: Seq<Player<Active>>,
    scores: Seq<HandVal>,
    m: int,
    upto: int,
) -> Seq<Player<Active>>
    decreases upto,
{
    if upto <= 0 {
        Seq::empty()
    } else {
        let w = winners_prefix(active, scores, m, upto - 1);
        if scores[upto - 1].0 == m {
            w.push(active[upto - 1])
        } else {
            w
        }
    }
}

/// The players among the first `upto` whose score falls short of `m`,
/// folded, in seat order.
pub open spec fn losers_prefix(
    active: Seq<Player<Active>>,
    scores: Seq<HandVal>,
    m: int,
    upto: int,
) -> Seq<Player<Folded>>
    decreases upto,
{
    if upto <= 0 {
        Seq::empty()
    } else {
        let l = losers_prefix(active, scores, m, upto - 1);
        if scores[upto - 1].0 == m {
            l
        } else {
            l.push(spec_fold(active[upto - 1]))
        }
    }
}

/// Splitting a roster into winners and losers loses nobody and no chips.
pub proof fn lemma_prefix_partition(
    active: Seq<Player<Active>>,
    scores: Seq<HandVal>,
    m: int,
    upto: int,
)
    requires
        0 <= upto <= active.len(),
    ensures
        winners_prefix(active, scores, m, upto).len() == win_count(scores, m, upto),
        winners_prefix(active, scores, m, upto).len() + losers_prefix(
            active,
            scores,
            m,
            upto,
        ).len() == upto,
        sum_chips(winners_prefix(active, scores, m, upto)) + sum_chips(
            losers_prefix(active, scores, m, upto),
        ) == sum_chips(active.take(upto)),
        ids_multiset(winners_prefix(active, scores, m, upto)).add(
            ids_multiset(losers_prefix(active, scores, m, upto)),
        ) == ids_multiset(active.take(upto)),
    decreases upto,
{
    if upto > 0 {
        lemma_prefix_partition(active, scores, m, upto - 1);
        assert(active.take(upto).drop_last() =~= active.take(upto - 1));
        let w = winners_prefix(active, scores, m, upto - 1);
        let l = losers_prefix(active, scores, m, upto - 1);
        if scores[upto - 1].0 == m {
            lemma_sum_chips_push(w, active[upto - 1]);
            lemma_ids_push(w, active[upto - 1]);
            assert(ids_multiset(w).insert(active[upto - 1].id).add(ids_multiset(l))
                =~= ids_multiset(w).add(ids_multiset(l)).insert(active[upto - 1].id));
        } else {
            lemma_sum_chips_push(l, spec_fold(active[upto - 1]));
            lemma_ids_push(l, spec_fold(active[upto - 1]));
            assert(ids_multiset(w).add(ids_multiset(l).insert(active[upto - 1].id))
                =~= ids_multiset(w).add(ids_multiset(l)).insert(active[upto - 1].id));
        }
        assert(ids_multiset(active.take(upto)) == ids_multiset(active.take(upto - 1)).insert(
            active[upto - 1].id,
        ));
    }
}

/// A remaining player paired with the score their hand earned.
#[derive(Debug, Clone, Copy)]
pub struct PlayerRankPair {
    pub player: Player<Active>,
    pub rank: HandVal,
}

/// The showdown: betting is over, five community cards are on show, and the
/// remaining hands are scored against each other.
pub struct Showdown {
    pub active_players: Vec<Player<Active>>,
    pub folded_players: Vec<Player<Folded>>,
    pub pot: Pot,
    pub deck: Deck,
    pub cards: [Card; 5],
}

impl Showdown {
    /// Every chip on the table: all balances plus the pot.
    pub open spec fn total_chips(&self) -> int {
        sum_chips(self.active_players@) + sum_chips(self.folded_players@) + self.pot.chips
    }

    /// Everyone seated at the table, folded or not.
    pub open spec fn roster_size(&self) -> int {
        self.active_players@.len() as int + self.folded_players@.len() as int
    }

    /// Who is seated at the table, folded or not: the showdown folds the
    /// losers but seats and unseats nobody.
    pub open spec fn roster_ids(&self) -> vstd::multiset::Multiset<PlayerId> {
        ids_multiset(self.active_players@).add(ids_multiset(self.folded_players@))
    }

    pub open spec fn wf(&self) -> bool {
        &&& self.active_players@.len() >= 2
        &&& self.roster_size() <= 23
        &&& self.total_chips() <= u32::MAX
    }

    /// Whether the evaluator can score every remaining player's hand.
    pub open spec fn can_showdown<E: Evaluator>(&self, evaluator: &E) -> bool {
        forall|i: int|
            0 <= i < self.active_players@.len() ==> evaluator.can_evaluate(
                showdown_seven(#[trigger] self.active_players@[i].hand, self.cards),
            )
    }

    /// Scores one player's showdown: their two hole cards and the five
    /// community cards, fed to the evaluator in that order.
    pub fn determine_player_rank<E: Evaluator>(
        community_cards: [Card; 5],
        player: &Player<Active>,
        evaluator: &E,
    ) -> (pr: PlayerRankPair)
        requires
            evaluator.can_evaluate(showdown_seven(player.hand, community_cards)),
        ensures
            pr.player == *player,
            pr.rank == evaluator.evaluates_to(showdown_seven(player.hand, community_cards)),
    {
        let cards = [
            player.hand.cards[0],
            player.hand.cards[1],
            community_cards[0],
            community_cards[1],
            community_cards[2],
            community_cards[3],
            community_cards[4],
        ];
        proof {
            assert(cards@ =~= showdown_seven(player.hand, community_cards));
        }
        let rank = evaluator.evaluate_hand(&cards);
        PlayerRankPair { player: *player, rank }
    }

    /// Scores every remaining player, in seat order.
    pub fn determine_player_ranks<E: Evaluator>(&self, evaluator: &E) -> (ranks: Vec<
        PlayerRankPair,
    >)
        requires
            self.can_showdown(evaluator),
        ensures
            ranks@.len() == self.active_players@.len(),
            forall|i: int|
                0 <= i < ranks@.len() ==> (#[trigger] ranks@[i]).player == self.active_players@[i]
                    && ranks@[i].rank == scores_of(
                    evaluator,
                    self.active_players@,
                    self.cards,
                )[i],
    {
        let mut ranks: Vec<PlayerRankPair> = Vec::new();
        let mut i: usize = 0;
        while i < self.active_players.len()
            invariant
                self.can_showdown(evaluator),
                self.active_players@.len() == self.active_players.len(),
                i <= self.active_players@.len(),
                ranks@.len() == i,
                forall|j: int|
                    0 <= j < i ==> (#[trigger] ranks@[j]).player == self.active_players@[j]
                        && ranks@[j].rank == scores_of(
                        evaluator,
                        self.active_players@,
                        self.cards,
                    )[j],
            decreases self.active_players@.len() - i,
        {
            let pr = Self::determine_player_rank(self.cards, &self.active_players[i], evaluator);
            ranks.push(pr);
            i = i + 1;
        }
        ranks
    }

    /// Folds every player whose score falls short of the table's best:
    /// the active list shrinks to the winners (in seat order) and the
    /// losers join the folded list, already folded, in seat order.
    fn fold_losers<E: Evaluator>(&mut self, evaluator: &E)
        requires
            old(self).wf(),
            old(self).can_showdown(evaluator),
        ensures
            ({
                let active = old(self).active_players@;
                let scores = scores_of(evaluator, active, old(self).cards);
                let m = max_score(scores);
                &&& final(self).active_players@ == winners_prefix(
                    active,
                    scores,
                    m,
                    active.len() as int,
                )
                &&& final(self).folded_players@ == old(self).folded_players@ + losers_prefix(
                    active,
                    scores,
                    m,
                    active.len() as int,
                )
                &&& final(self).active_players@.len() >= 1
                &&& final(self).pot == old(self).pot
                &&& final(self).deck == old(self).deck
                &&& final(self).cards == old(self).cards
                &&& final(self).total_chips() == old(self).total_chips()
                &&& final(self).roster_size() == old(self).roster_size()
                &&& final(self).roster_ids() == old(self).roster_ids()
            }),
    {
        let ghost active0 = self.active_players@;
        let ghost scores = scores_of(evaluator, active0, self.cards);
        let ranks = self.determine_player_ranks(evaluator);
        let mut high = ranks[0].rank;
        let mut i: usize = 1;
        proof {
            assert(scores.take(1).drop_last() =~= Seq::<HandVal>::empty());
            assert(max_score(Seq::<HandVal>::empty()) == 0);
            assert(scores.take(1).last() == scores[0]);
            assert(high.0 == max_score(scores.take(1)));
        }
        while i < ranks.len()
            invariant
                ranks@.len() == active0.len(),
                active0.len() >= 1,
                forall|j: int|
                    0 <= j < ranks@.len() ==> (#[trigger] ranks@[j]).rank == scores[j],
                1 <= i <= ranks@.len(),
                scores.len() == active0.len(),
                high.0 == max_score(scores.take(i as int)),
            decreases ranks@.len() - i,
        {
            proof {
                assert(scores.take(i as int + 1).drop_last() =~= scores.take(i as int));
            }
            if ranks[i].rank.0 > high.0 {
                high = ranks[i].rank;
            }
            i = i + 1;
        }
        proof {
            assert(scores.take(scores.len() as int) =~= scores);
        }
        let ghost m = max_score(scores);
        let mut remaining: Vec<Player<Active>> = Vec::new();
        let ghost folded0 = self.folded_players@;
        let mut k: usize = 0;
        while k < self.active_players.len()
            invariant
                self.active_players@ == active0,
                self.cards == old(self).cards,
                self.pot == old(self).pot,
                self.deck == old(self).deck,
                ranks@.len() == active0.len(),
                self.active_players@.len() == self.active_players.len(),
                forall|j: int|
                    0 <= j < ranks@.len() ==> (#[trigger] ranks@[j]).rank == scores[j],
                scores.len() == active0.len(),
                high.0 == m,
                k <= active0.len(),
                remaining@ == winners_prefix(active0, scores, m, k as int),
                self.folded_players@ == folded0 + losers_prefix(active0, scores, m, k as int),
            decreases active0.len() - k,
        {
            if ranks[k].rank.0 == high.0 {
                remaining.push(self.active_players[k]);
            } else {
                let f = self.active_players[k].fold();
                self.folded_players.push(f);
                proof {
                    assert(self.folded_players@ =~= folded0 + losers_prefix(
                        active0,
                        scores,
                        m,
                        k as int + 1,
                    ));
                }
            }
            k = k + 1;
        }
        self.active_players = remaining;
        proof {
            assert(folded0 + losers_prefix(active0, scores, m, 0) =~= folded0);
            let w = lemma_max_score_attained(scores);
            lemma_win_count_pos(scores, m, w, scores.len() as int);
            lemma_prefix_partition(active0, scores, m, active0.len() as int);
            assert(active0.take(active0.len() as int) =~= active0);
            let losers = losers_prefix(active0, scores, m, active0.len() as int);
            let winners = winners_prefix(active0, scores, m, active0.len() as int);
            crate::player::lemma_sum_chips_concat(folded0, losers);
            crate::player::lemma_ids_concat(folded0, losers);
            assert(ids_multiset(winners).add(ids_multiset(folded0).add(ids_multiset(losers)))
                =~= ids_multiset(active0).add(ids_multiset(folded0)));
        }
    }

    /// Scores the showdown and hands the table to `Finished`: only the
    /// players tied at the table's best score stay in, everyone else is
    /// folded, and the pot is untouched for `Finished` to pay out.
    pub fn finish<E: Evaluator>(self, evaluator: &E) -> (f: Finished)
        requires
            self.wf(),
            self.can_showdown(evaluator),
        ensures
            ({
                let active = self.active_players@;
                let scores = scores_of(evaluator, active, self.cards);
                let m = max_score(scores);
                &&& f.active_players@ == winners_prefix(active, scores, m, active.len() as int)
                &&& f.folded_players@ == self.folded_players@ + losers_prefix(
                    active,
                    scores,
                    m,
                    active.len() as int,
                )
                &&& f.active_players@.len() >= 1
                &&& f.pot == self.pot
                &&& f.total_chips() == self.total_chips()
                &&& f.roster_size() == self.roster_size()
                &&& f.roster_ids() == self.roster_ids()
                &&& f.wf()
            }),
    {
        let mut showdown = self;
        showdown.fold_losers(evaluator);
        Finished {
            active_players: showdown.active_players,
            folded_players: showdown.folded_players,
            pot: showdown.pot,
            deck: showdown.deck,
        }
    }

    /// Hands the table to `Finished` exactly as it stands, scoring nothing:
    /// every remaining player stays in and will share the pot.
    pub fn do_showdown(self) -> (f: Finished)
        requires
            self.wf(),
        ensures
            f.active_players@ == self.active_players@,
            f.folded_players@ == self.folded_players@,
            f.pot == self.pot,
            f.deck == self.deck,
            f.roster_ids() == self.roster_ids(),
            f.wf(),
    {
        Finished {
            active_players: self.active_players,
            folded_players: self.folded_players,
            pot: self.pot,
            deck: self.deck,
        }
    }
}

} // verus!

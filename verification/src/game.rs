use vstd::prelude::*;

use crate::card::Card;
use crate::deck::{full_deck_multiset, Deck};
use crate::evaluator::{Evaluator, HandVal};
use crate::game_loop::{fold_button_update, fold_current_update, raise_button_update};
use crate::hand::Hand;
use crate::player::{
    dealt_cards, ids_multiset, lemma_dealt_cards_push, lemma_ids_pointwise, lemma_sum_chips_bound,
    lemma_sum_chips_nonneg,
    lemma_sum_chips_pointwise, lemma_sum_chips_push, reset_stage_bets, spec_bet, spec_fold,
    spec_stage_reset, sum_chips, Active, Folded, Player, PlayerId,
};
use crate::player_driver::Move;
use crate::pot::{winner_share, Pot};
use crate::scoring::{
    lemma_max_score_attained, lemma_win_count_bounds, lemma_win_count_pos, max_score, win_count,
};

verus! {

/// Where a round stands: which community cards are on show, or that the
/// round is over.
#[derive(Debug, PartialEq, Clone, Copy)]
pub enum Stage {
    PreFlop,
    Flop { cards: [Card; 3] },
    Turn { cards: [Card; 4] },
    River { cards: [Card; 5] },
    Finished,
}

/// The seven cards scored for a player at the end of a round: the five
/// community cards followed by their two hole cards.
pub open spec fn river_seven(community: [Card; 5], hand: Hand) -> Seq<Card> {
    seq![
        community@[0],
        community@[1],
        community@[2],
        community@[3],
        community@[4],
        hand.cards@[0],
        hand.cards@[1],
    ]
}

/// Every seated player's score under the given evaluator, in seat order.
pub open spec fn game_scores<E: Evaluator>(
    evaluator: &E,
    players: Seq<Player<Active>>,
    community: [Card; 5],
) -> Seq<HandVal> {
    Seq::new(players.len(), |i: int| evaluator.evaluates_to(river_seven(community, players[i].hand)))
}

/// What the player at seat `i` is paid when the pot is distributed: winners
/// (holders of the best score) split the pot evenly, earliest winners take
/// the indivisible remainder one chip each, losers take nothing.
pub open spec fn payout_at(scores: Seq<HandVal>, pot: int, i: int) -> int {
    let m = max_score(scores);
    let w = win_count(scores, m, scores.len() as int);
    if scores[i].0 == m {
        winner_share(pot, w, win_count(scores, m, i))
    } else {
        0
    }
}

/// Nobody is ever paid more than the pot holds, and losers are paid
/// nothing.
pub proof fn lemma_payout_at_bound(scores: Seq<HandVal>, pot: int, i: int)
    requires
        0 <= pot,
        1 <= scores.len(),
        0 <= i < scores.len(),
    ensures
        0 <= payout_at(scores, pot, i) <= pot,
{
    let m = max_score(scores);
    let w = win_count(scores, m, scores.len() as int);
    if scores[i].0 == m {
        lemma_win_count_pos(scores, m, i, scores.len() as int);
        lemma_win_count_bounds(scores, m, i);
        vstd::arithmetic::div_mod::lemma_fundamental_div_mod(pot, w);
        let division = pot / w;
        let rem = pot % w;
        assert(division >= 0) by (nonlinear_arith)
            requires
                pot >= 0,
                w >= 1,
                division == pot / w,
        ;
        assert(division <= pot) by (nonlinear_arith)
            requires
                pot == w * division + rem,
                w >= 1,
                division >= 0,
                rem >= 0,
        ;
        if win_count(scores, m, i) < rem {
            assert(division + 1 <= pot) by (nonlinear_arith)
                requires
                    pot == w * division + rem,
                    w >= 1,
                    division >= 0,
                    rem >= 1,
            ;
        }
    }
}

/// The roster with every committed-this-stage total cleared.
pub open spec fn reset_seq(players: Seq<Player<Active>>) -> Seq<Player<Active>> {
    Seq::new(players.len(), |i: int| spec_stage_reset(players[i]))
}

/// How many cards a stage still needs off the deck before the round ends.
pub open spec fn stage_deck_need(s: Stage) -> int {
    match s {
        Stage::PreFlop => 5,
        Stage::Flop { cards } => 2,
        Stage::Turn { cards } => 1,
        Stage::River { cards } => 0,
        Stage::Finished => 0,
    }
}

/// Whether a fold or call by the seat `cur` while the button sits at `btn`
/// settles the stage; a raise never does.
pub open spec fn stage_should_advance(m: Move, cur: int, btn: int) -> bool {
    match m {
        Move::Fold => cur == btn,
        Move::Call => cur == btn,
        Move::Raise { amount } => false,
    }
}

/// The table after the acting seat's move, before any seat advancement or
/// stage change: the new active roster, the folded roster, and the pot. A
/// call or raise the player cannot cover folds them instead.
pub open spec fn table_after_move(
    players: Seq<Player<Active>>,
    folded: Seq<Player<Folded>>,
    pot: Pot,
    cur: int,
    m: Move,
) -> (Seq<Player<Active>>, Seq<Player<Folded>>, Pot) {
    let p = players[cur];
    match m {
        Move::Fold => (players.remove(cur), folded.push(spec_fold(p)), pot),
        Move::Call => {
            let owed = p.owed(pot);
            if owed <= p.chips {
                (
                    players.update(cur, spec_bet(p, owed)),
                    folded,
                    Pot { chips: (pot.chips + owed) as u32, minimum_bet: pot.minimum_bet },
                )
            } else {
                (players.remove(cur), folded.push(spec_fold(p)), pot)
            }
        },
        Move::Raise { amount } => {
            if p.owed(pot) <= amount <= p.chips {
                (
                    players.update(cur, spec_bet(p, amount as int)),
                    folded,
                    Pot {
                        chips: (pot.chips + amount) as u32,
                        minimum_bet: if amount > pot.minimum_bet {
                            amount
                        } else {
                            pot.minimum_bet
                        },
                    },
                )
            } else {
                (players.remove(cur), folded.push(spec_fold(p)), pot)
            }
        },
    }
}

/// One table playing one round: the seated players, the deck, the pot, the
/// stage, and the evaluator that will score a showdown.
pub struct Game<E: Evaluator> {
    pub players: Vec<Player<Active>>,
    pub folded_players: Vec<Player<Folded>>,
    pub deck: Deck,
    pub button_index: usize,
    pub current_player_index: usize,
    pub pot: Pot,
    pub stage: Stage,
    pub evaluator: E,
}

impl<E: Evaluator> Game<E> {
    /// Every chip on the table: all balances plus the pot.
    pub open spec fn total_chips(&self) -> int {
        sum_chips(self.players@) + sum_chips(self.folded_players@) + self.pot.chips
    }

    /// Everyone seated at the table, folded or not.
    pub open spec fn roster_size(&self) -> int {
        self.players@.len() as int + self.folded_players@.len() as int
    }

    /// Who is seated at the table, folded or not: moves shuffle players
    /// between the two lists but never seat or unseat anyone.
    pub open spec fn roster_ids(&self) -> vstd::multiset::Multiset<PlayerId> {
        ids_multiset(self.players@).add(ids_multiset(self.folded_players@))
    }

    /// The chip-accounting invariant: someone is seated, the table is not
    /// absurdly large, every chip total fits a `u32`, and no player's
    /// balance plus their committed stage total overflows (a bet only moves
    /// chips between the two, so their sum never grows).
    pub open spec fn wf_chips(&self) -> bool {
        &&& self.players@.len() >= 1
        &&& self.roster_size() <= 23
        &&& self.total_chips() <= u32::MAX
        &&& forall|i: int|
            0 <= i < self.players@.len() ==> (#[trigger] self.players@[i]).chips
                + self.players@[i].state.chips_bet_in_stage <= u32::MAX
    }

    /// The full invariant: chips accounted for, the acting seat inside the
    /// roster, and enough cards left for the stages still to come.
    pub open spec fn wf(&self) -> bool {
        &&& self.wf_chips()
        &&& self.current_player_index < self.players@.len()
        &&& self.deck.cards@.len() >= stage_deck_need(self.stage)
    }

    /// Whether the evaluator can score every seated player, should this
    /// round reach its showdown.
    pub open spec fn can_finish(&self) -> bool {
        match self.stage {
            Stage::River { cards } => forall|i: int|
                0 <= i < self.players@.len() ==> self.evaluator.can_evaluate(
                    river_seven(cards, (#[trigger] self.players@[i]).hand),
                ),
            _ => true,
        }
    }

    /// Seats `num_players` fresh players — ids 1 upward, 100 chips each,
    /// two hole cards off a shuffled deck — with the button on the last
    /// seat, the first seat to act, an empty pot, and the round at
    /// `PreFlop`.
    pub fn new(num_players: u8, evaluator: E) -> (g: Game<E>)
        requires
            2 <= num_players <= 23,
        ensures
            g.players@.len() == num_players,
            forall|i: int|
                0 <= i < num_players ==> (#[trigger] g.players@[i]).id == PlayerId((i + 1) as u8)
                    && g.players@[i].chips == 100 && g.players@[i].state.chips_bet_in_stage == 0,
            g.folded_players@.len() == 0,
            g.button_index == num_players - 1,
            g.current_player_index == 0,
            g.pot.chips == 0,
            g.pot.minimum_bet == 0,
            g.stage == Stage::PreFlop,
            g.evaluator == evaluator,
            g.total_chips() == 100 * num_players,
            g.wf(),
            g.can_finish(),
            g.deck.cards@.to_multiset().add(dealt_cards(g.players@)) == full_deck_multiset(),
    {
        let mut deck = Deck::new().shuffle();
        let mut players: Vec<Player<Active>> = Vec::new();
        let mut i: u8 = 0;
        while i < num_players
            invariant
                num_players <= 23,
                i <= num_players,
                deck.cards@.len() == 52 - 2 * i,
                players@.len() == i,
                forall|j: int|
                    0 <= j < i ==> (#[trigger] players@[j]).id == PlayerId((j + 1) as u8)
                        && players@[j].chips == 100 && players@[j].state.chips_bet_in_stage == 0,
                sum_chips(players@) == 100 * i,
                deck.cards@.to_multiset().add(dealt_cards(players@)) =~= full_deck_multiset(),
            decreases num_players - i,
        {
            i = i + 1;
            let ghost deck0 = deck.cards@;
            let c0 = match deck.draw() {
                Some(c) => c,
                None => vstd::pervasive::unreached(),
            };
            let c1 = match deck.draw() {
                Some(c) => c,
                None => vstd::pervasive::unreached(),
            };
            let p = Player::<Active>::new(PlayerId(i), Hand::new([c0, c1]), 100);
            proof {
                lemma_sum_chips_push(players@, p);
                broadcast use vstd::seq_lib::group_to_multiset_ensures;

                lemma_dealt_cards_push(players@, p);
                assert(p.hand.cards@[0] == c0 && p.hand.cards@[1] == c1);
                assert(deck0.drop_last() =~= deck0.remove(deck0.len() - 1));
                assert(deck0.drop_last().drop_last() =~= deck0.drop_last().remove(
                    deck0.drop_last().len() - 1,
                ));
                assert(deck.cards@ =~= deck0.drop_last().drop_last());
                assert(deck.cards@.to_multiset().add(dealt_cards(players@.push(p)))
                    =~= deck0.to_multiset().add(dealt_cards(players@)));
            }
            players.push(p);
        }
        Game {
            players,
            folded_players: Vec::new(),
            deck,
            button_index: (num_players - 1) as usize,
            current_player_index: 0,
            pot: Pot::new(0, 0),
            stage: Stage::PreFlop,
            evaluator,
        }
    }

    /// Moves the acting player from the active list to the folded list.
    fn handle_fold(&mut self)
        requires
            old(self).current_player_index < old(self).players@.len(),
        ensures
            final(self).players@ == old(self).players@.remove(
                old(self).current_player_index as int,
            ),
            final(self).folded_players@ == old(self).folded_players@.push(
                spec_fold(old(self).players@[old(self).current_player_index as int]),
            ),
            final(self).pot == old(self).pot,
            final(self).deck == old(self).deck,
            final(self).stage == old(self).stage,
            final(self).button_index == old(self).button_index,
            final(self).current_player_index == old(self).current_player_index,
            final(self).evaluator == old(self).evaluator,
    {
        let current_player = self.players.remove(self.current_player_index);
        let folded_player = current_player.fold();
        self.folded_players.push(folded_player);
    }

    /// The acting player matches the call threshold, paying what they still
    /// owe; a player who cannot cover it is folded instead.
    fn handle_call(&mut self)
        requires
            old(self).wf(),
        ensures
            ({
                let cur = old(self).current_player_index as int;
                let (mp, mf, mpot) = table_after_move(
                    old(self).players@,
                    old(self).folded_players@,
                    old(self).pot,
                    cur,
                    Move::Call,
                );
                final(self).players@ == mp && final(self).folded_players@ == mf
                    && final(self).pot == mpot
            }),
            final(self).deck == old(self).deck,
            final(self).stage == old(self).stage,
            final(self).button_index == old(self).button_index,
            final(self).current_player_index == old(self).current_player_index,
            final(self).evaluator == old(self).evaluator,
    {
        let current = self.current_player_index;
        let mut p = self.players[current];
        let owed = if self.pot.minimum_bet > p.state.chips_bet_in_stage {
            self.pot.minimum_bet - p.state.chips_bet_in_stage
        } else {
            0
        };
        proof {
            lemma_sum_chips_bound(self.players@, current as int);
            lemma_sum_chips_nonneg(self.folded_players@);
        }
        match p.bet(owed, &mut self.pot) {
            Ok(_) => {
                let slot = vstd::std_specs::vec::vec_index_mut(&mut self.players, current);
                *slot = p;
            },
            Err(_) => {
                self.handle_fold();
            },
        }
    }

    /// The acting player bets `amount`, raising the call threshold when the
    /// amount exceeds it; an invalid raise folds them instead.
    fn handle_raise(&mut self, amount: u32)
        requires
            old(self).wf(),
        ensures
            ({
                let cur = old(self).current_player_index as int;
                let (mp, mf, mpot) = table_after_move(
                    old(self).players@,
                    old(self).folded_players@,
                    old(self).pot,
                    cur,
                    Move::Raise { amount },
                );
                final(self).players@ == mp && final(self).folded_players@ == mf
                    && final(self).pot == mpot
            }),
            final(self).deck == old(self).deck,
            final(self).stage == old(self).stage,
            final(self).button_index == old(self).button_index,
            final(self).current_player_index == old(self).current_player_index,
            final(self).evaluator == old(self).evaluator,
    {
        let current = self.current_player_index;
        let mut p = self.players[current];
        proof {
            lemma_sum_chips_bound(self.players@, current as int);
            lemma_sum_chips_nonneg(self.folded_players@);
        }
        match p.bet(amount, &mut self.pot) {
            Ok(_) => {
                let slot = vstd::std_specs::vec::vec_index_mut(&mut self.players, current);
                *slot = p;
            },
            Err(_) => {
                self.handle_fold();
            },
        }
    }

    /// Reveals the flop: the top three cards leave the deck.
    fn draw_flop(deck: &mut Deck) -> (cards: [Card; 3])
        requires
            old(deck).cards@.len() >= 3,
        ensures
            ({
                let dl = old(deck).cards@.len() as int;
                cards@ == seq![
                    old(deck).cards@[dl - 1],
                    old(deck).cards@[dl - 2],
                    old(deck).cards@[dl - 3],
                ] && final(deck).cards@ == old(deck).cards@.take(dl - 3)
            }),
    {
        let c0 = match deck.draw() {
            Some(c) => c,
            None => vstd::pervasive::unreached(),
        };
        let c1 = match deck.draw() {
            Some(c) => c,
            None => vstd::pervasive::unreached(),
        };
        let c2 = match deck.draw() {
            Some(c) => c,
            None => vstd::pervasive::unreached(),
        };
        let cards = [c0, c1, c2];
        proof {
            assert(cards@ =~= seq![c0, c1, c2]);
            assert(deck.cards@ =~= old(deck).cards@.take(old(deck).cards@.len() - 3));
        }
        cards
    }

    /// Reveals the turn card on top of the flop.
    fn draw_turn(deck: &mut Deck, flop: [Card; 3]) -> (cards: [Card; 4])
        requires
            old(deck).cards@.len() >= 1,
        ensures
            ({
                let dl = old(deck).cards@.len() as int;
                cards@ == flop@.push(old(deck).cards@[dl - 1]) && final(deck).cards@ == old(
                    deck,
                ).cards@.take(dl - 1)
            }),
    {
        let c = match deck.draw() {
            Some(c) => c,
            None => vstd::pervasive::unreached(),
        };
        let cards = [flop[0], flop[1], flop[2], c];
        proof {
            assert(cards@ =~= flop@.push(c));
            assert(deck.cards@ =~= old(deck).cards@.take(old(deck).cards@.len() - 1));
        }
        cards
    }

    /// Reveals the river card on top of the turn.
    fn draw_river(deck: &mut Deck, turn: [Card; 4]) -> (cards: [Card; 5])
        requires
            old(deck).cards@.len() >= 1,
        ensures
            ({
                let dl = old(deck).cards@.len() as int;
                cards@ == turn@.push(old(deck).cards@[dl - 1]) && final(deck).cards@ == old(
                    deck,
                ).cards@.take(dl - 1)
            }),
    {
        let c = match deck.draw() {
            Some(c) => c,
            None => vstd::pervasive::unreached(),
        };
        let cards = [turn[0], turn[1], turn[2], turn[3], c];
        proof {
            assert(cards@ =~= turn@.push(c));
            assert(deck.cards@ =~= old(deck).cards@.take(old(deck).cards@.len() - 1));
        }
        cards
    }

    /// Ends the round's accounting: a sole remaining player takes the whole
    /// pot; otherwise every seated hand is scored against the five river
    /// cards and the holders of the best score split the pot, earliest
    /// seats taking the indivisible remainder. The pot is emptied into the
    /// players — not a chip appears or disappears — and the stage
    /// bookkeeping is cleared.
    fn finish_round(&mut self)
        requires
            old(self).wf_chips(),
            old(self).can_finish(),
            old(self).players@.len() == 1 || old(self).stage matches Stage::River { .. },
        ensures
            final(self).folded_players@ == old(self).folded_players@,
            final(self).deck == old(self).deck,
            final(self).stage == old(self).stage,
            final(self).button_index == old(self).button_index,
            final(self).current_player_index == old(self).current_player_index,
            final(self).evaluator == old(self).evaluator,
            final(self).pot.chips == 0,
            final(self).pot.minimum_bet == 0,
            final(self).players@.len() == old(self).players@.len(),
            sum_chips(final(self).players@) == sum_chips(old(self).players@) + old(self).pot.chips,
            ids_multiset(final(self).players@) == ids_multiset(old(self).players@),
            final(self).wf_chips(),
            forall|i: int|
                0 <= i < old(self).players@.len() ==> (#[trigger] final(self).players@[i]).id
                    == old(self).players@[i].id && final(self).players@[i].hand == old(self).players@[i].hand && final(self).players@[i].state.chips_bet_in_stage == 0,
            old(self).players@.len() == 1 ==> final(self).players@[0].chips == old(self).players@[0].chips + old(self).pot.chips,
            old(self).players@.len() >= 2 ==> ({
                match old(self).stage {
                    Stage::River { cards } => {
                        let scores = game_scores(&old(self).evaluator, old(self).players@, cards);
                        forall|i: int|
                            0 <= i < old(self).players@.len() ==> (#[trigger] final(self).players@[i]).chips == old(self).players@[i].chips + payout_at(
                                scores,
                                old(self).pot.chips as int,
                                i,
                            )
                    },
                    _ => true,
                }
            }),
    {
        proof {
            lemma_sum_chips_nonneg(self.folded_players@);
        }
        if self.players.len() == 1 {
            proof {
                lemma_sum_chips_bound(self.players@, 0);
            }
            self.pot.deal_winnings(&mut self.players);
            let cleared = reset_stage_bets(&self.players);
            self.players = cleared;
            proof {
                assert(old(self).pot.chips as int / 1int == old(self).pot.chips as int);
                assert(old(self).pot.chips as int % 1int == 0);
            }
        } else {
            let ghost players0 = self.players@;
            let ghost pot0 = self.pot.chips as int;
            let cards = match self.stage {
                Stage::River { cards } => cards,
                _ => vstd::pervasive::unreached(),
            };
            let ghost scores = game_scores(&self.evaluator, players0, cards);
            let score_vec = self.score_players(cards);
            let mut high = score_vec[0];
            let mut i: usize = 1;
            proof {
                assert(scores.take(1).drop_last() =~= Seq::<HandVal>::empty());
                assert(max_score(Seq::<HandVal>::empty()) == 0);
                assert(scores.take(1).last() == scores[0]);
            }
            while i < score_vec.len()
                invariant
                    score_vec@.len() == players0.len(),
                    players0.len() >= 1,
                    forall|j: int| 0 <= j < score_vec@.len() ==> score_vec@[j] == scores[j],
                    1 <= i <= score_vec@.len(),
                    scores.len() == players0.len(),
                    high.0 == max_score(scores.take(i as int)),
                decreases score_vec@.len() - i,
            {
                proof {
                    assert(scores.take(i as int + 1).drop_last() =~= scores.take(i as int));
                }
                if score_vec[i].0 > high.0 {
                    high = score_vec[i];
                }
                i = i + 1;
            }
            proof {
                assert(scores.take(scores.len() as int) =~= scores);
            }
            let ghost m = max_score(scores);
            let mut w: usize = 0;
            let mut k: usize = 0;
            while k < score_vec.len()
                invariant
                    score_vec@.len() == players0.len(),
                    forall|j: int| 0 <= j < score_vec@.len() ==> score_vec@[j] == scores[j],
                    scores.len() == players0.len(),
                    high.0 == m,
                    m == max_score(scores),
                    k <= score_vec@.len(),
                    w == win_count(scores, m, k as int),
                    w <= k,
                decreases score_vec@.len() - k,
            {
                if score_vec[k].0 == high.0 {
                    w = w + 1;
                }
                k = k + 1;
            }
            proof {
                let witness = lemma_max_score_attained(scores);
                lemma_win_count_pos(scores, m, witness, scores.len() as int);
            }
            let division = self.pot.chips / (w as u32);
            let odd_chips = self.pot.chips % (w as u32);
            proof {
                vstd::arithmetic::div_mod::lemma_fundamental_div_mod(pot0, w as int);
                assert forall|j: int|
                    0 <= j < players0.len() implies (#[trigger] players0[j]).chips + pot0
                    <= u32::MAX by {
                    lemma_sum_chips_bound(players0, j);
                }
            }
            let mut paid: Vec<Player<Active>> = Vec::new();
            let mut seen: usize = 0;
            let mut t: usize = 0;
            while t < self.players.len()
                invariant
                    self.players@ == players0,
                    self.players@.len() == self.players.len(),
                    self.pot.chips == pot0,
                    score_vec@.len() == players0.len(),
                    forall|j: int| 0 <= j < score_vec@.len() ==> score_vec@[j] == scores[j],
                    scores.len() == players0.len(),
                    players0.len() <= 23,
                    high.0 == m,
                    m == max_score(scores),
                    w == win_count(scores, m, players0.len() as int),
                    1 <= w <= players0.len(),
                    division == pot0 / w as int,
                    odd_chips == pot0 % w as int,
                    pot0 == w * division + odd_chips,
                    0 <= pot0 <= u32::MAX,
                    forall|j: int| 0 <= j < players0.len() ==> (#[trigger] players0[j]).chips + pot0 <= u32::MAX,
                    t <= players0.len(),
                    seen == win_count(scores, m, t as int),
                    seen <= t,
                    paid@.len() == t,
                    forall|j: int|
                        0 <= j < t ==> #[trigger] paid@[j] == (Player {
                            id: players0[j].id,
                            hand: players0[j].hand,
                            chips: (players0[j].chips + payout_at(scores, pot0, j)) as u32,
                            state: Active { chips_bet_in_stage: 0 },
                        }),
                    sum_chips(paid@) == sum_chips(players0.take(t as int)) + seen * division + (
                    if seen <= odd_chips {
                        seen as int
                    } else {
                        odd_chips as int
                    }),
                decreases players0.len() - t,
            {
                let p = self.players[t];
                proof {
                    lemma_sum_chips_bound(players0, t as int);
                    assert(division <= pot0) by (nonlinear_arith)
                        requires
                            pot0 == w * division + odd_chips,
                            w >= 1,
                            division >= 0,
                            odd_chips >= 0,
                    ;
                    if seen < odd_chips {
                        assert(division + 1 <= pot0) by (nonlinear_arith)
                            requires
                                pot0 == w * division + odd_chips,
                                w >= 1,
                                division >= 0,
                                odd_chips >= 1,
                        ;
                    }
                }
                let credited: Player<Active> = if score_vec[t].0 == high.0 {
                    let extra: u32 = if (seen as u32) < odd_chips {
                        1
                    } else {
                        0
                    };
                    let c = Player {
                        id: p.id,
                        hand: p.hand,
                        chips: p.chips + division + extra,
                        state: Active { chips_bet_in_stage: 0 },
                    };
                    seen = seen + 1;
                    c
                } else {
                    Player {
                        id: p.id,
                        hand: p.hand,
                        chips: p.chips,
                        state: Active { chips_bet_in_stage: 0 },
                    }
                };
                proof {
                    lemma_sum_chips_push(paid@, credited);
                    assert(players0.take(t as int + 1).drop_last() =~= players0.take(t as int));
                    assert((seen - 1) * division + division == seen * division)
                        by (nonlinear_arith);
                }
                paid.push(credited);
                t = t + 1;
            }
            proof {
                assert(players0.take(players0.len() as int) =~= players0);
                assert(seen == w);
                assert(w as int * division == w * division) by (nonlinear_arith);
                assert forall|j: int|
                    0 <= j < players0.len() implies (#[trigger] paid@[j]).chips == players0[
                    j].chips + payout_at(scores, pot0, j) by {
                    lemma_payout_at_bound(scores, pot0, j);
                }
            }
            self.players = paid;
            self.pot = Pot::new(0, 0);
        }
        proof {
            lemma_ids_pointwise(self.players@, old(self).players@);
        }
    }

    /// Scores every seated player against the river cards, in seat order.
    fn score_players(&self, cards: [Card; 5]) -> (score_vec: Vec<HandVal>)
        requires
            self.stage == (Stage::River { cards }),
            self.can_finish(),
        ensures
            score_vec@.len() == self.players@.len(),
            forall|j: int|
                0 <= j < score_vec@.len() ==> score_vec@[j] == game_scores(
                    &self.evaluator,
                    self.players@,
                    cards,
                )[j],
    {
        let mut score_vec: Vec<HandVal> = Vec::new();
        let mut i: usize = 0;
        while i < self.players.len()
            invariant
                self.stage == (Stage::River { cards }),
                self.can_finish(),
                self.players@.len() == self.players.len(),
                i <= self.players@.len(),
                score_vec@.len() == i,
                forall|j: int|
                    0 <= j < i ==> score_vec@[j] == game_scores(
                        &self.evaluator,
                        self.players@,
                        cards,
                    )[j],
            decreases self.players@.len() - i,
        {
            let p = &self.players[i];
            let seven = [
                cards[0],
                cards[1],
                cards[2],
                cards[3],
                cards[4],
                p.hand.cards[0],
                p.hand.cards[1],
            ];
            proof {
                assert(seven@ =~= river_seven(cards, p.hand));
            }
            let v = self.evaluator.evaluate_hand(&seven);
            score_vec.push(v);
            i = i + 1;
        }
        score_vec
    }

    /// Applies the documented wrap rules for the acting seat and the
    /// button after a move.
    fn advance_player(&mut self, player_move: Move)
        requires
            1 <= old(self).players@.len() <= 23,
            old(self).current_player_index <= old(self).players@.len(),
        ensures
            final(self).players@ == old(self).players@,
            final(self).folded_players@ == old(self).folded_players@,
            final(self).pot == old(self).pot,
            final(self).deck == old(self).deck,
            final(self).stage == old(self).stage,
            final(self).evaluator == old(self).evaluator,
            ({
                let len = old(self).players@.len() as int;
                let cur = old(self).current_player_index as int;
                let btn = old(self).button_index as int;
                match player_move {
                    Move::Fold => final(self).button_index == fold_button_update(btn, cur, len)
                        && final(self).current_player_index == fold_current_update(cur, len),
                    Move::Call => final(self).current_player_index == (cur + 1) % len
                        && final(self).button_index == btn,
                    Move::Raise { amount } => final(self).button_index == raise_button_update(
                        cur,
                        len,
                    ) && final(self).current_player_index == (cur + 1) % len,
                }
            }),
    {
        match player_move {
            Move::Fold => {
                if self.current_player_index <= self.button_index {
                    self.button_index = if self.button_index == 0 {
                        self.players.len() - 1
                    } else {
                        self.button_index - 1
                    };
                }
                if self.current_player_index >= self.players.len() {
                    self.current_player_index = 0;
                }
            },
            Move::Call => {
                self.current_player_index = (self.current_player_index + 1) % self.players.len();
            },
            Move::Raise { amount: _ } => {
                self.button_index = if self.current_player_index == 0 {
                    self.players.len() - 1
                } else {
                    self.current_player_index - 1
                };
                self.current_player_index = (self.current_player_index + 1) % self.players.len();
            },
        }
    }
}

impl<E: Evaluator> Game<E> {
    /// Moves the round to its next stage: the stage's community cards come
    /// off the deck, every committed stage total and the call threshold are
    /// cleared, and leaving the river settles the round's accounting. On
    /// `Finished` nothing happens.
    fn advance_stage(&mut self)
        requires
            old(self).wf_chips(),
            old(self).can_finish(),
            old(self).players@.len() >= 2,
            old(self).deck.cards@.len() >= stage_deck_need(old(self).stage),
        ensures
            final(self).folded_players@ == old(self).folded_players@,
            final(self).button_index == old(self).button_index,
            final(self).current_player_index == old(self).current_player_index,
            final(self).evaluator == old(self).evaluator,
            final(self).players@.len() == old(self).players@.len(),
            final(self).wf_chips(),
            ids_multiset(final(self).players@) == ids_multiset(old(self).players@),
            sum_chips(final(self).players@) + final(self).pot.chips == sum_chips(
                old(self).players@,
            ) + old(self).pot.chips,
            final(self).deck.cards@.len() >= stage_deck_need(final(self).stage),
            ({
                let dl = old(self).deck.cards@.len() as int;
                match old(self).stage {
                    Stage::PreFlop => {
                        &&& final(self).stage matches Stage::Flop { cards } && cards@ == seq![
                            old(self).deck.cards@[dl - 1],
                            old(self).deck.cards@[dl - 2],
                            old(self).deck.cards@[dl - 3],
                        ]
                        &&& final(self).players@ == reset_seq(old(self).players@)
                        &&& final(self).pot.chips == old(self).pot.chips
                        &&& final(self).pot.minimum_bet == 0
                        &&& final(self).deck.cards@ == old(self).deck.cards@.take(dl - 3)
                    },
                    Stage::Flop { cards } => {
                        &&& final(self).stage matches Stage::Turn { cards: c } && c@ == cards@.push(
                            old(self).deck.cards@[dl - 1],
                        )
                        &&& final(self).players@ == reset_seq(old(self).players@)
                        &&& final(self).pot.chips == old(self).pot.chips
                        &&& final(self).pot.minimum_bet == 0
                        &&& final(self).deck.cards@ == old(self).deck.cards@.take(dl - 1)
                    },
                    Stage::Turn { cards } => {
                        &&& final(self).stage matches Stage::River { cards: c } && c@
                            == cards@.push(old(self).deck.cards@[dl - 1])
                        &&& final(self).players@ == reset_seq(old(self).players@)
                        &&& final(self).pot.chips == old(self).pot.chips
                        &&& final(self).pot.minimum_bet == 0
                        &&& final(self).deck.cards@ == old(self).deck.cards@.take(dl - 1)
                    },
                    Stage::River { cards } => {
                        let scores = game_scores(&old(self).evaluator, old(self).players@, cards);
                        &&& final(self).stage == Stage::Finished
                        &&& forall|i: int|
                            0 <= i < old(self).players@.len() ==> (#[trigger] final(self).players@[i]).id == old(self).players@[i].id && final(self).players@[i].chips == old(self).players@[i].chips + payout_at(
                                scores,
                                old(self).pot.chips as int,
                                i,
                            )
                        &&& final(self).pot.chips == 0
                        &&& final(self).pot.minimum_bet == 0
                        &&& final(self).deck == old(self).deck
                    },
                    Stage::Finished => {
                        &&& final(self).stage == Stage::Finished
                        &&& final(self).players@ == old(self).players@
                        &&& final(self).pot == old(self).pot
                        &&& final(self).deck == old(self).deck
                    },
                }
            }),
    {
        match self.stage {
            Stage::PreFlop => {
                let cards = Self::draw_flop(&mut self.deck);
                let cleared = reset_stage_bets(&self.players);
                proof {
                    lemma_sum_chips_pointwise(cleared@, self.players@);
                    lemma_ids_pointwise(cleared@, self.players@);
                    assert(cleared@ =~= reset_seq(self.players@));
                }
                self.players = cleared;
                self.pot.minimum_bet = 0;
                self.stage = Stage::Flop { cards };
            },
            Stage::Flop { cards } => {
                let next = Self::draw_turn(&mut self.deck, cards);
                let cleared = reset_stage_bets(&self.players);
                proof {
                    lemma_sum_chips_pointwise(cleared@, self.players@);
                    lemma_ids_pointwise(cleared@, self.players@);
                    assert(cleared@ =~= reset_seq(self.players@));
                }
                self.players = cleared;
                self.pot.minimum_bet = 0;
                self.stage = Stage::Turn { cards: next };
            },
            Stage::Turn { cards } => {
                let next = Self::draw_river(&mut self.deck, cards);
                let cleared = reset_stage_bets(&self.players);
                proof {
                    lemma_sum_chips_pointwise(cleared@, self.players@);
                    lemma_ids_pointwise(cleared@, self.players@);
                    assert(cleared@ =~= reset_seq(self.players@));
                }
                self.players = cleared;
                self.pot.minimum_bet = 0;
                self.stage = Stage::River { cards: next };
            },
            Stage::River { cards: _ } => {
                self.finish_round();
                self.stage = Stage::Finished;
            },
            Stage::Finished => {},
        }
    }

    /// Applies one move for the acting player: the move's chip transfer
    /// (a call or raise the player cannot cover folds them instead), then
    /// the seat and button wrap rules, then any stage change. The round
    /// ends at once — the sole survivor taking the whole pot — when one
    /// active player remains; otherwise the stage advances exactly when a
    /// fold or call happened while the acting seat equalled the button,
    /// and a raise never advances the stage. Chips on the table are
    /// conserved throughout.
    pub fn do_move(&mut self, player_move: Move)
        requires
            old(self).wf(),
            old(self).players@.len() >= 2,
            old(self).can_finish(),
        ensures
            final(self).total_chips() == old(self).total_chips(),
            final(self).roster_size() == old(self).roster_size(),
            final(self).roster_ids() == old(self).roster_ids(),
            final(self).evaluator == old(self).evaluator,
            final(self).wf_chips(),
            final(self).stage != Stage::Finished ==> final(self).wf(),
            ({
                let n = old(self).players@.len() as int;
                let cur = old(self).current_player_index as int;
                let btn = old(self).button_index as int;
                let dl = old(self).deck.cards@.len() as int;
                let (mp, mf, mpot) = table_after_move(
                    old(self).players@,
                    old(self).folded_players@,
                    old(self).pot,
                    cur,
                    player_move,
                );
                &&& final(self).folded_players@ == mf
                &&& if mp.len() == 1 {
                    &&& final(self).stage == Stage::Finished
                    &&& final(self).players@.len() == 1
                    &&& final(self).players@[0].id == mp[0].id
                    &&& final(self).players@[0].chips == mp[0].chips + mpot.chips
                    &&& final(self).pot.chips == 0
                    &&& final(self).pot.minimum_bet == 0
                    &&& final(self).button_index == btn
                    &&& final(self).current_player_index == cur
                    &&& final(self).deck == old(self).deck
                } else {
                    &&& (match player_move {
                        Move::Fold => final(self).button_index == fold_button_update(
                            btn,
                            cur,
                            mp.len() as int,
                        ) && final(self).current_player_index == fold_current_update(
                            cur,
                            mp.len() as int,
                        ),
                        Move::Call => final(self).current_player_index == (cur + 1) % (
                        mp.len() as int) && final(self).button_index == btn,
                        Move::Raise { amount } => final(self).button_index == raise_button_update(
                            cur,
                            mp.len() as int,
                        ) && final(self).current_player_index == (cur + 1) % (mp.len() as int),
                    })
                    &&& if stage_should_advance(player_move, cur, btn) {
                        match old(self).stage {
                            Stage::PreFlop => {
                                &&& final(self).stage matches Stage::Flop { cards } && cards@
                                    == seq![
                                    old(self).deck.cards@[dl - 1],
                                    old(self).deck.cards@[dl - 2],
                                    old(self).deck.cards@[dl - 3],
                                ]
                                &&& final(self).players@ == reset_seq(mp)
                                &&& final(self).pot.chips == mpot.chips
                                &&& final(self).pot.minimum_bet == 0
                                &&& final(self).deck.cards@ == old(self).deck.cards@.take(dl - 3)
                            },
                            Stage::Flop { cards } => {
                                &&& final(self).stage matches Stage::Turn { cards: c } && c@
                                    == cards@.push(old(self).deck.cards@[dl - 1])
                                &&& final(self).players@ == reset_seq(mp)
                                &&& final(self).pot.chips == mpot.chips
                                &&& final(self).pot.minimum_bet == 0
                                &&& final(self).deck.cards@ == old(self).deck.cards@.take(dl - 1)
                            },
                            Stage::Turn { cards } => {
                                &&& final(self).stage matches Stage::River { cards: c } && c@
                                    == cards@.push(old(self).deck.cards@[dl - 1])
                                &&& final(self).players@ == reset_seq(mp)
                                &&& final(self).pot.chips == mpot.chips
                                &&& final(self).pot.minimum_bet == 0
                                &&& final(self).deck.cards@ == old(self).deck.cards@.take(dl - 1)
                            },
                            Stage::River { cards } => {
                                let scores = game_scores(&old(self).evaluator, mp, cards);
                                &&& final(self).stage == Stage::Finished
                                &&& final(self).players@.len() == mp.len()
                                &&& forall|i: int|
                                    0 <= i < mp.len() ==> (#[trigger] final(self).players@[i]).id
                                        == mp[i].id && final(self).players@[i].chips == mp[i].chips
                                        + payout_at(scores, mpot.chips as int, i)
                                &&& final(self).pot.chips == 0
                                &&& final(self).pot.minimum_bet == 0
                                &&& final(self).deck == old(self).deck
                            },
                            Stage::Finished => {
                                &&& final(self).stage == Stage::Finished
                                &&& final(self).players@ == mp
                                &&& final(self).pot == mpot
                                &&& final(self).deck == old(self).deck
                            },
                        }
                    } else {
                        &&& final(self).stage == old(self).stage
                        &&& final(self).players@ == mp
                        &&& final(self).pot == mpot
                        &&& final(self).deck == old(self).deck
                    }
                }
            }),
    {
        proof {
            crate::game_loop::lemma_do_move_roster(
                old(self).players@,
                old(self).folded_players@,
                old(self).current_player_index as int,
            );
            lemma_sum_chips_bound(old(self).players@, old(self).current_player_index as int);
            lemma_sum_chips_nonneg(old(self).folded_players@);
        }
        let mut advance: bool = false;
        match player_move {
            Move::Fold => {
                self.handle_fold();
                advance = self.current_player_index == self.button_index;
            },
            Move::Call => {
                self.handle_call();
                advance = self.current_player_index == self.button_index;
            },
            Move::Raise { amount } => {
                self.handle_raise(amount);
            },
        }
        proof {
            assert(self.can_finish()) by {
                match old(self).stage {
                    Stage::River { cards } => {
                        let players0 = old(self).players@;
                        let cur = old(self).current_player_index as int;
                        assert forall|i: int|
                            0 <= i < self.players@.len() implies self.evaluator.can_evaluate(
                            river_seven(cards, (#[trigger] self.players@[i]).hand),
                        ) by {
                            if self.players@.len() == players0.len() {
                                assert(self.players@[i].hand == players0[i].hand);
                            } else {
                                if i < cur {
                                    assert(self.players@[i] == players0[i]);
                                } else {
                                    assert(self.players@[i] == players0[i + 1]);
                                }
                            }
                        }
                    },
                    _ => {},
                }
            }
        }
        if self.players.len() == 1 {
            self.finish_round();
            self.stage = Stage::Finished;
            return ;
        }
        self.advance_player(player_move);
        if advance {
            self.advance_stage();
        }
    }
}

} // verus!

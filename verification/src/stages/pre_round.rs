use vstd::prelude::*;

use crate::deck::{full_deck_multiset, Deck};
use crate::hand::Hand;
use crate::player::{
    dealt_cards, lemma_dealt_cards_push, lemma_sum_chips_pointwise, lemma_sum_chips_push,
    sum_chips, Active, Folded, Player, PlayerId,
};
use crate::pot::Pot;
use crate::stages::pre_flop::PreFlop;

verus! {

/// Why a round could not be set up.
#[derive(Debug, Clone, Copy, PartialEq, Eq, Structural)]
pub enum SetupError {
    /// A round needs at least two players.
    TooFewPlayers,
}

/// Between rounds: the whole roster sits folded with their chips, waiting
/// to be dealt in.
#[derive(Debug)]
pub struct PreRound {
    pub players: Vec<Player<Folded>>,
    pub pot: Pot,
    pub deck: Deck,
}

impl PreRound {
    /// Every chip on the table: all balances plus the pot.
    pub open spec fn total_chips(&self) -> int {
        sum_chips(self.players@) + self.pot.chips
    }

    pub open spec fn wf(&self) -> bool {
        &&& 2 <= self.players@.len() <= 23
        &&& self.total_chips() <= u32::MAX
    }

    /// Seats `players` fresh players — ids 1 upward, 100 chips each, two
    /// cards from a shuffled deck — around an empty pot. Fewer than two
    /// players is a setup error; more than 23 would outrun the deck.
    pub fn new(players: u8) -> (r: Result<PreRound, SetupError>)
        requires
            players <= 23,
        ensures
            r is Ok <==> players >= 2,
            players < 2 ==> r == Err::<PreRound, SetupError>(SetupError::TooFewPlayers),
            (r matches Ok(pr) ==> {
                &&& pr.players@.len() == players
                &&& forall|i: int|
                    0 <= i < players ==> (#[trigger] pr.players@[i]).id == PlayerId(
                        (i + 1) as u8,
                    ) && pr.players@[i].chips == 100
                &&& pr.pot.chips == 0
                &&& pr.pot.minimum_bet == 0
                &&& pr.deck.cards@.len() == 52 - 2 * players
                &&& pr.wf()
            }),
    {
        if players < 2 {
            return Err(SetupError::TooFewPlayers);
        }
        let pot = Pot::new(0, 0);
        let mut deck = Deck::new().shuffle();
        let mut folded_players: Vec<Player<Folded>> = Vec::new();
        let mut i: u8 = 0;
        while i < players
            invariant
                players <= 23,
                i <= players,
                deck.cards@.len() == 52 - 2 * i,
                folded_players@.len() == i,
                forall|j: int|
                    0 <= j < i ==> (#[trigger] folded_players@[j]).id == PlayerId((j + 1) as u8)
                        && folded_players@[j].chips == 100,
                sum_chips(folded_players@) == 100 * i,
            decreases players - i,
        {
            i = i + 1;
            let p = Self::deal_player(PlayerId(i), &mut deck);
            proof {
                lemma_sum_chips_push(folded_players@, p);
            }
            folded_players.push(p);
        }
        Ok(PreRound { players: folded_players, pot, deck })
    }

    /// Seats one fresh player with two cards off the deck and 100 chips.
    fn deal_player(id: PlayerId, deck: &mut Deck) -> (p: Player<Folded>)
        requires
            old(deck).cards@.len() >= 2,
        ensures
            final(deck).cards@.len() == old(deck).cards@.len() - 2,
            p.id == id,
            p.chips == 100,
    {
        let c0 = match deck.draw() {
            Some(c) => c,
            None => vstd::pervasive::unreached(),
        };
        let c1 = match deck.draw() {
            Some(c) => c,
            None => vstd::pervasive::unreached(),
        };
        Player::<Folded>::new(id, Hand::new([c0, c1]), 100)
    }

    /// Opens the next round: a fresh shuffled deck, two new cards for every
    /// seated player, everyone active again with nothing committed, and an
    /// empty pot. The players' chips carry over untouched.
    pub fn start_round(self) -> (pf: PreFlop)
        requires
            self.wf(),
        ensures
            pf.wf(),
            pf.active_players@.len() == self.players@.len(),
            forall|i: int|
                0 <= i < self.players@.len() ==> {
                    let p = self.players@[i];
                    (#[trigger] pf.active_players@[i]).id == p.id && pf.active_players@[i].chips
                        == p.chips && pf.active_players@[i].state.chips_bet_in_stage == 0
                },
            pf.folded_players@.len() == 0,
            pf.pot.chips == 0,
            pf.pot.minimum_bet == 0,
            pf.total_chips() == sum_chips(self.players@),
            pf.roster_size() == self.players@.len(),
            pf.deck.cards@.to_multiset().add(dealt_cards(pf.active_players@))
                == full_deck_multiset(),
    {
        let fresh_deck = Deck::new();
        let mut deck = fresh_deck.shuffle();
        let mut active_players: Vec<Player<Active>> = Vec::new();
        let mut i: usize = 0;
        while i < self.players.len()
            invariant
                self.players@.len() == self.players.len(),
                self.players@.len() <= 23,
                i <= self.players@.len(),
                deck.cards@.len() == 52 - 2 * i,
                active_players@.len() == i,
                forall|j: int|
                    0 <= j < i ==> {
                        let p = self.players@[j];
                        (#[trigger] active_players@[j]).id == p.id && active_players@[j].chips
                            == p.chips && active_players@[j].state.chips_bet_in_stage == 0
                    },
                deck.cards@.to_multiset().add(dealt_cards(active_players@))
                    =~= full_deck_multiset(),
            decreases self.players@.len() - i,
        {
            let ghost deck0 = deck.cards@;
            let p = Self::deal_player_in(self.players[i], &mut deck);
            proof {
                broadcast use vstd::seq_lib::group_to_multiset_ensures;

                lemma_dealt_cards_push(active_players@, p);
                assert(deck0.drop_last() =~= deck0.remove(deck0.len() - 1));
                assert(deck0.drop_last().drop_last() =~= deck0.drop_last().remove(
                    deck0.drop_last().len() - 1,
                ));
                assert(deck.cards@.to_multiset().add(
                    dealt_cards(active_players@.push(p)),
                ) =~= deck0.to_multiset().add(dealt_cards(active_players@)));
            }
            active_players.push(p);
            i = i + 1;
        }
        proof {
            lemma_sum_chips_pointwise(active_players@, self.players@);
            broadcast use vstd::seq_lib::group_to_multiset_ensures;

        }
        PreFlop {
            active_players,
            folded_players: Vec::new(),
            pot: Pot::new(0, 0),
            deck,
        }
    }

    /// Deals a seated player back in with the deck's top two cards;
    /// identity and chips carry over, and nothing is committed yet.
    fn deal_player_in(player: Player<Folded>, deck: &mut Deck) -> (p: Player<Active>)
        requires
            old(deck).cards@.len() >= 2,
        ensures
            final(deck).cards@ == old(deck).cards@.drop_last().drop_last(),
            p.id == player.id,
            p.chips == player.chips,
            p.state.chips_bet_in_stage == 0,
            p.hand.cards@[0] == old(deck).cards@.last(),
            p.hand.cards@[1] == old(deck).cards@.drop_last().last(),
    {
        let c0 = match deck.draw() {
            Some(c) => c,
            None => vstd::pervasive::unreached(),
        };
        let c1 = match deck.draw() {
            Some(c) => c,
            None => vstd::pervasive::unreached(),
        };
        player.deal_in(Hand::new([c0, c1]))
    }
}

} // verus!

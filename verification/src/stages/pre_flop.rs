use vstd::prelude::*;

use crate::advancement::Advancement;
use crate::deck::Deck;
use crate::game_loop::{GameLoop, StageOutcome};
use crate::player::{
    copy_players, ids_multiset, lemma_ids_pointwise, reset_stage_bets, sum_chips, Active, Folded,
    Player, PlayerId,
};
use crate::player_driver::PlayerDriver;
use crate::pot::Pot;
use crate::stages::finished::Finished;
use crate::stages::flop::Flop;

verus! {

/// The round's first betting stage: hole cards are dealt, no community
/// cards are shown yet, and the opening call threshold is in force.
#[derive(Debug)]
pub struct PreFlop {
    pub active_players: Vec<Player<Active>>,
    pub folded_players: Vec<Player<Folded>>,
    pub pot: Pot,
    pub deck: Deck,
}

/// The call threshold every stage of a round opens with.
pub open spec fn opening_minimum_bet() -> int {
    10
}

impl PreFlop {
    /// Every chip on the table: all balances plus the pot.
    pub open spec fn total_chips(&self) -> int {
        sum_chips(self.active_players@) + sum_chips(self.folded_players@) + self.pot.chips
    }

    /// Everyone seated at the table, folded or not.
    pub open spec fn roster_size(&self) -> int {
        self.active_players@.len() as int + self.folded_players@.len() as int
    }

    /// Who is seated at the table: stages move players between the active
    /// and folded lists but never seat or unseat anyone.
    pub open spec fn roster_ids(&self) -> vstd::multiset::Multiset<PlayerId> {
        ids_multiset(self.active_players@).add(ids_multiset(self.folded_players@))
    }

    pub open spec fn wf(&self) -> bool {
        &&& self.active_players@.len() >= 2
        &&& self.roster_size() <= 23
        &&& self.total_chips() <= u32::MAX
        &&& self.deck.cards@.len() >= 5
    }

    /// The betting loop for this stage: committed totals cleared, the
    /// button on the last seat, the first seat to act, and the round's
    /// opening call threshold on the pot.
    fn create_game_loop(&self) -> (gl: GameLoop)
        requires
            self.wf(),
        ensures
            gl.wf(),
            gl.active_players@.len() == self.active_players@.len(),
            gl.folded_players@ == self.folded_players@,
            gl.total_chips() == self.total_chips(),
            gl.roster_size() == self.roster_size(),
            gl.roster_ids() == self.roster_ids(),
            gl.button_index == self.active_players@.len() - 1,
            gl.current_player_index == 0,
            gl.pot.chips == self.pot.chips,
            gl.pot.minimum_bet == opening_minimum_bet(),
    {
        let active_players = reset_stage_bets(&self.active_players);
        let folded_players = copy_players(&self.folded_players);
        let button_index = active_players.len() - 1;
        let gl = GameLoop {
            active_players,
            folded_players,
            button_index,
            current_player_index: 0,
            pot: Pot::new(self.pot.chips, 10),
        };
        proof {
            crate::player::lemma_sum_chips_pointwise(gl.active_players@, self.active_players@);
            lemma_ids_pointwise(gl.active_players@, self.active_players@);
        }
        gl
    }

    /// Runs this stage's betting and reveals the flop: the top three cards
    /// leave the deck and become the next stage's community cards. If the
    /// betting leaves one player standing the round short-circuits to
    /// `Finished` with no cards revealed; if the move budget runs out the
    /// unsettled stage comes back as the error. Chips are conserved either
    /// way.
    pub fn advance<D: PlayerDriver>(self, max_moves: u64) -> (r: Result<Advancement<Flop>, PreFlop>)
        requires
            self.wf(),
        ensures
            ({
                let dl = self.deck.cards@.len() as int;
                match r {
                    Ok(Advancement::NextStage(f)) => {
                        &&& f.wf()
                        &&& f.total_chips() == self.total_chips()
                        &&& f.roster_size() == self.roster_size()
                        &&& f.roster_ids() == self.roster_ids()
                        &&& f.cards@ == seq![
                            self.deck.cards@[dl - 1],
                            self.deck.cards@[dl - 2],
                            self.deck.cards@[dl - 3],
                        ]
                        &&& f.deck.cards@ == self.deck.cards@.take(dl - 3)
                    },
                    Ok(Advancement::Finished(fin)) => {
                        &&& fin.wf()
                        &&& fin.active_players@.len() == 1
                        &&& fin.total_chips() == self.total_chips()
                        &&& fin.roster_size() == self.roster_size()
                        &&& fin.roster_ids() == self.roster_ids()
                        &&& fin.deck.cards@ == self.deck.cards@
                    },
                    Err(p) => {
                        &&& p.wf()
                        &&& p.total_chips() == self.total_chips()
                        &&& p.roster_size() == self.roster_size()
                        &&& p.roster_ids() == self.roster_ids()
                        &&& p.deck.cards@ == self.deck.cards@
                    },
                }
            }),
    {
        let game_loop = self.create_game_loop();
        match game_loop.do_stage::<D>(max_moves) {
            Ok(StageOutcome::NextStage(g)) => {
                let mut deck = self.deck;
                let c0 = match deck.draw() {
                    Some(c) => c,
                    None => vstd::pervasive::unreached(),
                };
                let c1 = match deck.draw() {
                    Some(c) => c,
                    None => vstd::pervasive::unreached(),
                };
                let c2 = match deck.draw() {
                    Some(c) => c,
                    None => vstd::pervasive::unreached(),
                };
                let flop = Flop {
                    active_players: g.active_players,
                    folded_players: g.folded_players,
                    pot: g.pot,
                    deck,
                    cards: [c0, c1, c2],
                };
                proof {
                    assert(flop.deck.cards@ =~= self.deck.cards@.take(
                        self.deck.cards@.len() - 3,
                    ));
                    assert(flop.cards@ =~= seq![c0, c1, c2]);
                }
                Ok(Advancement::NextStage(flop))
            },
            Ok(StageOutcome::Finished(g)) => Ok(
                Advancement::Finished(
                    Finished {
                        active_players: g.active_players,
                        folded_players: g.folded_players,
                        pot: g.pot,
                        deck: self.deck,
                    },
                ),
            ),
            Err(g) => Err(
                PreFlop {
                    active_players: g.active_players,
                    folded_players: g.folded_players,
                    pot: g.pot,
                    deck: self.deck,
                },
            ),
        }
    }
}

} // verus!

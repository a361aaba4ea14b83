use vstd::prelude::*;

use crate::advancement::Advancement;
use crate::card::Card;
use crate::deck::Deck;
use crate::game_loop::{GameLoop, StageOutcome};
use crate::player::{
    copy_players, ids_multiset, lemma_ids_pointwise, reset_stage_bets, sum_chips, Active, Folded,
    Player, PlayerId,
};
use crate::player_driver::PlayerDriver;
use crate::pot::Pot;
use crate::stages::finished::Finished;
use crate::stages::turn::Turn;

verus! {

/// The second betting stage: three community cards are on show.
#[derive(Debug)]
pub struct Flop {
    pub active_players: Vec<Player<Active>>,
    pub folded_players: Vec<Player<Folded>>,
    pub pot: Pot,
    pub deck: Deck,
    pub cards: [Card; 3],
}

impl Flop {
    /// Every chip on the table: all balances plus the pot.
    pub open spec fn total_chips(&self) -> int {
        sum_chips(self.active_players@) + sum_chips(self.folded_players@) + self.pot.chips
    }

    /// Everyone seated at the table, folded or not.
    pub open spec fn roster_size(&self) -> int {
        self.active_players@.len() as int + self.folded_players@.len() as int
    }

    /// Who is seated at the table: stages move players between the active
    /// and folded lists but never seat or unseat anyone.
    pub open spec fn roster_ids(&self) -> vstd::multiset::Multiset<PlayerId> {
        ids_multiset(self.active_players@).add(ids_multiset(self.folded_players@))
    }

    pub open spec fn wf(&self) -> bool {
        &&& self.active_players@.len() >= 2
        &&& self.roster_size() <= 23
        &&& self.total_chips() <= u32::MAX
        &&& self.deck.cards@.len() >= 2
    }

    /// The betting loop for this stage: committed totals cleared, the
    /// button on the last seat, the first seat to act, and no call
    /// threshold yet.
    fn create_game_loop(&self) -> (gl: GameLoop)
        requires
            self.wf(),
        ensures
            gl.wf(),
            gl.active_players@.len() == self.active_players@.len(),
            gl.folded_players@ == self.folded_players@,
            gl.total_chips() == self.total_chips(),
            gl.roster_size() == self.roster_size(),
            gl.roster_ids() == self.roster_ids(),
            gl.button_index == self.active_players@.len() - 1,
            gl.current_player_index == 0,
            gl.pot.chips == self.pot.chips,
            gl.pot.minimum_bet == 0,
    {
        let active_players = reset_stage_bets(&self.active_players);
        let folded_players = copy_players(&self.folded_players);
        let button_index = active_players.len() - 1;
        let gl = GameLoop {
            active_players,
            folded_players,
            button_index,
            current_player_index: 0,
            pot: Pot::new(self.pot.chips, 0),
        };
        proof {
            crate::player::lemma_sum_chips_pointwise(gl.active_players@, self.active_players@);
            lemma_ids_pointwise(gl.active_players@, self.active_players@);
        }
        gl
    }

    /// Runs this stage's betting and reveals the turn card on top of the
    /// three already shown. One player left standing short-circuits the
    /// round to `Finished` with no further card revealed; an exhausted
    /// move budget hands the unsettled stage back as the error. Chips are
    /// conserved either way.
    pub fn advance<D: PlayerDriver>(self, max_moves: u64) -> (r: Result<Advancement<Turn>, Flop>)
        requires
            self.wf(),
        ensures
            ({
                let dl = self.deck.cards@.len() as int;
                match r {
                    Ok(Advancement::NextStage(t)) => {
                        &&& t.wf()
                        &&& t.total_chips() == self.total_chips()
                        &&& t.roster_size() == self.roster_size()
                        &&& t.roster_ids() == self.roster_ids()
                        &&& t.cards@ == seq![
                            self.cards@[0],
                            self.cards@[1],
                            self.cards@[2],
                            self.deck.cards@[dl - 1],
                        ]
                        &&& t.deck.cards@ == self.deck.cards@.take(dl - 1)
                    },
                    Ok(Advancement::Finished(fin)) => {
                        &&& fin.wf()
                        &&& fin.active_players@.len() == 1
                        &&& fin.total_chips() == self.total_chips()
                        &&& fin.roster_size() == self.roster_size()
                        &&& fin.roster_ids() == self.roster_ids()
                        &&& fin.deck.cards@ == self.deck.cards@
                    },
                    Err(f) => {
                        &&& f.wf()
                        &&& f.total_chips() == self.total_chips()
                        &&& f.roster_size() == self.roster_size()
                        &&& f.roster_ids() == self.roster_ids()
                        &&& f.deck.cards@ == self.deck.cards@
                        &&& f.cards@ == self.cards@
                    },
                }
            }),
    {
        let game_loop = self.create_game_loop();
        match game_loop.do_stage::<D>(max_moves) {
            Ok(StageOutcome::NextStage(g)) => {
                let mut deck = self.deck;
                let c3 = match deck.draw() {
                    Some(c) => c,
                    None => vstd::pervasive::unreached(),
                };
                let turn = Turn {
                    active_players: g.active_players,
                    folded_players: g.folded_players,
                    pot: g.pot,
                    deck,
                    cards: [self.cards[0], self.cards[1], self.cards[2], c3],
                };
                proof {
                    assert(turn.cards@ =~= seq![
                        self.cards@[0],
                        self.cards@[1],
                        self.cards@[2],
                        c3,
                    ]);
                }
                Ok(Advancement::NextStage(turn))
            },
            Ok(StageOutcome::Finished(g)) => Ok(
                Advancement::Finished(
                    Finished {
                        active_players: g.active_players,
                        folded_players: g.folded_players,
                        pot: g.pot,
                        deck: self.deck,
                    },
                ),
            ),
            Err(g) => Err(
                Flop {
                    active_players: g.active_players,
                    folded_players: g.folded_players,
                    pot: g.pot,
                    deck: self.deck,
                    cards: self.cards,
                },
            ),
        }
    }
}

} // verus!

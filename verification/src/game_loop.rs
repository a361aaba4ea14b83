use vstd::prelude::*;

use crate::player::{
    ids_multiset, lemma_ids_push, lemma_ids_remove, lemma_ids_update, lemma_sum_chips_bound,
    lemma_sum_chips_nonneg, lemma_sum_chips_push, lemma_sum_chips_remove, lemma_sum_chips_update,
    spec_bet, spec_fold, sum_chips, Active, Folded, Player, PlayerId,
};
use crate::player_driver::{Move, PlayerDriver};
use crate::pot::Pot;

verus! {

/// The state of one betting stage: who is still in, who folded, whose turn
/// it is, which seat acts last, and the pot.
#[derive(Debug)]
pub struct GameLoop {
    pub active_players: Vec<Player<Active>>,
    pub folded_players: Vec<Player<Folded>>,
    pub button_index: usize,
    pub current_player_index: usize,
    pub pot: Pot,
}

/// How a whole stage ended: play goes on to the next stage, or the round is
/// over because a single active player remains.
#[derive(Debug)]
pub enum StageOutcome {
    NextStage(GameLoop),
    Finished(GameLoop),
}

/// What one move did to the stage: settled it, ended the whole round, or
/// left further action owed.
#[derive(Debug, Clone, Copy, PartialEq, Eq, Structural)]
pub enum MoveOutcome {
    StageFinished,
    RoundFinished,
    NextMove,
}

/// Where the button moves after the player at `current` folded, with
/// `new_len` players left: a fold at or before the button pulls the button
/// back one seat, wrapping to the last seat.
pub open spec fn fold_button_update(button: int, current: int, new_len: int) -> int {
    if current <= button {
        if button == 0 {
            new_len - 1
        } else {
            button - 1
        }
    } else {
        button
    }
}

/// Where the acting seat moves after a fold: it stays put (the next player
/// slides into the vacated seat) and wraps to the first seat when it now
/// points past the shortened list.
pub open spec fn fold_current_update(current: int, new_len: int) -> int {
    if current >= new_len {
        0
    } else {
        current
    }
}

/// Where the button moves after a raise by the player at `current`: to the
/// raiser's predecessor, so everyone else must act again.
pub open spec fn raise_button_update(current: int, len: int) -> int {
    if current == 0 {
        len - 1
    } else {
        current - 1
    }
}

impl GameLoop {
    /// Every chip on the table: all balances plus the pot.
    pub open spec fn total_chips(&self) -> int {
        sum_chips(self.active_players@) + sum_chips(self.folded_players@) + self.pot.chips
    }

    /// Everyone seated at the table, folded or not.
    pub open spec fn roster_size(&self) -> int {
        self.active_players@.len() as int + self.folded_players@.len() as int
    }

    /// Who is seated at the table, folded or not: moves shuffle players
    /// between the two lists but never seat or unseat anyone.
    pub open spec fn roster_ids(&self) -> vstd::multiset::Multiset<PlayerId> {
        ids_multiset(self.active_players@).add(ids_multiset(self.folded_players@))
    }

    /// The chip-accounting invariant: someone is still in, the table is not
    /// absurdly large, every chip total fits a `u32`, and nobody has
    /// committed more to this stage than the pot holds.
    pub open spec fn wf_chips(&self) -> bool {
        &&& self.active_players@.len() >= 1
        &&& self.roster_size() <= 23
        &&& self.total_chips() <= u32::MAX
        &&& forall|i: int|
            0 <= i < self.active_players@.len()
                ==> #[trigger] self.active_players@[i].state.chips_bet_in_stage <= self.pot.chips
    }

    /// The full invariant: chips are accounted for and the acting seat
    /// points into the active list. The button is only ever compared, never
    /// used to index, so no bound on it is needed: a fold can legitimately
    /// leave it pointing just past the shortened list.
    pub open spec fn wf(&self) -> bool {
        &&& self.wf_chips()
        &&& self.current_player_index < self.active_players@.len()
    }

    /// Moves the acting player from the active list to the folded list.
    /// Indices and pot are untouched; the wrap rules run in
    /// `advance_player`.
    fn handle_fold(&mut self)
        requires
            old(self).current_player_index < old(self).active_players@.len(),
        ensures
            final(self).active_players@ == old(self).active_players@.remove(
                old(self).current_player_index as int,
            ),
            final(self).folded_players@ == old(self).folded_players@.push(
                spec_fold(old(self).active_players@[old(self).current_player_index as int]),
            ),
            final(self).pot == old(self).pot,
            final(self).button_index == old(self).button_index,
            final(self).current_player_index == old(self).current_player_index,
    {
        let current_player = self.active_players.remove(self.current_player_index);
        let folded_player = current_player.fold();
        self.folded_players.push(folded_player);
    }

    /// The acting player matches the stage's call threshold, paying exactly
    /// what they still owe; a player who cannot cover it is folded instead.
    fn handle_call(&mut self)
        requires
            old(self).wf(),
        ensures
            final(self).button_index == old(self).button_index,
            final(self).current_player_index == old(self).current_player_index,
            ({
                let cur = old(self).current_player_index as int;
                let p = old(self).active_players@[cur];
                let owed = p.owed(old(self).pot);
                if owed <= p.chips {
                    &&& final(self).active_players@ == old(self).active_players@.update(
                        cur,
                        spec_bet(p, owed),
                    )
                    &&& final(self).folded_players@ == old(self).folded_players@
                    &&& final(self).pot.chips == old(self).pot.chips + owed
                    &&& final(self).pot.minimum_bet == old(self).pot.minimum_bet
                } else {
                    &&& final(self).active_players@ == old(self).active_players@.remove(cur)
                    &&& final(self).folded_players@ == old(self).folded_players@.push(
                        spec_fold(p),
                    )
                    &&& final(self).pot == old(self).pot
                }
            }),
    {
        let current = self.current_player_index;
        let mut p = self.active_players[current];
        let owed = if self.pot.minimum_bet > p.state.chips_bet_in_stage {
            self.pot.minimum_bet - p.state.chips_bet_in_stage
        } else {
            0
        };
        proof {
            lemma_sum_chips_bound(self.active_players@, current as int);
            lemma_sum_chips_nonneg(self.folded_players@);
        }
        match p.bet(owed, &mut self.pot) {
            Ok(_) => {
                let slot = vstd::std_specs::vec::vec_index_mut(&mut self.active_players, current);
                *slot = p;
            },
            Err(_) => {
                self.handle_fold();
            },
        }
    }

    /// The acting player bets `amount`, raising the call threshold when the
    /// amount exceeds it; a player whose raise is invalid is folded
    /// instead.
    fn handle_raise(&mut self, amount: u32)
        requires
            old(self).wf(),
        ensures
            final(self).button_index == old(self).button_index,
            final(self).current_player_index == old(self).current_player_index,
            ({
                let cur = old(self).current_player_index as int;
                let p = old(self).active_players@[cur];
                if p.owed(old(self).pot) <= amount <= p.chips {
                    &&& final(self).active_players@ == old(self).active_players@.update(
                        cur,
                        spec_bet(p, amount as int),
                    )
                    &&& final(self).folded_players@ == old(self).folded_players@
                    &&& final(self).pot.chips == old(self).pot.chips + amount
                    &&& final(self).pot.minimum_bet == (if amount > old(self).pot.minimum_bet {
                        amount
                    } else {
                        old(self).pot.minimum_bet
                    })
                } else {
                    &&& final(self).active_players@ == old(self).active_players@.remove(cur)
                    &&& final(self).folded_players@ == old(self).folded_players@.push(
                        spec_fold(p),
                    )
                    &&& final(self).pot == old(self).pot
                }
            }),
    {
        let current = self.current_player_index;
        let mut p = self.active_players[current];
        proof {
            lemma_sum_chips_bound(self.active_players@, current as int);
            lemma_sum_chips_nonneg(self.folded_players@);
        }
        match p.bet(amount, &mut self.pot) {
            Ok(_) => {
                let slot = vstd::std_specs::vec::vec_index_mut(&mut self.active_players, current);
                *slot = p;
            },
            Err(_) => {
                self.handle_fold();
            },
        }
    }

    /// Applies the documented wrap rules for the acting seat and the button
    /// after a move; the rosters and the pot are untouched.
    fn advance_player(&mut self, player_move: Move)
        requires
            1 <= old(self).active_players@.len() <= 23,
            old(self).current_player_index <= old(self).active_players@.len(),
        ensures
            final(self).active_players@ == old(self).active_players@,
            final(self).folded_players@ == old(self).folded_players@,
            final(self).pot == old(self).pot,
            ({
                let len = old(self).active_players@.len() as int;
                let cur = old(self).current_player_index as int;
                let btn = old(self).button_index as int;
                match player_move {
                    Move::Fold => final(self).button_index == fold_button_update(btn, cur, len)
                        && final(self).current_player_index == fold_current_update(cur, len),
                    Move::Call => final(self).current_player_index == (cur + 1) % len
                        && final(self).button_index == btn,
                    Move::Raise { amount } => final(self).button_index == raise_button_update(
                        cur,
                        len,
                    ) && final(self).current_player_index == (cur + 1) % len,
                }
            }),
    {
        match player_move {
            Move::Fold => {
                if self.current_player_index <= self.button_index {
                    self.button_index = if self.button_index == 0 {
                        self.active_players.len() - 1
                    } else {
                        self.button_index - 1
                    };
                }
                if self.current_player_index >= self.active_players.len() {
                    self.current_player_index = 0;
                }
            },
            Move::Call => {
                self.current_player_index = (self.current_player_index + 1)
                    % self.active_players.len();
            },
            Move::Raise { amount: _ } => {
                self.button_index = if self.current_player_index == 0 {
                    self.active_players.len() - 1
                } else {
                    self.current_player_index - 1
                };
                self.current_player_index = (self.current_player_index + 1)
                    % self.active_players.len();
            },
        }
    }

    /// Applies one move for the acting player and reports whether the stage
    /// is settled, the round is over, or another move is owed.
    ///
    /// A fold (including a call or raise the player cannot cover, which is
    /// forcibly converted into one) removes the player; the round ends the
    /// moment a single active player remains. Otherwise the seat indices
    /// advance by the wrap rules, and the stage is settled exactly when a
    /// fold or call happened while the acting seat equalled the button.
    /// A raise never settles the stage. Chips on the table are conserved.
    pub fn do_move(&mut self, player_move: Move) -> (r: MoveOutcome)
        requires
            old(self).wf(),
            old(self).active_players@.len() >= 2,
        ensures
            final(self).wf_chips(),
            r != MoveOutcome::RoundFinished ==> final(self).wf(),
            final(self).total_chips() == old(self).total_chips(),
            final(self).roster_size() == old(self).roster_size(),
            final(self).roster_ids() == old(self).roster_ids(),
            r == MoveOutcome::RoundFinished <==> final(self).active_players@.len() == 1,
            r != MoveOutcome::RoundFinished ==> final(self).active_players@.len() >= 2,
            ({
                let n = old(self).active_players@.len() as int;
                let cur = old(self).current_player_index as int;
                let btn = old(self).button_index as int;
                let p = old(self).active_players@[cur];
                match player_move {
                    Move::Fold => {
                        &&& final(self).active_players@ == old(self).active_players@.remove(cur)
                        &&& final(self).folded_players@ == old(self).folded_players@.push(
                            spec_fold(p),
                        )
                        &&& final(self).pot == old(self).pot
                        &&& if n == 2 {
                            r == MoveOutcome::RoundFinished && final(self).button_index == btn
                                && final(self).current_player_index == cur
                        } else {
                            &&& r == (if cur == btn {
                                MoveOutcome::StageFinished
                            } else {
                                MoveOutcome::NextMove
                            })
                            &&& final(self).button_index == fold_button_update(btn, cur, n - 1)
                            &&& final(self).current_player_index == fold_current_update(
                                cur,
                                n - 1,
                            )
                        }
                    },
                    Move::Call => {
                        let owed = p.owed(old(self).pot);
                        if owed <= p.chips {
                            &&& final(self).active_players@ == old(self).active_players@.update(
                                cur,
                                spec_bet(p, owed),
                            )
                            &&& final(self).folded_players@ == old(self).folded_players@
                            &&& final(self).pot.chips == old(self).pot.chips + owed
                            &&& final(self).pot.minimum_bet == old(self).pot.minimum_bet
                            &&& r == (if cur == btn {
                                MoveOutcome::StageFinished
                            } else {
                                MoveOutcome::NextMove
                            })
                            &&& final(self).current_player_index == (cur + 1) % n
                            &&& final(self).button_index == btn
                        } else {
                            &&& final(self).active_players@ == old(self).active_players@.remove(
                                cur,
                            )
                            &&& final(self).folded_players@ == old(self).folded_players@.push(
                                spec_fold(p),
                            )
                            &&& final(self).pot == old(self).pot
                            &&& if n == 2 {
                                r == MoveOutcome::RoundFinished && final(self).button_index == btn
                                    && final(self).current_player_index == cur
                            } else {
                                &&& r == (if cur == btn {
                                    MoveOutcome::StageFinished
                                } else {
                                    MoveOutcome::NextMove
                                })
                                &&& final(self).current_player_index == (cur + 1) % (n - 1)
                                &&& final(self).button_index == btn
                            }
                        }
                    },
                    Move::Raise { amount } => {
                        if p.owed(old(self).pot) <= amount <= p.chips {
                            &&& final(self).active_players@ == old(self).active_players@.update(
                                cur,
                                spec_bet(p, amount as int),
                            )
                            &&& final(self).folded_players@ == old(self).folded_players@
                            &&& final(self).pot.chips == old(self).pot.chips + amount
                            &&& final(self).pot.minimum_bet == (if amount > old(self).pot.minimum_bet {
                                amount
                            } else {
                                old(self).pot.minimum_bet
                            })
                            &&& r == MoveOutcome::NextMove
                            &&& final(self).button_index == raise_button_update(cur, n)
                            &&& final(self).current_player_index == (cur + 1) % n
                        } else {
                            &&& final(self).active_players@ == old(self).active_players@.remove(
                                cur,
                            )
                            &&& final(self).folded_players@ == old(self).folded_players@.push(
                                spec_fold(p),
                            )
                            &&& final(self).pot == old(self).pot
                            &&& if n == 2 {
                                r == MoveOutcome::RoundFinished && final(self).button_index == btn
                                    && final(self).current_player_index == cur
                            } else {
                                &&& r == MoveOutcome::NextMove
                                &&& final(self).button_index == raise_button_update(cur, n - 1)
                                &&& final(self).current_player_index == (cur + 1) % (n - 1)
                            }
                        }
                    },
                }
            }),
    {
        proof {
            lemma_do_move_roster(old(self).active_players@, old(self).folded_players@, old(self).current_player_index as int);
        }
        let mut advance_stage = false;
        match player_move {
            Move::Fold => {
                self.handle_fold();
                advance_stage = self.current_player_index == self.button_index;
            },
            Move::Call => {
                self.handle_call();
                advance_stage = self.current_player_index == self.button_index;
            },
            Move::Raise { amount } => {
                self.handle_raise(amount);
            },
        }
        if self.active_players.len() == 1 {
            return MoveOutcome::RoundFinished;
        }
        self.advance_player(player_move);
        if advance_stage {
            return MoveOutcome::StageFinished;
        }
        MoveOutcome::NextMove
    }

    /// Runs one betting stage to its end, asking the driver for each move
    /// in turn, but giving up after `max_moves` moves: the unsettled table
    /// comes back as the error. Chips are conserved however the stage goes,
    /// and the round is reported over exactly when one player remains.
    pub fn do_stage<D: PlayerDriver>(self, max_moves: u64) -> (r: Result<StageOutcome, GameLoop>)
        requires
            self.wf(),
            self.active_players@.len() >= 2,
        ensures
            ({
                match r {
                    Ok(StageOutcome::NextStage(g)) => g.wf() && g.active_players@.len() >= 2
                        && g.total_chips() == self.total_chips() && g.roster_size()
                        == self.roster_size() && g.roster_ids() == self.roster_ids(),
                    Ok(StageOutcome::Finished(g)) => g.wf_chips() && g.active_players@.len() == 1
                        && g.total_chips() == self.total_chips() && g.roster_size()
                        == self.roster_size() && g.roster_ids() == self.roster_ids(),
                    Err(g) => g.wf() && g.active_players@.len() >= 2 && g.total_chips()
                        == self.total_chips() && g.roster_size() == self.roster_size()
                        && g.roster_ids() == self.roster_ids(),
                }
            }),
    {
        let mut game = self;
        let mut moves_done: u64 = 0;
        while moves_done < max_moves
            invariant
                game.wf(),
                game.active_players@.len() >= 2,
                game.total_chips() == self.total_chips(),
                game.roster_size() == self.roster_size(),
                game.roster_ids() == self.roster_ids(),
                moves_done <= max_moves,
            decreases max_moves - moves_done,
        {
            let player_move = D::determine_move(&game);
            let outcome = game.do_move(player_move);
            moves_done = moves_done + 1;
            match outcome {
                MoveOutcome::StageFinished => {
                    return Ok(StageOutcome::NextStage(game));
                },
                MoveOutcome::RoundFinished => {
                    return Ok(StageOutcome::Finished(game));
                },
                MoveOutcome::NextMove => {},
            }
        }
        Err(game)
    }
}

/// Folding the player at `cur` conserves the roster size, the seated
/// identities, and the chips on the table; so does updating their entry in
/// place.
pub proof fn lemma_do_move_roster(
    active: Seq<Player<Active>>,
    folded: Seq<Player<Folded>>,
    cur: int,
)
    requires
        0 <= cur < active.len(),
    ensures
        sum_chips(active.remove(cur)) == sum_chips(active) - active[cur].chips,
        sum_chips(folded.push(spec_fold(active[cur]))) == sum_chips(folded) + active[cur].chips,
        forall|p: Player<Active>|
            sum_chips(#[trigger] active.update(cur, p)) == sum_chips(active) - active[cur].chips
                + p.chips,
        ids_multiset(active.remove(cur)).add(
            ids_multiset(folded.push(spec_fold(active[cur]))),
        ) == ids_multiset(active).add(ids_multiset(folded)),
        forall|p: Player<Active>|
            p.id == active[cur].id ==> ids_multiset(#[trigger] active.update(cur, p))
                == ids_multiset(active),
{
    lemma_sum_chips_remove(active, cur);
    lemma_sum_chips_push(folded, spec_fold(active[cur]));
    assert forall|p: Player<Active>|
        sum_chips(#[trigger] active.update(cur, p)) == sum_chips(active) - active[cur].chips
            + p.chips by {
        lemma_sum_chips_update(active, cur, p);
    }
    lemma_ids_remove(active, cur);
    lemma_ids_push(folded, spec_fold(active[cur]));
    assert(ids_multiset(active.remove(cur)).add(
        ids_multiset(folded).insert(active[cur].id),
    ) =~= ids_multiset(active.remove(cur)).insert(active[cur].id).add(ids_multiset(folded)));
    assert forall|p: Player<Active>|
        p.id == active[cur].id implies ids_multiset(#[trigger] active.update(cur, p))
        == ids_multiset(active) by {
        lemma_ids_update(active, cur, p);
    }
}

} // verus!

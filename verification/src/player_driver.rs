use vstd::prelude::*;

use crate::game_loop::GameLoop;

verus! {

/// A betting move chosen by a player for their turn.
#[derive(Debug, Clone, Copy)]
pub enum Move {
    Fold,
    Call,
    Raise { amount: u32 },
}

/// The move-decision collaborator: something outside the round engine that,
/// shown the table, picks the current player's move. Implementations live
/// with the caller (a console prompt, a scripted bot); the engine promises
/// its invariants whatever move comes back.
pub trait PlayerDriver {
    fn determine_move(game: &GameLoop) -> Move;
}

} // verus!

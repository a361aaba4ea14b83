use poker_in_rust::player::{Active, Folded, Player};
use poker_in_rust::{
    Advancement, DummyEvaluator, GameLoop, Move, PlayerDriver, PreRound, SetupError, StageOutcome,
};

/// Calls every turn, whatever the table looks like.
struct CallBot;

impl PlayerDriver for CallBot {
    fn determine_move(_game: &GameLoop) -> Move {
        Move::Call
    }
}

/// Opens with a raise of ten, then folds every later turn.
struct RaiseThenFoldBot;

impl PlayerDriver for RaiseThenFoldBot {
    fn determine_move(game: &GameLoop) -> Move {
        if game.pot.chips == 0 {
            Move::Raise { amount: 10 }
        } else {
            Move::Fold
        }
    }
}

fn table_total(active: &[Player<Active>], folded: &[Player<Folded>], pot_chips: u32) -> u32 {
    active.iter().map(|p| p.chips).sum::<u32>()
        + folded.iter().map(|p| p.chips).sum::<u32>()
        + pot_chips
}

#[test]
fn a_round_needs_at_least_two_players() {
    assert_eq!(Err(SetupError::TooFewPlayers), PreRound::new(0).map(|_| ()));
    assert_eq!(Err(SetupError::TooFewPlayers), PreRound::new(1).map(|_| ()));
    assert!(PreRound::new(2).is_ok());
}

#[test]
fn a_fresh_round_deals_everyone_in_with_their_chips() {
    let pre_round = PreRound::new(4).expect("four players seat fine");
    assert_eq!(4, pre_round.players.len());
    assert!(pre_round.players.iter().all(|p| p.chips == 100));
    let pre_flop = pre_round.start_round();
    assert_eq!(4, pre_flop.active_players.len());
    assert!(pre_flop.active_players.iter().all(|p| p.chips == 100));
    assert!(pre_flop.active_players.iter().all(|p| p.state.chips_bet_in_stage == 0));
    assert_eq!(0, pre_flop.folded_players.len());
    assert_eq!(0, pre_flop.pot.chips);
}

#[test]
fn a_full_round_of_calls_conserves_every_chip() {
    let pre_flop = PreRound::new(3).expect("three players seat fine").start_round();
    let total = table_total(&pre_flop.active_players, &pre_flop.folded_players, pre_flop.pot.chips);
    assert_eq!(300, total);

    let flop = match pre_flop.advance::<CallBot>(1000) {
        Ok(Advancement::NextStage(flop)) => flop,
        _ => panic!("three callers settle the opening stage"),
    };
    // Everyone called the opening threshold of ten.
    assert_eq!(30, flop.pot.chips);
    assert_eq!(300, table_total(&flop.active_players, &flop.folded_players, flop.pot.chips));

    let turn = match flop.advance::<CallBot>(1000) {
        Ok(Advancement::NextStage(turn)) => turn,
        _ => panic!("three callers settle the flop"),
    };
    let river = match turn.advance::<CallBot>(1000) {
        Ok(Advancement::NextStage(river)) => river,
        _ => panic!("three callers settle the turn"),
    };
    assert_eq!(5, river.cards.len());

    let showdown = match river.advance::<CallBot>(1000) {
        Ok(Advancement::NextStage(showdown)) => showdown,
        _ => panic!("three callers settle the river"),
    };
    // The dummy evaluator ties everyone, so all three split the pot.
    let finished = showdown.finish(&DummyEvaluator {});
    assert_eq!(3, finished.active_players.len());

    let next_round = finished.payout();
    assert_eq!(3, next_round.players.len());
    assert!(next_round.players.iter().all(|p| p.chips == 100));
    assert_eq!(0, next_round.pot.chips);
}

#[test]
fn a_round_with_one_player_left_skips_to_finished() {
    let pre_flop = PreRound::new(3).expect("three players seat fine").start_round();
    let deck_before = pre_flop.deck.cards.len();

    // One raise, then two folds: a sole player remains mid-stage.
    let finished = match pre_flop.advance::<RaiseThenFoldBot>(1000) {
        Ok(Advancement::Finished(finished)) => finished,
        _ => panic!("two folds end the round at once"),
    };
    assert_eq!(1, finished.active_players.len());
    // No community cards were revealed on the way out.
    assert_eq!(deck_before, finished.deck.cards.len());
    // The raiser's ten chips sit in the pot...
    assert_eq!(10, finished.pot.chips);
    assert_eq!(90, finished.active_players[0].chips);

    // ...and the payout hands the sole survivor the entire pot.
    let survivor = finished.active_players[0].id;
    let next_round = finished.payout();
    assert_eq!(0, next_round.pot.chips);
    let winner = next_round
        .players
        .iter()
        .find(|p| p.id == survivor)
        .expect("the survivor is seated for the next round");
    assert_eq!(100, winner.chips);
    assert_eq!(300, next_round.players.iter().map(|p| p.chips).sum::<u32>());
}

#[test]
fn an_exhausted_move_budget_returns_the_unsettled_stage() {
    let pre_flop = PreRound::new(3).expect("three players seat fine").start_round();
    match pre_flop.advance::<CallBot>(1) {
        Err(stalled) => {
            assert_eq!(3, stalled.active_players.len());
            assert_eq!(
                300,
                table_total(&stalled.active_players, &stalled.folded_players, stalled.pot.chips)
            );
        }
        _ => panic!("a single move cannot settle a three-player stage"),
    }
}

#[test]
fn the_betting_loop_reports_a_settled_stage() {
    let pre_flop = PreRound::new(2).expect("two players seat fine").start_round();
    let game_loop = GameLoop {
        active_players: pre_flop.active_players,
        folded_players: pre_flop.folded_players,
        button_index: 1,
        current_player_index: 0,
        pot: pre_flop.pot,
    };
    match game_loop.do_stage::<CallBot>(10) {
        Ok(StageOutcome::NextStage(settled)) => {
            assert_eq!(2, settled.active_players.len());
        }
        _ => panic!("two callers settle a stage within ten moves"),
    }
}

use poker_in_rust::{DummyEvaluator, Game, Move, Stage};

fn three_player_game() -> Game<DummyEvaluator> {
    Game::new(3, DummyEvaluator {})
}

#[test]
fn folding_moves_current_player_index_correctly() {
    let cases: [(usize, usize); 3] = [(0, 0), (1, 1), (2, 0)];
    for (player_to_fold, expected_next_player) in cases {
        let mut game = three_player_game();
        game.current_player_index = player_to_fold;

        game.do_move(Move::Fold);

        assert_eq!(expected_next_player, game.current_player_index);
    }
}

#[test]
fn folding_moves_button_index_correctly() {
    let cases: [(usize, usize, usize); 9] = [
        (0, 0, 1),
        (0, 1, 0),
        (0, 2, 1),
        (1, 0, 0),
        (1, 1, 0),
        (1, 2, 1),
        (2, 0, 0),
        (2, 1, 1),
        (2, 2, 1),
    ];
    for (player_to_fold, current_button, expected_new_button) in cases {
        let mut game = three_player_game();
        game.current_player_index = player_to_fold;
        game.button_index = current_button;

        game.do_move(Move::Fold);

        assert_eq!(expected_new_button, game.button_index);
    }
}

#[test]
fn calling_moves_current_player_index_correctly() {
    let cases: [(usize, usize); 3] = [(0, 1), (1, 2), (2, 0)];
    for (player_to_call, expected_next_player) in cases {
        let mut game = three_player_game();
        game.current_player_index = player_to_call;

        game.do_move(Move::Call);

        assert_eq!(expected_next_player, game.current_player_index);
    }
}

#[test]
fn calling_does_not_move_button_index() {
    for player_to_call in [0usize, 1, 2] {
        let mut game = three_player_game();
        let expected_button = game.button_index;
        game.current_player_index = player_to_call;

        game.do_move(Move::Call);

        assert_eq!(expected_button, game.button_index);
    }
}

#[test]
fn raising_moves_current_player_index_correctly() {
    let cases: [(usize, usize); 3] = [(0, 1), (1, 2), (2, 0)];
    for (player_to_raise, expected_next_player) in cases {
        let mut game = three_player_game();
        game.current_player_index = player_to_raise;

        game.do_move(Move::Raise { amount: 10 });

        assert_eq!(expected_next_player, game.current_player_index);
    }
}

#[test]
fn raising_moves_button_index_correctly() {
    let cases: [(usize, usize, usize); 9] = [
        (0, 0, 2),
        (0, 1, 2),
        (0, 2, 2),
        (1, 0, 0),
        (1, 1, 0),
        (1, 2, 0),
        (2, 0, 1),
        (2, 1, 1),
        (2, 2, 1),
    ];
    for (player_to_raise, current_button, expected_new_button) in cases {
        let mut game = three_player_game();
        game.current_player_index = player_to_raise;
        game.button_index = current_button;

        game.do_move(Move::Raise { amount: 10 });

        assert_eq!(expected_new_button, game.button_index);
    }
}

#[test]
fn folding_moves_to_next_stage_correctly() {
    let cases: [(usize, usize, bool); 9] = [
        (0, 0, true),
        (0, 1, false),
        (0, 2, false),
        (1, 0, false),
        (1, 1, true),
        (1, 2, false),
        (2, 0, false),
        (2, 1, false),
        (2, 2, true),
    ];
    for (player_to_fold, current_button, should_move_stage) in cases {
        let mut game = three_player_game();
        game.current_player_index = player_to_fold;
        game.button_index = current_button;

        game.do_move(Move::Fold);

        match (should_move_stage, game.stage) {
            (true, Stage::Flop { cards: _ }) => (),
            (false, Stage::PreFlop) => (),
            (_, stage) => panic!("Unexpected stage {:?}", stage),
        }
    }
}

#[test]
fn calling_moves_to_next_stage_correctly() {
    let cases: [(usize, usize, bool); 9] = [
        (0, 0, true),
        (0, 1, false),
        (0, 2, false),
        (1, 0, false),
        (1, 1, true),
        (1, 2, false),
        (2, 0, false),
        (2, 1, false),
        (2, 2, true),
    ];
    for (player_to_call, current_button, should_move_stage) in cases {
        let mut game = three_player_game();
        game.current_player_index = player_to_call;
        game.button_index = current_button;

        game.do_move(Move::Call);

        match (should_move_stage, game.stage) {
            (true, Stage::Flop { cards: _ }) => (),
            (false, Stage::PreFlop) => (),
            (_, stage) => panic!("Unexpected stage {:?}", stage),
        }
    }
}

#[test]
fn raising_doesnt_move_to_next_stage() {
    for player_to_raise in [0usize, 1, 2] {
        for current_button in [0usize, 1, 2] {
            let mut game = three_player_game();
            game.current_player_index = player_to_raise;
            game.button_index = current_button;

            game.do_move(Move::Raise { amount: 10 });

            match game.stage {
                Stage::PreFlop => (),
                stage => panic!("Unexpected stage {:?}", stage),
            }
        }
    }
}

#[test]
fn a_game_move_conserves_the_chips_on_the_table() {
    for mv in [Move::Fold, Move::Call, Move::Raise { amount: 25 }] {
        let mut game = three_player_game();
        game.pot.minimum_bet = 10;
        let total_before: u32 = game.players.iter().map(|p| p.chips).sum::<u32>()
            + game.folded_players.iter().map(|p| p.chips).sum::<u32>()
            + game.pot.chips;
        game.do_move(mv);
        let total_after: u32 = game.players.iter().map(|p| p.chips).sum::<u32>()
            + game.folded_players.iter().map(|p| p.chips).sum::<u32>()
            + game.pot.chips;
        assert_eq!(total_before, total_after);
    }
}

#[test]
fn a_game_ends_when_one_player_is_left() {
    let mut game = three_player_game();
    game.pot.minimum_bet = 10;
    game.do_move(Move::Raise { amount: 10 });
    game.do_move(Move::Fold);
    game.do_move(Move::Fold);
    match game.stage {
        Stage::Finished => (),
        stage => panic!("Unexpected stage {:?}", stage),
    }
    assert_eq!(1, game.players.len());
    // The raiser gets their ten chips back: the whole pot.
    assert_eq!(100, game.players[0].chips);
    assert_eq!(0, game.pot.chips);
}

use duke_engine::bag::TileBag;
use duke_engine::board_setup::{DukeInitialLocation, FootmenSetup};
use duke_engine::coordinates::Coordinates;
use duke_engine::game_board::{DukeOffset, GameBoard};
use duke_engine::state::{GameMove, GameResult, GameState};
use duke_engine::tile::Owner;
use duke_engine::units;
use rand::rngs::StdRng;
use rand::SeedableRng;

fn test_rng() -> StdRng {
    StdRng::seed_from_u64(0)
}

fn test_undo_move(mut state: GameState, mv: GameMove) {
    let undo = state.to_undo(&mv);
    let expected = state.clone();
    state.make_a_move(mv, &mut test_rng());
    state.undo(undo);
    assert_eq!(expected, state);
}

#[test]
fn undo_can_undo_a_pull() {
    test_undo_move(
        GameState::new(
            &TileBag::new(vec![units::knight()]),
            (DukeInitialLocation::Right, FootmenSetup::Sides),
            (DukeInitialLocation::Left, FootmenSetup::Right),
        ),
        GameMove::PullAndPlay(DukeOffset::Bottom),
    )
}

#[test]
fn undo_can_undo_a_move_without_capture() {
    test_undo_move(
        GameState::new(
            &TileBag::new(vec![units::knight()]),
            (DukeInitialLocation::Right, FootmenSetup::Sides),
            (DukeInitialLocation::Left, FootmenSetup::Right),
        ),
        GameMove::ApplyNonCommandTileAction {
            src: Coordinates { x: 1, y: 0 },
            dst: Coordinates { x: 1, y: 1 },
        },
    );
}

#[test]
fn undo_can_undo_a_strike_move_with_capture() {
    let mut board = GameBoard::empty();
    board.place(
        Coordinates { x: 0, y: 0 },
        units::place_tile(Owner::TopPlayer, units::duke()),
    );
    board.place(
        Coordinates { x: 5, y: 5 },
        units::place_tile(Owner::BottomPlayer, units::duke()),
    );
    let pikeman = units::place_tile_flipped(Owner::TopPlayer, units::pikeman());
    board.place(Coordinates { x: 1, y: 0 }, pikeman);
    let footman_coordinates = Coordinates { x: 2, y: 2 };
    board.place(
        footman_coordinates,
        units::place_tile(Owner::BottomPlayer, units::footman()),
    );
    let gs = GameState::from_board(board, Owner::TopPlayer);
    test_undo_move(
        gs,
        GameMove::ApplyNonCommandTileAction {
            src: Coordinates { x: 1, y: 0 },
            dst: footman_coordinates,
        },
    );
}

#[test]
fn game_result_should_return_ongoing_if_no_winner_nor_tie() {
    let mut board = GameBoard::empty();
    board.place(
        Coordinates { x: 5, y: 5 },
        units::place_tile(Owner::TopPlayer, units::duke()),
    );
    board.place(
        Coordinates { x: 0, y: 0 },
        units::place_tile(Owner::BottomPlayer, units::duke()),
    );
    let mut state = GameState::from_board(board, Owner::TopPlayer);
    assert_eq!(state.game_result(), GameResult::Ongoing);
}

#[test]
fn game_result_should_return_ongoing_if_other_player_still_has_moves() {
    let mut board = GameBoard::empty();
    board.place(
        Coordinates { x: 5, y: 5 },
        units::place_tile(Owner::TopPlayer, units::duke()),
    );
    let footman = units::place_tile_flipped(Owner::TopPlayer, units::footman());
    board.place(Coordinates { x: 4, y: 5 }, footman);
    let op_duke = units::place_tile_flipped(Owner::BottomPlayer, units::duke());
    board.place(Coordinates { x: 5, y: 0 }, op_duke);
    // The top player can still play a footman move.
    let mut state = GameState::from_board(board, Owner::TopPlayer);
    assert_eq!(state.game_result(), GameResult::Ongoing);
}

#[test]
fn game_result_should_return_some_on_winner() {
    let mut board = GameBoard::empty();
    board.place(
        Coordinates { x: 5, y: 5 },
        units::place_tile(Owner::TopPlayer, units::duke()),
    );
    let footman = units::place_tile(Owner::TopPlayer, units::footman());
    board.place(Coordinates { x: 4, y: 5 }, footman);
    let op_duke = units::place_tile_flipped(Owner::BottomPlayer, units::duke());
    board.place(Coordinates { x: 5, y: 0 }, op_duke);
    let mut state = GameState::from_board(board, Owner::TopPlayer);
    assert_eq!(state.game_result(), GameResult::Won(Owner::BottomPlayer));
}

#[test]
fn game_result_should_return_tie_after_enough_consecutive_moves_with_no_capture_or_placement() {
    let mut board = GameBoard::empty();
    board.place(
        Coordinates { x: 0, y: 0 },
        units::place_tile(Owner::TopPlayer, units::duke()),
    );
    board.place(
        Coordinates { x: 5, y: 5 },
        units::place_tile(Owner::BottomPlayer, units::duke()),
    );
    let mut gs = GameState::from_board(board, Owner::TopPlayer);
    for _ in 0..7 {
        gs.make_a_move(
            GameMove::ApplyNonCommandTileAction {
                src: Coordinates { x: 0, y: 0 },
                dst: Coordinates { x: 5, y: 0 },
            },
            &mut test_rng(),
        );
        gs.make_a_move(
            GameMove::ApplyNonCommandTileAction {
                src: Coordinates { x: 5, y: 5 },
                dst: Coordinates { x: 0, y: 5 },
            },
            &mut test_rng(),
        );
        gs.make_a_move(
            GameMove::ApplyNonCommandTileAction {
                src: Coordinates { x: 5, y: 0 },
                dst: Coordinates { x: 5, y: 5 },
            },
            &mut test_rng(),
        );
        gs.make_a_move(
            GameMove::ApplyNonCommandTileAction {
                src: Coordinates { x: 0, y: 5 },
                dst: Coordinates { x: 0, y: 0 },
            },
            &mut test_rng(),
        );
        gs.make_a_move(
            GameMove::ApplyNonCommandTileAction {
                src: Coordinates { x: 5, y: 5 },
                dst: Coordinates { x: 0, y: 5 },
            },
            &mut test_rng(),
        );
        gs.make_a_move(
            GameMove::ApplyNonCommandTileAction {
                src: Coordinates { x: 0, y: 0 },
                dst: Coordinates { x: 5, y: 0 },
            },
            &mut test_rng(),
        );
        gs.make_a_move(
            GameMove::ApplyNonCommandTileAction {
                src: Coordinates { x: 0, y: 5 },
                dst: Coordinates { x: 0, y: 0 },
            },
            &mut test_rng(),
        );
        gs.make_a_move(
            GameMove::ApplyNonCommandTileAction {
                src: Coordinates { x: 5, y: 0 },
                dst: Coordinates { x: 5, y: 5 },
            },
            &mut test_rng(),
        );
    }
    assert_eq!(gs.game_result(), GameResult::Tie)
}

#[test]
fn get_legal_moves_does_not_allow_the_duke_to_remain_in_guard() {
    let mut board = GameBoard::empty();
    board.place(
        Coordinates { x: 0, y: 0 },
        units::place_tile(Owner::TopPlayer, units::duke()),
    );
    board.place(
        Coordinates { x: 5, y: 5 },
        units::place_tile(Owner::BottomPlayer, units::duke()),
    );
    let footman_coordinates = Coordinates { x: 2, y: 2 };
    board.place(
        footman_coordinates,
        units::place_tile(Owner::TopPlayer, units::footman()),
    );
    board.place(
        Coordinates { x: 0, y: 1 },
        units::place_tile(Owner::BottomPlayer, units::footman()),
    );
    let mut state = GameState::from_board(board, Owner::TopPlayer);
    assert!(state.get_legal_moves(footman_coordinates).is_empty());
}

#[test]
fn can_make_a_move_returns_false_if_moving_duke_into_guard() {
    let mut board = GameBoard::empty();
    let duke_coordinates = Coordinates { x: 0, y: 0 };
    board.place(duke_coordinates, units::place_tile(Owner::TopPlayer, units::duke()));
    board.place(
        Coordinates { x: 5, y: 5 },
        units::place_tile(Owner::BottomPlayer, units::duke()),
    );
    board.place(
        Coordinates { x: 3, y: 1 },
        units::place_tile(Owner::BottomPlayer, units::footman()),
    );
    let mut state = GameState::from_board(board, Owner::TopPlayer);
    assert!(!state.can_make_a_move(&GameMove::ApplyNonCommandTileAction {
        src: duke_coordinates,
        dst: Coordinates { x: 3, y: 0 },
    }));
}

#[test]
fn turn_alternates_after_every_completed_move() {
    let mut gs = GameState::new(
        &TileBag::new(vec![units::knight()]),
        (DukeInitialLocation::Right, FootmenSetup::Sides),
        (DukeInitialLocation::Left, FootmenSetup::Right),
    );
    assert_eq!(Owner::TopPlayer, gs.current_player_turn());
    gs.make_a_move(
        GameMove::ApplyNonCommandTileAction {
            src: Coordinates { x: 1, y: 0 },
            dst: Coordinates { x: 1, y: 1 },
        },
        &mut test_rng(),
    );
    assert_eq!(Owner::BottomPlayer, gs.current_player_turn());
    gs.make_a_move(GameMove::PullAndPlay(DukeOffset::Top), &mut test_rng());
    assert_eq!(Owner::TopPlayer, gs.current_player_turn());
}

#[test]
fn undo_can_undo_a_move_with_capture() {
    let mut board = GameBoard::empty();
    board.place(
        Coordinates { x: 2, y: 0 },
        units::place_tile(Owner::TopPlayer, units::duke()),
    );
    board.place(
        Coordinates { x: 3, y: 5 },
        units::place_tile(Owner::BottomPlayer, units::duke()),
    );
    board.place(
        Coordinates { x: 1, y: 0 },
        units::place_tile(Owner::TopPlayer, units::footman()),
    );
    board.place(
        Coordinates { x: 1, y: 1 },
        units::place_tile(Owner::BottomPlayer, units::footman()),
    );
    let gs = GameState::from_board(board, Owner::TopPlayer);
    test_undo_move(
        gs,
        GameMove::ApplyNonCommandTileAction {
            src: Coordinates { x: 1, y: 0 },
            dst: Coordinates { x: 1, y: 1 },
        },
    );
}

fn can_find_winning_move(player: duke_engine::ai::HeuristicAlphaBetaPlayer) {
    let mut board = GameBoard::empty();
    board.place(
        Coordinates { x: 0, y: 0 },
        units::place_tile(Owner::TopPlayer, units::duke()),
    );
    board.place(
        Coordinates { x: 1, y: 0 },
        units::place_tile(Owner::TopPlayer, units::footman()),
    );
    board.place(
        Coordinates { x: 5, y: 5 },
        units::place_tile(Owner::BottomPlayer, units::duke()),
    );
    board.place(
        Coordinates { x: 4, y: 4 },
        units::place_tile(Owner::BottomPlayer, units::footman()),
    );
    let mut gs = GameState::from_board(board, Owner::BottomPlayer);
    let mv = player.get_next_move(&mut test_rng(), &mut gs);
    assert_eq!(
        duke_engine::game_board::PossibleMove::ApplyNonCommandTileAction {
            src: Coordinates { x: 5, y: 5 },
            dst: Coordinates { x: 0, y: 5 },
            capturing: None,
        },
        mv,
    );
}

#[test]
fn win_in_1() {
    can_find_winning_move(
        duke_engine::ai::HeuristicAlphaBetaPlayer::all_heuristics_with_max_depth(1),
    )
}


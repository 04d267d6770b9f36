use duke_engine::coordinates::Coordinates;
use duke_engine::game_board::{DukeOffset, GameBoard};
use duke_engine::offset::{FourWaySymmetric, HorizontalSymmetricOffset, Offsetable, VerticalOffset};
use duke_engine::tile::Owner;
use duke_engine::tile_side::{TileAction, TileSide};
use duke_engine::units;

fn assert_same_set(expected: Vec<(Coordinates, TileAction)>, actual: Vec<(Coordinates, TileAction)>) {
    assert_eq!(expected.len(), actual.len(), "expected {:?}, got {:?}", expected, actual);
    for e in &expected {
        assert!(actual.contains(e), "missing {:?} in {:?}", e, actual);
    }
}

#[test]
fn get_action_returns_none_if_no_action() {
    let tile = TileSide::new(vec![(FourWaySymmetric::NearStraight.offsets(), TileAction::Move)])
        .unwrap();
    assert_eq!(
        None,
        tile.get_action_from_coordinates(Coordinates { x: 2, y: 4 }, Coordinates { x: 3, y: 5 })
    );
}

#[test]
fn get_action_returns_some_if_there_is_an_action() {
    let tile = TileSide::new(vec![(
        (HorizontalSymmetricOffset::Far, VerticalOffset::Top).offsets(),
        TileAction::Jump,
    )])
    .unwrap();
    assert_eq!(
        Some(TileAction::Jump),
        tile.get_action_from_coordinates(Coordinates { x: 2, y: 4 }, Coordinates { x: 4, y: 3 }),
    );
}

#[test]
fn get_action_returns_some_if_there_is_an_action_non_vertical_center() {
    let tile = TileSide::new(vec![
        (VerticalOffset::FarTop.offsets(), TileAction::Strike),
        (VerticalOffset::Bottom.offsets(), TileAction::Unit),
    ])
    .unwrap();
    assert_eq!(
        Some(TileAction::Strike),
        tile.get_action_from_coordinates(Coordinates { x: 2, y: 4 }, Coordinates { x: 2, y: 1 }),
    );
}

#[test]
fn get_action_returns_some_slides_if_there_is_a_horizontal_slide_action_1_spaces() {
    let tile =
        TileSide::new(vec![(HorizontalSymmetricOffset::Near.offsets(), TileAction::Slide)])
            .unwrap();
    assert_eq!(
        Some(TileAction::Slide),
        tile.get_action_from_coordinates(Coordinates { x: 0, y: 2 }, Coordinates { x: 1, y: 2 }),
    );
}

#[test]
fn get_action_returns_some_slides_if_there_is_a_horizontal_slide_action_2_spaces() {
    let tile =
        TileSide::new(vec![(HorizontalSymmetricOffset::Near.offsets(), TileAction::Slide)])
            .unwrap();
    assert_eq!(
        Some(TileAction::Slide),
        tile.get_action_from_coordinates(Coordinates { x: 0, y: 2 }, Coordinates { x: 2, y: 2 }),
    );
}

#[test]
fn get_action_returns_some_slides_if_there_is_a_horizontal_slide_mult_spaces_action() {
    let tile =
        TileSide::new(vec![(HorizontalSymmetricOffset::Near.offsets(), TileAction::Slide)])
            .unwrap();
    assert_eq!(
        Some(TileAction::Slide),
        tile.get_action_from_coordinates(Coordinates { x: 0, y: 2 }, Coordinates { x: 5, y: 2 }),
    );
}

#[test]
fn get_action_returns_some_slides_if_there_is_a_top_slide_action() {
    let tile = TileSide::new(vec![(VerticalOffset::Top.offsets(), TileAction::Slide)]).unwrap();
    assert_eq!(
        Some(TileAction::Slide),
        tile.get_action_from_coordinates(Coordinates { x: 0, y: 5 }, Coordinates { x: 0, y: 0 }),
    );
}

#[test]
fn get_action_returns_some_slides_if_there_is_a_top_slide_2_spaces_action() {
    let tile = TileSide::new(vec![(VerticalOffset::Top.offsets(), TileAction::Slide)]).unwrap();
    assert_eq!(
        Some(TileAction::Slide),
        tile.get_action_from_coordinates(Coordinates { x: 0, y: 5 }, Coordinates { x: 0, y: 3 }),
    );
}

#[test]
fn get_action_returns_some_slides_if_there_is_a_bottom_slide_action() {
    let tile = TileSide::new(vec![(VerticalOffset::Bottom.offsets(), TileAction::Slide)]).unwrap();
    assert_eq!(
        Some(TileAction::Slide),
        tile.get_action_from_coordinates(Coordinates { x: 0, y: 0 }, Coordinates { x: 0, y: 5 }),
    );
}

#[test]
fn get_action_returns_some_slides_if_there_is_a_bottom_slide_2_spaces_action() {
    let tile = TileSide::new(vec![(VerticalOffset::Bottom.offsets(), TileAction::Slide)]).unwrap();
    assert_eq!(
        Some(TileAction::Slide),
        tile.get_action_from_coordinates(Coordinates { x: 0, y: 3 }, Coordinates { x: 0, y: 5 }),
    );
}

#[test]
fn get_action_returns_some_slides_if_there_is_a_top_diagonal_slide() {
    let tile = TileSide::new(vec![(
        (HorizontalSymmetricOffset::Near, VerticalOffset::Top).offsets(),
        TileAction::Slide,
    )])
    .unwrap();
    for dst in vec![
        Coordinates { x: 1, y: 3 },
        Coordinates { x: 0, y: 2 },
        Coordinates { x: 3, y: 3 },
        Coordinates { x: 4, y: 2 },
        Coordinates { x: 5, y: 1 },
    ] {
        assert_eq!(
            Some(TileAction::Slide),
            tile.get_action_from_coordinates(Coordinates { x: 2, y: 4 }, dst),
        );
    }
}

#[test]
fn get_action_returns_some_slides_if_there_is_a_bottom_diagonal_slide() {
    let tile = TileSide::new(vec![(
        (HorizontalSymmetricOffset::Near, VerticalOffset::Bottom).offsets(),
        TileAction::Slide,
    )])
    .unwrap();
    for dst in vec![
        Coordinates { x: 4, y: 1 },
        Coordinates { x: 5, y: 2 },
        Coordinates { x: 2, y: 1 },
        Coordinates { x: 1, y: 2 },
        Coordinates { x: 0, y: 3 },
    ] {
        assert_eq!(
            Some(TileAction::Slide),
            tile.get_action_from_coordinates(Coordinates { x: 3, y: 0 }, dst),
        );
    }
}

#[test]
fn get_legal_moves_moves_only() {
    let mut board = GameBoard::empty();
    board.place(
        Coordinates { x: 0, y: 0 },
        units::place_tile(Owner::TopPlayer, units::duke()),
    );

    let c = Coordinates { x: 2, y: 4 };
    board.place(c, units::place_tile(Owner::TopPlayer, units::footman()));
    assert_same_set(
        vec![
            (Coordinates { x: 3, y: 4 }, TileAction::Move),
            (Coordinates { x: 2, y: 5 }, TileAction::Move),
            (Coordinates { x: 1, y: 4 }, TileAction::Move),
            (Coordinates { x: 2, y: 3 }, TileAction::Move),
        ],
        board.get_legal_moves(c),
    );
}

#[test]
fn get_legal_moves_and_jumps() {
    let mut board = GameBoard::empty();
    let c = Coordinates { x: 1, y: 4 };
    board.place(
        Coordinates { x: 5, y: 5 },
        units::place_tile(Owner::TopPlayer, units::duke()),
    );
    board.place(c, units::place_tile(Owner::TopPlayer, units::champion()));
    assert_same_set(
        vec![
            (Coordinates { x: 1, y: 2 }, TileAction::Jump),
            (Coordinates { x: 1, y: 3 }, TileAction::Move),
            (Coordinates { x: 1, y: 5 }, TileAction::Move),
            (Coordinates { x: 0, y: 4 }, TileAction::Move),
            (Coordinates { x: 2, y: 4 }, TileAction::Move),
            (Coordinates { x: 3, y: 4 }, TileAction::Jump),
        ],
        board.get_legal_moves(c),
    );
}

#[test]
fn get_legal_moves_horizontal_slides() {
    let mut board = GameBoard::empty();
    let c = Coordinates { x: 2, y: 4 };
    board.place(c, units::place_tile(Owner::TopPlayer, units::duke()));
    assert_same_set(
        vec![
            (Coordinates { x: 0, y: 4 }, TileAction::Slide),
            (Coordinates { x: 1, y: 4 }, TileAction::Slide),
            (Coordinates { x: 3, y: 4 }, TileAction::Slide),
            (Coordinates { x: 4, y: 4 }, TileAction::Slide),
            (Coordinates { x: 5, y: 4 }, TileAction::Slide),
        ],
        board.get_legal_moves(c),
    );
}

#[test]
fn get_legal_moves_vertical_slides() {
    let mut board = GameBoard::empty();
    let c = Coordinates { x: 2, y: 4 };
    board.place(c, units::place_tile_flipped(Owner::TopPlayer, units::duke()));
    assert_same_set(
        vec![
            (Coordinates { x: 2, y: 0 }, TileAction::Slide),
            (Coordinates { x: 2, y: 1 }, TileAction::Slide),
            (Coordinates { x: 2, y: 2 }, TileAction::Slide),
            (Coordinates { x: 2, y: 3 }, TileAction::Slide),
            (Coordinates { x: 2, y: 5 }, TileAction::Slide),
        ],
        board.get_legal_moves(c),
    );
}

#[test]
fn can_move_returns_true_for_diagonal_sliding() {
    let mut board = GameBoard::empty();
    let c = Coordinates { x: 2, y: 4 };
    board.place(c, units::place_tile(Owner::TopPlayer, units::priest()));
    assert!(board.can_move(c, Coordinates { x: 4, y: 2 }));
}

#[test]
fn can_move_returns_true_for_capture() {
    let mut board = GameBoard::empty();
    let src = Coordinates { x: 2, y: 4 };
    let dst = Coordinates { x: 2, y: 5 };
    board.place(src, units::place_tile(Owner::TopPlayer, units::footman()));
    board.place(dst, units::place_tile(Owner::BottomPlayer, units::footman()));
    assert!(board.can_move(src, dst));
}

#[test]
fn can_move_returns_false_for_occupied_with_same() {
    let mut board = GameBoard::empty();
    let src = Coordinates { x: 2, y: 4 };
    let dst = Coordinates { x: 2, y: 5 };
    board.place(src, units::place_tile(Owner::TopPlayer, units::footman()));
    board.place(dst, units::place_tile(Owner::TopPlayer, units::footman()));
    assert!(!board.can_move(src, dst));
}

#[test]
fn can_move_returns_false_for_movement_out_of_scope() {
    let mut board = GameBoard::empty();
    let c = Coordinates { x: 2, y: 2 };
    board.place(c, units::place_tile(Owner::TopPlayer, units::footman()));
    assert!(!board.can_move(c, Coordinates { x: 5, y: 5 }));
}

#[test]
fn can_move_returns_false_for_empty_strike() {
    let mut board = GameBoard::empty();
    let c = Coordinates { x: 0, y: 0 };
    let tile = units::place_tile_flipped(Owner::TopPlayer, units::pikeman());
    board.place(c, tile);
    assert!(!board.can_move(c, Coordinates { x: 1, y: 2 }));
}

#[test]
fn get_legal_moves_diagonal_slides() {
    let mut board = GameBoard::empty();
    board.place(
        Coordinates { x: 0, y: 0 },
        units::place_tile(Owner::TopPlayer, units::duke()),
    );

    let c = Coordinates { x: 2, y: 4 };
    board.place(c, units::place_tile(Owner::TopPlayer, units::priest()));
    assert_same_set(
        vec![
            (Coordinates { x: 1, y: 3 }, TileAction::Slide),
            (Coordinates { x: 0, y: 2 }, TileAction::Slide),
            (Coordinates { x: 3, y: 5 }, TileAction::Slide),
            (Coordinates { x: 1, y: 5 }, TileAction::Slide),
            (Coordinates { x: 3, y: 3 }, TileAction::Slide),
            (Coordinates { x: 4, y: 2 }, TileAction::Slide),
            (Coordinates { x: 5, y: 1 }, TileAction::Slide),
        ],
        board.get_legal_moves(c),
    );
}

#[test]
fn is_guard_takes_strikes_into_account() {
    let mut board = GameBoard::empty();
    board.place(
        Coordinates { x: 0, y: 0 },
        units::place_tile(Owner::TopPlayer, units::duke()),
    );
    let coordinates = Coordinates { x: 1, y: 2 };
    board.place(
        coordinates,
        units::place_tile_flipped(Owner::BottomPlayer, units::pikeman()),
    );
    assert!(board.is_guard(Owner::TopPlayer));
}

#[test]
fn is_valid_placement_returns_false_if_in_guard() {
    let mut board = GameBoard::empty();
    let c = Coordinates { x: 0, y: 0 };
    board.place(c, units::place_tile(Owner::TopPlayer, units::duke()));
    let c2 = Coordinates { x: 0, y: 2 };
    board.place(c2, units::place_tile_flipped(Owner::BottomPlayer, units::footman()));
    assert!(!board.is_valid_placement(Owner::TopPlayer, DukeOffset::Right));
}

#[test]
fn get_legal_moves_can_block_guard() {
    let mut board = GameBoard::empty();
    board.place(
        Coordinates { x: 5, y: 5 },
        units::place_tile(Owner::TopPlayer, units::duke()),
    );
    let footman = units::place_tile_flipped(Owner::TopPlayer, units::footman());
    let footman_coordinates = Coordinates { x: 4, y: 5 };
    board.place(footman_coordinates, footman);
    let op_duke = units::place_tile_flipped(Owner::BottomPlayer, units::duke());
    board.place(Coordinates { x: 5, y: 0 }, op_duke);

    // The top player can still play a footman move.
    assert_eq!(
        board.get_legal_moves(footman_coordinates),
        vec![(Coordinates { x: 5, y: 4 }, TileAction::Move)],
    )
}

#[test]
fn get_legal_moves_does_not_allow_placing_duke_in_strike() {
    let mut board = GameBoard::empty();
    let duke_coordinates = Coordinates { x: 0, y: 0 };
    board.place(
        duke_coordinates,
        units::place_tile(Owner::TopPlayer, units::duke()),
    );
    let pikeman_coordinates = Coordinates { x: 2, y: 2 };
    board.place(
        pikeman_coordinates,
        units::place_tile_flipped(Owner::BottomPlayer, units::pikeman()),
    );
    board.place(
        Coordinates { x: 1, y: 0 },
        units::place_tile(Owner::BottomPlayer, units::footman()),
    );
    assert!(board.get_legal_moves(duke_coordinates).is_empty());
}

#[test]
fn make_a_move() {
    let mut board = GameBoard::empty();
    let c = Coordinates { x: 2, y: 4 };
    board.place(c, units::place_tile(Owner::TopPlayer, units::footman()));
    let moves = board.get_legal_moves_ignoring_guard(c);
    let c2 = Coordinates { x: 1, y: 4 };
    assert!(moves.contains(&(c2, TileAction::Move)));
}

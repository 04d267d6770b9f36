use duke_engine::board::Board;
use duke_engine::coordinates::Coordinates;
use duke_engine::geometry::Rectangle;
use duke_engine::offset::{HorizontalOffset, Offsets, VerticalOffset};

#[test]
fn linear_path_to_horizontal_positive() {
    assert_eq!(
        vec![Coordinates { x: 1, y: 3 }, Coordinates { x: 2, y: 3 }],
        Coordinates { x: 0, y: 3 }.linear_path_to(Coordinates { x: 3, y: 3 })
    )
}

#[test]
fn linear_path_to_horizontal_negative() {
    assert_eq!(
        vec![Coordinates { x: 2, y: 3 }, Coordinates { x: 1, y: 3 }],
        Coordinates { x: 3, y: 3 }.linear_path_to(Coordinates { x: 0, y: 3 })
    )
}

#[test]
fn linear_path_to_vertical_positive() {
    assert_eq!(
        vec![Coordinates { x: 3, y: 1 }, Coordinates { x: 3, y: 2 }],
        Coordinates { x: 3, y: 0 }.linear_path_to(Coordinates { x: 3, y: 3 })
    )
}

#[test]
fn linear_path_to_vertical_negative() {
    assert_eq!(
        vec![Coordinates { x: 3, y: 2 }, Coordinates { x: 3, y: 1 }],
        Coordinates { x: 3, y: 3 }.linear_path_to(Coordinates { x: 3, y: 0 })
    )
}

#[test]
fn linear_path_to_main_diagonal_positive_x() {
    assert_eq!(
        vec![
            Coordinates { x: 4, y: 3 },
            Coordinates { x: 5, y: 4 },
            Coordinates { x: 6, y: 5 },
        ],
        Coordinates { x: 3, y: 2 }.linear_path_to(Coordinates { x: 7, y: 6 })
    )
}

#[test]
fn linear_path_to_main_diagonal_negative_x() {
    assert_eq!(
        vec![
            Coordinates { x: 6, y: 5 },
            Coordinates { x: 5, y: 4 },
            Coordinates { x: 4, y: 3 },
        ],
        Coordinates { x: 7, y: 6 }.linear_path_to(Coordinates { x: 3, y: 2 })
    )
}

#[test]
fn linear_path_to_reverse_diagonal_positive_x() {
    assert_eq!(
        vec![
            Coordinates { x: 4, y: 5 },
            Coordinates { x: 5, y: 4 },
            Coordinates { x: 6, y: 3 },
        ],
        Coordinates { x: 3, y: 6 }.linear_path_to(Coordinates { x: 7, y: 2 })
    )
}

#[test]
fn linear_path_to_reverse_diagonal_negative_x() {
    assert_eq!(
        vec![
            Coordinates { x: 6, y: 3 },
            Coordinates { x: 5, y: 4 },
            Coordinates { x: 4, y: 5 },
        ],
        Coordinates { x: 7, y: 2 }.linear_path_to(Coordinates { x: 3, y: 6 })
    )
}

#[test]
fn coordinate_to_offsets() {
    let c = Coordinates { x: 0, y: 2 };
    assert_eq!(
        Offsets::new(HorizontalOffset::FarLeft, VerticalOffset::Center),
        Offsets::from_coordinates(c),
    )
}

#[test]
fn offsets_to_coordinates() {
    let os = Offsets::new(HorizontalOffset::FarLeft, VerticalOffset::Center);
    assert_eq!(Coordinates { x: 0, y: 2 }, os.to_coordinates())
}

fn make_board() -> Board<i32> {
    Board::rect(&Rectangle::with_width_and_height(3, 2))
}

#[test]
fn get_indexing() {
    let mut board = make_board();
    board.put(Coordinates { x: 1, y: 0 }, 1);
    assert_eq!(Some(1), board.get(Coordinates { x: 1, y: 0 }).cloned());
    assert_eq!(None, board.get(Coordinates { x: 0, y: 1 }));
}

#[test]
fn rows_returns_the_rows_not_columns() {
    let mut board = make_board();
    board.put(Coordinates { x: 0, y: 0 }, 0);
    board.put(Coordinates { x: 1, y: 0 }, 1);
    board.put(Coordinates { x: 2, y: 1 }, 4);
    board.put(Coordinates { x: 1, y: 1 }, 3);
    assert_eq!(
        vec![vec![Some(0), Some(1), None], vec![None, Some(3), Some(4)]],
        board.rows(),
    )
}

#[test]
fn mv_should_move_to_occupied() {
    let mut board = make_board();
    board.put(Coordinates { x: 0, y: 0 }, 0);
    board.put(Coordinates { x: 1, y: 0 }, 1);
    board.put(Coordinates { x: 1, y: 1 }, 3);

    let result = board.mv(Coordinates { x: 1, y: 1 }, Coordinates { x: 0, y: 0 });

    assert_eq!(Some(0), result);
    assert_eq!(Some(3), board.get(Coordinates { x: 0, y: 0 }).cloned());
    assert_eq!(None, board.get(Coordinates { x: 1, y: 1 }));
}

#[test]
fn flip_vertical_should_flip_vertical() {
    let mut board = make_board();
    board.put(Coordinates { x: 0, y: 0 }, 0);
    board.put(Coordinates { x: 1, y: 0 }, 1);
    board.put(Coordinates { x: 1, y: 1 }, 3);
    board.put(Coordinates { x: 2, y: 0 }, 4);

    let mut expected = make_board();
    expected.put(Coordinates { x: 0, y: 1 }, 0);
    expected.put(Coordinates { x: 1, y: 1 }, 1);
    expected.put(Coordinates { x: 1, y: 0 }, 3);
    expected.put(Coordinates { x: 2, y: 1 }, 4);

    assert_eq!(expected.rows(), board.flip_vertical().rows())
}

#[test]
fn put_then_get_returns_the_value_put() {
    let mut board = make_board();
    board.put(Coordinates { x: 2, y: 1 }, 7);
    assert_eq!(Some(7), board.get(Coordinates { x: 2, y: 1 }).cloned());
    board.remove(Coordinates { x: 2, y: 1 });
    assert_eq!(None, board.get(Coordinates { x: 2, y: 1 }));
}

#[test]
fn linear_path_reversed_is_the_opposite_path() {
    let a = Coordinates { x: 1, y: 1 };
    let b = Coordinates { x: 4, y: 4 };
    let mut forward = a.linear_path_to(b);
    forward.reverse();
    assert_eq!(forward, b.linear_path_to(a));
}

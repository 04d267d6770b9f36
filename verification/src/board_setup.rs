//! The standard opening: each player starts with a duke and two footmen on
//! their home row, in one of a few arrangements.

use vstd::prelude::*;

use crate::coordinates::Coordinates;
use crate::game_board::{map_duke_at, map_has_duke, on_board, GameBoard, TileMap};
use crate::tile::{CurrentSide, Owner, PlacedTile};
use crate::tile_side::{side_grid_is, TileAction};
use crate::offset::Offsets;
use crate::units;

verus! {

#[derive(Debug, PartialEq, Eq, Clone, Copy, Structural)]
pub enum FootmenSetup {
    Sides,
    Left,
    Right,
}

#[derive(Debug, PartialEq, Eq, Clone, Copy, Structural)]
pub enum DukeInitialLocation {
    Left,
    Right,
}

/// A side showing the listed grid as seen by `owner`: the bottom player's
/// tiles keep the authored grid, the top player's are mirrored vertically.
pub open spec fn spec_side_for(
    s: crate::tile_side::TileSide,
    owner: Owner,
    cells: Seq<(Offsets, TileAction)>,
) -> bool {
    match owner {
        Owner::BottomPlayer => side_grid_is(s, cells),
        Owner::TopPlayer => forall|c: Coordinates|
            c.x < 5 && c.y < 5 ==> #[trigger] s.spec_at(c) == crate::tile_side::spec_lookup(
                cells,
                crate::tile_side::spec_offset_of(Coordinates { x: c.x, y: (4 - c.y) as u16 }),
            ),
    }
}

/// A freshly placed tile of `owner` whose sides show the two listed grids.
pub open spec fn spec_fresh_unit(
    p: PlacedTile,
    owner: Owner,
    cells_a: Seq<(Offsets, TileAction)>,
    cells_b: Seq<(Offsets, TileAction)>,
    name: Seq<char>,
) -> bool {
    &&& p.wf()
    &&& p.owner == owner
    &&& p.current_side == CurrentSide::Initial
    &&& p.tile.spec_name() == name
    &&& spec_side_for(p.tile.spec_side_a(), owner, cells_a)
    &&& spec_side_for(p.tile.spec_side_b(), owner, cells_b)
}

/// A fresh duke of `owner` stands at `c`.
pub open spec fn spec_duke_placed(m: TileMap, c: Coordinates, owner: Owner) -> bool {
    m.dom().contains(c) && spec_fresh_unit(
        m[c],
        owner,
        units::duke_cells_a(),
        units::duke_cells_b(),
        "Duke"@,
    )
}

/// A fresh footman of `owner` stands at `c`.
pub open spec fn spec_footman_placed(m: TileMap, c: Coordinates, owner: Owner) -> bool {
    m.dom().contains(c) && spec_fresh_unit(
        m[c],
        owner,
        units::footman_cells_a(),
        units::footman_cells_b(),
        "Footman"@,
    )
}

/// The two footman squares for a duke at (`duke_x`, `home_y`).
pub open spec fn spec_footmen_coords(
    duke_x: u16,
    home_y: u16,
    second_y: u16,
    footmen: FootmenSetup,
) -> (Coordinates, Coordinates) {
    match footmen {
        FootmenSetup::Sides => (
            Coordinates { x: (duke_x + 1) as u16, y: home_y },
            Coordinates { x: (duke_x - 1) as u16, y: home_y },
        ),
        FootmenSetup::Left => (
            Coordinates { x: (duke_x + 1) as u16, y: home_y },
            Coordinates { x: duke_x, y: second_y },
        ),
        FootmenSetup::Right => (
            Coordinates { x: (duke_x - 1) as u16, y: home_y },
            Coordinates { x: duke_x, y: second_y },
        ),
    }
}

/// Places one player's duke and two footmen on their side of the board.
fn setup_player(
    board: &mut GameBoard,
    owner: Owner,
    duke_x: u16,
    home_y: u16,
    second_y: u16,
    footmen: FootmenSetup,
)
    requires
        old(board).wf(),
        2 <= duke_x <= 3,
        home_y == 0 || home_y == 5,
        home_y == 0 ==> second_y == 1,
        home_y == 5 ==> second_y == 4,
        forall|c: Coordinates|
            c.y == home_y || c.y == second_y ==> !old(board).spec_tiles_map().dom().contains(c),
    ensures
        final(board).wf(),
        map_has_duke(final(board).spec_tiles_map(), owner),
        spec_duke_placed(
            final(board).spec_tiles_map(),
            Coordinates { x: duke_x, y: home_y },
            owner,
        ),
        spec_footman_placed(
            final(board).spec_tiles_map(),
            spec_footmen_coords(duke_x, home_y, second_y, footmen).0,
            owner,
        ),
        spec_footman_placed(
            final(board).spec_tiles_map(),
            spec_footmen_coords(duke_x, home_y, second_y, footmen).1,
            owner,
        ),
        forall|o2: Owner|
            map_has_duke(old(board).spec_tiles_map(), o2) ==> map_has_duke(
                final(board).spec_tiles_map(),
                o2,
            ),
        forall|c: Coordinates|
            #![trigger final(board).spec_tiles_map().dom().contains(c)]
            c != (Coordinates { x: duke_x, y: home_y }) && c != spec_footmen_coords(
                duke_x,
                home_y,
                second_y,
                footmen,
            ).0 && c != spec_footmen_coords(duke_x, home_y, second_y, footmen).1 ==> final(board).spec_tiles_map().dom().contains(c) == old(board).spec_tiles_map().dom().contains(c)
                && (old(board).spec_tiles_map().dom().contains(c) ==> final(board).spec_tiles_map()[c] == old(board).spec_tiles_map()[c]),
{
    let ghost m0 = board.spec_tiles_map();
    let duke_c = Coordinates { x: duke_x, y: home_y };
    board.place(duke_c, units::place_tile(owner, units::duke()));
    let (f1, f2) = match footmen {
        FootmenSetup::Sides => (
            Coordinates { x: duke_x + 1, y: home_y },
            Coordinates { x: duke_x - 1, y: home_y },
        ),
        FootmenSetup::Left => (
            Coordinates { x: duke_x + 1, y: home_y },
            Coordinates { x: duke_x, y: second_y },
        ),
        FootmenSetup::Right => (
            Coordinates { x: duke_x - 1, y: home_y },
            Coordinates { x: duke_x, y: second_y },
        ),
    };
    board.place(f1, units::place_tile(owner, units::footman()));
    board.place(f2, units::place_tile(owner, units::footman()));
    proof {
        assert(map_duke_at(board.spec_tiles_map(), duke_c, owner));
        assert forall|o2: Owner|
            map_has_duke(m0, o2) implies map_has_duke(board.spec_tiles_map(), o2) by {
            let d = choose|d: Coordinates| map_duke_at(m0, d, o2);
            assert(map_duke_at(m0, d, o2));
            assert(d != duke_c && d != f1 && d != f2);
            assert(map_duke_at(board.spec_tiles_map(), d, o2));
        }
    }
}

/// The opening position the two setup choices describe: each duke on its home
/// row with two footmen, and nothing else on the board.
pub open spec fn spec_opening(
    m: TileMap,
    player_1_setup: (DukeInitialLocation, FootmenSetup),
    player_2_setup: (DukeInitialLocation, FootmenSetup),
) -> bool {
    let duke_1_x: u16 = match player_1_setup.0 {
        DukeInitialLocation::Left => 3,
        DukeInitialLocation::Right => 2,
    };
    let duke_2_x: u16 = match player_2_setup.0 {
        DukeInitialLocation::Left => 2,
        DukeInitialLocation::Right => 3,
    };
    let mirrored = match player_2_setup.1 {
        FootmenSetup::Sides => FootmenSetup::Sides,
        FootmenSetup::Left => FootmenSetup::Right,
        FootmenSetup::Right => FootmenSetup::Left,
    };
    let f1 = spec_footmen_coords(duke_1_x, 0, 1, player_1_setup.1);
    let f2 = spec_footmen_coords(duke_2_x, 5, 4, mirrored);
    &&& spec_duke_placed(m, Coordinates { x: duke_1_x, y: 0 }, Owner::TopPlayer)
    &&& spec_footman_placed(m, f1.0, Owner::TopPlayer)
    &&& spec_footman_placed(m, f1.1, Owner::TopPlayer)
    &&& spec_duke_placed(m, Coordinates { x: duke_2_x, y: 5 }, Owner::BottomPlayer)
    &&& spec_footman_placed(m, f2.0, Owner::BottomPlayer)
    &&& spec_footman_placed(m, f2.1, Owner::BottomPlayer)
    &&& forall|c: Coordinates|
        #![trigger m.dom().contains(c)]
        m.dom().contains(c) ==> (c == Coordinates { x: duke_1_x, y: 0 } || c == f1.0 || c == f1.1
            || c == Coordinates { x: duke_2_x, y: 5 } || c == f2.0 || c == f2.1)
}

/// The standard two-player opening position: each player's duke at the `x`
/// their chosen corner names on their home row, flanked by two footmen, and
/// nothing else on the board.
pub fn setup(
    player_1_setup: (DukeInitialLocation, FootmenSetup),
    player_2_setup: (DukeInitialLocation, FootmenSetup),
) -> (r: GameBoard)
    ensures
        r.wf(),
        map_has_duke(r.spec_tiles_map(), Owner::TopPlayer),
        map_has_duke(r.spec_tiles_map(), Owner::BottomPlayer),
        spec_opening(r.spec_tiles_map(), player_1_setup, player_2_setup),
{
    let mut result = GameBoard::empty();
    let duke_1_x: u16 = match player_1_setup.0 {
        DukeInitialLocation::Left => 3,
        DukeInitialLocation::Right => 2,
    };
    setup_player(&mut result, Owner::TopPlayer, duke_1_x, 0, 1, player_1_setup.1);
    let ghost mid = result.spec_tiles_map();
    let duke_2_x: u16 = match player_2_setup.0 {
        DukeInitialLocation::Left => 2,
        DukeInitialLocation::Right => 3,
    };
    // The bottom player's sideways arrangements mirror the top player's.
    let mirrored = match player_2_setup.1 {
        FootmenSetup::Sides => FootmenSetup::Sides,
        FootmenSetup::Left => FootmenSetup::Right,
        FootmenSetup::Right => FootmenSetup::Left,
    };
    proof {
        assert forall|c: Coordinates|
            c.y == 5 || c.y == 4 implies !result.spec_tiles_map().dom().contains(c) by {
            assert(!Map::<Coordinates, PlacedTile>::empty().dom().contains(c));
            assert(result.spec_tiles_map().dom().contains(c) == Map::<
                Coordinates,
                PlacedTile,
            >::empty().dom().contains(c));
        }
    }
    setup_player(&mut result, Owner::BottomPlayer, duke_2_x, 5, 4, mirrored);
    proof {
        let m = result.spec_tiles_map();
        let d1 = Coordinates { x: duke_1_x, y: 0 };
        let f1 = spec_footmen_coords(duke_1_x, 0, 1, player_1_setup.1);
        let d2 = Coordinates { x: duke_2_x, y: 5 };
        let f2 = spec_footmen_coords(duke_2_x, 5, 4, mirrored);
        assert(d1.y <= 1 && f1.0.y <= 1 && f1.1.y <= 1);
        assert(f2.0.y == 5 || f2.0.y == 4);
        assert(f2.1.y == 5 || f2.1.y == 4);
        assert(d1 != d2 && d1 != f2.0 && d1 != f2.1);
        assert(f1.0 != d2 && f1.0 != f2.0 && f1.0 != f2.1);
        assert(f1.1 != d2 && f1.1 != f2.0 && f1.1 != f2.1);
        assert(result.spec_tiles_map().dom().contains(d1) == mid.dom().contains(d1));
        assert(mid.dom().contains(d1) ==> result.spec_tiles_map()[d1] == mid[d1]);
        assert(result.spec_tiles_map().dom().contains(f1.0) == mid.dom().contains(f1.0));
        assert(mid.dom().contains(f1.0) ==> result.spec_tiles_map()[f1.0] == mid[f1.0]);
        assert(result.spec_tiles_map().dom().contains(f1.1) == mid.dom().contains(f1.1));
        assert(mid.dom().contains(f1.1) ==> result.spec_tiles_map()[f1.1] == mid[f1.1]);
        assert(spec_duke_placed(m, d1, Owner::TopPlayer));
        assert(spec_footman_placed(m, f1.0, Owner::TopPlayer));
        assert(spec_footman_placed(m, f1.1, Owner::TopPlayer));
        assert forall|c: Coordinates|
            #[trigger] m.dom().contains(c) implies (c == d1 || c == f1.0 || c == f1.1 || c == d2
            || c == f2.0 || c == f2.1) by {
            if c != d2 && c != f2.0 && c != f2.1 {
                assert(m.dom().contains(c) == mid.dom().contains(c));
                if c != d1 && c != f1.0 && c != f1.1 {
                    assert(mid.dom().contains(c) == Map::<
                        Coordinates,
                        PlacedTile,
                    >::empty().dom().contains(c));
                    assert(!Map::<Coordinates, PlacedTile>::empty().dom().contains(c));
                }
            }
        }
    }
    result
}

} // verus!

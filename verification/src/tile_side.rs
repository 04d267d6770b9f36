//! One face of a tile: a validated 5x5 grid of actions.
//!
//! A side is authored as offset groups that expand to concrete grid cells
//! (later entries override earlier ones at the same cell). A `Unit` marker is
//! added at the grid center when none is given. Construction validates the
//! shape rules: exactly one `Unit`, horizontally centered; slides sit next to
//! the center with nothing directly beyond them; moves lie on a line from the
//! unit; jumps (and jump-slides) are not adjacent to the unit.

use vstd::prelude::*;

use crate::board::{lemma_cells_equal_from_pointwise, Board};
use crate::coordinates::{spec_dist, Coordinates, Distance};
use crate::geometry::Rectangular;
use crate::offset::{HorizontalOffset, Indexable, Offsets, VerticalOffset};

verus! {

#[derive(Debug, PartialEq, Eq, Clone, Copy, Hash, Structural)]
pub enum TileAction {
    Unit,
    Move,
    Jump,
    Slide,
    Command,
    JumpSlide,
    Strike,
}

#[derive(Debug, Clone, PartialEq, Eq)]
pub struct TileSide {
    board: Board<TileAction>,
}

/// The horizontal offset whose grid index is `i`.
pub open spec fn spec_h_of_index(i: int) -> HorizontalOffset {
    if i == 0 {
        HorizontalOffset::FarLeft
    } else if i == 1 {
        HorizontalOffset::Left
    } else if i == 2 {
        HorizontalOffset::Center
    } else if i == 3 {
        HorizontalOffset::Right
    } else {
        HorizontalOffset::FarRight
    }
}

/// The vertical offset whose grid index is `i`.
pub open spec fn spec_v_of_index(i: int) -> VerticalOffset {
    if i == 0 {
        VerticalOffset::FarTop
    } else if i == 1 {
        VerticalOffset::Top
    } else if i == 2 {
        VerticalOffset::Center
    } else if i == 3 {
        VerticalOffset::Bottom
    } else {
        VerticalOffset::FarBottom
    }
}

/// The offset naming a grid coordinate.
pub open spec fn spec_offset_of(c: Coordinates) -> Offsets {
    Offsets { x: spec_h_of_index(c.x as int), y: spec_v_of_index(c.y as int) }
}

/// The authored entries, flattened to single cells in authoring order.
pub open spec fn spec_pairs(entries: Seq<(Vec<Offsets>, TileAction)>) -> Seq<
    (Offsets, TileAction),
>
    decreases entries.len(),
{
    if entries.len() == 0 {
        Seq::empty()
    } else {
        spec_pairs(entries.drop_last()) + Seq::new(
            entries.last().0@.len(),
            |i: int| (entries.last().0@[i], entries.last().1),
        )
    }
}

/// The last action authored at `o`, if any.
pub open spec fn spec_lookup(pairs: Seq<(Offsets, TileAction)>, o: Offsets) -> Option<TileAction>
    decreases pairs.len(),
{
    if pairs.len() == 0 {
        None
    } else if pairs.last().0 == o {
        Some(pairs.last().1)
    } else {
        spec_lookup(pairs.drop_last(), o)
    }
}

/// Whether any grid cell of the merged entries holds the unit marker.
pub open spec fn spec_merged_has_unit(entries: Seq<(Vec<Offsets>, TileAction)>) -> bool {
    exists|c: Coordinates|
        c.x < 5 && c.y < 5 && spec_lookup(spec_pairs(entries), spec_offset_of(c)) == Some(
            TileAction::Unit,
        )
}

/// The cell contents a set of entries describes: the merged entries, with a
/// unit marker at the grid center when none was authored.
pub open spec fn spec_authored_at(
    entries: Seq<(Vec<Offsets>, TileAction)>,
    c: Coordinates,
) -> Option<TileAction> {
    if !spec_merged_has_unit(entries) && c == (Coordinates { x: 2, y: 2 }) {
        Some(TileAction::Unit)
    } else {
        spec_lookup(spec_pairs(entries), spec_offset_of(c))
    }
}

impl View for TileSide {
    type V = Seq<Option<TileAction>>;

    closed spec fn view(&self) -> Seq<Option<TileAction>> {
        self.board.spec_cells()
    }
}

impl TileSide {
    pub closed spec fn spec_board(self) -> Board<TileAction> {
        self.board
    }

    /// The action grid is 5x5.
    pub open spec fn dims5(self) -> bool {
        &&& self.spec_board().inv()
        &&& self.spec_board().spec_width() == 5
        &&& self.spec_board().spec_height() == 5
    }

    /// The action (if any) at a grid coordinate.
    pub open spec fn spec_at(self, c: Coordinates) -> Option<TileAction> {
        self.spec_board().spec_at(c)
    }

    pub open spec fn spec_unit_at(self, c: Coordinates) -> bool {
        c.x < 5 && c.y < 5 && self.spec_at(c) == Some(TileAction::Unit)
    }

    /// Exactly one unit marker, in the center column.
    pub open spec fn unit_ok(self) -> bool {
        &&& exists|c: Coordinates| self.spec_unit_at(c)
        &&& forall|c1: Coordinates, c2: Coordinates|
            self.spec_unit_at(c1) && self.spec_unit_at(c2) ==> c1 == c2
        &&& forall|c: Coordinates| self.spec_unit_at(c) ==> c.x == 2
    }

    /// The grid row of the unit marker.
    pub open spec fn spec_unit_row(self) -> u16 {
        choose|y: u16| self.spec_unit_at(Coordinates { x: 2, y })
    }

    /// Slides sit next to the grid center and to the unit, with no action in
    /// the cell directly beyond them.
    #[verifier::opaque]
    pub open spec fn slide_ok(self) -> bool {
        forall|c: Coordinates|
            c.x < 5 && c.y < 5 && #[trigger] self.spec_at(c) == Some(TileAction::Slide) ==> {
                &&& spec_dist(c.x as int, 2) <= 1
                &&& spec_dist(c.y as int, 2) <= 1
                &&& c != (Coordinates { x: 2, y: 2 })
                &&& spec_dist(c.y as int, self.spec_unit_row() as int) <= 1
                &&& self.spec_at(
                    Coordinates { x: (2 * c.x - 2) as u16, y: (2 * c.y - 2) as u16 },
                ) is None
            }
    }

    /// Moves lie on a line from the unit marker.
    #[verifier::opaque]
    pub open spec fn move_ok(self) -> bool {
        forall|c: Coordinates|
            c.x < 5 && c.y < 5 && #[trigger] self.spec_at(c) == Some(TileAction::Move) ==> {
                ||| c.x == 2
                ||| c.y == self.spec_unit_row()
                ||| c.y == 2
                ||| spec_dist(c.x as int, 2) == spec_dist(c.y as int, self.spec_unit_row() as int)
            }
    }

    /// Jumps and jump-slides are not adjacent to the unit marker.
    #[verifier::opaque]
    pub open spec fn jump_ok(self) -> bool {
        forall|c: Coordinates|
            c.x < 5 && c.y < 5 && (#[trigger] self.spec_at(c) == Some(TileAction::Jump)
                || self.spec_at(c) == Some(TileAction::JumpSlide)) ==> !(spec_dist(c.x as int, 2)
                <= 1 && spec_dist(c.y as int, self.spec_unit_row() as int) <= 1)
    }

    /// All shape rules of a well-formed tile side.
    pub open spec fn valid_shape(self) -> bool {
        &&& self.dims5()
        &&& self.unit_ok()
        &&& self.slide_ok()
        &&& self.move_ok()
        &&& self.jump_ok()
    }

    pub fn get_board(&self) -> (r: &Board<TileAction>)
        ensures
            *r == self.spec_board(),
    {
        &self.board
    }
}

/// The grid coordinate an offset names.
pub open spec fn spec_coords_of(o: Offsets) -> Coordinates {
    Coordinates { x: o.x.spec_index(), y: o.y.spec_index() }
}

/// Naming a grid coordinate's offset and taking its coordinate again is the
/// identity.
pub proof fn lemma_offset_roundtrip(c: Coordinates)
    requires
        c.x < 5,
        c.y < 5,
    ensures
        spec_coords_of(spec_offset_of(c)) == c,
{
}

/// A side whose cells all match `spec_authored_at` of some entries.
pub open spec fn spec_matches_authored(
    s: TileSide,
    entries: Seq<(Vec<Offsets>, TileAction)>,
) -> bool {
    &&& s.dims5()
    &&& forall|c: Coordinates|
        c.x < 5 && c.y < 5 ==> #[trigger] s.spec_at(c) == spec_authored_at(entries, c)
}

/// The direction rule applying to a single cell of the grid, given the unit
/// row (trivially true for cells without a directional action).
pub open spec fn spec_cell_rule(s: TileSide, c: Coordinates) -> bool {
    match s.spec_at(c) {
        Some(TileAction::Slide) => {
            &&& spec_dist(c.x as int, 2) <= 1
            &&& spec_dist(c.y as int, 2) <= 1
            &&& c != (Coordinates { x: 2, y: 2 })
            &&& spec_dist(c.y as int, s.spec_unit_row() as int) <= 1
            &&& s.spec_at(Coordinates { x: (2 * c.x - 2) as u16, y: (2 * c.y - 2) as u16 }) is None
        },
        Some(TileAction::Move) => {
            ||| c.x == 2
            ||| c.y == s.spec_unit_row()
            ||| c.y == 2
            ||| spec_dist(c.x as int, 2) == spec_dist(c.y as int, s.spec_unit_row() as int)
        },
        Some(TileAction::Jump) => !(spec_dist(c.x as int, 2) <= 1 && spec_dist(
            c.y as int,
            s.spec_unit_row() as int,
        ) <= 1),
        Some(TileAction::JumpSlide) => !(spec_dist(c.x as int, 2) <= 1 && spec_dist(
            c.y as int,
            s.spec_unit_row() as int,
        ) <= 1),
        _ => true,
    }
}

/// The directional rules hold exactly when every cell obeys its rule.
pub proof fn lemma_rules_are_cellwise(s: TileSide)
    ensures
        (s.slide_ok() && s.move_ok() && s.jump_ok()) <==> (forall|c: Coordinates|
            c.x < 5 && c.y < 5 ==> #[trigger] spec_cell_rule(s, c)),
{
    reveal(TileSide::slide_ok);
    reveal(TileSide::move_ok);
    reveal(TileSide::jump_ok);
    if s.slide_ok() && s.move_ok() && s.jump_ok() {
        assert forall|c: Coordinates| c.x < 5 && c.y < 5 implies #[trigger] spec_cell_rule(
            s,
            c,
        ) by {
            assert(s.spec_at(c) == Some(TileAction::Slide) ==> spec_cell_rule(s, c));
            assert(s.spec_at(c) == Some(TileAction::Move) ==> spec_cell_rule(s, c));
            assert(s.spec_at(c) == Some(TileAction::Jump) ==> spec_cell_rule(s, c));
            assert(s.spec_at(c) == Some(TileAction::JumpSlide) ==> spec_cell_rule(s, c));
        }
    }
    if forall|c: Coordinates| c.x < 5 && c.y < 5 ==> #[trigger] spec_cell_rule(s, c) {
        assert forall|c: Coordinates|
            c.x < 5 && c.y < 5 && #[trigger] s.spec_at(c) == Some(TileAction::Slide) implies {
            &&& spec_dist(c.x as int, 2) <= 1
            &&& spec_dist(c.y as int, 2) <= 1
            &&& c != (Coordinates { x: 2, y: 2 })
            &&& spec_dist(c.y as int, s.spec_unit_row() as int) <= 1
            &&& s.spec_at(Coordinates { x: (2 * c.x - 2) as u16, y: (2 * c.y - 2) as u16 }) is None
        } by {
            assert(spec_cell_rule(s, c));
        }
        assert forall|c: Coordinates|
            c.x < 5 && c.y < 5 && #[trigger] s.spec_at(c) == Some(TileAction::Move) implies {
            ||| c.x == 2
            ||| c.y == s.spec_unit_row()
            ||| c.y == 2
            ||| spec_dist(c.x as int, 2) == spec_dist(c.y as int, s.spec_unit_row() as int)
        } by {
            assert(spec_cell_rule(s, c));
        }
        assert forall|c: Coordinates|
            c.x < 5 && c.y < 5 && (#[trigger] s.spec_at(c) == Some(TileAction::Jump) || s.spec_at(
                c,
            ) == Some(TileAction::JumpSlide)) implies !(spec_dist(c.x as int, 2) <= 1 && spec_dist(
            c.y as int,
            s.spec_unit_row() as int,
        ) <= 1) by {
            assert(spec_cell_rule(s, c));
        }
    }
}

/// The unit row is the row of any centered unit cell.
pub proof fn lemma_unit_row_is(s: TileSide, y: u16)
    requires
        s.unit_ok(),
        s.spec_unit_at(Coordinates { x: 2, y }),
    ensures
        s.spec_unit_row() == y,
{
    let picked = s.spec_unit_row();
    assert(s.spec_unit_at(Coordinates { x: 2, y: picked }));
}

/// The unit cell of a side with a valid unit is at the center column of its
/// unit row.
pub proof fn lemma_unit_row_good(s: TileSide)
    requires
        s.unit_ok(),
    ensures
        s.spec_unit_row() < 5,
        s.spec_unit_at(Coordinates { x: 2, y: s.spec_unit_row() }),
{
    let c = choose|c: Coordinates| s.spec_unit_at(c);
    assert(s.spec_unit_at(c));
    assert(c.x == 2);
    lemma_unit_row_is(s, c.y);
}

impl TileSide {
    /// The vertical offset of the unit marker within the center column.
    pub fn center_offset(&self) -> (r: VerticalOffset)
        requires
            self.dims5(),
            self.unit_ok(),
        ensures
            r.spec_index() == self.spec_unit_row(),
            self.spec_unit_row() < 5,
    {
        proof {
            lemma_unit_row_good(*self);
        }
        let mut y: u16 = 0;
        while y < 5
            invariant
                self.dims5(),
                self.unit_ok(),
                y <= 5,
                self.spec_unit_row() < 5,
                self.spec_unit_at(Coordinates { x: 2, y: self.spec_unit_row() }),
                forall|j: u16| j < y ==> !self.spec_unit_at(Coordinates { x: 2, y: j }),
            decreases 5 - y,
        {
            let c = Coordinates { x: 2, y };
            let is_unit: bool = match self.board.get(c) {
                Some(a) => *a == TileAction::Unit,
                None => false,
            };
            if is_unit {
                proof {
                    lemma_unit_row_is(*self, y);
                }
                return VerticalOffset::from_index(y);
            }
            y = y + 1;
        }
        proof {
            assert(!self.spec_unit_at(Coordinates { x: 2, y: self.spec_unit_row() }));
            assert(false);
        }
        unreached()
    }

    /// Whether this side's grid obeys all shape rules.
    fn check_shape(&self) -> (r: bool)
        requires
            self.dims5(),
        ensures
            r == self.valid_shape(),
    {
        // First pass: find the unit marker and reject duplicates or one away
        // from the center column.
        let mut unit: Option<Coordinates> = None;
        let mut dup = false;
        let mut x: u16 = 0;
        while x < 5
            invariant
                self.dims5(),
                x <= 5,
                unit is None ==> forall|c: Coordinates|
                    c.x < x && c.y < 5 ==> !self.spec_unit_at(c),
                unit matches Some(u) ==> self.spec_unit_at(u) && u.x < x,
                !dup ==> (unit matches Some(u) ==> forall|c: Coordinates|
                    c.x < x && c.y < 5 && self.spec_unit_at(c) ==> c == u),
                dup ==> exists|c1: Coordinates, c2: Coordinates|
                    self.spec_unit_at(c1) && self.spec_unit_at(c2) && c1 != c2,
            decreases 5 - x,
        {
            let mut y: u16 = 0;
            while y < 5
                invariant
                    self.dims5(),
                    x < 5,
                    y <= 5,
                    unit is None ==> forall|c: Coordinates|
                        (c.x < x || (c.x == x && c.y < y)) && c.x < 5 && c.y < 5
                            ==> !self.spec_unit_at(c),
                    unit matches Some(u) ==> self.spec_unit_at(u) && (u.x < x || (u.x == x && u.y
                        < y)),
                    !dup ==> (unit matches Some(u) ==> forall|c: Coordinates|
                        (c.x < x || (c.x == x && c.y < y)) && c.x < 5 && c.y < 5
                            && self.spec_unit_at(c) ==> c == u),
                    dup ==> exists|c1: Coordinates, c2: Coordinates|
                        self.spec_unit_at(c1) && self.spec_unit_at(c2) && c1 != c2,
                decreases 5 - y,
            {
                let c = Coordinates { x, y };
                let is_unit: bool = match self.board.get(c) {
                    Some(a) => *a == TileAction::Unit,
                    None => false,
                };
                if is_unit {
                    match unit {
                        Some(u) => {
                            proof {
                                assert(self.spec_unit_at(u) && self.spec_unit_at(c) && u != c);
                            }
                            dup = true;
                        },
                        None => {
                            unit = Some(c);
                        },
                    }
                }
                y = y + 1;
            }
            x = x + 1;
        }
        let u = match unit {
            Some(u) => u,
            None => {
                proof {
                    assert(!self.unit_ok());
                }
                return false;
            },
        };
        if dup {
            proof {
                assert(!self.unit_ok());
            }
            return false;
        }
        if u.x != 2 {
            proof {
                assert(!self.unit_ok());
            }
            return false;
        }
        proof {
            assert(self.unit_ok());
            lemma_unit_row_is(*self, u.y);
        }
        let uy: u16 = u.y;

        // Second pass: check every cell's direction rule.
        let mut ok = true;
        let mut x: u16 = 0;
        while x < 5
            invariant
                self.dims5(),
                self.unit_ok(),
                uy == self.spec_unit_row(),
                uy < 5,
                x <= 5,
                ok <==> forall|c: Coordinates|
                    c.x < x && c.y < 5 ==> #[trigger] spec_cell_rule(*self, c),
            decreases 5 - x,
        {
            let mut y: u16 = 0;
            while y < 5
                invariant
                    self.dims5(),
                    self.unit_ok(),
                    uy == self.spec_unit_row(),
                    uy < 5,
                    x < 5,
                    y <= 5,
                    ok <==> forall|c: Coordinates|
                        (c.x < x || (c.x == x && c.y < y)) && c.x < 5 && c.y < 5
                            ==> #[trigger] spec_cell_rule(*self, c),
                decreases 5 - y,
            {
                let c = Coordinates { x, y };
                let cell_ok: bool = match self.board.get(c) {
                    Some(a) => match *a {
                        TileAction::Slide => {
                            if x.distance_to(2) <= 1 && y.distance_to(2) <= 1 && !(x == 2 && y
                                == 2) && y.distance_to(uy) <= 1 {
                                let beyond = Coordinates { x: 2 * x - 2, y: 2 * y - 2 };
                                self.board.is_empty(beyond)
                            } else {
                                false
                            }
                        },
                        TileAction::Move => x == 2 || y == uy || y == 2 || x.distance_to(2)
                            == y.distance_to(uy),
                        TileAction::Jump => !(x.distance_to(2) <= 1 && y.distance_to(uy) <= 1),
                        TileAction::JumpSlide => !(x.distance_to(2) <= 1 && y.distance_to(uy)
                            <= 1),
                        _ => true,
                    },
                    None => true,
                };
                proof {
                    assert(cell_ok == spec_cell_rule(*self, c));
                }
                ok = ok && cell_ok;
                y = y + 1;
            }
            x = x + 1;
        }
        proof {
            lemma_rules_are_cellwise(*self);
            reveal(TileSide::slide_ok);
            reveal(TileSide::move_ok);
            reveal(TileSide::jump_ok);
        }
        ok
    }
}

/// The near offset naming the direction from `src` toward `dst`, for linear
/// pairs.
pub open spec fn spec_near_dir(src: Coordinates, dst: Coordinates) -> Option<Offsets> {
    if !src.is_linear_to(dst) {
        None
    } else if src.x == dst.x && src.y < dst.y {
        Some(Offsets { x: HorizontalOffset::Center, y: VerticalOffset::Bottom })
    } else if src.x == dst.x && src.y > dst.y {
        Some(Offsets { x: HorizontalOffset::Center, y: VerticalOffset::Top })
    } else if src.x > dst.x && src.y == dst.y {
        Some(Offsets { x: HorizontalOffset::Left, y: VerticalOffset::Center })
    } else if src.x < dst.x && src.y == dst.y {
        Some(Offsets { x: HorizontalOffset::Right, y: VerticalOffset::Center })
    } else if src.x > dst.x && src.y > dst.y {
        Some(Offsets { x: HorizontalOffset::Left, y: VerticalOffset::Top })
    } else if src.x > dst.x && src.y < dst.y {
        Some(Offsets { x: HorizontalOffset::Left, y: VerticalOffset::Bottom })
    } else if src.x < dst.x && src.y > dst.y {
        Some(Offsets { x: HorizontalOffset::Right, y: VerticalOffset::Top })
    } else if src.x < dst.x && src.y < dst.y {
        Some(Offsets { x: HorizontalOffset::Right, y: VerticalOffset::Bottom })
    } else {
        None
    }
}

impl TileSide {
    /// The action this side grants from one board square to another: a slide
    /// whenever the near cell toward a linear `dst` slides, else the action
    /// in the cell the displacement names (anchored to the unit's row), else
    /// nothing.
    #[verifier::opaque]
    pub open spec fn spec_action_from(self, src: Coordinates, dst: Coordinates) -> Option<
        TileAction,
    > {
        let slide_rescue = match spec_near_dir(src, dst) {
            Some(o) => self.spec_at(spec_coords_of(o)) == Some(TileAction::Slide),
            None => false,
        };
        if slide_rescue {
            Some(TileAction::Slide)
        } else {
            let gx = dst.x - src.x + 2;
            let gy = dst.y - src.y + self.spec_unit_row();
            if 0 <= gx < 5 && 0 <= gy < 5 {
                self.spec_at(Coordinates { x: gx as u16, y: gy as u16 })
            } else {
                None
            }
        }
    }

    /// The direction cell toward `dst`, for linear pairs.
    fn near_diagonal_offset(src: Coordinates, dst: Coordinates) -> (r: Option<Offsets>)
        ensures
            r == spec_near_dir(src, dst),
    {
        if !src.is_straight_line_to(dst) || src == dst {
            return None;
        }
        if src.x == dst.x && src.y < dst.y {
            Some(Offsets { x: HorizontalOffset::Center, y: VerticalOffset::Bottom })
        } else if src.x == dst.x && src.y > dst.y {
            Some(Offsets { x: HorizontalOffset::Center, y: VerticalOffset::Top })
        } else if src.x > dst.x && src.y == dst.y {
            Some(Offsets { x: HorizontalOffset::Left, y: VerticalOffset::Center })
        } else if src.x < dst.x && src.y == dst.y {
            Some(Offsets { x: HorizontalOffset::Right, y: VerticalOffset::Center })
        } else if src.x > dst.x && src.y > dst.y {
            Some(Offsets { x: HorizontalOffset::Left, y: VerticalOffset::Top })
        } else if src.x > dst.x && src.y < dst.y {
            Some(Offsets { x: HorizontalOffset::Left, y: VerticalOffset::Bottom })
        } else if src.x < dst.x && src.y > dst.y {
            Some(Offsets { x: HorizontalOffset::Right, y: VerticalOffset::Top })
        } else {
            Some(Offsets { x: HorizontalOffset::Right, y: VerticalOffset::Bottom })
        }
    }

    /// What action, if any, connects two absolute board squares.
    pub fn get_action_from_coordinates(&self, src: Coordinates, dst: Coordinates) -> (r: Option<
        TileAction,
    >)
        requires
            self.dims5(),
            self.unit_ok(),
        ensures
            r == self.spec_action_from(src, dst),
    {
        proof {
            reveal(TileSide::spec_action_from);
        }
        match TileSide::near_diagonal_offset(src, dst) {
            Some(o) => {
                let oc = o.to_coordinates();
                proof {
                    assert(oc.x <= 4 && oc.y <= 4);
                }
                let slides: bool = match self.board.get(oc) {
                    Some(a) => *a == TileAction::Slide,
                    None => false,
                };
                if slides {
                    return Some(TileAction::Slide);
                }
            },
            None => (),
        }
        let co = self.center_offset();
        let gx: i32 = dst.x as i32 - src.x as i32 + 2;
        let gy: i32 = dst.y as i32 - src.y as i32 + co.to_index() as i32;
        if 0 <= gx && gx < 5 && 0 <= gy && gy < 5 {
            match self.board.get(Coordinates { x: gx as u16, y: gy as u16 }) {
                Some(a) => Some(*a),
                None => None,
            }
        } else {
            None
        }
    }

    /// Every authored cell, as offset and action pairs, columns first.
    pub fn actions(&self) -> (r: Vec<(Offsets, TileAction)>)
        requires
            self.dims5(),
        ensures
            forall|i: int|
                0 <= i < r@.len() ==> {
                    &&& spec_coords_of(#[trigger] r@[i].0).x < 5
                    &&& spec_coords_of(r@[i].0).y < 5
                    &&& self.spec_at(spec_coords_of(r@[i].0)) == Some(r@[i].1)
                },
            forall|c: Coordinates|
                c.x < 5 && c.y < 5 && (#[trigger] self.spec_at(c)) is Some ==> exists|i: int|
                    0 <= i < r@.len() && spec_coords_of(#[trigger] r@[i].0) == c,
            forall|i: int, j: int|
                0 <= i < j < r@.len() ==> spec_coords_of(r@[i].0) != spec_coords_of(r@[j].0),
    {
        let cells = self.board.active_coordinates();
        proof {
            assert forall|i: int|
                0 <= i < cells@.len() implies ((#[trigger] cells@[i].0).x < 5 && cells@[i].0.y < 5
                && self.spec_at(cells@[i].0) == Some(*cells@[i].1)) by {
                assert(self.board.spec_in_bounds(cells@[i].0));
            }
            assert forall|c: Coordinates|
                c.x < 5 && c.y < 5 && (#[trigger] self.spec_at(c)) is Some implies exists|i: int|
                0 <= i < cells@.len() && (#[trigger] cells@[i].0) == c by {
                assert(self.board.spec_in_bounds(c));
            }
        }
        let mut r: Vec<(Offsets, TileAction)> = Vec::new();
        let mut k: usize = 0;
        while k < cells.len()
            invariant
                self.dims5(),
                k <= cells@.len(),
                r@.len() == k,
                forall|i: int|
                    0 <= i < cells@.len() ==> {
                        &&& (#[trigger] cells@[i].0).x < 5
                        &&& cells@[i].0.y < 5
                        &&& self.spec_at(cells@[i].0) == Some(*cells@[i].1)
                    },
                forall|c: Coordinates|
                    c.x < 5 && c.y < 5 && (#[trigger] self.spec_at(c)) is Some ==> exists|i: int|
                        0 <= i < cells@.len() && (#[trigger] cells@[i].0) == c,
                forall|i: int, j: int| 0 <= i < j < cells@.len() ==> cells@[i].0 != cells@[j].0,
                forall|i: int|
                    0 <= i < k ==> spec_coords_of(#[trigger] r@[i].0) == cells@[i].0 && r@[i].1
                        == *cells@[i].1,
            decreases cells@.len() - k,
        {
            let (c, a) = cells[k];
            r.push((Offsets::from_coordinates(c), *a));
            k = k + 1;
        }
        proof {
            assert forall|c: Coordinates|
                c.x < 5 && c.y < 5 && (#[trigger] self.spec_at(c)) is Some implies exists|i: int|
                0 <= i < r@.len() && spec_coords_of(#[trigger] r@[i].0) == c by {
                let i = choose|i: int| 0 <= i < cells@.len() && (#[trigger] cells@[i].0) == c;
                assert(spec_coords_of(r@[i].0) == c);
            }
        }
        r
    }

    /// This side mirrored top to bottom.
    pub(crate) fn flip_vertical(&self) -> (r: TileSide)
        requires
            self.dims5(),
        ensures
            r.dims5(),
            forall|c: Coordinates|
                c.x < 5 && c.y < 5 ==> #[trigger] r.spec_at(c) == self.spec_at(
                    Coordinates { x: c.x, y: (4 - c.y) as u16 },
                ),
    {
        let r = TileSide { board: self.board.flip_vertical() };
        proof {
            assert forall|c: Coordinates| c.x < 5 && c.y < 5 implies #[trigger] r.spec_at(c)
                == self.spec_at(Coordinates { x: c.x, y: (4 - c.y) as u16 }) by {
                assert(r.spec_board().spec_in_bounds(c));
            }
        }
        r
    }
}

/// Flattening one more entry appends its expansion.
proof fn lemma_pairs_take_step(entries: Seq<(Vec<Offsets>, TileAction)>, i: int)
    requires
        0 <= i < entries.len(),
    ensures
        spec_pairs(entries.take(i + 1)) == spec_pairs(entries.take(i)) + Seq::new(
            entries[i].0@.len(),
            |j: int| (entries[i].0@[j], entries[i].1),
        ),
{
    let t = entries.take(i + 1);
    assert(t.drop_last() =~= entries.take(i));
    assert(t.last() == entries[i]);
}

/// Looking up after appending one authored cell sees the new cell first.
proof fn lemma_lookup_push(pairs: Seq<(Offsets, TileAction)>, e: (Offsets, TileAction), o: Offsets)
    ensures
        spec_lookup(pairs.push(e), o) == if e.0 == o {
            Some(e.1)
        } else {
            spec_lookup(pairs, o)
        },
{
    assert(pairs.push(e).drop_last() =~= pairs);
    assert(pairs.push(e).last() == e);
}

impl TileSide {
    /// Builds a side from authored entries: each offset group expands in
    /// order (later cells override earlier ones), a unit marker is added at
    /// the grid center when none was authored, and the result is returned
    /// only when it obeys every shape rule.
    pub fn new(entries: Vec<(Vec<Offsets>, TileAction)>) -> (r: Option<TileSide>)
        ensures
            r matches Some(s) ==> spec_matches_authored(s, entries@) && s.valid_shape(),
            r is None ==> forall|s: TileSide|
                spec_matches_authored(s, entries@) ==> !s.valid_shape(),
    {
        let mut board: Board<TileAction> = Board::square(5);
        proof {
            assert(entries@.take(0) =~= Seq::<(Vec<Offsets>, TileAction)>::empty());
            assert forall|c: Coordinates| c.x < 5 && c.y < 5 implies #[trigger] board.spec_at(c)
                == spec_lookup(spec_pairs(entries@.take(0)), spec_offset_of(c)) by {
                assert(board.spec_in_bounds(c));
                assert(spec_pairs(entries@.take(0)).len() == 0);
            }
        }
        let mut ei: usize = 0;
        while ei < entries.len()
            invariant
                board.inv(),
                board.spec_width() == 5,
                board.spec_height() == 5,
                ei <= entries@.len(),
                forall|c: Coordinates|
                    c.x < 5 && c.y < 5 ==> #[trigger] board.spec_at(c) == spec_lookup(
                        spec_pairs(entries@.take(ei as int)),
                        spec_offset_of(c),
                    ),
            decreases entries@.len() - ei,
        {
            let ghost prefix = spec_pairs(entries@.take(ei as int));
            let group_len = entries[ei].0.len();
            let mut oi: usize = 0;
            while oi < group_len
                invariant
                    board.inv(),
                    board.spec_width() == 5,
                    board.spec_height() == 5,
                    ei < entries@.len(),
                    group_len == entries@[ei as int].0@.len(),
                    oi <= group_len,
                    forall|c: Coordinates|
                        c.x < 5 && c.y < 5 ==> #[trigger] board.spec_at(c) == spec_lookup(
                            prefix + Seq::new(
                                oi as nat,
                                |j: int| (entries@[ei as int].0@[j], entries@[ei as int].1),
                            ),
                            spec_offset_of(c),
                        ),
                decreases group_len - oi,
            {
                let o: Offsets = entries[ei].0[oi];
                let a: TileAction = entries[ei].1;
                let c = o.to_coordinates();
                proof {
                    assert(c.x <= 4 && c.y <= 4);
                }
                board.put(c, a);
                proof {
                    let before = prefix + Seq::new(
                        oi as nat,
                        |j: int| (entries@[ei as int].0@[j], entries@[ei as int].1),
                    );
                    let after = prefix + Seq::new(
                        (oi + 1) as nat,
                        |j: int| (entries@[ei as int].0@[j], entries@[ei as int].1),
                    );
                    assert(after =~= before.push((o, a)));
                    assert forall|c2: Coordinates| c2.x < 5 && c2.y < 5 implies #[trigger]
                    board.spec_at(c2) == spec_lookup(after, spec_offset_of(c2)) by {
                        lemma_lookup_push(before, (o, a), spec_offset_of(c2));
                        lemma_offset_roundtrip(c2);
                        if c2 == c {
                            assert(spec_offset_of(c2) == o);
                        } else {
                            assert(spec_offset_of(c2) != o);
                        }
                    }
                }
                oi = oi + 1;
            }
            proof {
                lemma_pairs_take_step(entries@, ei as int);
            }
            ei = ei + 1;
        }
        proof {
            assert(entries@.take(entries@.len() as int) =~= entries@);
        }

        // Add the unit marker at the center when none was authored.
        let mut has_unit = false;
        let mut x: u16 = 0;
        while x < 5
            invariant
                board.inv(),
                board.spec_width() == 5,
                board.spec_height() == 5,
                x <= 5,
                has_unit <==> exists|c: Coordinates|
                    c.x < x && c.y < 5 && #[trigger] board.spec_at(c) == Some(TileAction::Unit),
            decreases 5 - x,
        {
            let mut y: u16 = 0;
            while y < 5
                invariant
                    board.inv(),
                    board.spec_width() == 5,
                    board.spec_height() == 5,
                    x < 5,
                    y <= 5,
                    has_unit <==> exists|c: Coordinates|
                        (c.x < x || (c.x == x && c.y < y)) && c.x < 5 && c.y < 5
                            && #[trigger] board.spec_at(c) == Some(TileAction::Unit),
                decreases 5 - y,
            {
                let c = Coordinates { x, y };
                let is_unit: bool = match board.get(c) {
                    Some(a) => *a == TileAction::Unit,
                    None => false,
                };
                if is_unit {
                    has_unit = true;
                }
                y = y + 1;
            }
            x = x + 1;
        }
        proof {
            assert(spec_pairs(entries@.take(entries@.len() as int)) == spec_pairs(entries@));
            if has_unit {
                let c = choose|c: Coordinates|
                    (c.x < 5 || (c.x == 5 && c.y < 5)) && c.x < 5 && c.y < 5 && #[trigger]
                    board.spec_at(c) == Some(TileAction::Unit);
                assert(spec_lookup(spec_pairs(entries@), spec_offset_of(c)) == Some(
                    TileAction::Unit,
                ));
                assert(spec_merged_has_unit(entries@));
            }
            if spec_merged_has_unit(entries@) {
                let c = choose|c: Coordinates|
                    c.x < 5 && c.y < 5 && spec_lookup(spec_pairs(entries@), spec_offset_of(c))
                        == Some(TileAction::Unit);
                assert(board.spec_at(c) == Some(TileAction::Unit));
                assert(has_unit);
            }
            assert(has_unit == spec_merged_has_unit(entries@));
        }
        if !has_unit {
            board.put(Coordinates { x: 2, y: 2 }, TileAction::Unit);
        }
        let side = TileSide { board };
        proof {
            assert(spec_matches_authored(side, entries@));
        }
        if side.check_shape() {
            Some(side)
        } else {
            proof {
                assert forall|s: TileSide|
                    spec_matches_authored(s, entries@) implies !s.valid_shape() by {
                    if s.valid_shape() {
                        lemma_valid_shape_pointwise(s, side);
                    }
                }
            }
            None
        }
    }
}

/// Mirroring a valid side top to bottom keeps it valid.
pub proof fn lemma_flip_preserves_valid_shape(a: TileSide, b: TileSide)
    requires
        a.valid_shape(),
        b.dims5(),
        forall|c: Coordinates|
            c.x < 5 && c.y < 5 ==> #[trigger] b.spec_at(c) == a.spec_at(
                Coordinates { x: c.x, y: (4 - c.y) as u16 },
            ),
    ensures
        b.valid_shape(),
{
    reveal(TileSide::slide_ok);
    reveal(TileSide::move_ok);
    reveal(TileSide::jump_ok);
    lemma_unit_row_good(a);
    let ua = a.spec_unit_row();
    let ub = (4 - ua) as u16;
    assert(b.spec_at(Coordinates { x: 2, y: ub }) == a.spec_at(Coordinates { x: 2, y: ua }));
    assert(b.spec_unit_at(Coordinates { x: 2, y: ub }));
    assert forall|c: Coordinates| #[trigger] b.spec_unit_at(c) implies c == (Coordinates {
        x: 2,
        y: ub,
    }) by {
        assert(a.spec_unit_at(Coordinates { x: c.x, y: (4 - c.y) as u16 }));
        assert(Coordinates { x: c.x, y: (4 - c.y) as u16 } == Coordinates { x: 2, y: ua });
    }
    assert(b.unit_ok());
    lemma_unit_row_is(b, ub);
    assert forall|c: Coordinates|
        c.x < 5 && c.y < 5 && #[trigger] b.spec_at(c) == Some(TileAction::Slide) implies {
        &&& spec_dist(c.x as int, 2) <= 1
        &&& spec_dist(c.y as int, 2) <= 1
        &&& c != (Coordinates { x: 2, y: 2 })
        &&& spec_dist(c.y as int, b.spec_unit_row() as int) <= 1
        &&& b.spec_at(Coordinates { x: (2 * c.x - 2) as u16, y: (2 * c.y - 2) as u16 }) is None
    } by {
        let m = Coordinates { x: c.x, y: (4 - c.y) as u16 };
        assert(a.spec_at(m) == Some(TileAction::Slide));
        assert(spec_dist(m.y as int, 2) <= 1);
        assert(spec_dist(c.y as int, 2) <= 1);
        let beyond_b = Coordinates { x: (2 * c.x - 2) as u16, y: (2 * c.y - 2) as u16 };
        let beyond_a = Coordinates { x: (2 * m.x - 2) as u16, y: (2 * m.y - 2) as u16 };
        assert(a.spec_at(beyond_a) is None);
        assert(beyond_b.x < 5 && beyond_b.y < 5);
        assert(b.spec_at(beyond_b) == a.spec_at(
            Coordinates { x: beyond_b.x, y: (4 - beyond_b.y) as u16 },
        ));
        assert(Coordinates { x: beyond_b.x, y: (4 - beyond_b.y) as u16 } == beyond_a);
    }
    assert forall|c: Coordinates|
        c.x < 5 && c.y < 5 && #[trigger] b.spec_at(c) == Some(TileAction::Move) implies {
        ||| c.x == 2
        ||| c.y == b.spec_unit_row()
        ||| c.y == 2
        ||| spec_dist(c.x as int, 2) == spec_dist(c.y as int, b.spec_unit_row() as int)
    } by {
        let m = Coordinates { x: c.x, y: (4 - c.y) as u16 };
        assert(a.spec_at(m) == Some(TileAction::Move));
    }
    assert forall|c: Coordinates|
        c.x < 5 && c.y < 5 && (#[trigger] b.spec_at(c) == Some(TileAction::Jump) || b.spec_at(c)
            == Some(TileAction::JumpSlide)) implies !(spec_dist(c.x as int, 2) <= 1 && spec_dist(
        c.y as int,
        b.spec_unit_row() as int,
    ) <= 1) by {
        let m = Coordinates { x: c.x, y: (4 - c.y) as u16 };
        assert(a.spec_at(m) == Some(TileAction::Jump) || a.spec_at(m) == Some(
            TileAction::JumpSlide,
        ));
    }
}

/// Sides whose grids agree cell by cell have the same view.
pub proof fn lemma_side_view_from_pointwise(s1: TileSide, s2: TileSide)
    requires
        s1.dims5(),
        s2.dims5(),
        forall|c: Coordinates| c.x < 5 && c.y < 5 ==> s1.spec_at(c) == s2.spec_at(c),
    ensures
        s1@ == s2@,
{
    assert forall|c: Coordinates| s1.board.spec_in_bounds(c) implies s1.board.spec_at(c)
        == s2.board.spec_at(c) by {
        assert(c.x < 5 && c.y < 5);
        assert(s1.spec_at(c) == s2.spec_at(c));
    }
    lemma_cells_equal_from_pointwise(s1.board, s2.board);
}

/// Sides whose grids agree cell by cell satisfy the same shape rules.
pub proof fn lemma_valid_shape_pointwise(s1: TileSide, s2: TileSide)
    requires
        s1.dims5(),
        s2.dims5(),
        forall|c: Coordinates| c.x < 5 && c.y < 5 ==> s1.spec_at(c) == s2.spec_at(c),
        s1.valid_shape(),
    ensures
        s2.valid_shape(),
{
    reveal(TileSide::slide_ok);
    reveal(TileSide::move_ok);
    reveal(TileSide::jump_ok);
    assert forall|c: Coordinates| s1.spec_unit_at(c) <==> s2.spec_unit_at(c) by {}
    let u = choose|c: Coordinates| s1.spec_unit_at(c);
    assert(s1.spec_unit_at(u));
    assert(s2.spec_unit_at(u));
    assert(s2.unit_ok());
    lemma_unit_row_is(s1, u.y);
    lemma_unit_row_is(s2, u.y);
    assert forall|c: Coordinates|
        c.x < 5 && c.y < 5 && #[trigger] s2.spec_at(c) == Some(TileAction::Slide) implies {
        &&& spec_dist(c.x as int, 2) <= 1
        &&& spec_dist(c.y as int, 2) <= 1
        &&& c != (Coordinates { x: 2, y: 2 })
        &&& spec_dist(c.y as int, s2.spec_unit_row() as int) <= 1
        &&& s2.spec_at(Coordinates { x: (2 * c.x - 2) as u16, y: (2 * c.y - 2) as u16 }) is None
    } by {
        assert(s1.spec_at(c) == Some(TileAction::Slide));
        assert(Coordinates { x: (2 * c.x - 2) as u16, y: (2 * c.y - 2) as u16 }.x < 5
            && Coordinates { x: (2 * c.x - 2) as u16, y: (2 * c.y - 2) as u16 }.y < 5);
    }
    assert forall|c: Coordinates|
        c.x < 5 && c.y < 5 && #[trigger] s2.spec_at(c) == Some(TileAction::Move) implies {
        ||| c.x == 2
        ||| c.y == s2.spec_unit_row()
        ||| c.y == 2
        ||| spec_dist(c.x as int, 2) == spec_dist(c.y as int, s2.spec_unit_row() as int)
    } by {
        assert(s1.spec_at(c) == Some(TileAction::Move));
    }
    assert forall|c: Coordinates|
        c.x < 5 && c.y < 5 && (#[trigger] s2.spec_at(c) == Some(TileAction::Jump) || s2.spec_at(c)
            == Some(TileAction::JumpSlide)) implies !(spec_dist(c.x as int, 2) <= 1 && spec_dist(
        c.y as int,
        s2.spec_unit_row() as int,
    ) <= 1) by {
        assert(s1.spec_at(c) == Some(TileAction::Jump) || s1.spec_at(c) == Some(
            TileAction::JumpSlide,
        ));
    }
}


impl TileSide {
    /// A copy of this side with the same grid.
    pub fn duplicate(&self) -> (r: TileSide)
        requires
            self.dims5(),
        ensures
            r.dims5(),
            r@ == self@,
            forall|c: Coordinates| c.x < 5 && c.y < 5 ==> #[trigger] r.spec_at(c) == self.spec_at(c),
            self.valid_shape() ==> r.valid_shape(),
    {
        let mut board: Board<TileAction> = Board::square(5);
        proof {
            assert forall|c: Coordinates| c.x < 5 && c.y < 5 implies #[trigger] board.spec_at(
                c,
            ) is None by {
                assert(board.spec_in_bounds(c));
            }
        }
        let mut x: u16 = 0;
        while x < 5
            invariant
                self.dims5(),
                board.inv(),
                board.spec_width() == 5,
                board.spec_height() == 5,
                x <= 5,
                forall|c: Coordinates|
                    c.x < 5 && c.y < 5 && c.x < x ==> #[trigger] board.spec_at(c) == self.spec_at(
                        c,
                    ),
                forall|c: Coordinates|
                    c.x < 5 && c.y < 5 && c.x >= x ==> #[trigger] board.spec_at(c) is None,
            decreases 5 - x,
        {
            let mut y: u16 = 0;
            while y < 5
                invariant
                    self.dims5(),
                    board.inv(),
                    board.spec_width() == 5,
                    board.spec_height() == 5,
                    x < 5,
                    y <= 5,
                    forall|c: Coordinates|
                        c.x < 5 && c.y < 5 && (c.x < x || (c.x == x && c.y < y))
                            ==> #[trigger] board.spec_at(c) == self.spec_at(c),
                    forall|c: Coordinates|
                        c.x < 5 && c.y < 5 && (c.x > x || (c.x == x && c.y >= y))
                            ==> #[trigger] board.spec_at(c) is None,
                decreases 5 - y,
            {
                let c = Coordinates { x, y };
                let ghost b0 = board;
                match self.board.get(c) {
                    Some(a) => {
                        board.put(c, *a);
                    },
                    None => (),
                }
                proof {
                    assert forall|c2: Coordinates|
                        c2.x < 5 && c2.y < 5 && (c2.x < x || (c2.x == x && c2.y < y
                            + 1)) implies #[trigger] board.spec_at(c2) == self.spec_at(c2) by {
                        if c2 != c {
                            assert(board.spec_at(c2) == b0.spec_at(c2));
                        }
                    }
                    assert forall|c2: Coordinates|
                        c2.x < 5 && c2.y < 5 && (c2.x > x || (c2.x == x && c2.y >= y
                            + 1)) implies #[trigger] board.spec_at(c2) is None by {
                        assert(c2 != c);
                        assert(board.spec_at(c2) == b0.spec_at(c2));
                    }
                }
                y = y + 1;
            }
            x = x + 1;
        }
        let r = TileSide { board };
        proof {
            lemma_side_view_from_pointwise(r, *self);
            if self.valid_shape() {
                lemma_valid_shape_pointwise(*self, r);
            }
        }
        r
    }
}


/// The last action listed for offset `o`, looked up on a duplicate-free list,
/// is the only one; membership and lookup agree.
proof fn lemma_lookup_found(cells: Seq<(Offsets, TileAction)>, i: int)
    requires
        0 <= i < cells.len(),
        forall|i2: int, j2: int|
            0 <= i2 < j2 < cells.len() ==> (#[trigger] cells[i2]).0 != (#[trigger] cells[j2]).0,
    ensures
        spec_lookup(cells, cells[i].0) == Some(cells[i].1),
    decreases cells.len(),
{
    if i == cells.len() - 1 {
        assert(cells.last() == cells[i]);
    } else {
        assert(cells.last().0 != cells[i].0);
        assert(cells.drop_last()[i] == cells[i]);
        lemma_lookup_found(cells.drop_last(), i);
    }
}

/// A successful lookup names a listed cell.
proof fn lemma_lookup_mem(cells: Seq<(Offsets, TileAction)>, o: Offsets)
    requires
        spec_lookup(cells, o) is Some,
    ensures
        exists|i: int|
            0 <= i < cells.len() && (#[trigger] cells[i]) == (o, spec_lookup(cells, o).unwrap()),
    decreases cells.len(),
{
    if cells.len() > 0 {
        if cells.last().0 == o {
            assert(cells[cells.len() - 1] == (o, spec_lookup(cells, o).unwrap()));
        } else {
            lemma_lookup_mem(cells.drop_last(), o);
            let i = choose|i: int|
                0 <= i < cells.drop_last().len() && (#[trigger] cells.drop_last()[i]) == (
                    o,
                    spec_lookup(cells.drop_last(), o).unwrap(),
                );
            assert(cells[i] == (o, spec_lookup(cells, o).unwrap()));
        }
    }
}

/// A lookup misses when no listed cell has the offset.
proof fn lemma_lookup_none(cells: Seq<(Offsets, TileAction)>, o: Offsets)
    requires
        forall|i: int| 0 <= i < cells.len() ==> (#[trigger] cells[i]).0 != o,
    ensures
        spec_lookup(cells, o) is None,
    decreases cells.len(),
{
    if cells.len() > 0 {
        assert(cells[cells.len() - 1].0 != o);
        assert(forall|i: int|
            0 <= i < cells.drop_last().len() ==> (#[trigger] cells.drop_last()[i]).0 != o);
        lemma_lookup_none(cells.drop_last(), o);
    }
}

/// The unit row of a duplicate-free cell list with one unit entry.
pub open spec fn spec_list_unit_row(cells: Seq<(Offsets, TileAction)>) -> u16 {
    let i = choose|i: int| 0 <= i < cells.len() && (#[trigger] cells[i]).1 == TileAction::Unit;
    cells[i].0.y.spec_index()
}

/// The unit row is the row of any unit entry.
pub proof fn lemma_list_unit_row_is(cells: Seq<(Offsets, TileAction)>, i: int)
    requires
        0 <= i < cells.len(),
        cells[i].1 == TileAction::Unit,
        forall|i2: int, j2: int|
            0 <= i2 < cells.len() && 0 <= j2 < cells.len() && (#[trigger] cells[i2]).1
                == TileAction::Unit && (#[trigger] cells[j2]).1 == TileAction::Unit ==> i2 == j2,
    ensures
        spec_list_unit_row(cells) == cells[i].0.y.spec_index(),
{
    let p = choose|p: int| 0 <= p < cells.len() && (#[trigger] cells[p]).1 == TileAction::Unit;
    assert(cells[p].1 == TileAction::Unit);
}

/// A duplicate-free cell list obeying the shape rules: exactly one unit
/// entry, horizontally centered; slides next to the grid center and the unit,
/// with no listed cell directly beyond them; moves on a line from the unit;
/// jumps and jump-slides away from the unit.
pub open spec fn spec_cells_ok(cells: Seq<(Offsets, TileAction)>) -> bool {
    let uy = spec_list_unit_row(cells) as int;
    &&& forall|i: int, j: int|
        0 <= i < j < cells.len() ==> (#[trigger] cells[i]).0 != (#[trigger] cells[j]).0
    &&& exists|i: int| 0 <= i < cells.len() && (#[trigger] cells[i]).1 == TileAction::Unit
    &&& forall|i: int, j: int|
        0 <= i < cells.len() && 0 <= j < cells.len() && (#[trigger] cells[i]).1 == TileAction::Unit
            && (#[trigger] cells[j]).1 == TileAction::Unit ==> i == j
    &&& forall|i: int|
        0 <= i < cells.len() ==> {
            let xi = (#[trigger] cells[i]).0.x.spec_index() as int;
            let yi = cells[i].0.y.spec_index() as int;
            match cells[i].1 {
                TileAction::Unit => xi == 2,
                TileAction::Slide => {
                    &&& spec_dist(xi, 2) <= 1
                    &&& spec_dist(yi, 2) <= 1
                    &&& !(xi == 2 && yi == 2)
                    &&& spec_dist(yi, uy) <= 1
                    &&& forall|j: int|
                        0 <= j < cells.len() ==> !((#[trigger] cells[j]).0.x.spec_index() as int
                            == 2 * xi - 2 && cells[j].0.y.spec_index() as int == 2 * yi - 2)
                },
                TileAction::Move => xi == 2 || yi == uy || yi == 2 || spec_dist(xi, 2) == spec_dist(
                    yi,
                    uy,
                ),
                TileAction::Jump => !(spec_dist(xi, 2) <= 1 && spec_dist(yi, uy) <= 1),
                TileAction::JumpSlide => !(spec_dist(xi, 2) <= 1 && spec_dist(yi, uy) <= 1),
                _ => true,
            }
        }
}

/// Each grid cell holds exactly what the list gives its offset.
pub open spec fn side_grid_is(s: TileSide, cells: Seq<(Offsets, TileAction)>) -> bool {
    forall|c: Coordinates|
        c.x < 5 && c.y < 5 ==> #[trigger] s.spec_at(c) == spec_lookup(cells, spec_offset_of(c))
}

impl TileSide {
    /// Builds a side holding exactly the listed cells, which must obey the
    /// shape rules.
    #[verifier::rlimit(100)]
    pub fn build_side(cells: Vec<(Offsets, TileAction)>) -> (r: TileSide)
        requires
            spec_cells_ok(cells@),
        ensures
            r.valid_shape(),
            side_grid_is(r, cells@),
            r.spec_unit_row() == spec_list_unit_row(cells@),
    {
        let mut board: Board<TileAction> = Board::square(5);
        proof {
            assert forall|c: Coordinates| c.x < 5 && c.y < 5 implies #[trigger] board.spec_at(c)
                == spec_lookup(cells@.take(0), spec_offset_of(c)) by {
                assert(board.spec_in_bounds(c));
                assert(cells@.take(0).len() == 0);
            }
        }
        let mut k: usize = 0;
        while k < cells.len()
            invariant
                board.inv(),
                board.spec_width() == 5,
                board.spec_height() == 5,
                k <= cells@.len(),
                forall|c: Coordinates|
                    c.x < 5 && c.y < 5 ==> #[trigger] board.spec_at(c) == spec_lookup(
                        cells@.take(k as int),
                        spec_offset_of(c),
                    ),
            decreases cells@.len() - k,
        {
            let (o, a) = cells[k];
            let c = o.to_coordinates();
            proof {
                assert(c.x <= 4 && c.y <= 4);
            }
            board.put(c, a);
            proof {
                assert(cells@.take(k + 1 as int).drop_last() =~= cells@.take(k as int));
                assert(cells@.take(k + 1 as int).last() == (o, a));
                assert forall|c2: Coordinates| c2.x < 5 && c2.y < 5 implies #[trigger]
                board.spec_at(c2) == spec_lookup(cells@.take(k + 1 as int), spec_offset_of(c2)) by {
                    lemma_offset_roundtrip(c2);
                    if c2 == c {
                        assert(spec_offset_of(c2) == o);
                    } else {
                        assert(spec_offset_of(c2) != o);
                    }
                }
            }
            k = k + 1;
        }
        proof {
            assert(cells@.take(cells@.len() as int) =~= cells@);
        }
        let r = TileSide { board };
        proof {
            lemma_build_side_valid(r, cells@);
        }
        r
    }
}

/// A side whose grid matches a rule-abiding cell list obeys the shape rules.
#[verifier::rlimit(100)]
proof fn lemma_build_side_valid(s: TileSide, cells: Seq<(Offsets, TileAction)>)
    requires
        s.dims5(),
        spec_cells_ok(cells),
        side_grid_is(s, cells),
    ensures
        s.valid_shape(),
        s.spec_unit_row() == spec_list_unit_row(cells),
{
    reveal(TileSide::slide_ok);
    reveal(TileSide::move_ok);
    reveal(TileSide::jump_ok);
    let ui = choose|i: int| 0 <= i < cells.len() && (#[trigger] cells[i]).1 == TileAction::Unit;
    assert(cells[ui].1 == TileAction::Unit);
    lemma_list_unit_row_is(cells, ui);
    let uy = spec_list_unit_row(cells);
    let uc = Coordinates { x: 2, y: uy };
    assert(uy <= 4);
    lemma_lookup_found(cells, ui);
    assert(spec_coords_of(cells[ui].0) == uc);
    assert(spec_offset_of(uc) == cells[ui].0);
    assert(s.spec_unit_at(uc));
    assert forall|c: Coordinates| #[trigger] s.spec_unit_at(c) implies c == uc by {
        lemma_offset_roundtrip(c);
        lemma_lookup_mem(cells, spec_offset_of(c));
        let i = choose|i: int|
            0 <= i < cells.len() && (#[trigger] cells[i]) == (
                spec_offset_of(c),
                spec_lookup(cells, spec_offset_of(c)).unwrap(),
            );
        assert(cells[i].1 == TileAction::Unit);
        assert(i == ui);
    }
    assert(s.unit_ok());
    lemma_unit_row_is(s, uy);
    assert forall|c: Coordinates|
        c.x < 5 && c.y < 5 && #[trigger] s.spec_at(c) == Some(TileAction::Slide) implies {
        &&& spec_dist(c.x as int, 2) <= 1
        &&& spec_dist(c.y as int, 2) <= 1
        &&& c != (Coordinates { x: 2, y: 2 })
        &&& spec_dist(c.y as int, s.spec_unit_row() as int) <= 1
        &&& s.spec_at(Coordinates { x: (2 * c.x - 2) as u16, y: (2 * c.y - 2) as u16 }) is None
    } by {
        lemma_offset_roundtrip(c);
        lemma_lookup_mem(cells, spec_offset_of(c));
        let i = choose|i: int|
            0 <= i < cells.len() && (#[trigger] cells[i]) == (
                spec_offset_of(c),
                spec_lookup(cells, spec_offset_of(c)).unwrap(),
            );
        assert(cells[i].1 == TileAction::Slide);
        assert(cells[i].0.x.spec_index() == c.x && cells[i].0.y.spec_index() == c.y);
        let beyond = Coordinates { x: (2 * c.x - 2) as u16, y: (2 * c.y - 2) as u16 };
        assert(beyond.x < 5 && beyond.y < 5);
        assert(s.spec_at(beyond) == spec_lookup(cells, spec_offset_of(beyond)));
        assert forall|j: int|
            0 <= j < cells.len() implies (#[trigger] cells[j]).0 != spec_offset_of(beyond) by {
            if cells[j].0 == spec_offset_of(beyond) {
                assert(cells[j].0.x.spec_index() as int == 2 * c.x - 2);
                assert(cells[j].0.y.spec_index() as int == 2 * c.y - 2);
            }
        }
        lemma_lookup_none(cells, spec_offset_of(beyond));
    }
    assert forall|c: Coordinates|
        c.x < 5 && c.y < 5 && #[trigger] s.spec_at(c) == Some(TileAction::Move) implies {
        ||| c.x == 2
        ||| c.y == s.spec_unit_row()
        ||| c.y == 2
        ||| spec_dist(c.x as int, 2) == spec_dist(c.y as int, s.spec_unit_row() as int)
    } by {
        lemma_offset_roundtrip(c);
        lemma_lookup_mem(cells, spec_offset_of(c));
        let i = choose|i: int|
            0 <= i < cells.len() && (#[trigger] cells[i]) == (
                spec_offset_of(c),
                spec_lookup(cells, spec_offset_of(c)).unwrap(),
            );
        assert(cells[i].1 == TileAction::Move);
        assert(cells[i].0.x.spec_index() == c.x && cells[i].0.y.spec_index() == c.y);
    }
    assert forall|c: Coordinates|
        c.x < 5 && c.y < 5 && (#[trigger] s.spec_at(c) == Some(TileAction::Jump) || s.spec_at(c)
            == Some(TileAction::JumpSlide)) implies !(spec_dist(c.x as int, 2) <= 1 && spec_dist(
        c.y as int,
        s.spec_unit_row() as int,
    ) <= 1) by {
        lemma_offset_roundtrip(c);
        lemma_lookup_mem(cells, spec_offset_of(c));
        let i = choose|i: int|
            0 <= i < cells.len() && (#[trigger] cells[i]) == (
                spec_offset_of(c),
                spec_lookup(cells, spec_offset_of(c)).unwrap(),
            );
        assert(cells[i].1 == TileAction::Jump || cells[i].1 == TileAction::JumpSlide);
        assert(cells[i].0.x.spec_index() == c.x && cells[i].0.y.spec_index() == c.y);
    }
}

} // verus!

//! The 6x6 game board: move legality, guard detection, move application and
//! its reversal.
//!
//! Contracts are stated over the board's tile map (coordinate to placed
//! tile). A move is legal from `src` to `dst` when some cell of the source
//! tile's current side grants an action reaching `dst` and the action can be
//! applied there; the guard-checked variants additionally discard moves that
//! would leave the mover's own duke attacked.

use vstd::prelude::*;

use crate::board::Board;
use crate::coordinates::{spec_dist, Coordinates, Distance};
use crate::geometry::Rectangular;
use crate::tile::{CurrentSide, Owner, PlacedTile, Tile};
use crate::offset::{Indexable, Offsets, VerticalOffset};
use crate::tile_side::{spec_coords_of, TileAction, TileSide};
use crate::units::is_duke;

verus! {

/// The board is six squares on each side.
pub const BOARD_SIZE: u16 = 6;

#[derive(Debug, PartialEq, Eq, Clone, Copy, Hash, Structural)]
pub enum DukeOffset {
    Top,
    Bottom,
    Left,
    Right,
}

impl DukeOffset {
    /// The four placement directions around a duke.
    pub fn all() -> (r: Vec<DukeOffset>)
        ensures
            r@ == seq![DukeOffset::Top, DukeOffset::Bottom, DukeOffset::Left, DukeOffset::Right],
    {
        let mut r: Vec<DukeOffset> = Vec::new();
        r.push(DukeOffset::Top);
        r.push(DukeOffset::Bottom);
        r.push(DukeOffset::Left);
        r.push(DukeOffset::Right);
        proof {
            assert(r@ =~= seq![
                DukeOffset::Top,
                DukeOffset::Bottom,
                DukeOffset::Left,
                DukeOffset::Right,
            ]);
        }
        r
    }
}

/// A move a player can pick: placing a freshly drawn tile next to the duke,
/// or applying a tile action, remembering what stood at the destination so
/// the move can be undone.
#[derive(Debug, Clone, PartialEq, Eq)]
pub enum PossibleMove {
    PlaceNewTile(DukeOffset, Owner),
    ApplyNonCommandTileAction { src: Coordinates, dst: Coordinates, capturing: Option<PlacedTile> },
}

/// A fully determined board mutation.
#[derive(Debug, Clone)]
pub(crate) enum BoardMove {
    PlaceNewTile(Tile, DukeOffset, Owner),
    ApplyNonCommandTileAction { src: Coordinates, dst: Coordinates },
}

#[derive(Debug, Clone, Copy, PartialEq, Eq, Structural)]
pub struct WithNewTiles(pub bool);

#[derive(Debug, Clone, Copy, PartialEq, Eq, Structural)]
pub struct CheckForGuard(pub bool);

impl CheckForGuard {
    /// A condition that only applies when guard checking is on.
    pub fn if_check(&self, b: bool) -> (r: bool)
        ensures
            r == (!self.0 || b),
    {
        !self.0 || b
    }
}

/// How a source-destination pair classifies.
#[derive(Debug, Clone, Copy, PartialEq, Eq, Structural)]
pub enum AppliedPubAction {
    Movement,
    Strike,
    Invalid,
}

pub open spec fn on_board(c: Coordinates) -> bool {
    c.x < 6 && c.y < 6
}

/// The tiles on a board, by coordinate.
pub type TileMap = Map<Coordinates, PlacedTile>;

pub open spec fn map_wf(m: TileMap) -> bool {
    forall|c: Coordinates| #[trigger] m.dom().contains(c) ==> on_board(c) && m[c].wf()
}

pub open spec fn col_major_le(a: Coordinates, b: Coordinates) -> bool {
    a.x < b.x || (a.x == b.x && a.y <= b.y)
}

pub open spec fn map_duke_at(m: TileMap, c: Coordinates, o: Owner) -> bool {
    m.dom().contains(c) && m[c].owner == o && m[c].tile.spec_name() == "Duke"@
}

pub open spec fn map_has_duke(m: TileMap, o: Owner) -> bool {
    exists|c: Coordinates| map_duke_at(m, c, o)
}

/// The first square, scanning columns left to right and each column top to
/// bottom, holding one of `o`'s dukes.
pub open spec fn map_first_duke_at(m: TileMap, c: Coordinates, o: Owner) -> bool {
    map_duke_at(m, c, o) && forall|c2: Coordinates| map_duke_at(m, c2, o) ==> col_major_le(c, c2)
}

pub open spec fn map_duke_coords(m: TileMap, o: Owner) -> Coordinates {
    choose|c: Coordinates| map_first_duke_at(m, c, o)
}

/// A first duke square is unique, so it is the duke square.
pub proof fn lemma_duke_coords_is(m: TileMap, c: Coordinates, o: Owner)
    requires
        map_first_duke_at(m, c, o),
    ensures
        map_duke_coords(m, o) == c,
{
    let p = map_duke_coords(m, o);
    assert(map_first_duke_at(m, p, o));
    assert(col_major_le(p, c) && col_major_le(c, p));
}

/// The square a duke offset names, relative to a duke at `c`; nothing when it
/// would fall off the board.
pub open spec fn spec_absolute_offset(offset: DukeOffset, c: Coordinates) -> Option<Coordinates> {
    match offset {
        DukeOffset::Top => if c.y > 0 {
            Some(Coordinates { x: c.x, y: (c.y - 1) as u16 })
        } else {
            None
        },
        DukeOffset::Bottom => if c.y < 5 {
            Some(Coordinates { x: c.x, y: (c.y + 1) as u16 })
        } else {
            None
        },
        DukeOffset::Left => if c.x > 0 {
            Some(Coordinates { x: (c.x - 1) as u16, y: c.y })
        } else {
            None
        },
        DukeOffset::Right => if c.x < 5 {
            Some(Coordinates { x: (c.x + 1) as u16, y: c.y })
        } else {
            None
        },
    }
}

/// The action the tile at `src` grants toward `dst`, if the square is
/// occupied at all.
pub open spec fn map_action_of(m: TileMap, src: Coordinates, dst: Coordinates) -> Option<
    TileAction,
> {
    if m.dom().contains(src) {
        m[src].spec_current_side().spec_action_from(src, dst)
    } else {
        None
    }
}

/// Every square strictly between `src` and `dst` is empty.
pub open spec fn map_path_clear(m: TileMap, src: Coordinates, dst: Coordinates) -> bool {
    forall|i: int|
        0 <= i < src.spec_linear_path(dst).len() ==> !m.dom().contains(
            #[trigger] src.spec_linear_path(dst)[i],
        )
}

/// Path freedom between two linear squares; for diagonally adjacent squares
/// this degenerates to the destination itself being empty.
#[verifier::opaque]
pub open spec fn map_unobstructed(m: TileMap, src: Coordinates, dst: Coordinates) -> bool {
    if spec_dist(src.x as int, dst.x as int) == 1 && spec_dist(src.y as int, dst.y as int) == 1 {
        !m.dom().contains(dst)
    } else {
        map_path_clear(m, src, dst)
    }
}

/// The destination holds no tile of the mover's own team.
pub open spec fn map_team_ok(m: TileMap, src: Coordinates, dst: Coordinates) -> bool {
    if m.dom().contains(dst) {
        m[dst].owner != m[src].owner
    } else {
        true
    }
}

/// Whether `a` can be applied from `src` to `dst`: never onto one's own team;
/// moves and slides need a clear straight path, jumps ignore the path, and a
/// strike needs an enemy at the destination. Unit and command markers, and
/// the unimplemented jump-slide, grant no moves.
pub open spec fn map_can_apply_action(
    m: TileMap,
    src: Coordinates,
    dst: Coordinates,
    a: TileAction,
) -> bool {
    &&& m.dom().contains(src)
    &&& on_board(dst)
    &&& map_team_ok(m, src, dst)
    &&& match a {
        TileAction::Move => src.is_linear_to(dst) && map_unobstructed(m, src, dst),
        TileAction::Slide => src.is_linear_to(dst) && map_unobstructed(m, src, dst),
        TileAction::Jump => true,
        TileAction::Strike => m.dom().contains(dst),
        _ => false,
    }
}

/// How a requested move classifies: a strike captures in place, any other
/// applicable action relocates the mover.
pub open spec fn map_classify(m: TileMap, src: Coordinates, dst: Coordinates) -> AppliedPubAction {
    match map_action_of(m, src, dst) {
        None => AppliedPubAction::Invalid,
        Some(a) => if !map_can_apply_action(m, src, dst, a) {
            AppliedPubAction::Invalid
        } else if a == TileAction::Strike {
            AppliedPubAction::Strike
        } else {
            AppliedPubAction::Movement
        },
    }
}

/// The board square a single-step action in grid cell `g` reaches from
/// `src`, for a side whose unit row is `u`.
pub open spec fn spec_step_target(src: Coordinates, g: Coordinates, u: u16) -> Option<Coordinates> {
    let x = src.x + g.x - 2;
    let y = src.y + g.y - u;
    if 0 <= x < 6 && 0 <= y < 6 {
        Some(Coordinates { x: x as u16, y: y as u16 })
    } else {
        None
    }
}

/// The value `k` steps from `a` in direction `d` (one of -1, 0, 1).
pub open spec fn spec_axis_at(a: int, d: int, k: int) -> int {
    if d == 1 {
        a + k
    } else if d == -1 {
        a - k
    } else {
        a
    }
}

/// Whether `dst` lies on the slide ray leaving `src` in the direction the
/// near grid cell `g` names.
pub open spec fn spec_on_ray(src: Coordinates, g: Coordinates, dst: Coordinates) -> bool {
    let dx = g.x - 2;
    let dy = g.y - 2;
    &&& on_board(dst)
    &&& dst != src
    &&& (if dx == 1 {
        dst.x > src.x
    } else if dx == -1 {
        dst.x < src.x
    } else {
        dst.x == src.x
    })
    &&& (if dy == 1 {
        dst.y > src.y
    } else if dy == -1 {
        dst.y < src.y
    } else {
        dst.y == src.y
    })
    &&& (dx != 0 && dy != 0 ==> spec_dist(dst.x as int, src.x as int) == spec_dist(
        dst.y as int,
        src.y as int,
    ))
}

/// The squares a grid cell holding `a` reaches from `src`: one step for
/// moves, jumps and strikes; a whole ray for slides; none otherwise.
pub open spec fn spec_target_from_cell(
    src: Coordinates,
    g: Coordinates,
    a: TileAction,
    u: u16,
    dst: Coordinates,
) -> bool {
    match a {
        TileAction::Move => spec_step_target(src, g, u) == Some(dst),
        TileAction::Jump => spec_step_target(src, g, u) == Some(dst),
        TileAction::Strike => spec_step_target(src, g, u) == Some(dst),
        TileAction::Slide => spec_on_ray(src, g, dst),
        _ => false,
    }
}


/// A tile action from `src` reaches `dst` ignoring guard safety: some grid
/// cell of the source tile's current side holds `a` (not a unit or command
/// marker), that cell reaches `dst`, and the action applies there.
pub open spec fn map_move_enabled(
    m: TileMap,
    src: Coordinates,
    dst: Coordinates,
    a: TileAction,
) -> bool {
    &&& m.dom().contains(src)
    &&& exists|g: Coordinates|
        g.x < 5 && g.y < 5 && #[trigger] m[src].spec_current_side().spec_at(g) == Some(a) && a
            != TileAction::Unit && a != TileAction::Command && spec_target_from_cell(
            src,
            g,
            a,
            m[src].spec_current_side().spec_unit_row(),
            dst,
        )
    &&& map_can_apply_action(m, src, dst, a)
    &&& map_classify(m, src, dst) != AppliedPubAction::Invalid
}

/// Some enemy tile has a guard-ignoring move onto `o`'s duke square.
#[verifier::opaque]
pub open spec fn map_is_guard(m: TileMap, o: Owner) -> bool {
    exists|src: Coordinates, a: TileAction|
        #![trigger map_move_enabled(m, src, map_duke_coords(m, o), a)]
        m.dom().contains(src) && m[src].owner != o && map_move_enabled(
            m,
            src,
            map_duke_coords(m, o),
            a,
        )
}


/// The tile turned to its other side, in place.
pub open spec fn map_flip_tile(t: PlacedTile) -> PlacedTile {
    PlacedTile { tile: t.tile, current_side: t.current_side.spec_flip(), owner: t.owner }
}

/// The board after applying the action from `src` to `dst`: the mover flips;
/// a strike removes the target in place, any other action relocates the mover
/// over whatever stood at the destination.
pub open spec fn map_apply_action(m: TileMap, src: Coordinates, dst: Coordinates) -> TileMap {
    let flipped = map_flip_tile(m[src]);
    if map_classify(m, src, dst) == AppliedPubAction::Strike {
        m.insert(src, flipped).remove(dst)
    } else {
        m.remove(src).insert(dst, flipped)
    }
}

/// A tile that may stand in for a freshly placed one when testing placement
/// safety: owned by `o` and not a duke.
#[verifier::opaque]
pub open spec fn spec_blocker(t: PlacedTile, o: Owner) -> bool {
    t.wf() && t.owner == o && t.current_side == CurrentSide::Initial && t.tile.spec_name()
        != "Duke"@
}

/// Placing a tile next to `o`'s duke is valid when the named square is on the
/// board and empty, and no tile placed there can leave `o` in guard.
#[verifier::opaque]
pub open spec fn map_is_valid_placement(m: TileMap, o: Owner, offset: DukeOffset) -> bool {
    match spec_absolute_offset(offset, map_duke_coords(m, o)) {
        None => false,
        Some(c) => !m.dom().contains(c) && forall|t: PlacedTile|
            spec_blocker(t, o) ==> !map_is_guard(#[trigger] m.insert(c, t), o),
    }
}

/// Guard detection does not depend on which non-duke tile of `o`'s own team
/// fills an empty square.
#[verifier::rlimit(100)]
pub proof fn lemma_guard_blocker_independent(
    m: TileMap,
    c: Coordinates,
    t1: PlacedTile,
    t2: PlacedTile,
    o: Owner,
)
    requires
        map_wf(m),
        !m.dom().contains(c),
        map_has_duke(m, o),
        spec_blocker(t1, o),
        spec_blocker(t2, o),
    ensures
        map_is_guard(m.insert(c, t1), o) == map_is_guard(m.insert(c, t2), o),
{
    reveal(spec_blocker);
    if map_is_guard(m.insert(c, t1), o) {
        lemma_guard_blocker_one_way(m, c, t1, t2, o);
    }
    if map_is_guard(m.insert(c, t2), o) {
        lemma_guard_blocker_one_way(m, c, t2, t1, o);
    }
}

/// One direction of [`lemma_guard_blocker_independent`].
#[verifier::rlimit(100)]
proof fn lemma_guard_blocker_one_way(
    m: TileMap,
    c: Coordinates,
    t1: PlacedTile,
    t2: PlacedTile,
    o: Owner,
)
    requires
        map_wf(m),
        !m.dom().contains(c),
        map_has_duke(m, o),
        spec_blocker(t1, o),
        spec_blocker(t2, o),
        map_is_guard(m.insert(c, t1), o),
    ensures
        map_is_guard(m.insert(c, t2), o),
{
    reveal(map_is_guard);
    reveal(spec_blocker);
    let m1 = m.insert(c, t1);
    let m2 = m.insert(c, t2);
    let d0 = choose|d: Coordinates| map_duke_at(m, d, o);
    assert(map_duke_at(m1, d0, o) && map_duke_at(m2, d0, o));
    lemma_insert_same_duke(m, c, t1, o);
    lemma_insert_same_duke(m, c, t2, o);
    let d1 = map_duke_coords(m1, o);
    let d2 = map_duke_coords(m2, o);
    assert(d1 == d2);
    let (src, a) = choose|src: Coordinates, a: TileAction|
        #![trigger map_move_enabled(m1, src, map_duke_coords(m1, o), a)]
        m1.dom().contains(src) && m1[src].owner != o && map_move_enabled(
            m1,
            src,
            map_duke_coords(m1, o),
            a,
        );
    assert(src != c);
    assert(m1[src] == m2[src]);
    lemma_move_enabled_same_dom(m1, m2, src, d1, a);
    assert(map_move_enabled(m2, src, map_duke_coords(m2, o), a));
}

/// The duke square is unchanged by inserting a non-duke tile on an empty
/// square.
#[verifier::rlimit(100)]
proof fn lemma_insert_same_duke(m: TileMap, c: Coordinates, t: PlacedTile, o: Owner)
    requires
        map_wf(m),
        !m.dom().contains(c),
        map_has_duke(m, o),
        spec_blocker(t, o),
    ensures
        map_duke_coords(m.insert(c, t), o) == map_duke_coords(m, o),
        map_has_duke(m.insert(c, t), o),
        map_duke_at(m.insert(c, t), map_duke_coords(m, o), o),
{
    reveal(spec_blocker);
    let m1 = m.insert(c, t);
    let d0 = choose|d: Coordinates| map_duke_at(m, d, o);
    assert(map_duke_at(m, d0, o));
    let first = lemma_first_duke_exists(m, o);
    assert(map_first_duke_at(m, first, o));
    assert(map_duke_at(m1, first, o));
    assert forall|d: Coordinates| map_duke_at(m1, d, o) implies col_major_le(first, d) by {
        assert(d != c);
        assert(map_duke_at(m, d, o));
    }
    lemma_duke_coords_is(m1, first, o);
    lemma_duke_coords_is(m, first, o);
}

/// Among the squares holding `o`'s duke there is a first one.
pub proof fn lemma_first_duke_exists(m: TileMap, o: Owner) -> (first: Coordinates)
    requires
        map_has_duke(m, o),
        map_wf(m),
    ensures
        map_first_duke_at(m, first, o),
        map_duke_coords(m, o) == first,
{
    let d0 = choose|d: Coordinates| map_duke_at(m, d, o);
    assert(map_duke_at(m, d0, o));
    let first = lemma_first_duke_below(m, o, d0);
    lemma_duke_coords_is(m, first, o);
    first
}

/// There is a first duke square at or before any given duke square (in column
/// order).
proof fn lemma_first_duke_below(m: TileMap, o: Owner, d: Coordinates) -> (first: Coordinates)
    requires
        map_duke_at(m, d, o),
        map_wf(m),
    ensures
        map_first_duke_at(m, first, o),
        col_major_le(first, d),
    decreases d.x * 6 + d.y,
{
    if forall|d2: Coordinates| map_duke_at(m, d2, o) ==> col_major_le(d, d2) {
        d
    } else {
        let d2 = choose|d2: Coordinates| map_duke_at(m, d2, o) && !col_major_le(d, d2);
        assert(map_duke_at(m, d2, o));
        assert(on_board(d2));
        assert(col_major_le(d2, d) && d2 != d);
        assert(d2.x * 6 + d2.y < d.x * 6 + d.y) by (nonlinear_arith)
            requires
                d2.x < d.x || (d2.x == d.x && d2.y < d.y),
                d2.x < 6 && d2.y < 6 && d.x < 6 && d.y < 6,
        ;
        lemma_first_duke_below(m, o, d2)
    }
}

/// A guard-ignoring move is insensitive to replacing the tile on a square
/// that is neither its source nor relevant to the duke: two maps with the
/// same domain, equal everywhere except one square that is neither `src` nor
/// `dst`, enable the same moves from `src` to `dst`.
proof fn lemma_move_enabled_same_dom(
    m1: TileMap,
    m2: TileMap,
    src: Coordinates,
    dst: Coordinates,
    a: TileAction,
)
    requires
        m1.dom() == m2.dom(),
        m1.dom().contains(src),
        m1[src] == m2[src],
        m1.dom().contains(dst) ==> m1[dst].owner == m2[dst].owner,
        map_move_enabled(m1, src, dst, a),
    ensures
        map_move_enabled(m2, src, dst, a),
{
    reveal(map_unobstructed);
    assert(map_action_of(m1, src, dst) == map_action_of(m2, src, dst));
    assert forall|aa: TileAction|
        map_can_apply_action(m1, src, dst, aa) implies map_can_apply_action(m2, src, dst, aa) by {}
    assert(map_classify(m2, src, dst) != AppliedPubAction::Invalid);
    let g = choose|g: Coordinates|
        g.x < 5 && g.y < 5 && #[trigger] m1[src].spec_current_side().spec_at(g) == Some(a) && a
            != TileAction::Unit && a != TileAction::Command && spec_target_from_cell(
            src,
            g,
            a,
            m1[src].spec_current_side().spec_unit_row(),
            dst,
        );
    assert(m2[src].spec_current_side().spec_at(g) == Some(a));
}


/// Facts any applicable move grants.
pub proof fn lemma_classify_valid_facts(m: TileMap, src: Coordinates, dst: Coordinates)
    requires
        map_classify(m, src, dst) != AppliedPubAction::Invalid,
    ensures
        m.dom().contains(src),
        on_board(dst),
        src != dst,
        map_team_ok(m, src, dst),
        map_classify(m, src, dst) == AppliedPubAction::Strike ==> m.dom().contains(dst),
{
}

/// Applying a move of `owner`'s own tile keeps `owner`'s duke on the board.
pub proof fn lemma_apply_keeps_duke(m: TileMap, src: Coordinates, dst: Coordinates, owner: Owner)
    requires
        map_classify(m, src, dst) != AppliedPubAction::Invalid,
        m.dom().contains(src),
        m[src].owner == owner,
        map_has_duke(m, owner),
    ensures
        map_has_duke(map_apply_action(m, src, dst), owner),
{
    lemma_classify_valid_facts(m, src, dst);
    let d = choose|d: Coordinates| map_duke_at(m, d, owner);
    assert(map_duke_at(m, d, owner));
    let ma = map_apply_action(m, src, dst);
    if map_classify(m, src, dst) == AppliedPubAction::Strike {
        assert(d != dst);
        if d == src {
            assert(map_duke_at(ma, src, owner));
        } else {
            assert(map_duke_at(ma, d, owner));
        }
    } else {
        if d == src {
            assert(map_duke_at(ma, dst, owner));
        } else {
            assert(d != dst);
            assert(map_duke_at(ma, d, owner));
        }
    }
}

/// The tile placed for an owner: the given tile, mirrored once for the top
/// player.
#[verifier::opaque]
pub open spec fn spec_placed_for(tile: Tile, owner: Owner, p: PlacedTile) -> bool {
    &&& p.wf()
    &&& p.owner == owner
    &&& p.current_side == CurrentSide::Initial
    &&& p.tile.spec_name() == tile.spec_name()
    &&& (owner == Owner::BottomPlayer ==> p.tile == tile)
    &&& (owner == Owner::TopPlayer ==> crate::tile::spec_mirrored(tile, p.tile))
}

/// The square a placement offset names is on the board and empty.
pub open spec fn map_placement_cell_free(m: TileMap, o: Owner, offset: DukeOffset) -> bool {
    match spec_absolute_offset(offset, map_duke_coords(m, o)) {
        None => false,
        Some(c) => !m.dom().contains(c),
    }
}

/// An action move `owner` may pick, optionally checked for guard safety.
pub open spec fn map_apply_ok(
    m: TileMap,
    src: Coordinates,
    dst: Coordinates,
    owner: Owner,
    check_guard: bool,
) -> bool {
    &&& m.dom().contains(src)
    &&& m[src].owner == owner
    &&& exists|a: TileAction| map_move_enabled(m, src, dst, a)
    &&& (check_guard ==> !map_is_guard(map_apply_action(m, src, dst), owner))
}

/// A possible move of `owner`, with its remembered capture, is sound for the
/// board: placements name a free square next to the duke (and pass the guard
/// check when asked), actions are enabled (and guard-safe when asked), and
/// the capture snapshot matches what stands at the destination.
pub open spec fn map_possible_ok(
    m: TileMap,
    owner: Owner,
    pm: PossibleMove,
    with_new: bool,
    check_guard: bool,
) -> bool {
    match pm {
        PossibleMove::PlaceNewTile(offset, o2) => {
            &&& with_new
            &&& o2 == owner
            &&& if check_guard {
                map_is_valid_placement(m, owner, offset)
            } else {
                map_placement_cell_free(m, owner, offset)
            }
        },
        PossibleMove::ApplyNonCommandTileAction { src, dst, capturing } => {
            &&& on_board(src)
            &&& on_board(dst)
            &&& map_apply_ok(m, src, dst, owner, check_guard)
            &&& match capturing {
                Some(ct) => m.dom().contains(dst) && ct@ == m[dst]@ && ct.wf(),
                None => !m.dom().contains(dst),
            }
        },
    }
}

#[derive(Debug, Clone, PartialEq, Eq)]
pub struct GameBoard {
    board: Board<PlacedTile>,
}

impl GameBoard {
    pub closed spec fn spec_board(self) -> Board<PlacedTile> {
        self.board
    }

    /// The tile (if any) on a board square.
    pub open spec fn tile_at(self, c: Coordinates) -> Option<PlacedTile> {
        self.spec_board().spec_at(c)
    }

    /// A six-by-six board whose tiles all obey the tile shape rules.
    pub open spec fn wf(self) -> bool {
        &&& self.spec_board().inv()
        &&& self.spec_board().spec_width() == 6
        &&& self.spec_board().spec_height() == 6
        &&& forall|c: Coordinates|
            on_board(c) ==> match #[trigger] self.tile_at(c) {
                Some(t) => t.wf(),
                None => true,
            }
    }

    /// The board's content as a map from occupied squares to their tiles.
    #[verifier::opaque]
    pub open spec fn spec_tiles_map(self) -> TileMap {
        Map::new(
            |c: Coordinates| on_board(c) && self.tile_at(c) is Some,
            |c: Coordinates| self.tile_at(c).unwrap(),
        )
    }

    /// A well-formed board's tile map is well formed.
    pub proof fn lemma_wf_map(self)
        requires
            self.wf(),
        ensures
            map_wf(self.spec_tiles_map()),
            forall|c: Coordinates|
                #[trigger] self.spec_tiles_map().dom().contains(c) <==> (on_board(c)
                    && self.tile_at(c) is Some),
            forall|c: Coordinates|
                self.spec_tiles_map().dom().contains(c) ==> #[trigger] self.spec_tiles_map()[c]
                    == self.tile_at(c).unwrap(),
    {
        reveal(GameBoard::spec_tiles_map);
        assert forall|c: Coordinates|
            #[trigger] self.spec_tiles_map().dom().contains(c) implies on_board(c)
            && self.spec_tiles_map()[c].wf() by {
            assert(self.tile_at(c) is Some);
        }
    }

    pub(crate) fn new(board: Board<PlacedTile>) -> (r: GameBoard)
        requires
            board.inv(),
            board.spec_width() == 6,
            board.spec_height() == 6,
            forall|c: Coordinates|
                board.spec_in_bounds(c) ==> match #[trigger] board.spec_at(c) {
                    Some(t) => t.wf(),
                    None => true,
                },
        ensures
            r.wf(),
            forall|c: Coordinates| on_board(c) ==> #[trigger] r.tile_at(c) == board.spec_at(c),
    {
        GameBoard { board }
    }

    /// A board with no tiles.
    pub fn empty() -> (r: GameBoard)
        ensures
            r.wf(),
            r.spec_tiles_map() == Map::<Coordinates, PlacedTile>::empty(),
    {
        let r = GameBoard { board: Board::square(BOARD_SIZE) };
        proof {
            reveal(GameBoard::spec_tiles_map);
            assert forall|c: Coordinates| on_board(c) implies #[trigger] r.tile_at(c) is None by {
                assert(r.spec_board().spec_in_bounds(c));
            }
            assert(r.spec_tiles_map() =~= Map::<Coordinates, PlacedTile>::empty());
        }
        r
    }

    pub fn get_board(&self) -> (r: &Board<PlacedTile>)
        ensures
            *r == self.spec_board(),
    {
        &self.board
    }

    pub fn get(&self, c: Coordinates) -> (r: Option<&PlacedTile>)
        requires
            self.wf(),
            on_board(c),
        ensures
            match r {
                Some(t) => self.tile_at(c) == Some(*t) && self.spec_tiles_map().dom().contains(c)
                    && self.spec_tiles_map()[c] == *t,
                None => self.tile_at(c) is None && !self.spec_tiles_map().dom().contains(c),
            },
    {
        proof {
            reveal(GameBoard::spec_tiles_map);
        }
        self.board.get(c)
    }

    /// Puts a tile on an empty square.
    pub fn place(&mut self, c: Coordinates, t: PlacedTile)
        requires
            old(self).wf(),
            on_board(c),
            !old(self).spec_tiles_map().dom().contains(c),
            t.wf(),
        ensures
            final(self).wf(),
            final(self).spec_tiles_map() == old(self).spec_tiles_map().insert(c, t),
    {
        proof {
            reveal(GameBoard::spec_tiles_map);
        }
        self.board.put(c, t);
        proof {
            reveal(GameBoard::spec_tiles_map);
            assert forall|c2: Coordinates| on_board(c2) && c2 != c implies #[trigger] self.tile_at(
                c2,
            ) == old(self).tile_at(c2) by {
                assert(self.spec_board().spec_in_bounds(c2));
            }
            assert(self.tile_at(c) == Some(t));
            assert(self.spec_tiles_map() =~= old(self).spec_tiles_map().insert(c, t));
            assert forall|c2: Coordinates| on_board(c2) implies match #[trigger] self.tile_at(c2) {
                Some(t2) => t2.wf(),
                None => true,
            } by {
                if c2 != c {
                    assert(self.tile_at(c2) == old(self).tile_at(c2));
                }
            }
        }
    }

    /// Takes the tile off an occupied square.
    fn remove(&mut self, c: Coordinates) -> (r: PlacedTile)
        requires
            old(self).wf(),
            on_board(c),
            old(self).spec_tiles_map().dom().contains(c),
        ensures
            final(self).wf(),
            r == old(self).spec_tiles_map()[c],
            final(self).spec_tiles_map() == old(self).spec_tiles_map().remove(c),
    {
        proof {
            reveal(GameBoard::spec_tiles_map);
        }
        let r = match self.board.remove(c) {
            Some(t) => t,
            None => unreached(),
        };
        proof {
            reveal(GameBoard::spec_tiles_map);
            assert forall|c2: Coordinates| on_board(c2) && c2 != c implies #[trigger] self.tile_at(
                c2,
            ) == old(self).tile_at(c2) by {
                assert(self.spec_board().spec_in_bounds(c2));
            }
            assert(self.tile_at(c) is None);
            assert(self.spec_tiles_map() =~= old(self).spec_tiles_map().remove(c));
            assert forall|c2: Coordinates| on_board(c2) implies match #[trigger] self.tile_at(c2) {
                Some(t2) => t2.wf(),
                None => true,
            } by {
                if c2 != c {
                    assert(self.tile_at(c2) == old(self).tile_at(c2));
                }
            }
        }
        r
    }

    /// The board square a duke offset names for `o`'s duke.
    fn absolute_duke_offset(&self, offset: DukeOffset, c: Coordinates) -> (r: Option<Coordinates>)
        requires
            self.wf(),
            on_board(c),
        ensures
            r == spec_absolute_offset(offset, c),
    {
        match offset {
            DukeOffset::Top => if c.y > 0 {
                Some(Coordinates { x: c.x, y: c.y - 1 })
            } else {
                None
            },
            DukeOffset::Bottom => if c.y < self.board.height() - 1 {
                Some(Coordinates { x: c.x, y: c.y + 1 })
            } else {
                None
            },
            DukeOffset::Left => if c.x > 0 {
                Some(Coordinates { x: c.x - 1, y: c.y })
            } else {
                None
            },
            DukeOffset::Right => if c.x < self.board.width() - 1 {
                Some(Coordinates { x: c.x + 1, y: c.y })
            } else {
                None
            },
        }
    }

    /// The square where `o`'s duke stands (the first one found, columns
    /// first, if the board were ever to hold more than one).
    pub fn duke_coordinates(&self, o: Owner) -> (r: Coordinates)
        requires
            self.wf(),
            map_has_duke(self.spec_tiles_map(), o),
        ensures
            r == map_duke_coords(self.spec_tiles_map(), o),
            map_duke_at(self.spec_tiles_map(), r, o),
            on_board(r),
    {
        let ghost m = self.spec_tiles_map();
        proof {
            self.lemma_wf_map();
        }
        let mut x: u16 = 0;
        while x < 6
            invariant
                self.wf(),
                m == self.spec_tiles_map(),
                map_wf(m),
                x <= 6,
                forall|c: Coordinates| c.x < x && c.y < 6 ==> !map_duke_at(m, c, o),
            decreases 6 - x,
        {
            let mut y: u16 = 0;
            while y < 6
                invariant
                    self.wf(),
                    m == self.spec_tiles_map(),
                    map_wf(m),
                    x < 6,
                    y <= 6,
                    forall|c: Coordinates|
                        (c.x < x || (c.x == x && c.y < y)) && c.x < 6 && c.y < 6 ==> !map_duke_at(
                            m,
                            c,
                            o,
                        ),
                decreases 6 - y,
            {
                let c = Coordinates { x, y };
                let found: bool = match self.get(c) {
                    Some(t) => t.owner == o && is_duke(&t.tile),
                    None => false,
                };
                if found {
                    proof {
                        assert(map_duke_at(m, c, o));
                        assert forall|c2: Coordinates| map_duke_at(m, c2, o) implies col_major_le(
                            c,
                            c2,
                        ) by {
                            assert(on_board(c2));
                        }
                        lemma_duke_coords_is(m, c, o);
                    }
                    return c;
                }
                y = y + 1;
            }
            x = x + 1;
        }
        proof {
            let c0 = choose|c: Coordinates| map_duke_at(m, c, o);
            assert(map_duke_at(m, c0, o));
            assert(on_board(c0));
            assert(false);
        }
        unreached()
    }

    /// The square a duke offset names for `o`'s duke, when it is on board.
    pub fn to_absolute_duke_offset(&self, offset: DukeOffset, o: Owner) -> (r: Option<Coordinates>)
        requires
            self.wf(),
            map_has_duke(self.spec_tiles_map(), o),
        ensures
            r == spec_absolute_offset(offset, map_duke_coords(self.spec_tiles_map(), o)),
    {
        let c = self.duke_coordinates(o);
        self.absolute_duke_offset(offset, c)
    }
}


impl GameBoard {
    /// Whether the straight path toward `dst` is free (the destination itself
    /// for diagonally adjacent squares).
    fn unobstructed(&self, src: Coordinates, dst: Coordinates) -> (r: bool)
        requires
            self.wf(),
            on_board(src),
            on_board(dst),
            src.is_linear_to(dst),
        ensures
            r == map_unobstructed(self.spec_tiles_map(), src, dst),
    {
        proof {
            reveal(map_unobstructed);
        }
        let ghost m = self.spec_tiles_map();
        if src.is_near(dst) {
            match self.get(dst) {
                Some(_) => false,
                None => true,
            }
        } else {
            let path = src.linear_path_to(dst);
            proof {
                reveal(map_unobstructed);
            }
            let mut i: usize = 0;
            while i < path.len()
                invariant
                    self.wf(),
                    m == self.spec_tiles_map(),
                    on_board(src),
                    on_board(dst),
                    src.is_linear_to(dst),
                    path@ == src.spec_linear_path(dst),
                    i <= path@.len(),
                    forall|j: int| 0 <= j < i ==> !m.dom().contains(#[trigger] path@[j]),
                decreases path@.len() - i,
            {
                let c = path[i];
                proof {
                    reveal(map_unobstructed);
                    assert(on_board(c));
                }
                let occupied: bool = match self.get(c) {
                    Some(_) => true,
                    None => false,
                };
                if occupied {
                    return false;
                }
                i = i + 1;
            }
            true
        }
    }

    /// Whether `a` can be applied from `src` to `dst`.
    fn can_apply_action(&self, src: Coordinates, dst: Coordinates, action: TileAction) -> (r: bool)
        requires
            self.wf(),
            on_board(src),
            on_board(dst),
            self.spec_tiles_map().dom().contains(src),
        ensures
            r == map_can_apply_action(self.spec_tiles_map(), src, dst, action),
    {
        let src_owner: Owner = match self.get(src) {
            Some(t) => t.owner,
            None => unreached(),
        };
        let team_ok: bool = match self.get(dst) {
            Some(t) => t.owner != src_owner,
            None => true,
        };
        if !team_ok {
            return false;
        }
        match action {
            TileAction::Move => src.is_straight_line_to(dst) && !(src == dst) && self.unobstructed(
                src,
                dst,
            ),
            TileAction::Slide => src.is_straight_line_to(dst) && !(src == dst) && self.unobstructed(
                src,
                dst,
            ),
            TileAction::Jump => true,
            TileAction::Strike => match self.get(dst) {
                Some(_) => true,
                None => false,
            },
            _ => false,
        }
    }

    /// How the move from `src` to `dst` classifies on the current board.
    fn can_apply(&self, src: Coordinates, dst: Coordinates) -> (r: AppliedPubAction)
        requires
            self.wf(),
            on_board(src),
            on_board(dst),
            self.spec_tiles_map().dom().contains(src),
        ensures
            r == map_classify(self.spec_tiles_map(), src, dst),
    {
        let action: Option<TileAction> = match self.get(src) {
            Some(t) => t.get_action_from_coordinates(src, dst),
            None => unreached(),
        };
        match action {
            None => AppliedPubAction::Invalid,
            Some(a) => {
                if !self.can_apply_action(src, dst, a) {
                    AppliedPubAction::Invalid
                } else if a == TileAction::Strike {
                    AppliedPubAction::Strike
                } else {
                    AppliedPubAction::Movement
                }
            },
        }
    }

    /// Whether the tile at `src` may move to (or strike) `dst`.
    pub fn can_move(&self, src: Coordinates, dst: Coordinates) -> (r: bool)
        requires
            self.wf(),
            on_board(src),
            on_board(dst),
            self.spec_tiles_map().dom().contains(src),
        ensures
            r == (map_classify(self.spec_tiles_map(), src, dst) != AppliedPubAction::Invalid),
    {
        let c = self.can_apply(src, dst);
        !(c == AppliedPubAction::Invalid)
    }

    /// The absolute square a relative offset reaches from `src`, anchored to
    /// a side whose unit sits at `center`.
    fn to_absolute_coordinate(
        &self,
        src: Coordinates,
        offset: Offsets,
        center: VerticalOffset,
    ) -> (r: Option<Coordinates>)
        requires
            self.wf(),
            on_board(src),
        ensures
            r == spec_step_target(src, spec_coords_of(offset), center.spec_index()),
    {
        let g = offset.to_coordinates();
        let x: i32 = src.x as i32 + g.x as i32 - 2;
        let y: i32 = src.y as i32 + g.y as i32 - center.to_index() as i32;
        if 0 <= x && x < 6 && 0 <= y && y < 6 {
            Some(Coordinates { x: x as u16, y: y as u16 })
        } else {
            None
        }
    }

    /// Every square a grid cell's action reaches from `src`, nearest first.
    fn target_coordinates(
        &self,
        src: Coordinates,
        offset: Offsets,
        action: TileAction,
        center: VerticalOffset,
    ) -> (r: Vec<Coordinates>)
        requires
            self.wf(),
            on_board(src),
            action == TileAction::Move || action == TileAction::Jump || action
                == TileAction::Strike || action == TileAction::Slide,
            action == TileAction::Slide ==> {
                &&& spec_dist(spec_coords_of(offset).x as int, 2) <= 1
                &&& spec_dist(spec_coords_of(offset).y as int, 2) <= 1
                &&& spec_coords_of(offset) != (Coordinates { x: 2, y: 2 })
            },
        ensures
            forall|i: int|
                0 <= i < r@.len() ==> spec_target_from_cell(
                    src,
                    spec_coords_of(offset),
                    action,
                    center.spec_index(),
                    #[trigger] r@[i],
                ),
            forall|dst: Coordinates|
                spec_target_from_cell(src, spec_coords_of(offset), action, center.spec_index(), dst)
                    ==> exists|i: int| 0 <= i < r@.len() && (#[trigger] r@[i]) == dst,
            forall|i: int, j: int| 0 <= i < j < r@.len() ==> r@[i] != r@[j],
    {
        let ghost g = spec_coords_of(offset);
        let ghost u = center.spec_index();
        match action {
            TileAction::Move | TileAction::Jump | TileAction::Strike => {
                let mut r: Vec<Coordinates> = Vec::new();
                match self.to_absolute_coordinate(src, offset, center) {
                    Some(c) => {
                        r.push(c);
                        proof {
                            assert forall|dst: Coordinates|
                                spec_target_from_cell(src, g, action, u, dst) implies exists|i: int|
                                0 <= i < r@.len() && (#[trigger] r@[i]) == dst by {
                                assert(r@[0] == dst);
                            }
                        }
                    },
                    None => (),
                }
                r
            },
            TileAction::Slide => {
                let gc = offset.to_coordinates();
                let dx: i32 = gc.x as i32 - 2;
                let dy: i32 = gc.y as i32 - 2;
                let mut cx: i32 = src.x as i32;
                let mut cy: i32 = src.y as i32;
                let mut r: Vec<Coordinates> = Vec::new();
                let mut k: u16 = 0;
                while k < 5
                    invariant
                        dx == g.x - 2,
                        dy == g.y - 2,
                        !(dx == 0 && dy == 0),
                        -1 <= dx <= 1,
                        -1 <= dy <= 1,
                        on_board(src),
                        k <= 5,
                        cx == spec_axis_at(src.x as int, dx as int, k as int),
                        cy == spec_axis_at(src.y as int, dy as int, k as int),
                        r@.len() <= k,
                        forall|i: int|
                            0 <= i < r@.len() ==> {
                                &&& (#[trigger] r@[i]).x == spec_axis_at(
                                    src.x as int,
                                    dx as int,
                                    i + 1,
                                )
                                &&& r@[i].y == spec_axis_at(src.y as int, dy as int, i + 1)
                                &&& on_board(r@[i])
                            },
                        r@.len() < k ==> !(0 <= spec_axis_at(
                            src.x as int,
                            dx as int,
                            r@.len() + 1 as int,
                        ) < 6 && 0 <= spec_axis_at(src.y as int, dy as int, r@.len() + 1 as int)
                            < 6),
                    decreases 5 - k,
                {
                    cx = cx + dx;
                    cy = cy + dy;
                    k = k + 1;
                    if 0 <= cx && cx < 6 && 0 <= cy && cy < 6 {
                        proof {
                            assert(r@.len() == k - 1);
                        }
                        r.push(Coordinates { x: cx as u16, y: cy as u16 });
                    }
                }
                proof {
                    assert forall|i: int|
                        0 <= i < r@.len() implies spec_target_from_cell(
                        src,
                        g,
                        action,
                        u,
                        #[trigger] r@[i],
                    ) by {
                        assert(spec_on_ray(src, g, r@[i]));
                    }
                    assert forall|dst: Coordinates|
                        spec_target_from_cell(src, g, action, u, dst) implies exists|i: int|
                        0 <= i < r@.len() && (#[trigger] r@[i]) == dst by {
                        let s = if g.x != 2 {
                            spec_dist(dst.x as int, src.x as int)
                        } else {
                            spec_dist(dst.y as int, src.y as int)
                        };
                        assert(1 <= s <= 5);
                        assert(dst.x == spec_axis_at(src.x as int, dx as int, s));
                        assert(dst.y == spec_axis_at(src.y as int, dy as int, s));
                        if s <= r@.len() {
                            assert(r@[s - 1] == dst);
                        } else {
                            assert(r@.len() < 5);
                            let b = r@.len() + 1 as int;
                            assert(!(0 <= spec_axis_at(src.x as int, dx as int, b) < 6 && 0
                                <= spec_axis_at(src.y as int, dy as int, b) < 6));
                            assert(0 <= spec_axis_at(src.x as int, dx as int, s) < 6);
                            assert(0 <= spec_axis_at(src.y as int, dy as int, s) < 6);
                            assert(b <= s);
                            assert(false);
                        }
                    }
                }
                r
            },
            _ => {
                proof {
                    assert(false);
                }
                unreached()
            },
        }
    }
}


/// Whether the list already holds the tagged move.
fn contains_move(v: &Vec<(Coordinates, TileAction)>, dst: Coordinates, a: TileAction) -> (r: bool)
    ensures
        r == exists|i: int| 0 <= i < v@.len() && (#[trigger] v@[i]) == (dst, a),
{
    let mut i: usize = 0;
    while i < v.len()
        invariant
            i <= v@.len(),
            forall|j: int| 0 <= j < i ==> (#[trigger] v@[j]) != (dst, a),
        decreases v@.len() - i,
    {
        let (d, act) = v[i];
        if d.x == dst.x && d.y == dst.y && act == a {
            proof {
                assert(v@[i as int] == (dst, a));
            }
            return true;
        }
        i = i + 1;
    }
    false
}

impl GameBoard {
    /// Appends, with its tag, every target square where `a` is applicable.
    #[verifier::rlimit(100)]
    fn append_applicable(
        &self,
        src: Coordinates,
        a: TileAction,
        targets: &Vec<Coordinates>,
        r: &mut Vec<(Coordinates, TileAction)>,
        g: Ghost<Coordinates>,
    )
        requires
            self.wf(),
            on_board(src),
            self.spec_tiles_map().dom().contains(src),
            a != TileAction::Unit && a != TileAction::Command,
            g@.x < 5 && g@.y < 5,
            self.spec_tiles_map()[src].spec_current_side().spec_at(g@) == Some(a),
            forall|i: int|
                0 <= i < targets@.len() ==> on_board(#[trigger] targets@[i])
                    && spec_target_from_cell(
                    src,
                    g@,
                    a,
                    self.spec_tiles_map()[src].spec_current_side().spec_unit_row(),
                    targets@[i],
                ),
            forall|i: int|
                0 <= i < old(r)@.len() ==> map_move_enabled(
                    self.spec_tiles_map(),
                    src,
                    (#[trigger] old(r)@[i]).0,
                    old(r)@[i].1,
                ),
        ensures
            final(r)@.len() >= old(r)@.len(),
            forall|i: int| 0 <= i < old(r)@.len() ==> (#[trigger] final(r)@[i]) == old(r)@[i],
            forall|i: int|
                0 <= i < final(r)@.len() ==> map_move_enabled(
                    self.spec_tiles_map(),
                    src,
                    (#[trigger] final(r)@[i]).0,
                    final(r)@[i].1,
                ),
            forall|i: int|
                0 <= i < targets@.len() && map_can_apply_action(
                    self.spec_tiles_map(),
                    src,
                    #[trigger] targets@[i],
                    a,
                ) && map_classify(self.spec_tiles_map(), src, targets@[i])
                    != AppliedPubAction::Invalid ==> exists|i2: int|
                    0 <= i2 < final(r)@.len() && (#[trigger] final(r)@[i2]) == (targets@[i], a),
            old(r)@.no_duplicates() ==> final(r)@.no_duplicates(),
    {
        let ghost m = self.spec_tiles_map();
        let ghost r0 = r@;
        let mut ti: usize = 0;
        while ti < targets.len()
            invariant
                self.wf(),
                m == self.spec_tiles_map(),
                on_board(src),
                m.dom().contains(src),
                a != TileAction::Unit && a != TileAction::Command,
                g@.x < 5 && g@.y < 5,
                m[src].spec_current_side().spec_at(g@) == Some(a),
                forall|i: int|
                    0 <= i < targets@.len() ==> on_board(#[trigger] targets@[i])
                        && spec_target_from_cell(
                        src,
                        g@,
                        a,
                        m[src].spec_current_side().spec_unit_row(),
                        targets@[i],
                    ),
                ti <= targets@.len(),
                r@.len() >= r0.len(),
                forall|i: int| 0 <= i < r0.len() ==> (#[trigger] r@[i]) == r0[i],
                forall|i: int|
                    0 <= i < r@.len() ==> map_move_enabled(
                        m,
                        src,
                        (#[trigger] r@[i]).0,
                        r@[i].1,
                    ),
                forall|i: int|
                    0 <= i < ti && map_can_apply_action(m, src, #[trigger] targets@[i], a)
                        && map_classify(m, src, targets@[i]) != AppliedPubAction::Invalid
                        ==> exists|i2: int|
                        0 <= i2 < r@.len() && (#[trigger] r@[i2]) == (targets@[i], a),
                r0.no_duplicates() ==> r@.no_duplicates(),
            decreases targets@.len() - ti,
        {
            let ghost r_pre = r@;
            let dst = targets[ti];
            if self.can_apply_action(src, dst, a) && self.can_move(src, dst) && !contains_move(
                &r,
                dst,
                a,
            ) {
                r.push((dst, a));
                proof {
                    assert(map_move_enabled(m, src, dst, a));
                    assert(r@[r@.len() - 1] == (dst, a));
                    if r_pre.no_duplicates() {
                        assert forall|i: int, j: int|
                            0 <= i < j < r@.len() implies r@[i] != r@[j] by {
                            if j < r@.len() - 1 {
                                assert(r@[i] == r_pre[i] && r@[j] == r_pre[j]);
                            } else {
                                assert(r@[i] == r_pre[i]);
                            }
                        }
                        assert(r@.no_duplicates());
                    }
                }
            }
            proof {
                assert forall|i: int|
                    0 <= i < ti + 1 && map_can_apply_action(m, src, #[trigger] targets@[i], a)
                        && map_classify(m, src, targets@[i])
                        != AppliedPubAction::Invalid implies exists|i2: int|
                    0 <= i2 < r@.len() && (#[trigger] r@[i2]) == (targets@[i], a) by {
                    if i < ti || r@.len() == r_pre.len() {
                        let i2 = choose|i2: int|
                            0 <= i2 < r_pre.len() && (#[trigger] r_pre[i2]) == (targets@[i], a);
                        assert(r@[i2] == r_pre[i2]);
                    } else {
                        assert(r@[r@.len() - 1] == (targets@[i], a));
                    }
                }
            }
            ti = ti + 1;
        }
    }

    /// Whether the tile at `src` has a guard-ignoring move onto `target`.
    fn attacks_square(&self, src: Coordinates, target: Coordinates) -> (r: bool)
        requires
            self.wf(),
            on_board(src),
            self.spec_tiles_map().dom().contains(src),
        ensures
            r == exists|a: TileAction|
                map_move_enabled(self.spec_tiles_map(), src, target, a),
    {
        let ghost m = self.spec_tiles_map();
        let moves = self.legal_moves_raw(src);
        let mut i: usize = 0;
        while i < moves.len()
            invariant
                m == self.spec_tiles_map(),
                i <= moves@.len(),
                forall|ii: int|
                    0 <= ii < moves@.len() ==> map_move_enabled(
                        m,
                        src,
                        (#[trigger] moves@[ii]).0,
                        moves@[ii].1,
                    ),
                forall|dst: Coordinates, a: TileAction|
                    map_move_enabled(m, src, dst, a) ==> exists|ii: int|
                        0 <= ii < moves@.len() && (#[trigger] moves@[ii]) == (dst, a),
                forall|j: int| 0 <= j < i ==> (#[trigger] moves@[j]).0 != target,
            decreases moves@.len() - i,
        {
            let (dst, a) = moves[i];
            if dst.x == target.x && dst.y == target.y {
                proof {
                    assert(moves@[i as int] == (dst, a));
                    assert(map_move_enabled(m, src, target, a));
                }
                return true;
            }
            i = i + 1;
        }
        proof {
            assert forall|a: TileAction| !map_move_enabled(m, src, target, a) by {
                if map_move_enabled(m, src, target, a) {
                    let ii = choose|ii: int|
                        0 <= ii < moves@.len() && (#[trigger] moves@[ii]) == (target, a);
                    assert(moves@[ii].0 == target);
                }
            }
        }
        false
    }
}

impl GameBoard {
    /// Every move the tile at `src` can make, ignoring guard safety, tagged
    /// with its action kind.
    #[verifier::rlimit(60)]
    fn legal_moves_raw(&self, src: Coordinates) -> (r: Vec<(Coordinates, TileAction)>)
        requires
            self.wf(),
            on_board(src),
            self.spec_tiles_map().dom().contains(src),
        ensures
            forall|i: int|
                0 <= i < r@.len() ==> map_move_enabled(
                    self.spec_tiles_map(),
                    src,
                    (#[trigger] r@[i]).0,
                    r@[i].1,
                ),
            forall|dst: Coordinates, a: TileAction|
                map_move_enabled(self.spec_tiles_map(), src, dst, a) ==> exists|i: int|
                    0 <= i < r@.len() && (#[trigger] r@[i]) == (dst, a),
            r@.no_duplicates(),
    {
        let ghost m = self.spec_tiles_map();
        let tile = match self.get(src) {
            Some(t) => t,
            None => unreached(),
        };
        let ghost side = tile.spec_current_side();
        let tside = tile.get_current_side();
        proof {
            assert(m[src] == *tile);
            assert(tile.wf());
        }
        let center = tside.center_offset();
        let ghost u = side.spec_unit_row();
        let acts = tside.actions();
        let mut r: Vec<(Coordinates, TileAction)> = Vec::new();
        let mut k: usize = 0;
        while k < acts.len()
            invariant
                self.wf(),
                m == self.spec_tiles_map(),
                on_board(src),
                m.dom().contains(src),
                m[src].spec_current_side() == side,
                side.valid_shape(),
                u == side.spec_unit_row(),
                center.spec_index() == u,
                k <= acts@.len(),
                forall|i: int|
                    0 <= i < acts@.len() ==> {
                        &&& spec_coords_of((#[trigger] acts@[i]).0).x < 5
                        &&& spec_coords_of(acts@[i].0).y < 5
                        &&& side.spec_at(spec_coords_of(acts@[i].0)) == Some(acts@[i].1)
                    },
                forall|c: Coordinates|
                    c.x < 5 && c.y < 5 && (#[trigger] side.spec_at(c)) is Some ==> exists|i: int|
                        0 <= i < acts@.len() && spec_coords_of(#[trigger] acts@[i].0) == c,
                forall|i: int|
                    0 <= i < r@.len() ==> map_move_enabled(m, src, (#[trigger] r@[i]).0, r@[i].1),
                r@.no_duplicates(),
                forall|dst: Coordinates, a: TileAction, j: int|
                    #![trigger spec_target_from_cell(src, spec_coords_of(acts@[j].0), a, u, dst)]
                    0 <= j < k && acts@[j].1 == a && a != TileAction::Unit && a
                        != TileAction::Command && spec_target_from_cell(
                        src,
                        spec_coords_of(acts@[j].0),
                        a,
                        u,
                        dst,
                    ) && map_can_apply_action(m, src, dst, a) && map_classify(m, src, dst)
                        != AppliedPubAction::Invalid ==> exists|i: int|
                        0 <= i < r@.len() && (#[trigger] r@[i]) == (dst, a),
            decreases acts@.len() - k,
        {
            let ghost r_prev = r@;
            let (o, a) = acts[k];
            let skip: bool = match a {
                TileAction::Unit => true,
                TileAction::Command => true,
                TileAction::JumpSlide => true,
                _ => false,
            };
            if !skip {
                proof {
                    if a == TileAction::Slide {
                        reveal(TileSide::slide_ok);
                        assert(side.spec_at(spec_coords_of(o)) == Some(TileAction::Slide));
                    }
                }
                let targets = self.target_coordinates(src, o, a, center);
                proof {
                    assert forall|i: int|
                        0 <= i < targets@.len() implies on_board(#[trigger] targets@[i])
                        && spec_target_from_cell(
                        src,
                        spec_coords_of(o),
                        a,
                        u,
                        targets@[i],
                    ) by {}
                }
                self.append_applicable(src, a, &targets, &mut r, Ghost(spec_coords_of(o)));
            }
            k = k + 1;
            proof {
                assert forall|dst: Coordinates, aa: TileAction, j: int|
                    #![trigger spec_target_from_cell(src, spec_coords_of(acts@[j].0), aa, u, dst)]
                    0 <= j < k && acts@[j].1 == aa && aa != TileAction::Unit && aa
                        != TileAction::Command && spec_target_from_cell(
                        src,
                        spec_coords_of(acts@[j].0),
                        aa,
                        u,
                        dst,
                    ) && map_can_apply_action(m, src, dst, aa) && map_classify(m, src, dst)
                        != AppliedPubAction::Invalid implies exists|i: int|
                    0 <= i < r@.len() && (#[trigger] r@[i]) == (dst, aa) by {
                    if j == k - 1 {
                        assert(acts@[j] == (o, a));
                    } else {
                        let i = choose|i: int|
                            0 <= i < r_prev.len() && (#[trigger] r_prev[i]) == (dst, aa);
                        assert(r@[i] == r_prev[i]);
                    }
                }
            }
        }
        proof {
            assert forall|dst: Coordinates, a: TileAction|
                map_move_enabled(m, src, dst, a) implies exists|i: int|
                0 <= i < r@.len() && (#[trigger] r@[i]) == (dst, a) by {
                let g = choose|g: Coordinates|
                    g.x < 5 && g.y < 5 && #[trigger] m[src].spec_current_side().spec_at(g) == Some(
                        a,
                    ) && a != TileAction::Unit && a != TileAction::Command && spec_target_from_cell(
                        src,
                        g,
                        a,
                        m[src].spec_current_side().spec_unit_row(),
                        dst,
                    );
                assert(side.spec_at(g) is Some);
                let j = choose|j: int|
                    0 <= j < acts@.len() && spec_coords_of(#[trigger] acts@[j].0) == g;
                assert(side.spec_at(spec_coords_of(acts@[j].0)) == Some(acts@[j].1));
                assert(acts@[j].1 == a);
            }
        }
        r
    }

    /// Every move the tile at `src` can make, ignoring whether it would leave
    /// the mover's own duke in guard.
    pub fn get_legal_moves_ignoring_guard(&self, src: Coordinates) -> (r: Vec<
        (Coordinates, TileAction),
    >)
        requires
            self.wf(),
            on_board(src),
            self.spec_tiles_map().dom().contains(src),
        ensures
            forall|i: int|
                0 <= i < r@.len() ==> map_move_enabled(
                    self.spec_tiles_map(),
                    src,
                    (#[trigger] r@[i]).0,
                    r@[i].1,
                ),
            forall|dst: Coordinates, a: TileAction|
                map_move_enabled(self.spec_tiles_map(), src, dst, a) ==> exists|i: int|
                    0 <= i < r@.len() && (#[trigger] r@[i]) == (dst, a),
            r@.no_duplicates(),
    {
        self.legal_moves_raw(src)
    }

    /// Whether `owner`'s duke is attacked: some enemy tile has a
    /// guard-ignoring move onto the duke's square.
    #[verifier::rlimit(60)]
    pub fn is_guard(&self, owner: Owner) -> (r: bool)
        requires
            self.wf(),
            map_has_duke(self.spec_tiles_map(), owner),
        ensures
            r == map_is_guard(self.spec_tiles_map(), owner),
    {
        proof {
            reveal(map_is_guard);
            self.lemma_wf_map();
        }
        let ghost m = self.spec_tiles_map();
        let duke = self.duke_coordinates(owner);
        let mut x: u16 = 0;
        while x < 6
            invariant
                self.wf(),
                m == self.spec_tiles_map(),
                map_wf(m),
                map_has_duke(m, owner),
                duke == map_duke_coords(m, owner),
                x <= 6,
                forall|src: Coordinates, a: TileAction|
                    src.x < x && src.y < 6 && m.dom().contains(src) && m[src].owner != owner
                        ==> !map_move_enabled(m, src, duke, a),
            decreases 6 - x,
        {
            let mut y: u16 = 0;
            while y < 6
                invariant
                    self.wf(),
                    m == self.spec_tiles_map(),
                    map_has_duke(m, owner),
                    duke == map_duke_coords(m, owner),
                    x < 6,
                    y <= 6,
                    forall|src: Coordinates, a: TileAction|
                        (src.x < x || (src.x == x && src.y < y)) && src.x < 6 && src.y < 6
                            && m.dom().contains(src) && m[src].owner != owner
                            ==> !map_move_enabled(m, src, duke, a),
                decreases 6 - y,
            {
                let c = Coordinates { x, y };
                let enemy: bool = match self.get(c) {
                    Some(t) => t.owner != owner,
                    None => false,
                };
                if enemy {
                    if self.attacks_square(c, duke) {
                        proof {
                            reveal(map_is_guard);
                            let a = choose|a: TileAction| map_move_enabled(m, c, duke, a);
                            assert(map_move_enabled(m, c, map_duke_coords(m, owner), a));
                        }
                        return true;
                    }
                }
                y = y + 1;
            }
            x = x + 1;
        }
        proof {
            reveal(map_is_guard);
            if map_is_guard(m, owner) {
                let (src, a) = choose|src: Coordinates, a: TileAction|
                    #![trigger map_move_enabled(m, src, map_duke_coords(m, owner), a)]
                    m.dom().contains(src) && m[src].owner != owner && map_move_enabled(
                        m,
                        src,
                        map_duke_coords(m, owner),
                        a,
                    );
                assert(on_board(src));
                assert(false);
            }
        }
        false
    }
}


impl GameBoard {
    /// Applies an already validated action: the mover flips; a strike removes
    /// the target in place, anything else relocates the mover.
    #[verifier::rlimit(100)]
    fn apply_action_mut(&mut self, src: Coordinates, dst: Coordinates)
        requires
            old(self).wf(),
            on_board(src),
            on_board(dst),
            map_classify(old(self).spec_tiles_map(), src, dst) != AppliedPubAction::Invalid,
        ensures
            final(self).wf(),
            final(self).spec_tiles_map() == map_apply_action(
                old(self).spec_tiles_map(),
                src,
                dst,
            ),
    {
        let ghost m0 = self.spec_tiles_map();
        proof {
            self.lemma_wf_map();
            lemma_classify_valid_facts(m0, src, dst);
        }
        let cls = self.can_apply(src, dst);
        match cls {
            AppliedPubAction::Movement => {
                let mut t = self.remove(src);
                let dst_occupied: bool = match self.get(dst) {
                    Some(_) => true,
                    None => false,
                };
                if dst_occupied {
                    let _captured = self.remove(dst);
                }
                t.flip();
                self.place(dst, t);
                proof {
                    assert(self.spec_tiles_map() =~= map_apply_action(m0, src, dst));
                }
            },
            AppliedPubAction::Strike => {
                let _captured = self.remove(dst);
                let mut t = self.remove(src);
                t.flip();
                self.place(src, t);
                proof {
                    assert(self.spec_tiles_map() =~= map_apply_action(m0, src, dst));
                }
            },
            AppliedPubAction::Invalid => unreached(),
        }
    }

    /// Places `tile` for `owner` on the empty square `c`.
    #[verifier::rlimit(60)]
    fn place_new(&mut self, tile: Tile, c: Coordinates, owner: Owner)
        requires
            old(self).wf(),
            on_board(c),
            !old(self).spec_tiles_map().dom().contains(c),
            tile.wf(),
        ensures
            final(self).wf(),
            exists|p: PlacedTile|
                #[trigger] spec_placed_for(tile, owner, p) && final(self).spec_tiles_map() == old(
                    self,
                ).spec_tiles_map().insert(c, p),
    {
        let p = PlacedTile::new_from_ref(owner, tile);
        proof {
            reveal(spec_placed_for);
            assert(spec_placed_for(tile, owner, p));
        }
        self.place(c, p);
    }

    /// A stand-in tile for placement checks: an owned, unflipped non-duke.
    fn fresh_blocker(owner: Owner) -> (r: PlacedTile)
        ensures
            spec_blocker(r, owner),
    {
        let t = crate::units::footman();
        let r = PlacedTile::new(owner, t);
        proof {
            reveal(spec_blocker);
            reveal_strlit("Footman");
            reveal_strlit("Duke");
            assert(r.tile.spec_name() == "Footman"@);
            assert("Footman"@.len() == 7 && "Duke"@.len() == 4);
            assert(r.tile.spec_name() != "Duke"@);
        }
        r
    }

    /// Whether every stand-in tile placed on the empty square `c` leaves
    /// `owner` out of guard. The board is restored before returning.
    #[verifier::rlimit(100)]
    fn placement_guard_free(&mut self, c: Coordinates, owner: Owner) -> (r: bool)
        requires
            old(self).wf(),
            map_has_duke(old(self).spec_tiles_map(), owner),
            on_board(c),
            !old(self).spec_tiles_map().dom().contains(c),
        ensures
            final(self).wf(),
            final(self).spec_tiles_map() == old(self).spec_tiles_map(),
            r == (forall|t: PlacedTile|
                spec_blocker(t, owner) ==> !map_is_guard(
                    #[trigger] old(self).spec_tiles_map().insert(c, t),
                    owner,
                )),
    {
        let ghost m0 = self.spec_tiles_map();
        proof {
            self.lemma_wf_map();
        }
        let blocker = GameBoard::fresh_blocker(owner);
        proof {
            reveal(spec_blocker);
        }
        self.place(c, blocker);
        proof {
            let d0 = choose|d: Coordinates| map_duke_at(m0, d, owner);
            assert(map_duke_at(m0, d0, owner));
            assert(map_duke_at(self.spec_tiles_map(), d0, owner));
        }
        let g = self.is_guard(owner);
        let _b = self.remove(c);
        proof {
            assert(self.spec_tiles_map() =~= m0);
            if !g {
                assert forall|t: PlacedTile| spec_blocker(t, owner) implies !map_is_guard(
                    #[trigger] m0.insert(c, t),
                    owner,
                ) by {
                    lemma_guard_blocker_independent(m0, c, blocker, t, owner);
                }
            } else {
                assert(map_is_guard(m0.insert(c, blocker), owner));
            }
        }
        !g
    }

    /// Carries out a fully determined move. The caller must have validated
    /// it: an invalid move is a caller error, ruled out by precondition.
    #[verifier::rlimit(100)]
    pub(crate) fn make_a_move(&mut self, gm: BoardMove)
        requires
            old(self).wf(),
            match gm {
                BoardMove::PlaceNewTile(tile, offset, owner) => {
                    &&& tile.wf()
                    &&& map_has_duke(old(self).spec_tiles_map(), owner)
                    &&& map_placement_cell_free(old(self).spec_tiles_map(), owner, offset)
                },
                BoardMove::ApplyNonCommandTileAction { src, dst } => {
                    &&& on_board(src)
                    &&& on_board(dst)
                    &&& map_classify(old(self).spec_tiles_map(), src, dst)
                        != AppliedPubAction::Invalid
                },
            },
        ensures
            final(self).wf(),
            match gm {
                BoardMove::PlaceNewTile(tile, offset, owner) => exists|p: PlacedTile|
                    {
                        &&& #[trigger] spec_placed_for(tile, owner, p)
                        &&& final(self).spec_tiles_map() == old(self).spec_tiles_map().insert(
                            spec_absolute_offset(
                                offset,
                                map_duke_coords(old(self).spec_tiles_map(), owner),
                            ).unwrap(),
                            p,
                        )
                    },
                BoardMove::ApplyNonCommandTileAction { src, dst } => final(self).spec_tiles_map()
                    == map_apply_action(old(self).spec_tiles_map(), src, dst),
            },
    {
        proof {
            self.lemma_wf_map();
            match &gm {
                BoardMove::PlaceNewTile(_tile, _duke_offset, owner) => {
                    lemma_first_duke_exists(self.spec_tiles_map(), *owner);
                },
                BoardMove::ApplyNonCommandTileAction { .. } => (),
            }
        }
        match gm {
            BoardMove::PlaceNewTile(tile, duke_offset, owner) => {
                let c = match self.to_absolute_duke_offset(duke_offset, owner) {
                    Some(c) => c,
                    None => unreached(),
                };
                self.place_new(tile, c, owner);
            },
            BoardMove::ApplyNonCommandTileAction { src, dst } => {
                self.apply_action_mut(src, dst);
            },
        }
    }

    /// Whether applying the move of `owner`'s tile at `src` leaves `owner`
    /// out of guard. The board is restored before returning.
    #[verifier::rlimit(100)]
    pub(crate) fn does_not_put_in_guard(
        &mut self,
        src: Coordinates,
        dst: Coordinates,
        owner: Owner,
    ) -> (r: bool)
        requires
            old(self).wf(),
            on_board(src),
            on_board(dst),
            map_classify(old(self).spec_tiles_map(), src, dst) != AppliedPubAction::Invalid,
            old(self).spec_tiles_map().dom().contains(src),
            old(self).spec_tiles_map()[src].owner == owner,
            map_has_duke(old(self).spec_tiles_map(), owner),
        ensures
            final(self).wf(),
            final(self).spec_tiles_map() == old(self).spec_tiles_map(),
            r == !map_is_guard(
                map_apply_action(old(self).spec_tiles_map(), src, dst),
                owner,
            ),
    {
        let ghost m0 = self.spec_tiles_map();
        proof {
            self.lemma_wf_map();
            lemma_classify_valid_facts(m0, src, dst);
            lemma_apply_keeps_duke(m0, src, dst, owner);
        }
        let cls = self.can_apply(src, dst);
        match cls {
            AppliedPubAction::Movement => {
                let mut t = self.remove(src);
                let ghost orig = t;
                let dst_occupied: bool = match self.get(dst) {
                    Some(_) => true,
                    None => false,
                };
                let captured: Option<PlacedTile> = if dst_occupied {
                    Some(self.remove(dst))
                } else {
                    None
                };
                t.flip();
                self.place(dst, t);
                proof {
                    assert(self.spec_tiles_map() =~= map_apply_action(m0, src, dst));
                }
                let g = self.is_guard(owner);
                let mut t2 = self.remove(dst);
                t2.flip();
                proof {
                    assert(t2 == orig);
                }
                self.place(src, t2);
                match captured {
                    Some(ct) => {
                        self.place(dst, ct);
                    },
                    None => (),
                }
                proof {
                    assert(self.spec_tiles_map() =~= m0);
                }
                !g
            },
            AppliedPubAction::Strike => {
                let ct = self.remove(dst);
                let mut t = self.remove(src);
                let ghost orig = t;
                t.flip();
                self.place(src, t);
                proof {
                    assert(self.spec_tiles_map() =~= map_apply_action(m0, src, dst));
                }
                let g = self.is_guard(owner);
                let mut t2 = self.remove(src);
                t2.flip();
                proof {
                    assert(t2 == orig);
                }
                self.place(src, t2);
                self.place(dst, ct);
                proof {
                    assert(self.spec_tiles_map() =~= m0);
                }
                !g
            },
            AppliedPubAction::Invalid => unreached(),
        }
    }

    /// Whether a new tile may be placed at the square the offset names:
    /// on the board, empty, and no tile placed there leaves `owner` in guard.
    #[verifier::rlimit(100)]
    pub fn is_valid_placement(&mut self, owner: Owner, offset: DukeOffset) -> (r: bool)
        requires
            old(self).wf(),
            map_has_duke(old(self).spec_tiles_map(), owner),
        ensures
            final(self).wf(),
            final(self).spec_tiles_map() == old(self).spec_tiles_map(),
            r == map_is_valid_placement(old(self).spec_tiles_map(), owner, offset),
    {
        let ghost m0 = self.spec_tiles_map();
        proof {
            reveal(map_is_valid_placement);
            self.lemma_wf_map();
            lemma_first_duke_exists(self.spec_tiles_map(), owner);
        }
        let cell = self.to_absolute_duke_offset(offset, owner);
        match cell {
            None => false,
            Some(c) => {
                let occupied: bool = match self.get(c) {
                    Some(_) => true,
                    None => false,
                };
                if occupied {
                    false
                } else {
                    self.placement_guard_free(c, owner)
                }
            },
        }
    }

    /// Reverses a move, given its description and the capture snapshot taken
    /// when it was generated. Undoing a placement returns the placed tile so
    /// it can go back to its bag.
    #[verifier::rlimit(100)]
    pub fn undo(&mut self, mv: PossibleMove) -> (r: Option<PlacedTile>)
        requires
            old(self).wf(),
            match mv {
                PossibleMove::PlaceNewTile(offset, owner) => {
                    &&& map_has_duke(old(self).spec_tiles_map(), owner)
                    &&& match spec_absolute_offset(
                        offset,
                        map_duke_coords(old(self).spec_tiles_map(), owner),
                    ) {
                        Some(c) => old(self).spec_tiles_map().dom().contains(c),
                        None => false,
                    }
                },
                PossibleMove::ApplyNonCommandTileAction { src, dst, capturing } => {
                    &&& on_board(src)
                    &&& on_board(dst)
                    &&& src != dst
                    &&& match capturing {
                        Some(ct) => ct.wf(),
                        None => true,
                    }
                    &&& if old(self).spec_tiles_map().dom().contains(dst) {
                        !old(self).spec_tiles_map().dom().contains(src)
                    } else {
                        old(self).spec_tiles_map().dom().contains(src) && capturing is Some
                    }
                },
            },
        ensures
            final(self).wf(),
            match mv {
                PossibleMove::PlaceNewTile(offset, owner) => {
                    let c = spec_absolute_offset(
                        offset,
                        map_duke_coords(old(self).spec_tiles_map(), owner),
                    ).unwrap();
                    r == Some(old(self).spec_tiles_map()[c]) && final(self).spec_tiles_map()
                        == old(self).spec_tiles_map().remove(c)
                },
                PossibleMove::ApplyNonCommandTileAction { src, dst, capturing } => {
                    &&& r is None
                    &&& if old(self).spec_tiles_map().dom().contains(dst) {
                        final(self).spec_tiles_map() == (match capturing {
                            Some(ct) => old(self).spec_tiles_map().remove(dst).insert(
                                src,
                                map_flip_tile(old(self).spec_tiles_map()[dst]),
                            ).insert(dst, ct),
                            None => old(self).spec_tiles_map().remove(dst).insert(
                                src,
                                map_flip_tile(old(self).spec_tiles_map()[dst]),
                            ),
                        })
                    } else {
                        final(self).spec_tiles_map() == old(self).spec_tiles_map().insert(
                            src,
                            map_flip_tile(old(self).spec_tiles_map()[src]),
                        ).insert(dst, capturing.unwrap())
                    }
                },
            },
    {
        proof {
            self.lemma_wf_map();
        }
        match mv {
            PossibleMove::PlaceNewTile(offset, owner) => {
                let absolute_coordinate = match self.to_absolute_duke_offset(offset, owner) {
                    Some(c) => c,
                    None => unreached(),
                };
                Some(self.remove(absolute_coordinate))
            },
            PossibleMove::ApplyNonCommandTileAction { src, dst, capturing } => {
                let dst_occupied: bool = match self.get(dst) {
                    Some(_) => true,
                    None => false,
                };
                if !dst_occupied {
                    // A strike is undone: the mover never left `src`.
                    let captured = match capturing {
                        Some(ct) => ct,
                        None => unreached(),
                    };
                    let mut t = self.remove(src);
                    t.flip();
                    self.place(src, t);
                    self.place(dst, captured);
                } else {
                    // A relocation is undone: bring the mover home and restore
                    // any capture.
                    let mut mover = self.remove(dst);
                    mover.flip();
                    self.place(src, mover);
                    match capturing {
                        Some(captured) => {
                            self.place(dst, captured);
                        },
                        None => (),
                    }
                }
                None
            },
        }
    }
}


/// A move passing the guard check never leaves its owner's duke attacked:
/// simulating any move of the guard-checked sets yields a board where the
/// mover's owner is out of guard.
pub proof fn lemma_valid_move_is_guard_safe(m: TileMap, src: Coordinates, dst: Coordinates, o: Owner)
    requires
        map_apply_ok(m, src, dst, o, true),
    ensures
        !map_is_guard(map_apply_action(m, src, dst), o),
{
}

impl GameBoard {
    /// Every move of the tile at `src` that also keeps its owner's duke out
    /// of guard. The board is restored before returning.
    pub fn get_legal_moves(&mut self, src: Coordinates) -> (r: Vec<(Coordinates, TileAction)>)
        requires
            old(self).wf(),
            on_board(src),
            old(self).spec_tiles_map().dom().contains(src),
            map_has_duke(old(self).spec_tiles_map(), old(self).spec_tiles_map()[src].owner),
        ensures
            final(self).wf(),
            final(self).spec_tiles_map() == old(self).spec_tiles_map(),
            forall|i: int|
                0 <= i < r@.len() ==> {
                    &&& map_move_enabled(
                        old(self).spec_tiles_map(),
                        src,
                        (#[trigger] r@[i]).0,
                        r@[i].1,
                    )
                    &&& !map_is_guard(
                        map_apply_action(old(self).spec_tiles_map(), src, r@[i].0),
                        old(self).spec_tiles_map()[src].owner,
                    )
                },
            forall|dst: Coordinates, a: TileAction|
                map_move_enabled(old(self).spec_tiles_map(), src, dst, a) && !map_is_guard(
                    map_apply_action(old(self).spec_tiles_map(), src, dst),
                    old(self).spec_tiles_map()[src].owner,
                ) ==> exists|i: int| 0 <= i < r@.len() && (#[trigger] r@[i]) == (dst, a),
            r@.no_duplicates(),
    {
        let ghost m = self.spec_tiles_map();
        let owner = match self.get(src) {
            Some(t) => t.owner,
            None => unreached(),
        };
        let raw = self.legal_moves_raw(src);
        let mut r: Vec<(Coordinates, TileAction)> = Vec::new();
        let mut i: usize = 0;
        while i < raw.len()
            invariant
                self.wf(),
                m == self.spec_tiles_map(),
                on_board(src),
                m.dom().contains(src),
                owner == m[src].owner,
                map_has_duke(m, owner),
                i <= raw@.len(),
                forall|j: int|
                    0 <= j < raw@.len() ==> map_move_enabled(
                        m,
                        src,
                        (#[trigger] raw@[j]).0,
                        raw@[j].1,
                    ),
                forall|dst: Coordinates, a: TileAction|
                    map_move_enabled(m, src, dst, a) ==> exists|j: int|
                        0 <= j < raw@.len() && (#[trigger] raw@[j]) == (dst, a),
                forall|j: int|
                    0 <= j < r@.len() ==> {
                        &&& map_move_enabled(m, src, (#[trigger] r@[j]).0, r@[j].1)
                        &&& !map_is_guard(map_apply_action(m, src, r@[j].0), owner)
                    },
                forall|j: int|
                    0 <= j < i && !map_is_guard(
                        map_apply_action(m, src, (#[trigger] raw@[j]).0),
                        owner,
                    ) ==> exists|j2: int| 0 <= j2 < r@.len() && (#[trigger] r@[j2]) == raw@[j],
                r@.no_duplicates(),
            decreases raw@.len() - i,
        {
            let (dst, a) = raw[i];
            let ghost r0 = r@;
            if self.does_not_put_in_guard(src, dst, owner) && !contains_move(&r, dst, a) {
                r.push((dst, a));
                proof {
                    assert forall|k1: int, k2: int|
                        0 <= k1 < k2 < r@.len() implies r@[k1] != r@[k2] by {
                        if k2 < r@.len() - 1 {
                            assert(r@[k1] == r0[k1] && r@[k2] == r0[k2]);
                        } else {
                            assert(r@[k1] == r0[k1]);
                            assert(r@[k2] == (dst, a));
                        }
                    }
                    assert(r@.no_duplicates());
                }
            }
            proof {
                assert forall|j: int|
                    0 <= j < i + 1 && !map_is_guard(
                        map_apply_action(m, src, (#[trigger] raw@[j]).0),
                        owner,
                    ) implies exists|j2: int|
                    0 <= j2 < r@.len() && (#[trigger] r@[j2]) == raw@[j] by {
                    if j == i && r@.len() > r0.len() {
                        assert(r@[r@.len() - 1] == raw@[j]);
                    } else {
                        let j2 = choose|j2: int| 0 <= j2 < r0.len() && (#[trigger] r0[j2]) == raw@[j];
                        assert(r@[j2] == r0[j2]);
                    }
                }
            }
            i = i + 1;
        }
        proof {
            assert forall|dst: Coordinates, a: TileAction|
                map_move_enabled(m, src, dst, a) && !map_is_guard(
                    map_apply_action(m, src, dst),
                    owner,
                ) implies exists|j: int| 0 <= j < r@.len() && (#[trigger] r@[j]) == (dst, a) by {
                let j = choose|j: int| 0 <= j < raw@.len() && (#[trigger] raw@[j]) == (dst, a);
                assert(!map_is_guard(map_apply_action(m, src, raw@[j].0), owner));
            }
        }
        r
    }

    /// Whether the list already holds an entry for the square.
    fn tiles_contain(v: &Vec<(Coordinates, &PlacedTile)>, c: Coordinates) -> (r: bool)
        ensures
            r == exists|i: int| 0 <= i < v@.len() && (#[trigger] v@[i]).0 == c,
    {
        let mut i: usize = 0;
        while i < v.len()
            invariant
                i <= v@.len(),
                forall|j: int| 0 <= j < i ==> (#[trigger] v@[j]).0 != c,
            decreases v@.len() - i,
        {
            let (d, _t) = v[i];
            if d.x == c.x && d.y == c.y {
                proof {
                    assert(v@[i as int].0 == c);
                }
                return true;
            }
            i = i + 1;
        }
        false
    }

    /// The squares held by `o`'s tiles, with the tiles.
    pub fn get_tiles_for(&self, o: Owner) -> (r: Vec<(Coordinates, &PlacedTile)>)
        requires
            self.wf(),
        ensures
            forall|i: int|
                0 <= i < r@.len() ==> {
                    &&& self.spec_tiles_map().dom().contains((#[trigger] r@[i]).0)
                    &&& self.spec_tiles_map()[r@[i].0] == *r@[i].1
                    &&& r@[i].1.owner == o
                },
            forall|c: Coordinates|
                #[trigger] self.spec_tiles_map().dom().contains(c) && self.spec_tiles_map()[c].owner
                    == o ==> exists|i: int| 0 <= i < r@.len() && (#[trigger] r@[i]).0 == c,
            forall|i: int, j: int| 0 <= i < j < r@.len() ==> r@[i].0 != r@[j].0,
    {
        proof {
            self.lemma_wf_map();
        }
        let cells = self.board.active_coordinates();
        proof {
            reveal(GameBoard::spec_tiles_map);
            assert forall|i: int|
                0 <= i < cells@.len() implies (self.spec_board().spec_in_bounds(
                (#[trigger] cells@[i]).0,
            ) && self.spec_board().spec_at(cells@[i].0) == Some(*cells@[i].1)) by {
                assert(self.spec_board().spec_in_bounds(cells@[i].0));
            }
        }
        let mut r: Vec<(Coordinates, &PlacedTile)> = Vec::new();
        let mut k: usize = 0;
        while k < cells.len()
            invariant
                self.wf(),
                k <= cells@.len(),
                forall|i: int|
                    0 <= i < cells@.len() ==> {
                        &&& self.spec_board().spec_in_bounds((#[trigger] cells@[i]).0)
                        &&& self.spec_board().spec_at(cells@[i].0) == Some(*cells@[i].1)
                    },
                forall|c: Coordinates|
                    #[trigger] self.spec_board().spec_in_bounds(c) && self.spec_board().spec_at(
                        c,
                    ) is Some ==> exists|i: int|
                        0 <= i < cells@.len() && (#[trigger] cells@[i]).0 == c,
                forall|i: int, j: int| 0 <= i < j < cells@.len() ==> cells@[i].0 != cells@[j].0,
                forall|i: int|
                    0 <= i < r@.len() ==> {
                        &&& self.spec_tiles_map().dom().contains((#[trigger] r@[i]).0)
                        &&& self.spec_tiles_map()[r@[i].0] == *r@[i].1
                        &&& r@[i].1.owner == o
                    },
                forall|j: int|
                    0 <= j < k && (#[trigger] cells@[j]).1.owner == o ==> exists|i: int|
                        0 <= i < r@.len() && (#[trigger] r@[i]).0 == cells@[j].0,
                forall|i: int, j: int| 0 <= i < j < r@.len() ==> r@[i].0 != r@[j].0,
            decreases cells@.len() - k,
        {
            let (c, t) = cells[k];
            let ghost r0 = r@;
            if t.owner == o && !GameBoard::tiles_contain(&r, c) {
                r.push((c, t));
                proof {
                    reveal(GameBoard::spec_tiles_map);
                    assert(r@[r@.len() - 1].0 == cells@[k as int].0);
                    assert forall|i: int, j: int|
                        0 <= i < j < r@.len() implies r@[i].0 != r@[j].0 by {
                        assert(r@[i] == r0[i]);
                        if j < r@.len() - 1 {
                            assert(r@[j] == r0[j]);
                        } else {
                            assert(r@[j].0 == c);
                        }
                    }
                }
            }
            proof {
                assert forall|j: int|
                    0 <= j < k + 1 && (#[trigger] cells@[j]).1.owner == o implies exists|i: int|
                    0 <= i < r@.len() && (#[trigger] r@[i]).0 == cells@[j].0 by {
                    if j < k || r@.len() == r0.len() {
                        let i = choose|i: int|
                            0 <= i < r0.len() && (#[trigger] r0[i]).0 == cells@[j].0;
                        assert(r@[i].0 == cells@[j].0);
                    } else {
                        assert(r@[r@.len() - 1].0 == cells@[j].0);
                    }
                }
            }
            k = k + 1;
        }
        proof {
            reveal(GameBoard::spec_tiles_map);
            assert forall|c: Coordinates|
                #[trigger] self.spec_tiles_map().dom().contains(c) && self.spec_tiles_map()[c].owner
                    == o implies exists|i: int|
                0 <= i < r@.len() && (#[trigger] r@[i]).0 == c by {
                assert(self.spec_board().spec_in_bounds(c) && self.spec_board().spec_at(
                    c,
                ) is Some);
                let j = choose|j: int| 0 <= j < cells@.len() && (#[trigger] cells@[j]).0 == c;
                assert(cells@[j].1.owner == o);
            }
        }
        r
    }

    /// The empty squares around `o`'s duke where a new tile could stand.
    pub fn empty_spaces_near_current_duke(&self, o: Owner) -> (r: Vec<Coordinates>)
        requires
            self.wf(),
            map_has_duke(self.spec_tiles_map(), o),
        ensures
            forall|i: int|
                #![trigger r@[i]]
                0 <= i < r@.len() ==> exists|offset: DukeOffset|
                    #![auto]
                    spec_absolute_offset(offset, map_duke_coords(self.spec_tiles_map(), o)) == Some(
                        r@[i],
                    ) && !self.spec_tiles_map().dom().contains(r@[i]),
            forall|offset: DukeOffset|
                #[trigger] map_placement_cell_free(self.spec_tiles_map(), o, offset)
                    ==> exists|i: int|
                    0 <= i < r@.len() && Some(#[trigger] r@[i]) == spec_absolute_offset(
                        offset,
                        map_duke_coords(self.spec_tiles_map(), o),
                    ),
    {
        let ghost m = self.spec_tiles_map();
        proof {
            self.lemma_wf_map();
            lemma_first_duke_exists(m, o);
        }
        let offsets = DukeOffset::all();
        let mut r: Vec<Coordinates> = Vec::new();
        let mut k: usize = 0;
        while k < offsets.len()
            invariant
                self.wf(),
                m == self.spec_tiles_map(),
                map_has_duke(m, o),
                map_wf(m),
                offsets@ == seq![
                    DukeOffset::Top,
                    DukeOffset::Bottom,
                    DukeOffset::Left,
                    DukeOffset::Right,
                ],
                map_duke_at(m, map_duke_coords(m, o), o),
                k <= 4,
                forall|i: int|
                    #![trigger r@[i]]
                    0 <= i < r@.len() ==> exists|offset: DukeOffset|
                        #![auto]
                        spec_absolute_offset(offset, map_duke_coords(m, o)) == Some(r@[i])
                            && !m.dom().contains(r@[i]),
                forall|j: int|
                    0 <= j < k && #[trigger] map_placement_cell_free(m, o, offsets@[j])
                        ==> exists|i: int|
                        0 <= i < r@.len() && Some(#[trigger] r@[i]) == spec_absolute_offset(
                            offsets@[j],
                            map_duke_coords(m, o),
                        ),
            decreases 4 - k,
        {
            let offset = offsets[k];
            let ghost r0 = r@;
            match self.to_absolute_duke_offset(offset, o) {
                Some(c) => {
                    proof {
                        assert(on_board(c));
                    }
                    let empty: bool = match self.get(c) {
                        Some(_) => false,
                        None => true,
                    };
                    if empty {
                        r.push(c);
                        proof {
                            assert(spec_absolute_offset(offset, map_duke_coords(m, o)) == Some(
                                r@[r@.len() - 1],
                            ) && !m.dom().contains(r@[r@.len() - 1]));
                            assert forall|i: int|
                                #![trigger r@[i]]
                                0 <= i < r@.len() implies exists|off2: DukeOffset|
                                #![auto]
                                spec_absolute_offset(off2, map_duke_coords(m, o)) == Some(r@[i])
                                    && !m.dom().contains(r@[i]) by {
                                if i < r@.len() - 1 {
                                    assert(r@[i] == r0[i]);
                                }
                            }
                        }
                    }
                },
                None => (),
            }
            proof {
                assert forall|j: int|
                    0 <= j < k + 1 && #[trigger] map_placement_cell_free(m, o, offsets@[j]) implies
                exists|i: int|
                    0 <= i < r@.len() && Some(#[trigger] r@[i]) == spec_absolute_offset(
                        offsets@[j],
                        map_duke_coords(m, o),
                    ) by {
                    if j < k {
                        let i = choose|i: int|
                            0 <= i < r0.len() && Some(#[trigger] r0[i]) == spec_absolute_offset(
                                offsets@[j],
                                map_duke_coords(m, o),
                            );
                        assert(r@[i] == r0[i]);
                    } else {
                        assert(Some(r@[r@.len() - 1]) == spec_absolute_offset(
                            offsets@[j],
                            map_duke_coords(m, o),
                        ));
                    }
                }
            }
            k = k + 1;
        }
        proof {
            assert forall|offset: DukeOffset|
                #[trigger] map_placement_cell_free(m, o, offset) implies exists|i: int|
                0 <= i < r@.len() && Some(#[trigger] r@[i]) == spec_absolute_offset(
                    offset,
                    map_duke_coords(m, o),
                ) by {
                assert(offset == DukeOffset::Top || offset == DukeOffset::Bottom || offset
                    == DukeOffset::Left || offset == DukeOffset::Right);
                assert(offsets@[0] == DukeOffset::Top && offsets@[1] == DukeOffset::Bottom
                    && offsets@[2] == DukeOffset::Left && offsets@[3] == DukeOffset::Right);
            }
            assert forall|i: int| #![trigger r@[i]] 0 <= i < r@.len() implies exists|
                off2: DukeOffset,
            |
                #![auto]
                spec_absolute_offset(off2, map_duke_coords(self.spec_tiles_map(), o)) == Some(
                    r@[i],
                ) && !self.spec_tiles_map().dom().contains(r@[i]) by {
                let off = choose|off: DukeOffset|
                    #![auto]
                    spec_absolute_offset(off, map_duke_coords(m, o)) == Some(r@[i])
                        && !m.dom().contains(r@[i]);
                assert(spec_absolute_offset(off, map_duke_coords(self.spec_tiles_map(), o))
                    == Some(r@[i]));
            }
        }
        r
    }

    /// Whether any square next to `o`'s duke is free for a new tile.
    pub fn can_place_new_tile_near_duke(&self, o: Owner) -> (r: bool)
        requires
            self.wf(),
            map_has_duke(self.spec_tiles_map(), o),
        ensures
            r == exists|offset: DukeOffset|
                #[trigger] map_placement_cell_free(self.spec_tiles_map(), o, offset),
    {
        let spaces = self.empty_spaces_near_current_duke(o);
        let has = spaces.len() > 0;
        proof {
            let m = self.spec_tiles_map();
            if has {
                let offset = choose|offset: DukeOffset|
                    #![auto]
                    spec_absolute_offset(offset, map_duke_coords(m, o)) == Some(spaces@[0])
                        && !m.dom().contains(spaces@[0]);
                assert(map_placement_cell_free(m, o, offset));
            } else {
                if exists|offset: DukeOffset| #[trigger] map_placement_cell_free(m, o, offset) {
                    let offset = choose|offset: DukeOffset|
                        #[trigger] map_placement_cell_free(m, o, offset);
                    assert(false);
                }
            }
        }
        has
    }
}


impl GameBoard {
    /// Every move `owner` may pick: all (guard-checked, when asked) actions
    /// of owned tiles, each remembering its capture, and, when new tiles are
    /// available, every placement offset that passes the same check.
    fn all_valid_moves_aux(&mut self, owner: Owner, new_tiles: WithNewTiles, cfg: CheckForGuard)
        -> (r: Vec<PossibleMove>)
        requires
            old(self).wf(),
            map_has_duke(old(self).spec_tiles_map(), owner),
        ensures
            final(self).wf(),
            final(self).spec_tiles_map() == old(self).spec_tiles_map(),
            forall|i: int|
                0 <= i < r@.len() ==> map_possible_ok(
                    old(self).spec_tiles_map(),
                    owner,
                    #[trigger] r@[i],
                    new_tiles.0,
                    cfg.0,
                ),
            cfg.0 ==> forall|offset: DukeOffset|
                new_tiles.0 && #[trigger] map_is_valid_placement(
                    old(self).spec_tiles_map(),
                    owner,
                    offset,
                ) ==> exists|i: int|
                    0 <= i < r@.len() && (#[trigger] r@[i]) == PossibleMove::PlaceNewTile(
                        offset,
                        owner,
                    ),
            !cfg.0 ==> forall|offset: DukeOffset|
                new_tiles.0 && #[trigger] map_placement_cell_free(
                    old(self).spec_tiles_map(),
                    owner,
                    offset,
                ) ==> exists|i: int|
                    0 <= i < r@.len() && (#[trigger] r@[i]) == PossibleMove::PlaceNewTile(
                        offset,
                        owner,
                    ),
            forall|src: Coordinates, dst: Coordinates|
                on_board(src) && on_board(dst) && #[trigger] map_apply_ok(
                    old(self).spec_tiles_map(),
                    src,
                    dst,
                    owner,
                    cfg.0,
                ) ==> exists|i: int|
                    0 <= i < r@.len() && ((#[trigger] r@[i]) matches
                        PossibleMove::ApplyNonCommandTileAction { src: s2, dst: d2, capturing: _ }
                        && s2 == src && d2 == dst),
    {
        let ghost m = self.spec_tiles_map();
        proof {
            self.lemma_wf_map();
        }
        let tiles = self.get_tiles_for(owner);
        let mut coords: Vec<Coordinates> = Vec::new();
        let mut k: usize = 0;
        while k < tiles.len()
            invariant
                k <= tiles@.len(),
                coords@.len() == k,
                forall|i: int|
                    0 <= i < tiles@.len() ==> {
                        &&& m.dom().contains((#[trigger] tiles@[i]).0)
                        &&& m[tiles@[i].0].owner == owner
                    },
                forall|c: Coordinates|
                    #[trigger] m.dom().contains(c) && m[c].owner == owner ==> exists|i: int|
                        0 <= i < tiles@.len() && (#[trigger] tiles@[i]).0 == c,
                forall|i: int| 0 <= i < k ==> (#[trigger] coords@[i]) == tiles@[i].0,
            decreases tiles@.len() - k,
        {
            coords.push(tiles[k].0);
            k = k + 1;
        }
        proof {
            assert forall|i: int|
                0 <= i < coords@.len() implies (m.dom().contains(#[trigger] coords@[i])
                && on_board(coords@[i]) && m[coords@[i]].owner == owner) by {
                assert(coords@[i] == tiles@[i].0);
                assert(m.dom().contains(tiles@[i].0));
            }
            assert forall|c: Coordinates|
                #[trigger] m.dom().contains(c) && m[c].owner == owner implies exists|i: int|
                0 <= i < coords@.len() && (#[trigger] coords@[i]) == c by {
                let i = choose|i: int| 0 <= i < tiles@.len() && (#[trigger] tiles@[i]).0 == c;
                assert(coords@[i] == c);
            }
        }
        let mut r: Vec<PossibleMove> = Vec::new();
        let mut k: usize = 0;
        while k < coords.len()
            invariant
                self.wf(),
                m == self.spec_tiles_map(),
                map_wf(m),
                map_has_duke(m, owner),
                k <= coords@.len(),
                coords@.len() == tiles@.len(),
                forall|i: int|
                    0 <= i < coords@.len() ==> {
                        &&& m.dom().contains(#[trigger] coords@[i])
                        &&& on_board(coords@[i])
                        &&& m[coords@[i]].owner == owner
                    },
                forall|c: Coordinates|
                    #[trigger] m.dom().contains(c) && m[c].owner == owner ==> exists|i: int|
                        0 <= i < coords@.len() && (#[trigger] coords@[i]) == c,
                forall|i: int|
                    0 <= i < r@.len() ==> map_possible_ok(
                        m,
                        owner,
                        #[trigger] r@[i],
                        new_tiles.0,
                        cfg.0,
                    ),
                forall|j: int, dst: Coordinates|
                    0 <= j < k && on_board(dst) && #[trigger] map_apply_ok(
                        m,
                        coords@[j],
                        dst,
                        owner,
                        cfg.0,
                    ) ==> exists|i: int|
                        0 <= i < r@.len() && ((#[trigger] r@[i]) matches
                            PossibleMove::ApplyNonCommandTileAction {
                            src: s2,
                            dst: d2,
                            capturing: _,
                        } && s2 == coords@[j] && d2 == dst),
            decreases coords@.len() - k,
        {
            let src = coords[k];
            let moves = if cfg.0 {
                self.get_legal_moves(src)
            } else {
                self.legal_moves_raw(src)
            };
            proof {
                assert(self.spec_tiles_map() == m);
            }
            let mut ti: usize = 0;
            while ti < moves.len()
                invariant
                    self.wf(),
                    m == self.spec_tiles_map(),
                    map_wf(m),
                    on_board(src),
                    m.dom().contains(src),
                    m[src].owner == owner,
                    ti <= moves@.len(),
                    forall|i: int|
                        0 <= i < moves@.len() ==> {
                            &&& map_move_enabled(m, src, (#[trigger] moves@[i]).0, moves@[i].1)
                            &&& (cfg.0 ==> !map_is_guard(
                                map_apply_action(m, src, moves@[i].0),
                                owner,
                            ))
                        },
                    forall|dst: Coordinates, a: TileAction|
                        map_move_enabled(m, src, dst, a) && (cfg.0 ==> !map_is_guard(
                            map_apply_action(m, src, dst),
                            owner,
                        )) ==> exists|i: int|
                            0 <= i < moves@.len() && (#[trigger] moves@[i]) == (dst, a),
                    forall|i: int|
                        0 <= i < r@.len() ==> map_possible_ok(
                            m,
                            owner,
                            #[trigger] r@[i],
                            new_tiles.0,
                            cfg.0,
                        ),
                    forall|j: int, dst: Coordinates|
                        0 <= j < k && on_board(dst) && #[trigger] map_apply_ok(
                            m,
                            coords@[j],
                            dst,
                            owner,
                            cfg.0,
                        ) ==> exists|i: int|
                            0 <= i < r@.len() && ((#[trigger] r@[i]) matches
                                PossibleMove::ApplyNonCommandTileAction {
                                src: s2,
                                dst: d2,
                                capturing: _,
                            } && s2 == coords@[j] && d2 == dst),
                    forall|i: int|
                        0 <= i < ti ==> exists|i2: int|
                            0 <= i2 < r@.len() && ((#[trigger] r@[i2]) matches
                                PossibleMove::ApplyNonCommandTileAction {
                                src: s2,
                                dst: d2,
                                capturing: _,
                            } && s2 == src && d2 == (#[trigger] moves@[i]).0),
                decreases moves@.len() - ti,
            {
                let (dst, _a) = moves[ti];
                let capturing: Option<PlacedTile> = match self.get(dst) {
                    Some(t) => Some(t.duplicate()),
                    None => None,
                };
                let ghost r0 = r@;
                r.push(
                    PossibleMove::ApplyNonCommandTileAction { src, dst, capturing },
                );
                proof {
                    assert(map_move_enabled(m, src, dst, moves@[ti as int].1));
                    assert(map_possible_ok(m, owner, r@[r@.len() - 1], new_tiles.0, cfg.0));
                    assert forall|j: int, dst2: Coordinates|
                        0 <= j < k && on_board(dst2) && #[trigger] map_apply_ok(
                            m,
                            coords@[j],
                            dst2,
                            owner,
                            cfg.0,
                        ) implies exists|i: int|
                        0 <= i < r@.len() && ((#[trigger] r@[i]) matches
                            PossibleMove::ApplyNonCommandTileAction {
                            src: s2,
                            dst: d2,
                            capturing: _,
                        } && s2 == coords@[j] && d2 == dst2) by {
                        let i = choose|i: int|
                            0 <= i < r0.len() && ((#[trigger] r0[i]) matches
                                PossibleMove::ApplyNonCommandTileAction {
                                src: s2,
                                dst: d2,
                                capturing: _,
                            } && s2 == coords@[j] && d2 == dst2);
                        assert(r@[i] == r0[i]);
                    }
                    assert forall|i: int| 0 <= i < ti + 1 implies exists|i2: int|
                        0 <= i2 < r@.len() && ((#[trigger] r@[i2]) matches
                            PossibleMove::ApplyNonCommandTileAction {
                            src: s2,
                            dst: d2,
                            capturing: _,
                        } && s2 == src && d2 == (#[trigger] moves@[i]).0) by {
                        if i < ti {
                            let i2 = choose|i2: int|
                                0 <= i2 < r0.len() && ((#[trigger] r0[i2]) matches
                                    PossibleMove::ApplyNonCommandTileAction {
                                    src: s2,
                                    dst: d2,
                                    capturing: _,
                                } && s2 == src && d2 == moves@[i].0);
                            assert(r@[i2] == r0[i2]);
                        } else {
                            assert((r@[r@.len() - 1] matches
                                PossibleMove::ApplyNonCommandTileAction {
                                src: s2,
                                dst: d2,
                                capturing: _,
                            } && s2 == src && d2 == moves@[i].0));
                        }
                    }
                }
                ti = ti + 1;
            }
            k = k + 1;
            proof {
                assert forall|j: int, dst: Coordinates|
                    0 <= j < k && on_board(dst) && #[trigger] map_apply_ok(
                        m,
                        coords@[j],
                        dst,
                        owner,
                        cfg.0,
                    ) implies exists|i: int|
                    0 <= i < r@.len() && ((#[trigger] r@[i]) matches
                        PossibleMove::ApplyNonCommandTileAction {
                        src: s2,
                        dst: d2,
                        capturing: _,
                    } && s2 == coords@[j] && d2 == dst) by {
                    if j == k - 1 {
                        let a = choose|a: TileAction| map_move_enabled(m, src, dst, a);
                        let i = choose|i: int|
                            0 <= i < moves@.len() && (#[trigger] moves@[i]) == (dst, a);
                        assert(moves@[i].0 == dst);
                    }
                }
            }
        }
        if new_tiles.0 {
            let offsets = DukeOffset::all();
            let mut k: usize = 0;
            while k < offsets.len()
                invariant
                    self.wf(),
                    m == self.spec_tiles_map(),
                    map_wf(m),
                    map_has_duke(m, owner),
                    offsets@ == seq![
                        DukeOffset::Top,
                        DukeOffset::Bottom,
                        DukeOffset::Left,
                        DukeOffset::Right,
                    ],
                    k <= 4,
                    new_tiles.0,
                    forall|i: int|
                        0 <= i < r@.len() ==> map_possible_ok(
                            m,
                            owner,
                            #[trigger] r@[i],
                            new_tiles.0,
                            cfg.0,
                        ),
                    forall|src: Coordinates, dst: Coordinates|
                        on_board(src) && on_board(dst) && map_apply_ok(m, src, dst, owner, cfg.0)
                            ==> exists|i: int|
                            0 <= i < r@.len() && ((#[trigger] r@[i]) matches
                                PossibleMove::ApplyNonCommandTileAction {
                                src: s2,
                                dst: d2,
                                capturing: _,
                            } && s2 == src && d2 == dst),
                    forall|j: int|
                        0 <= j < k && (if cfg.0 {
                            map_is_valid_placement(m, owner, offsets@[j])
                        } else {
                            map_placement_cell_free(m, owner, offsets@[j])
                        }) ==> exists|i: int|
                            0 <= i < r@.len() && (#[trigger] r@[i]) == PossibleMove::PlaceNewTile(
                                #[trigger] offsets@[j],
                                owner,
                            ),
                decreases 4 - k,
            {
                let offset = offsets[k];
                let ok = if cfg.0 {
                    self.is_valid_placement(owner, offset)
                } else {
                    proof {
                        lemma_first_duke_exists(m, owner);
                    }
                    match self.to_absolute_duke_offset(offset, owner) {
                        Some(c) => {
                            proof {
                                assert(on_board(c));
                            }
                            match self.get(c) {
                                Some(_) => false,
                                None => true,
                            }
                        },
                        None => false,
                    }
                };
                let ghost r0 = r@;
                if ok {
                    r.push(PossibleMove::PlaceNewTile(offset, owner));
                }
                proof {
                    assert forall|src: Coordinates, dst: Coordinates|
                        on_board(src) && on_board(dst) && map_apply_ok(
                            m,
                            src,
                            dst,
                            owner,
                            cfg.0,
                        ) implies exists|i: int|
                        0 <= i < r@.len() && ((#[trigger] r@[i]) matches
                            PossibleMove::ApplyNonCommandTileAction {
                            src: s2,
                            dst: d2,
                            capturing: _,
                        } && s2 == src && d2 == dst) by {
                        let i = choose|i: int|
                            0 <= i < r0.len() && ((#[trigger] r0[i]) matches
                                PossibleMove::ApplyNonCommandTileAction {
                                src: s2,
                                dst: d2,
                                capturing: _,
                            } && s2 == src && d2 == dst);
                        assert(r@[i] == r0[i]);
                    }
                    assert forall|j: int|
                        0 <= j < k + 1 && (if cfg.0 {
                            map_is_valid_placement(m, owner, offsets@[j])
                        } else {
                            map_placement_cell_free(m, owner, offsets@[j])
                        }) implies exists|i: int|
                        0 <= i < r@.len() && (#[trigger] r@[i]) == PossibleMove::PlaceNewTile(
                            #[trigger] offsets@[j],
                            owner,
                        ) by {
                        if j < k {
                            let i = choose|i: int|
                                0 <= i < r0.len() && (#[trigger] r0[i])
                                    == PossibleMove::PlaceNewTile(offsets@[j], owner);
                            assert(r@[i] == r0[i]);
                        } else {
                            assert(r@[r@.len() - 1] == PossibleMove::PlaceNewTile(
                                offsets@[j],
                                owner,
                            ));
                        }
                    }
                }
                k = k + 1;
            }
            proof {
                if cfg.0 {
                    assert forall|offset: DukeOffset|
                        new_tiles.0 && #[trigger] map_is_valid_placement(
                            m,
                            owner,
                            offset,
                        ) implies exists|i: int|
                        0 <= i < r@.len() && (#[trigger] r@[i]) == PossibleMove::PlaceNewTile(
                            offset,
                            owner,
                        ) by {
                        assert(offset == DukeOffset::Top || offset == DukeOffset::Bottom || offset
                            == DukeOffset::Left || offset == DukeOffset::Right);
                        assert(offset == offsets@[0] || offset == offsets@[1] || offset
                            == offsets@[2] || offset == offsets@[3]);
                    }
                } else {
                    assert forall|offset: DukeOffset|
                        new_tiles.0 && #[trigger] map_placement_cell_free(
                            m,
                            owner,
                            offset,
                        ) implies exists|i: int|
                        0 <= i < r@.len() && (#[trigger] r@[i]) == PossibleMove::PlaceNewTile(
                            offset,
                            owner,
                        ) by {
                        assert(offset == DukeOffset::Top || offset == DukeOffset::Bottom || offset
                            == DukeOffset::Left || offset == DukeOffset::Right);
                        assert(offset == offsets@[0] || offset == offsets@[1] || offset
                            == offsets@[2] || offset == offsets@[3]);
                    }
                }
            }
        }
        r
    }

    /// Every guard-safe move `owner` may pick, with placements when new
    /// tiles are available.
    pub fn all_valid_moves(&mut self, owner: Owner, new_tiles: WithNewTiles) -> (r: Vec<
        PossibleMove,
    >)
        requires
            old(self).wf(),
            map_has_duke(old(self).spec_tiles_map(), owner),
        ensures
            final(self).wf(),
            final(self).spec_tiles_map() == old(self).spec_tiles_map(),
            forall|i: int|
                0 <= i < r@.len() ==> map_possible_ok(
                    old(self).spec_tiles_map(),
                    owner,
                    #[trigger] r@[i],
                    new_tiles.0,
                    true,
                ),
            forall|offset: DukeOffset|
                new_tiles.0 && #[trigger] map_is_valid_placement(
                    old(self).spec_tiles_map(),
                    owner,
                    offset,
                ) ==> exists|i: int|
                    0 <= i < r@.len() && (#[trigger] r@[i]) == PossibleMove::PlaceNewTile(
                        offset,
                        owner,
                    ),
            forall|src: Coordinates, dst: Coordinates|
                on_board(src) && on_board(dst) && #[trigger] map_apply_ok(
                    old(self).spec_tiles_map(),
                    src,
                    dst,
                    owner,
                    true,
                ) ==> exists|i: int|
                    0 <= i < r@.len() && ((#[trigger] r@[i]) matches
                        PossibleMove::ApplyNonCommandTileAction { src: s2, dst: d2, capturing: _ }
                        && s2 == src && d2 == dst),
    {
        self.all_valid_moves_aux(owner, new_tiles, CheckForGuard(true))
    }

    /// Every move `owner` may pick, without the guard-safety filter.
    pub fn all_valid_moves_ignoring_guard(&mut self, owner: Owner, new_tiles: WithNewTiles) -> (r:
        Vec<PossibleMove>)
        requires
            old(self).wf(),
            map_has_duke(old(self).spec_tiles_map(), owner),
        ensures
            final(self).wf(),
            final(self).spec_tiles_map() == old(self).spec_tiles_map(),
            forall|i: int|
                0 <= i < r@.len() ==> map_possible_ok(
                    old(self).spec_tiles_map(),
                    owner,
                    #[trigger] r@[i],
                    new_tiles.0,
                    false,
                ),
            forall|src: Coordinates, dst: Coordinates|
                on_board(src) && on_board(dst) && #[trigger] map_apply_ok(
                    old(self).spec_tiles_map(),
                    src,
                    dst,
                    owner,
                    false,
                ) ==> exists|i: int|
                    0 <= i < r@.len() && ((#[trigger] r@[i]) matches
                        PossibleMove::ApplyNonCommandTileAction { src: s2, dst: d2, capturing: _ }
                        && s2 == src && d2 == dst),
    {
        self.all_valid_moves_aux(owner, new_tiles, CheckForGuard(false))
    }
}


impl GameBoard {
    /// A copy of this board holding tiles with the same content.
    pub fn duplicate(&self) -> (r: GameBoard)
        requires
            self.wf(),
        ensures
            r.wf(),
            r.spec_tiles_map().dom() == self.spec_tiles_map().dom(),
            forall|c: Coordinates|
                #[trigger] self.spec_tiles_map().dom().contains(c) ==> {
                    &&& r.spec_tiles_map()[c]@ == self.spec_tiles_map()[c]@
                    &&& r.spec_tiles_map()[c].owner == self.spec_tiles_map()[c].owner
                    &&& r.spec_tiles_map()[c].tile.spec_name()
                        == self.spec_tiles_map()[c].tile.spec_name()
                },
    {
        proof {
            self.lemma_wf_map();
        }
        let mut r = GameBoard::empty();
        let mut x: u16 = 0;
        while x < 6
            invariant
                self.wf(),
                r.wf(),
                map_wf(self.spec_tiles_map()),
                x <= 6,
                forall|c: Coordinates|
                    #[trigger] r.spec_tiles_map().dom().contains(c) ==> c.x < x
                        && self.spec_tiles_map().dom().contains(c),
                forall|c: Coordinates|
                    c.x < x && #[trigger] self.spec_tiles_map().dom().contains(c)
                        ==> r.spec_tiles_map().dom().contains(c),
                forall|c: Coordinates|
                    #[trigger] r.spec_tiles_map().dom().contains(c) ==> {
                        &&& r.spec_tiles_map()[c]@ == self.spec_tiles_map()[c]@
                        &&& r.spec_tiles_map()[c].owner == self.spec_tiles_map()[c].owner
                        &&& r.spec_tiles_map()[c].tile.spec_name()
                            == self.spec_tiles_map()[c].tile.spec_name()
                    },
            decreases 6 - x,
        {
            let mut y: u16 = 0;
            while y < 6
                invariant
                    self.wf(),
                    r.wf(),
                    map_wf(self.spec_tiles_map()),
                    x < 6,
                    y <= 6,
                    forall|c: Coordinates|
                        #[trigger] r.spec_tiles_map().dom().contains(c) ==> (c.x < x || (c.x == x
                            && c.y < y)) && self.spec_tiles_map().dom().contains(c),
                    forall|c: Coordinates|
                        (c.x < x || (c.x == x && c.y < y))
                            && #[trigger] self.spec_tiles_map().dom().contains(c)
                            ==> r.spec_tiles_map().dom().contains(c),
                    forall|c: Coordinates|
                        #[trigger] r.spec_tiles_map().dom().contains(c) ==> {
                            &&& r.spec_tiles_map()[c]@ == self.spec_tiles_map()[c]@
                            &&& r.spec_tiles_map()[c].owner == self.spec_tiles_map()[c].owner
                            &&& r.spec_tiles_map()[c].tile.spec_name()
                                == self.spec_tiles_map()[c].tile.spec_name()
                        },
                decreases 6 - y,
            {
                let c = Coordinates { x, y };
                let ghost r0 = r;
                match self.get(c) {
                    Some(t) => {
                        proof {
                            assert(t.wf());
                        }
                        r.place(c, t.duplicate());
                    },
                    None => (),
                }
                proof {
                    assert forall|c2: Coordinates|
                        #[trigger] r.spec_tiles_map().dom().contains(c2) implies ((c2.x < x || (
                        c2.x == x && c2.y < y + 1)) && self.spec_tiles_map().dom().contains(c2)
                        && r.spec_tiles_map()[c2]@ == self.spec_tiles_map()[c2]@
                        && r.spec_tiles_map()[c2].owner == self.spec_tiles_map()[c2].owner
                        && r.spec_tiles_map()[c2].tile.spec_name()
                        == self.spec_tiles_map()[c2].tile.spec_name()) by {
                        if c2 != c {
                            assert(r0.spec_tiles_map().dom().contains(c2));
                        }
                    }
                }
                y = y + 1;
            }
            x = x + 1;
            proof {
                assert forall|c: Coordinates|
                    c.x < x && #[trigger] self.spec_tiles_map().dom().contains(
                        c,
                    ) implies r.spec_tiles_map().dom().contains(c) by {
                    assert(on_board(c));
                }
            }
        }
        proof {
            assert forall|c: Coordinates|
                #[trigger] self.spec_tiles_map().dom().contains(
                    c,
                ) implies r.spec_tiles_map().dom().contains(c) by {
                assert(on_board(c));
            }
            assert(r.spec_tiles_map().dom() =~= self.spec_tiles_map().dom());
        }
        r
    }
}

} // verus!

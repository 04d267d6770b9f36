//! Tiles, their owners, and tiles placed on the board.
//!
//! A tile is an immutable pair of sides and a name. A placed tile adds an
//! owner and the side currently facing up; the facing side flips after every
//! action the tile performs. Tiles are authored from the bottom player's
//! perspective, so a tile placed by the top player is mirrored vertically
//! once, at placement.

use vstd::prelude::*;

use crate::coordinates::Coordinates;
use crate::tile_side::{
    lemma_flip_preserves_valid_shape, lemma_side_view_from_pointwise, TileAction, TileSide,
};

verus! {

#[derive(Debug, PartialEq, Eq, Clone, Copy, Hash, Structural)]
pub enum CurrentSide {
    Initial,
    Flipped,
}

impl CurrentSide {
    pub open spec fn spec_flip(self) -> CurrentSide {
        match self {
            CurrentSide::Initial => CurrentSide::Flipped,
            CurrentSide::Flipped => CurrentSide::Initial,
        }
    }

    pub fn flip(&self) -> (r: CurrentSide)
        ensures
            r == self.spec_flip(),
    {
        match self {
            CurrentSide::Initial => CurrentSide::Flipped,
            CurrentSide::Flipped => CurrentSide::Initial,
        }
    }
}

#[derive(Debug, PartialEq, Eq, Clone, Copy, Hash, Structural)]
pub enum Owner {
    TopPlayer,
    BottomPlayer,
}

impl Owner {
    pub open spec fn spec_next(self) -> Owner {
        match self {
            Owner::TopPlayer => Owner::BottomPlayer,
            Owner::BottomPlayer => Owner::TopPlayer,
        }
    }

    pub fn next_player(self) -> (r: Owner)
        ensures
            r == self.spec_next(),
    {
        match self {
            Owner::TopPlayer => Owner::BottomPlayer,
            Owner::BottomPlayer => Owner::TopPlayer,
        }
    }
}

/// The content of a tile, as a plain value.
pub ghost struct TileV {
    pub side_a: Seq<Option<TileAction>>,
    pub side_b: Seq<Option<TileAction>>,
    pub name: Seq<char>,
}

#[derive(Debug, Clone, PartialEq, Eq)]
pub struct Tile {
    side_a: TileSide,
    side_b: TileSide,
    name: String,
}

impl View for Tile {
    type V = TileV;

    closed spec fn view(&self) -> TileV {
        TileV { side_a: self.side_a@, side_b: self.side_b@, name: self.name@ }
    }
}

impl Tile {
    pub closed spec fn spec_side_a(self) -> TileSide {
        self.side_a
    }

    pub closed spec fn spec_side_b(self) -> TileSide {
        self.side_b
    }

    pub closed spec fn spec_name(self) -> Seq<char> {
        self.name@
    }

    /// Both sides obey the tile shape rules.
    pub open spec fn wf(self) -> bool {
        self.spec_side_a().valid_shape() && self.spec_side_b().valid_shape()
    }

    pub fn get_side_a(&self) -> (r: &TileSide)
        ensures
            *r == self.spec_side_a(),
    {
        &self.side_a
    }

    pub fn get_side_b(&self) -> (r: &TileSide)
        ensures
            *r == self.spec_side_b(),
    {
        &self.side_b
    }

    pub fn get_name(&self) -> (r: &String)
        ensures
            r@ == self.spec_name(),
    {
        &self.name
    }

    /// Tiles are identified by name.
    pub fn name_compare(&self, other: &Tile) -> (r: bool)
        ensures
            r == (self.spec_name() == other.spec_name()),
    {
        self.name == other.name
    }

    pub fn new(side_a: TileSide, side_b: TileSide, name: &str) -> (r: Tile)
        requires
            side_a.valid_shape(),
            side_b.valid_shape(),
        ensures
            r.spec_side_a() == side_a,
            r.spec_side_b() == side_b,
            r.spec_name() == name@,
            r.wf(),
    {
        Tile { side_a, side_b, name: name.to_owned() }
    }

    /// The tile with both sides mirrored top to bottom.
    pub(crate) fn flip_vertical(&self) -> (r: Tile)
        requires
            self.wf(),
        ensures
            r.wf(),
            spec_mirrored(*self, r),
    {
        let side_a = self.side_a.flip_vertical();
        let side_b = self.side_b.flip_vertical();
        proof {
            lemma_flip_preserves_valid_shape(self.side_a, side_a);
            lemma_flip_preserves_valid_shape(self.side_b, side_b);
        }
        Tile { side_a, side_b, name: self.name.clone() }
    }
}

/// A tile and its top-to-bottom mirror image.
pub open spec fn spec_mirrored(a: Tile, b: Tile) -> bool {
    &&& b.spec_name() == a.spec_name()
    &&& a.spec_side_a().dims5()
    &&& a.spec_side_b().dims5()
    &&& b.spec_side_a().dims5()
    &&& b.spec_side_b().dims5()
    &&& forall|c: Coordinates|
        c.x < 5 && c.y < 5 ==> #[trigger] b.spec_side_a().spec_at(c) == a.spec_side_a().spec_at(
            Coordinates { x: c.x, y: (4 - c.y) as u16 },
        )
    &&& forall|c: Coordinates|
        c.x < 5 && c.y < 5 ==> #[trigger] b.spec_side_b().spec_at(c) == a.spec_side_b().spec_at(
            Coordinates { x: c.x, y: (4 - c.y) as u16 },
        )
}

/// Mirroring a tile twice restores its content.
pub proof fn lemma_flip_vertical_involutive(t: Tile, once: Tile, twice: Tile)
    requires
        spec_mirrored(t, once),
        spec_mirrored(once, twice),
    ensures
        twice@ == t@,
{
    assert forall|c: Coordinates|
        c.x < 5 && c.y < 5 implies twice.spec_side_a().spec_at(c) == t.spec_side_a().spec_at(
        c,
    ) by {
        let m = Coordinates { x: c.x, y: (4 - c.y) as u16 };
        assert(twice.spec_side_a().spec_at(c) == once.spec_side_a().spec_at(m));
        assert(once.spec_side_a().spec_at(m) == t.spec_side_a().spec_at(
            Coordinates { x: m.x, y: (4 - m.y) as u16 },
        ));
        assert(Coordinates { x: m.x, y: (4 - m.y) as u16 } == c);
    }
    assert forall|c: Coordinates|
        c.x < 5 && c.y < 5 implies twice.spec_side_b().spec_at(c) == t.spec_side_b().spec_at(
        c,
    ) by {
        let m = Coordinates { x: c.x, y: (4 - c.y) as u16 };
        assert(twice.spec_side_b().spec_at(c) == once.spec_side_b().spec_at(m));
        assert(once.spec_side_b().spec_at(m) == t.spec_side_b().spec_at(
            Coordinates { x: m.x, y: (4 - m.y) as u16 },
        ));
        assert(Coordinates { x: m.x, y: (4 - m.y) as u16 } == c);
    }
    lemma_side_view_from_pointwise(twice.spec_side_a(), t.spec_side_a());
    lemma_side_view_from_pointwise(twice.spec_side_b(), t.spec_side_b());
}

/// The content of a placed tile, as a plain value.
pub ghost struct PlacedTileV {
    pub tile: TileV,
    pub current_side: CurrentSide,
    pub owner: Owner,
}

#[derive(Debug, Clone, PartialEq, Eq)]
pub struct PlacedTile {
    pub tile: Tile,
    pub current_side: CurrentSide,
    pub owner: Owner,
}

impl View for PlacedTile {
    type V = PlacedTileV;

    open spec fn view(&self) -> PlacedTileV {
        PlacedTileV { tile: self.tile@, current_side: self.current_side, owner: self.owner }
    }
}

impl PlacedTile {
    pub open spec fn wf(self) -> bool {
        self.tile.wf()
    }

    /// The side currently facing up.
    pub open spec fn spec_current_side(self) -> TileSide {
        match self.current_side {
            CurrentSide::Initial => self.tile.spec_side_a(),
            CurrentSide::Flipped => self.tile.spec_side_b(),
        }
    }

    /// Places a tile for `owner`, mirroring it for the top player so both
    /// players see their own forward direction alike.
    pub fn new(owner: Owner, tile: Tile) -> (r: PlacedTile)
        requires
            tile.wf(),
        ensures
            r.wf(),
            r.owner == owner,
            r.current_side == CurrentSide::Initial,
            owner == Owner::BottomPlayer ==> r.tile == tile,
            owner == Owner::TopPlayer ==> spec_mirrored(tile, r.tile),
    {
        let maybe_flipped_tile = match owner {
            Owner::TopPlayer => tile.flip_vertical(),
            Owner::BottomPlayer => tile,
        };
        PlacedTile { owner, tile: maybe_flipped_tile, current_side: CurrentSide::Initial }
    }

    /// Same as [`PlacedTile::new`]; kept for callers holding shared tiles.
    pub fn new_from_ref(owner: Owner, tile: Tile) -> (r: PlacedTile)
        requires
            tile.wf(),
        ensures
            r.wf(),
            r.owner == owner,
            r.current_side == CurrentSide::Initial,
            owner == Owner::BottomPlayer ==> r.tile == tile,
            owner == Owner::TopPlayer ==> spec_mirrored(tile, r.tile),
    {
        PlacedTile::new(owner, tile)
    }

    pub fn get_current_side(&self) -> (r: &TileSide)
        ensures
            *r == self.spec_current_side(),
    {
        match self.current_side {
            CurrentSide::Initial => self.tile.get_side_a(),
            CurrentSide::Flipped => self.tile.get_side_b(),
        }
    }

    /// Turns the tile over to its other side.
    pub fn flip(&mut self)
        ensures
            final(self).tile == old(self).tile,
            final(self).owner == old(self).owner,
            final(self).current_side == old(self).current_side.spec_flip(),
    {
        self.current_side = self.current_side.flip();
    }

    /// The action this tile grants from `src` to `dst`, on its current side.
    pub fn get_action_from_coordinates(&self, src: Coordinates, dst: Coordinates) -> (r: Option<
        TileAction,
    >)
        requires
            self.wf(),
        ensures
            r == self.spec_current_side().spec_action_from(src, dst),
    {
        self.get_current_side().get_action_from_coordinates(src, dst)
    }
}

/// Two tiles on the same team belong to the same owner.
pub trait Ownership: Sized {
    spec fn spec_same_team(self, other: Self) -> bool;

    fn same_team(self, other: Self) -> (r: bool)
        ensures
            r == self.spec_same_team(other),
    ;

    fn different_team(self, other: Self) -> (r: bool)
        ensures
            r == !self.spec_same_team(other),
    {
        !self.same_team(other)
    }
}

impl Ownership for Owner {
    open spec fn spec_same_team(self, other: Owner) -> bool {
        self == other
    }

    fn same_team(self, other: Owner) -> bool {
        self == other
    }
}

impl<'a> Ownership for &'a PlacedTile {
    open spec fn spec_same_team(self, other: &'a PlacedTile) -> bool {
        self.owner == other.owner
    }

    fn same_team(self, other: &'a PlacedTile) -> bool {
        self.owner == other.owner
    }
}


impl Tile {
    /// A copy of this tile with the same sides and name.
    pub fn duplicate(&self) -> (r: Tile)
        requires
            self.wf(),
        ensures
            r.wf(),
            r@ == self@,
            r.spec_name() == self.spec_name(),
            forall|c: Coordinates|
                c.x < 5 && c.y < 5 ==> #[trigger] r.spec_side_a().spec_at(c)
                    == self.spec_side_a().spec_at(c),
            forall|c: Coordinates|
                c.x < 5 && c.y < 5 ==> #[trigger] r.spec_side_b().spec_at(c)
                    == self.spec_side_b().spec_at(c),
    {
        Tile {
            side_a: self.side_a.duplicate(),
            side_b: self.side_b.duplicate(),
            name: self.name.clone(),
        }
    }
}

impl PlacedTile {
    /// A copy of this placed tile with the same content.
    pub fn duplicate(&self) -> (r: PlacedTile)
        requires
            self.wf(),
        ensures
            r.wf(),
            r@ == self@,
            r.owner == self.owner,
            r.current_side == self.current_side,
            r.tile@ == self.tile@,
            forall|c: Coordinates|
                c.x < 5 && c.y < 5 ==> #[trigger] r.spec_current_side().spec_at(c)
                    == self.spec_current_side().spec_at(c),
            r.spec_current_side().spec_unit_row() == self.spec_current_side().spec_unit_row(),
            r.tile.spec_name() == self.tile.spec_name(),
    {
        let r = PlacedTile {
            tile: self.tile.duplicate(),
            current_side: self.current_side,
            owner: self.owner,
        };
        proof {
            crate::tile_side::lemma_valid_shape_pointwise(
                self.spec_current_side(),
                r.spec_current_side(),
            );
            crate::tile_side::lemma_unit_row_good(self.spec_current_side());
            crate::tile_side::lemma_unit_row_is(
                r.spec_current_side(),
                self.spec_current_side().spec_unit_row(),
            );
        }
        r
    }
}

} // verus!

//! Relative offsets inside a tile's 5x5 action grid.
//!
//! Each axis has five symmetric positions around the grid's center. Offsets
//! convert to grid coordinates by index (0 to 4 per axis), and symmetric
//! offset groups expand to the concrete offsets used when authoring tiles.

use vstd::prelude::*;

use crate::coordinates::{spec_dist, Coordinates};

verus! {

/// A group of grid offsets, expanded when a tile side is built.
pub trait Offsetable {
    fn offsets(&self) -> Vec<Offsets>;
}

#[derive(Debug, PartialEq, Eq, Clone, Copy, Hash, Structural)]
pub enum HorizontalOffset {
    FarLeft,
    Left,
    Center,
    Right,
    FarRight,
}

#[derive(Debug, PartialEq, Eq, Clone, Copy, Hash, Structural)]
pub enum VerticalOffset {
    FarTop,
    Top,
    Center,
    Bottom,
    FarBottom,
}

#[derive(Debug, PartialEq, Eq, Clone, Copy, Hash, Structural)]
pub enum HorizontalSymmetricOffset {
    Far,
    Near,
    Center,
}

#[derive(Debug, PartialEq, Eq, Clone, Copy, Hash, Structural)]
pub enum FourWaySymmetric {
    NearStraight,
    FarStraight,
    NearDiagonal,
    FarDiagonal,
}

/// A cell of the 5x5 grid, relative to its geometric center.
#[derive(Debug, PartialEq, Eq, Clone, Copy, Hash, Structural)]
pub struct Offsets {
    pub x: HorizontalOffset,
    pub y: VerticalOffset,
}

impl HorizontalOffset {
    pub open spec fn spec_flipped(self) -> HorizontalOffset {
        match self {
            HorizontalOffset::FarLeft => HorizontalOffset::FarRight,
            HorizontalOffset::Left => HorizontalOffset::Right,
            HorizontalOffset::Center => HorizontalOffset::Center,
            HorizontalOffset::Right => HorizontalOffset::Left,
            HorizontalOffset::FarRight => HorizontalOffset::FarLeft,
        }
    }

    /// Mirrored left to right.
    pub fn flipped(&self) -> (r: HorizontalOffset)
        ensures
            r == self.spec_flipped(),
    {
        match self {
            HorizontalOffset::FarLeft => HorizontalOffset::FarRight,
            HorizontalOffset::Left => HorizontalOffset::Right,
            HorizontalOffset::Center => HorizontalOffset::Center,
            HorizontalOffset::Right => HorizontalOffset::Left,
            HorizontalOffset::FarRight => HorizontalOffset::FarLeft,
        }
    }
}

impl VerticalOffset {
    pub open spec fn spec_flipped(self) -> VerticalOffset {
        match self {
            VerticalOffset::FarTop => VerticalOffset::FarBottom,
            VerticalOffset::Top => VerticalOffset::Bottom,
            VerticalOffset::Center => VerticalOffset::Center,
            VerticalOffset::Bottom => VerticalOffset::Top,
            VerticalOffset::FarBottom => VerticalOffset::FarTop,
        }
    }

    /// The vertically off-center variants, paired with a centered horizontal
    /// component.
    pub fn symmetric_centered(&self) -> (r: (HorizontalSymmetricOffset, VerticalOffset))
        requires
            *self != VerticalOffset::Center,
        ensures
            r == (HorizontalSymmetricOffset::Center, *self),
    {
        (HorizontalSymmetricOffset::Center, *self)
    }

    /// Mirrored top to bottom.
    pub fn flipped(&self) -> (r: VerticalOffset)
        ensures
            r == self.spec_flipped(),
    {
        match self {
            VerticalOffset::FarTop => VerticalOffset::FarBottom,
            VerticalOffset::Top => VerticalOffset::Bottom,
            VerticalOffset::Center => VerticalOffset::Center,
            VerticalOffset::Bottom => VerticalOffset::Top,
            VerticalOffset::FarBottom => VerticalOffset::FarTop,
        }
    }
}

impl Offsets {
    pub open spec fn spec_center() -> Offsets {
        Offsets { x: HorizontalOffset::Center, y: VerticalOffset::Center }
    }

    pub fn center() -> (r: Offsets)
        ensures
            r == Offsets::spec_center(),
    {
        Offsets { x: HorizontalOffset::Center, y: VerticalOffset::Center }
    }

    pub fn new(x: HorizontalOffset, y: VerticalOffset) -> (r: Offsets)
        ensures
            r == (Offsets { x, y }),
    {
        Offsets { x, y }
    }

    pub fn horizontal_flipped(&self) -> (r: Offsets)
        ensures
            r == (Offsets { x: self.x.spec_flipped(), y: self.y }),
    {
        Offsets { x: self.x.flipped(), y: self.y }
    }

    pub fn vertical_flipped(&self) -> (r: Offsets)
        ensures
            r == (Offsets { x: self.x, y: self.y.spec_flipped() }),
    {
        Offsets { x: self.x, y: self.y.flipped() }
    }

    pub fn flipped(&self) -> (r: Offsets)
        ensures
            r == (Offsets { x: self.x.spec_flipped(), y: self.y.spec_flipped() }),
    {
        Offsets { x: self.x.flipped(), y: self.y.flipped() }
    }

    pub open spec fn spec_is_near(self, other: Offsets) -> bool {
        spec_dist(self.x.spec_index() as int, other.x.spec_index() as int) <= 1 && spec_dist(
            self.y.spec_index() as int,
            other.y.spec_index() as int,
        ) <= 1
    }

    /// Both axes within one cell of `other`.
    pub fn is_near(&self, other: &Offsets) -> (r: bool)
        ensures
            r == self.spec_is_near(*other),
    {
        self.x.distance_from(&other.x) <= 1 && self.y.distance_from(&other.y) <= 1
    }

    pub open spec fn spec_is_linear_from(self, other: Offsets) -> bool {
        ||| self.x == other.x
        ||| self.y == other.y
        ||| self.y == VerticalOffset::Center
        ||| spec_dist(self.x.spec_index() as int, other.x.spec_index() as int) == spec_dist(
            self.y.spec_index() as int,
            other.y.spec_index() as int,
        )
    }

    /// Shares a row, a column, or a diagonal with `other` (a vertically
    /// centered offset also counts as linear).
    pub fn is_linear_from(&self, other: &Offsets) -> (r: bool)
        ensures
            r == self.spec_is_linear_from(*other),
    {
        self.x == other.x || self.y == other.y || self.y == VerticalOffset::Center
            || self.x.distance_from(&other.x) == self.y.distance_from(&other.y)
    }

    /// The grid coordinate of this offset, by index on each axis.
    pub fn to_coordinates(self) -> (c: Coordinates)
        ensures
            c == (Coordinates { x: self.x.spec_index(), y: self.y.spec_index() }),
    {
        Coordinates { x: self.x.to_index(), y: self.y.to_index() }
    }

    /// The offset whose indices are the given grid coordinate.
    pub fn from_coordinates(c: Coordinates) -> (r: Offsets)
        requires
            c.x <= 4,
            c.y <= 4,
        ensures
            r.x.spec_index() == c.x,
            r.y.spec_index() == c.y,
    {
        Offsets {
            x: HorizontalOffset::from_index(c.x),
            y: VerticalOffset::from_index(c.y),
        }
    }
}

/// An offset's place on its axis, as a grid index from 0 to 4.
pub trait Indexable: Sized {
    spec fn spec_index(self) -> u16;

    fn to_index(&self) -> (r: u16)
        ensures
            r == self.spec_index(),
    ;

    fn from_index(i: u16) -> (r: Self)
        requires
            i <= 4,
        ensures
            r.spec_index() == i,
    ;

    fn distance_from(&self, other: &Self) -> (r: u16)
        ensures
            r == spec_dist(self.spec_index() as int, other.spec_index() as int),
    {
        let a = self.to_index();
        let b = other.to_index();
        if a < b {
            b - a
        } else {
            a - b
        }
    }
}

impl Indexable for HorizontalOffset {
    open spec fn spec_index(self) -> u16 {
        match self {
            HorizontalOffset::FarLeft => 0,
            HorizontalOffset::Left => 1,
            HorizontalOffset::Center => 2,
            HorizontalOffset::Right => 3,
            HorizontalOffset::FarRight => 4,
        }
    }

    fn to_index(&self) -> u16 {
        match self {
            HorizontalOffset::FarLeft => 0,
            HorizontalOffset::Left => 1,
            HorizontalOffset::Center => 2,
            HorizontalOffset::Right => 3,
            HorizontalOffset::FarRight => 4,
        }
    }

    fn from_index(i: u16) -> Self {
        if i == 0 {
            HorizontalOffset::FarLeft
        } else if i == 1 {
            HorizontalOffset::Left
        } else if i == 2 {
            HorizontalOffset::Center
        } else if i == 3 {
            HorizontalOffset::Right
        } else {
            HorizontalOffset::FarRight
        }
    }
}

impl Indexable for VerticalOffset {
    open spec fn spec_index(self) -> u16 {
        match self {
            VerticalOffset::FarTop => 0,
            VerticalOffset::Top => 1,
            VerticalOffset::Center => 2,
            VerticalOffset::Bottom => 3,
            VerticalOffset::FarBottom => 4,
        }
    }

    fn to_index(&self) -> u16 {
        match self {
            VerticalOffset::FarTop => 0,
            VerticalOffset::Top => 1,
            VerticalOffset::Center => 2,
            VerticalOffset::Bottom => 3,
            VerticalOffset::FarBottom => 4,
        }
    }

    fn from_index(i: u16) -> Self {
        if i == 0 {
            VerticalOffset::FarTop
        } else if i == 1 {
            VerticalOffset::Top
        } else if i == 2 {
            VerticalOffset::Center
        } else if i == 3 {
            VerticalOffset::Bottom
        } else {
            VerticalOffset::FarBottom
        }
    }
}

/// An axis offset seen as a full grid offset, centered on the other axis.
pub trait Centerable: Sized {
    spec fn spec_center(self) -> Offsets;

    fn center(&self) -> (r: Offsets)
        ensures
            r == self.spec_center(),
    ;

    fn distance_from_center(&self) -> (r: u16)
        ensures
            r <= 2,
    ;

    fn is_centered(&self) -> (r: bool)
        ensures
            r == (self.spec_center() == Offsets::spec_center()),
    ;
}

impl Centerable for HorizontalOffset {
    open spec fn spec_center(self) -> Offsets {
        Offsets { x: self, y: VerticalOffset::Center }
    }

    fn center(&self) -> Offsets {
        Offsets { x: *self, y: VerticalOffset::Center }
    }

    fn distance_from_center(&self) -> (r: u16)
        ensures
            r == spec_dist(Indexable::spec_index(*self) as int, 2),
    {
        match self {
            HorizontalOffset::FarLeft => 2,
            HorizontalOffset::Left => 1,
            HorizontalOffset::Center => 0,
            HorizontalOffset::Right => 1,
            HorizontalOffset::FarRight => 2,
        }
    }

    fn is_centered(&self) -> (r: bool)
        ensures
            r == (*self == HorizontalOffset::Center),
    {
        *self == HorizontalOffset::Center
    }
}

impl Centerable for VerticalOffset {
    open spec fn spec_center(self) -> Offsets {
        Offsets { x: HorizontalOffset::Center, y: self }
    }

    fn center(&self) -> Offsets {
        Offsets { x: HorizontalOffset::Center, y: *self }
    }

    fn distance_from_center(&self) -> (r: u16)
        ensures
            r == spec_dist(Indexable::spec_index(*self) as int, 2),
    {
        match self {
            VerticalOffset::FarTop => 2,
            VerticalOffset::Top => 1,
            VerticalOffset::Center => 0,
            VerticalOffset::Bottom => 1,
            VerticalOffset::FarBottom => 2,
        }
    }

    fn is_centered(&self) -> (r: bool)
        ensures
            r == (*self == VerticalOffset::Center),
    {
        *self == VerticalOffset::Center
    }
}

impl Offsetable for HorizontalSymmetricOffset {
    /// The matching offsets on the horizontal axis, outermost pair first.
    fn offsets(&self) -> (r: Vec<Offsets>)
        ensures
            r@ == spec_symmetric_offsets(*self, VerticalOffset::Center),
    {
        (*self, VerticalOffset::Center).offsets()
    }
}

/// The expansion of a horizontally symmetric group at a given height.
pub open spec fn spec_symmetric_offsets(h: HorizontalSymmetricOffset, v: VerticalOffset) -> Seq<
    Offsets,
> {
    match h {
        HorizontalSymmetricOffset::Far => seq![
            Offsets { x: HorizontalOffset::FarLeft, y: v },
            Offsets { x: HorizontalOffset::FarRight, y: v },
        ],
        HorizontalSymmetricOffset::Near => seq![
            Offsets { x: HorizontalOffset::Left, y: v },
            Offsets { x: HorizontalOffset::Right, y: v },
        ],
        HorizontalSymmetricOffset::Center => seq![
            Offsets { x: HorizontalOffset::Center, y: v },
        ],
    }
}

impl Offsetable for (HorizontalSymmetricOffset, VerticalOffset) {
    fn offsets(&self) -> (r: Vec<Offsets>)
        ensures
            r@ == spec_symmetric_offsets(self.0, self.1),
    {
        let mut r: Vec<Offsets> = Vec::new();
        match self.0 {
            HorizontalSymmetricOffset::Far => {
                r.push(Offsets { x: HorizontalOffset::FarLeft, y: self.1 });
                r.push(Offsets { x: HorizontalOffset::FarRight, y: self.1 });
            },
            HorizontalSymmetricOffset::Near => {
                r.push(Offsets { x: HorizontalOffset::Left, y: self.1 });
                r.push(Offsets { x: HorizontalOffset::Right, y: self.1 });
            },
            HorizontalSymmetricOffset::Center => {
                r.push(Offsets { x: HorizontalOffset::Center, y: self.1 });
            },
        }
        proof {
            assert(r@ =~= spec_symmetric_offsets(self.0, self.1));
        }
        r
    }
}

impl Offsetable for VerticalOffset {
    /// A single centered offset at this height.
    fn offsets(&self) -> (r: Vec<Offsets>)
        ensures
            r@ == seq![Offsets { x: HorizontalOffset::Center, y: *self }],
    {
        let mut r: Vec<Offsets> = Vec::new();
        r.push(Offsets { x: HorizontalOffset::Center, y: *self });
        proof {
            assert(r@ =~= seq![Offsets { x: HorizontalOffset::Center, y: *self }]);
        }
        r
    }
}

/// The expansion of a four-way symmetric group.
pub open spec fn spec_four_way_offsets(f: FourWaySymmetric) -> Seq<Offsets> {
    match f {
        FourWaySymmetric::NearStraight => seq![
            Offsets { x: HorizontalOffset::Left, y: VerticalOffset::Center },
            Offsets { x: HorizontalOffset::Right, y: VerticalOffset::Center },
            Offsets { x: HorizontalOffset::Center, y: VerticalOffset::Top },
            Offsets { x: HorizontalOffset::Center, y: VerticalOffset::Bottom },
        ],
        FourWaySymmetric::FarStraight => seq![
            Offsets { x: HorizontalOffset::FarLeft, y: VerticalOffset::Center },
            Offsets { x: HorizontalOffset::FarRight, y: VerticalOffset::Center },
            Offsets { x: HorizontalOffset::Center, y: VerticalOffset::FarTop },
            Offsets { x: HorizontalOffset::Center, y: VerticalOffset::FarBottom },
        ],
        FourWaySymmetric::NearDiagonal => seq![
            Offsets { x: HorizontalOffset::Left, y: VerticalOffset::Top },
            Offsets { x: HorizontalOffset::Right, y: VerticalOffset::Top },
            Offsets { x: HorizontalOffset::Left, y: VerticalOffset::Bottom },
            Offsets { x: HorizontalOffset::Right, y: VerticalOffset::Bottom },
        ],
        FourWaySymmetric::FarDiagonal => seq![
            Offsets { x: HorizontalOffset::FarLeft, y: VerticalOffset::FarTop },
            Offsets { x: HorizontalOffset::FarRight, y: VerticalOffset::FarTop },
            Offsets { x: HorizontalOffset::FarLeft, y: VerticalOffset::FarBottom },
            Offsets { x: HorizontalOffset::FarRight, y: VerticalOffset::FarBottom },
        ],
    }
}

impl Offsetable for FourWaySymmetric {
    fn offsets(&self) -> (r: Vec<Offsets>)
        ensures
            r@ == spec_four_way_offsets(*self),
    {
        let mut r: Vec<Offsets> = Vec::new();
        match self {
            FourWaySymmetric::NearStraight => {
                r.push(Offsets { x: HorizontalOffset::Left, y: VerticalOffset::Center });
                r.push(Offsets { x: HorizontalOffset::Right, y: VerticalOffset::Center });
                r.push(Offsets { x: HorizontalOffset::Center, y: VerticalOffset::Top });
                r.push(Offsets { x: HorizontalOffset::Center, y: VerticalOffset::Bottom });
            },
            FourWaySymmetric::FarStraight => {
                r.push(Offsets { x: HorizontalOffset::FarLeft, y: VerticalOffset::Center });
                r.push(Offsets { x: HorizontalOffset::FarRight, y: VerticalOffset::Center });
                r.push(Offsets { x: HorizontalOffset::Center, y: VerticalOffset::FarTop });
                r.push(Offsets { x: HorizontalOffset::Center, y: VerticalOffset::FarBottom });
            },
            FourWaySymmetric::NearDiagonal => {
                r.push(Offsets { x: HorizontalOffset::Left, y: VerticalOffset::Top });
                r.push(Offsets { x: HorizontalOffset::Right, y: VerticalOffset::Top });
                r.push(Offsets { x: HorizontalOffset::Left, y: VerticalOffset::Bottom });
                r.push(Offsets { x: HorizontalOffset::Right, y: VerticalOffset::Bottom });
            },
            FourWaySymmetric::FarDiagonal => {
                r.push(Offsets { x: HorizontalOffset::FarLeft, y: VerticalOffset::FarTop });
                r.push(Offsets { x: HorizontalOffset::FarRight, y: VerticalOffset::FarTop });
                r.push(Offsets { x: HorizontalOffset::FarLeft, y: VerticalOffset::FarBottom });
                r.push(Offsets { x: HorizontalOffset::FarRight, y: VerticalOffset::FarBottom });
            },
        }
        proof {
            assert(r@ =~= spec_four_way_offsets(*self));
        }
        r
    }
}

} // verus!

//! A fixed-size rectangular grid of optional occupants, stored row-major.
//!
//! The same structure backs the 6x6 game board (occupants are placed tiles)
//! and each tile side's 5x5 action grid (occupants are actions). Every access
//! is bounds-checked by precondition: callers must pre-validate coordinates,
//! and `put` followed by `get` returns the value just put, while `remove`
//! followed by `get` returns nothing.

use vstd::prelude::*;

use crate::coordinates::Coordinates;
use crate::geometry::{Rectangular, Square};

verus! {

#[derive(Debug, Clone, PartialEq, Eq)]
pub struct Board<A> {
    cells: Vec<Option<A>>,
    width: u16,
    height: u16,
}

/// Row-major position of a coordinate in a grid `width` cells wide.
pub open spec fn row_major_index(width: u16, c: Coordinates) -> int {
    c.y as int * width as int + c.x as int
}

pub proof fn lemma_row_major_index_bounds(width: u16, height: u16, c: Coordinates)
    requires
        c.x < width,
        c.y < height,
    ensures
        0 <= row_major_index(width, c) < width as int * height as int,
{
    assert((c.y as int) * (width as int) + (c.x as int) < (width as int) * (height as int))
        by (nonlinear_arith)
        requires
            c.x < width,
            c.y < height,
    ;
}

pub proof fn lemma_row_major_index_injective(width: u16, c1: Coordinates, c2: Coordinates)
    requires
        c1.x < width,
        c2.x < width,
        c1 != c2,
    ensures
        row_major_index(width, c1) != row_major_index(width, c2),
{
    assert(c1.y as int * width as int + c1.x as int != c2.y as int * width as int + c2.x as int)
        by (nonlinear_arith)
        requires
            c1.x < width,
            c2.x < width,
            c1.x != c2.x || c1.y != c2.y,
    ;
}

/// The occupant of `c` is the cell at its row-major position.
pub proof fn lemma_at_is_cell<A>(b: Board<A>, c: Coordinates)
    requires
        b.inv(),
        b.spec_in_bounds(c),
    ensures
        0 <= row_major_index(b.spec_width(), c) < b.spec_cells().len(),
        b.spec_at(c) == b.spec_cells()[row_major_index(b.spec_width(), c)],
{
    lemma_row_major_index_bounds(b.spec_width(), b.spec_height(), c);
}

/// Boards that agree on every in-bounds cell have equal cell vectors.
pub proof fn lemma_cells_equal_from_pointwise<A>(b1: Board<A>, b2: Board<A>)
    requires
        b1.inv(),
        b2.inv(),
        b1.spec_width() == b2.spec_width(),
        b1.spec_height() == b2.spec_height(),
        b1.spec_width() > 0,
        forall|c: Coordinates| b1.spec_in_bounds(c) ==> b1.spec_at(c) == b2.spec_at(c),
    ensures
        b1.spec_cells() == b2.spec_cells(),
{
    let w = b1.spec_width() as int;
    let h = b1.spec_height() as int;
    assert forall|i: int| 0 <= i < b1.spec_cells().len() implies b1.spec_cells()[i]
        == b2.spec_cells()[i] by {
        let x = i % w;
        let y = i / w;
        assert(0 <= x < w && 0 <= y < h && y * w + x == i) by (nonlinear_arith)
            requires
                0 <= i < w * h,
                x == i % w,
                y == i / w,
                w > 0,
        ;
        let c = Coordinates { x: x as u16, y: y as u16 };
        assert(b1.spec_in_bounds(c));
        assert(row_major_index(b1.spec_width(), c) == i);
        assert(b1.spec_at(c) == b2.spec_at(c));
    }
    assert(b1.spec_cells() =~= b2.spec_cells());
}

impl<A> Board<A> {
    /// The cell vector matches the declared extent.
    pub closed spec fn inv(self) -> bool {
        self.cells@.len() == self.width as int * self.height as int
    }

    pub closed spec fn spec_cells(self) -> Seq<Option<A>> {
        self.cells@
    }

    pub open spec fn spec_in_bounds(self, c: Coordinates) -> bool {
        c.x < self.spec_width() && c.y < self.spec_height()
    }

    /// The occupant (if any) of an in-bounds coordinate.
    pub closed spec fn spec_at(self, c: Coordinates) -> Option<A> {
        self.cells@[row_major_index(self.width, c)]
    }

    /// Every in-bounds cell of the two boards agrees.
    pub open spec fn same_cells(self, other: Board<A>) -> bool {
        &&& self.spec_width() == other.spec_width()
        &&& self.spec_height() == other.spec_height()
        &&& forall|c: Coordinates| self.spec_in_bounds(c) ==> self.spec_at(c) == other.spec_at(c)
    }

    pub fn rect<R: Rectangular>(r: &R) -> (b: Board<A>)
        ensures
            b.inv(),
            b.spec_width() == r.spec_width(),
            b.spec_height() == r.spec_height(),
            forall|c: Coordinates| b.spec_in_bounds(c) ==> b.spec_at(c) is None,
    {
        let area: usize = r.area();
        let mut cells: Vec<Option<A>> = Vec::new();
        let mut i: usize = 0;
        while i < area
            invariant
                i <= area,
                cells@.len() == i,
                forall|j: int| 0 <= j < i ==> cells@[j] is None,
            decreases area - i,
        {
            cells.push(None);
            i = i + 1;
        }
        let b = Board { cells, width: r.width(), height: r.height() };
        proof {
            assert forall|c: Coordinates| b.spec_in_bounds(c) implies b.spec_at(c) is None by {
                lemma_row_major_index_bounds(b.width, b.height, c);
            }
        }
        b
    }

    pub fn square(side: u16) -> (b: Board<A>)
        ensures
            b.inv(),
            b.spec_width() == side,
            b.spec_height() == side,
            forall|c: Coordinates| b.spec_in_bounds(c) ==> b.spec_at(c) is None,
    {
        Board::rect(&Square::new(side))
    }

    /// Exec counterpart of [`row_major_index`].
    fn cell_index(&self, c: Coordinates) -> (idx: usize)
        requires
            self.inv(),
            self.spec_in_bounds(c),
        ensures
            idx == row_major_index(self.spec_width(), c),
            idx < self.spec_cells().len(),
    {
        let n: usize = self.cells.len();
        proof {
            lemma_row_major_index_bounds(self.width, self.height, c);
            assert((self.width as int) * (c.y as int) + (c.x as int) == row_major_index(
                self.width,
                c,
            )) by (nonlinear_arith);
        }
        self.width as usize * c.y as usize + c.x as usize
    }

    /// Places `a` at `c`, returning the previous occupant.
    pub fn put(&mut self, c: Coordinates, a: A) -> (r: Option<A>)
        requires
            old(self).inv(),
            old(self).spec_in_bounds(c),
        ensures
            final(self).inv(),
            final(self).spec_width() == old(self).spec_width(),
            final(self).spec_height() == old(self).spec_height(),
            r == old(self).spec_at(c),
            final(self).spec_at(c) == Some(a),
            forall|c2: Coordinates|
                final(self).spec_in_bounds(c2) && c2 != c ==> final(self).spec_at(c2) == old(self).spec_at(c2),
            final(self).spec_cells() == old(self).spec_cells().update(
                row_major_index(old(self).spec_width(), c),
                Some(a),
            ),
    {
        let idx: usize = self.cell_index(c);
        let mut slot: Option<A> = Some(a);
        self.cells.set_and_swap(idx, &mut slot);
        proof {
            assert forall|c2: Coordinates|
                self.spec_in_bounds(c2) && c2 != c implies self.spec_at(c2) == old(self).spec_at(
                c2,
            ) by {
                lemma_row_major_index_bounds(self.width, self.height, c2);
                lemma_row_major_index_injective(self.width, c, c2);
            }
        }
        slot
    }

    /// Empties the cell at `c`, returning the previous occupant.
    pub fn remove(&mut self, c: Coordinates) -> (r: Option<A>)
        requires
            old(self).inv(),
            old(self).spec_in_bounds(c),
        ensures
            final(self).inv(),
            final(self).spec_width() == old(self).spec_width(),
            final(self).spec_height() == old(self).spec_height(),
            r == old(self).spec_at(c),
            final(self).spec_at(c) is None,
            forall|c2: Coordinates|
                final(self).spec_in_bounds(c2) && c2 != c ==> final(self).spec_at(c2) == old(self).spec_at(c2),
            final(self).spec_cells() == old(self).spec_cells().update(
                row_major_index(old(self).spec_width(), c),
                None,
            ),
    {
        let idx: usize = self.cell_index(c);
        let mut slot: Option<A> = None;
        self.cells.set_and_swap(idx, &mut slot);
        proof {
            assert forall|c2: Coordinates|
                self.spec_in_bounds(c2) && c2 != c implies self.spec_at(c2) == old(self).spec_at(
                c2,
            ) by {
                lemma_row_major_index_bounds(self.width, self.height, c2);
                lemma_row_major_index_injective(self.width, c, c2);
            }
        }
        slot
    }

    pub fn get(&self, c: Coordinates) -> (r: Option<&A>)
        requires
            self.inv(),
            self.spec_in_bounds(c),
        ensures
            match r {
                Some(v) => self.spec_at(c) == Some(*v),
                None => self.spec_at(c) is None,
            },
    {
        let idx: usize = self.cell_index(c);
        match &self.cells[idx] {
            Some(a) => Some(a),
            None => None,
        }
    }

    /// Moves the occupant of `src` (which must be occupied) to `dst`,
    /// returning whatever `dst` held.
    pub fn mv(&mut self, src: Coordinates, dst: Coordinates) -> (r: Option<A>)
        requires
            old(self).inv(),
            old(self).spec_in_bounds(src),
            old(self).spec_in_bounds(dst),
            old(self).spec_at(src) is Some,
            src != dst,
        ensures
            final(self).inv(),
            final(self).spec_width() == old(self).spec_width(),
            final(self).spec_height() == old(self).spec_height(),
            r == old(self).spec_at(dst),
            final(self).spec_at(src) is None,
            final(self).spec_at(dst) == old(self).spec_at(src),
            forall|c2: Coordinates|
                final(self).spec_in_bounds(c2) && c2 != src && c2 != dst ==> final(self).spec_at(c2) == old(
                    self,
                ).spec_at(c2),
    {
        let e: Option<A> = self.remove(src);
        let result = self.remove(dst);
        let a = match e {
            Some(a) => a,
            None => unreached(),
        };
        self.put(dst, a);
        result
    }

    pub fn is_occupied(&self, c: Coordinates) -> (r: bool)
        requires
            self.inv(),
            self.spec_in_bounds(c),
        ensures
            r == (self.spec_at(c) is Some),
    {
        self.get(c).is_some()
    }

    pub fn is_empty(&self, c: Coordinates) -> (r: bool)
        requires
            self.inv(),
            self.spec_in_bounds(c),
        ensures
            r == (self.spec_at(c) is None),
    {
        self.get(c).is_none()
    }

    /// Every coordinate paired with its occupant, columns first.
    pub fn all_coordinated_values(&self) -> (r: Vec<(Coordinates, Option<&A>)>)
        requires
            self.inv(),
        ensures
            r@.len() == self.spec_width() as int * self.spec_height() as int,
            forall|i: int|
                0 <= i < r@.len() ==> {
                    &&& #[trigger] self.spec_in_bounds(r@[i].0)
                    &&& match r@[i].1 {
                        Some(v) => self.spec_at(r@[i].0) == Some(*v),
                        None => self.spec_at(r@[i].0) is None,
                    }
                },
            forall|c: Coordinates|
                #[trigger] self.spec_in_bounds(c) ==> exists|i: int|
                    0 <= i < r@.len() && (#[trigger] r@[i].0) == c,
    {
        let mut r: Vec<(Coordinates, Option<&A>)> = Vec::new();
        let mut x: u16 = 0;
        while x < self.width
            invariant
                self.inv(),
                x <= self.width,
                r@.len() == x as int * self.height as int,
                forall|i: int|
                    0 <= i < r@.len() ==> {
                        &&& #[trigger] self.spec_in_bounds(r@[i].0)
                        &&& match r@[i].1 {
                            Some(v) => self.spec_at(r@[i].0) == Some(*v),
                            None => self.spec_at(r@[i].0) is None,
                        }
                    },
                forall|c: Coordinates|
                    #[trigger] self.spec_in_bounds(c) && c.x < x ==> exists|i: int|
                        0 <= i < r@.len() && (#[trigger] r@[i].0) == c,
            decreases self.width - x,
        {
            let mut y: u16 = 0;
            while y < self.height
                invariant
                    self.inv(),
                    x < self.width,
                    y <= self.height,
                    r@.len() == x as int * self.height as int + y as int,
                    forall|i: int|
                        0 <= i < r@.len() ==> {
                            &&& #[trigger] self.spec_in_bounds(r@[i].0)
                            &&& match r@[i].1 {
                                Some(v) => self.spec_at(r@[i].0) == Some(*v),
                                None => self.spec_at(r@[i].0) is None,
                            }
                        },
                    forall|c: Coordinates|
                        #[trigger] self.spec_in_bounds(c) && (c.x < x || (c.x == x && c.y < y))
                            ==> exists|i: int| 0 <= i < r@.len() && (#[trigger] r@[i].0) == c,
                decreases self.height - y,
            {
                let ghost r0 = r@;
                let c = Coordinates { x, y };
                r.push((c, self.get(c)));
                proof {
                    assert forall|c2: Coordinates|
                        self.spec_in_bounds(c2) && (c2.x < x || (c2.x == x && c2.y < y
                            + 1)) implies exists|i: int|
                        0 <= i < r@.len() && (#[trigger] r@[i].0) == c2 by {
                        if c2 == c {
                            assert(r@[r@.len() - 1].0 == c2);
                        } else {
                            let i = choose|i: int| 0 <= i < r0.len() && (#[trigger] r0[i].0) == c2;
                            assert(r@[i].0 == c2);
                        }
                    }
                }
                y = y + 1;
            }
            x = x + 1;
            proof {
                assert(x as int * self.height as int == (x - 1) as int * self.height as int
                    + self.height as int) by (nonlinear_arith);
            }
        }
        r
    }

    /// The occupied coordinates with their occupants, columns first; the
    /// listed coordinates are distinct and exactly cover the occupied cells.
    pub fn active_coordinates(&self) -> (r: Vec<(Coordinates, &A)>)
        requires
            self.inv(),
        ensures
            forall|i: int|
                0 <= i < r@.len() ==> {
                    &&& #[trigger] self.spec_in_bounds(r@[i].0)
                    &&& self.spec_at(r@[i].0) == Some(*r@[i].1)
                },
            forall|c: Coordinates|
                #[trigger] self.spec_in_bounds(c) && self.spec_at(c) is Some ==> exists|i: int|
                    0 <= i < r@.len() && (#[trigger] r@[i].0) == c,
            forall|i: int, j: int| 0 <= i < j < r@.len() ==> r@[i].0 != r@[j].0,
    {
        let mut r: Vec<(Coordinates, &A)> = Vec::new();
        let mut x: u16 = 0;
        while x < self.width
            invariant
                self.inv(),
                x <= self.width,
                forall|i: int|
                    0 <= i < r@.len() ==> {
                        &&& #[trigger] self.spec_in_bounds(r@[i].0)
                        &&& self.spec_at(r@[i].0) == Some(*r@[i].1)
                        &&& r@[i].0.x < x
                    },
                forall|c: Coordinates|
                    #[trigger] self.spec_in_bounds(c) && self.spec_at(c) is Some && c.x < x
                        ==> exists|i: int| 0 <= i < r@.len() && (#[trigger] r@[i].0) == c,
                forall|i: int, j: int| 0 <= i < j < r@.len() ==> r@[i].0 != r@[j].0,
            decreases self.width - x,
        {
            let mut y: u16 = 0;
            while y < self.height
                invariant
                    self.inv(),
                    x < self.width,
                    y <= self.height,
                    forall|i: int|
                        0 <= i < r@.len() ==> {
                            &&& #[trigger] self.spec_in_bounds(r@[i].0)
                            &&& self.spec_at(r@[i].0) == Some(*r@[i].1)
                            &&& (r@[i].0.x < x || (r@[i].0.x == x && r@[i].0.y < y))
                        },
                    forall|c: Coordinates|
                        #[trigger] self.spec_in_bounds(c) && self.spec_at(c) is Some && (c.x < x
                            || (c.x == x && c.y < y)) ==> exists|i: int|
                            0 <= i < r@.len() && (#[trigger] r@[i].0) == c,
                    forall|i: int, j: int| 0 <= i < j < r@.len() ==> r@[i].0 != r@[j].0,
                decreases self.height - y,
            {
                let ghost r0 = r@;
                let c = Coordinates { x, y };
                match self.get(c) {
                    Some(a) => {
                        r.push((c, a));
                        proof {
                            assert(r@ == r0.push((c, a)));
                        }
                    },
                    None => (),
                }
                proof {
                    assert forall|i: int|
                        0 <= i < r@.len() implies {
                        &&& #[trigger] self.spec_in_bounds(r@[i].0)
                        &&& self.spec_at(r@[i].0) == Some(*r@[i].1)
                        &&& (r@[i].0.x < x || (r@[i].0.x == x && r@[i].0.y < y + 1))
                    } by {
                        if i < r0.len() {
                            assert(r@[i] == r0[i]);
                            assert(self.spec_in_bounds(r0[i].0));
                        } else {
                            assert(r@[i].0 == c);
                        }
                    }
                    assert forall|i: int, j: int|
                        0 <= i < j < r@.len() implies r@[i].0 != r@[j].0 by {
                        assert(r@[i] == r0[i]);
                        assert(self.spec_in_bounds(r0[i].0));
                        if j < r0.len() {
                            assert(r@[j] == r0[j]);
                            assert(self.spec_in_bounds(r0[j].0));
                        } else {
                            assert(r@[j].0 == c);
                        }
                    }
                    assert forall|c2: Coordinates|
                        self.spec_in_bounds(c2) && self.spec_at(c2) is Some && (c2.x < x || (c2.x
                            == x && c2.y < y + 1)) implies exists|i: int|
                        0 <= i < r@.len() && (#[trigger] r@[i].0) == c2 by {
                        if c2 == c {
                            assert(r@[r@.len() - 1].0 == c2);
                        } else {
                            let i = choose|i: int| 0 <= i < r0.len() && (#[trigger] r0[i].0) == c2;
                            assert(r@[i].0 == c2);
                        }
                    }
                }
                y = y + 1;
            }
            x = x + 1;
        }
        r
    }
}

impl<A: Copy> Board<A> {
    /// The same grid mirrored top to bottom.
    pub fn flip_vertical(&self) -> (b: Board<A>)
        requires
            self.inv(),
        ensures
            b.inv(),
            b.spec_width() == self.spec_width(),
            b.spec_height() == self.spec_height(),
            forall|c: Coordinates|
                #[trigger] b.spec_in_bounds(c) ==> b.spec_at(c) == self.spec_at(
                    Coordinates { x: c.x, y: (self.spec_height() - 1 - c.y) as u16 },
                ),
    {
        let mut b: Board<A> = Board::rect(self);
        let mut y: u16 = 0;
        while y < self.height
            invariant
                self.inv(),
                b.inv(),
                b.spec_width() == self.spec_width(),
                b.spec_height() == self.spec_height(),
                y <= self.height,
                forall|c: Coordinates|
                    #[trigger] b.spec_in_bounds(c) && c.y < y ==> b.spec_at(c) == self.spec_at(
                        Coordinates { x: c.x, y: (self.spec_height() - 1 - c.y) as u16 },
                    ),
                forall|c: Coordinates|
                    #[trigger] b.spec_in_bounds(c) && c.y >= y ==> b.spec_at(c) is None,
            decreases self.height - y,
        {
            let mut x: u16 = 0;
            while x < self.width
                invariant
                    self.inv(),
                    b.inv(),
                    b.spec_width() == self.spec_width(),
                    b.spec_height() == self.spec_height(),
                    y < self.height,
                    x <= self.width,
                    forall|c: Coordinates|
                        #[trigger] b.spec_in_bounds(c) && (c.y < y || (c.y == y && c.x < x))
                            ==> b.spec_at(c) == self.spec_at(
                            Coordinates { x: c.x, y: (self.spec_height() - 1 - c.y) as u16 },
                        ),
                    forall|c: Coordinates|
                        #[trigger] b.spec_in_bounds(c) && (c.y > y || (c.y == y && c.x >= x))
                            ==> b.spec_at(c) is None,
                decreases self.width - x,
            {
                let src = Coordinates { x, y: self.height - 1 - y };
                let ghost b0 = b;
                let here = Coordinates { x, y };
                match self.get(src) {
                    Some(a) => {
                        b.put(here, *a);
                    },
                    None => (),
                }
                proof {
                    assert forall|c: Coordinates|
                        b.spec_in_bounds(c) && (c.y < y || (c.y == y && c.x < x
                            + 1)) implies b.spec_at(c) == self.spec_at(
                        Coordinates { x: c.x, y: (self.spec_height() - 1 - c.y) as u16 },
                    ) by {
                        assert(b0.spec_in_bounds(c));
                        if c == here {
                            assert(Coordinates { x: c.x, y: (self.spec_height() - 1 - c.y) as u16 }
                                == src);
                        } else {
                            assert(b.spec_at(c) == b0.spec_at(c));
                        }
                    }
                    assert forall|c: Coordinates|
                        b.spec_in_bounds(c) && (c.y > y || (c.y == y && c.x >= x
                            + 1)) implies b.spec_at(c) is None by {
                        assert(b0.spec_in_bounds(c));
                        assert(c != here);
                        assert(b.spec_at(c) == b0.spec_at(c));
                    }
                }
                x = x + 1;
            }
            y = y + 1;
        }
        b
    }

    /// The grid as rows of optional occupants, top row first.
    pub fn rows(&self) -> (r: Vec<Vec<Option<A>>>)
        requires
            self.inv(),
        ensures
            r@.len() == self.spec_height() as int,
            forall|y: int|
                0 <= y < r@.len() ==> (#[trigger] r@[y])@.len() == self.spec_width() as int,
            forall|y: int, x: int|
                0 <= y < r@.len() && 0 <= x < self.spec_width() ==> (#[trigger] r@[y]@[x])
                    == self.spec_at(Coordinates { x: x as u16, y: y as u16 }),
    {
        let mut r: Vec<Vec<Option<A>>> = Vec::new();
        let mut y: u16 = 0;
        while y < self.height
            invariant
                self.inv(),
                y <= self.height,
                r@.len() == y as int,
                forall|j: int|
                    0 <= j < r@.len() ==> (#[trigger] r@[j])@.len() == self.spec_width() as int,
                forall|j: int, x: int|
                    0 <= j < r@.len() && 0 <= x < self.spec_width() ==> (#[trigger] r@[j]@[x])
                        == self.spec_at(Coordinates { x: x as u16, y: j as u16 }),
            decreases self.height - y,
        {
            let mut row: Vec<Option<A>> = Vec::new();
            let mut x: u16 = 0;
            while x < self.width
                invariant
                    self.inv(),
                    y < self.height,
                    x <= self.width,
                    row@.len() == x as int,
                    forall|i: int|
                        0 <= i < row@.len() ==> (#[trigger] row@[i]) == self.spec_at(
                            Coordinates { x: i as u16, y },
                        ),
                decreases self.width - x,
            {
                let c = Coordinates { x, y };
                match self.get(c) {
                    Some(a) => row.push(Some(*a)),
                    None => row.push(None),
                }
                x = x + 1;
            }
            r.push(row);
            y = y + 1;
        }
        r
    }
}

impl<A> Rectangular for Board<A> {
    closed spec fn spec_width(&self) -> u16 {
        self.width
    }

    closed spec fn spec_height(&self) -> u16 {
        self.height
    }

    fn width(&self) -> u16 {
        self.width
    }

    fn height(&self) -> u16 {
        self.height
    }
}

} // verus!

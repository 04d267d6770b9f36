//! Absolute board coordinates and straight-line geometry between them.
//!
//! Two coordinates are "linear" when they share a row, share a column, or lie
//! on a common diagonal. The strictly-between cells of such a pair form its
//! linear path, ordered from the source toward the destination.

use vstd::prelude::*;

verus! {

#[derive(Debug, PartialEq, Eq, Clone, Copy, Hash, Structural)]
pub struct Coordinates {
    pub x: u16,
    pub y: u16,
}

/// Distance between two integers.
pub open spec fn spec_dist(a: int, b: int) -> int {
    if a < b {
        b - a
    } else {
        a - b
    }
}

/// The value `k` steps of the way from `a` toward `b` (staying at `a` when the
/// two are equal).
pub open spec fn spec_toward(a: int, b: int, k: int) -> int {
    if a < b {
        a + k
    } else if a > b {
        a - k
    } else {
        a
    }
}

impl Coordinates {
    /// Same row, same column, or a common diagonal (and distinct).
    pub open spec fn is_linear_to(self, dst: Coordinates) -> bool {
        self != dst && {
            ||| self.x == dst.x
            ||| self.y == dst.y
            ||| spec_dist(self.x as int, dst.x as int) == spec_dist(self.y as int, dst.y as int)
        }
    }

    /// Number of cells strictly between two distinct linear coordinates.
    pub open spec fn spec_path_len(self, dst: Coordinates) -> int {
        if spec_dist(self.x as int, dst.x as int) >= spec_dist(self.y as int, dst.y as int) {
            spec_dist(self.x as int, dst.x as int) - 1
        } else {
            spec_dist(self.y as int, dst.y as int) - 1
        }
    }

    /// The cells strictly between `self` and `dst`, ordered from `self`
    /// toward `dst`.
    pub open spec fn spec_linear_path(self, dst: Coordinates) -> Seq<Coordinates> {
        Seq::new(
            self.spec_path_len(dst) as nat,
            |i: int|
                Coordinates {
                    x: spec_toward(self.x as int, dst.x as int, i + 1) as u16,
                    y: spec_toward(self.y as int, dst.y as int, i + 1) as u16,
                },
        )
    }

    pub fn is_straight_line_to(self, dst: Coordinates) -> (r: bool)
        ensures
            r == (self == dst || self.is_linear_to(dst)),
    {
        self.x == dst.x || self.y == dst.y || self.x.distance_to(dst.x) == self.y.distance_to(
            dst.y,
        )
    }

    /// The cells strictly between `self` and `dst`, from `self` toward `dst`.
    pub fn linear_path_to(&self, dst: Coordinates) -> (r: Vec<Coordinates>)
        requires
            self.is_linear_to(dst),
        ensures
            r@ == self.spec_linear_path(dst),
    {
        let steps: u16 = if self.x.distance_to(dst.x) >= self.y.distance_to(dst.y) {
            self.x.distance_to(dst.x)
        } else {
            self.y.distance_to(dst.y)
        };
        let mut r: Vec<Coordinates> = Vec::new();
        let mut k: u16 = 1;
        while k < steps
            invariant
                1 <= k <= steps,
                steps == self.spec_path_len(dst) + 1,
                self.x != dst.x ==> spec_dist(self.x as int, dst.x as int) == steps,
                self.y != dst.y ==> spec_dist(self.y as int, dst.y as int) == steps,
                r@.len() == k - 1,
                forall|i: int|
                    0 <= i < r@.len() ==> r@[i] == self.spec_linear_path(dst)[i],
            decreases steps - k,
        {
            let cx: u16 = if self.x < dst.x {
                self.x + k
            } else if self.x > dst.x {
                self.x - k
            } else {
                self.x
            };
            let cy: u16 = if self.y < dst.y {
                self.y + k
            } else if self.y > dst.y {
                self.y - k
            } else {
                self.y
            };
            r.push(Coordinates { x: cx, y: cy });
            k = k + 1;
        }
        proof {
            assert(r@ =~= self.spec_linear_path(dst));
        }
        r
    }

    /// Diagonal adjacency: both axes differ by exactly one.
    pub fn is_near(&self, other: Coordinates) -> (r: bool)
        ensures
            r == (spec_dist(self.x as int, other.x as int) == 1 && spec_dist(
                self.y as int,
                other.y as int,
            ) == 1),
    {
        self.x.distance_to(other.x) == 1 && self.y.distance_to(other.y) == 1
    }
}

/// Linear path symmetry: the path from `a` to `b`, reversed, is the path from
/// `b` to `a`.
pub proof fn lemma_linear_path_symmetry(a: Coordinates, b: Coordinates)
    requires
        a.is_linear_to(b),
    ensures
        a.spec_linear_path(b).reverse() == b.spec_linear_path(a),
{
    let p = a.spec_linear_path(b);
    let q = b.spec_linear_path(a);
    assert(p.reverse() =~= q);
}

/// Absolute difference of two unsigned values, without overflow.
pub trait Distance: Sized {
    spec fn spec_distance_to(&self, other: Self) -> int;

    fn distance_to(&self, other: Self) -> (r: Self)
        ensures
            r.spec_distance_to(other) >= 0,
    ;
}

impl Distance for u16 {
    open spec fn spec_distance_to(&self, other: u16) -> int {
        spec_dist(*self as int, other as int)
    }

    fn distance_to(&self, other: u16) -> (r: u16)
        ensures
            r == spec_dist(*self as int, other as int),
    {
        if *self < other {
            other - *self
        } else {
            *self - other
        }
    }
}

impl Distance for usize {
    open spec fn spec_distance_to(&self, other: usize) -> int {
        spec_dist(*self as int, other as int)
    }

    fn distance_to(&self, other: usize) -> (r: usize)
        ensures
            r == spec_dist(*self as int, other as int),
    {
        if *self < other {
            other - *self
        } else {
            *self - other
        }
    }
}

} // verus!

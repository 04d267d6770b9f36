//! Rectangular extents and bounds checks shared by the game board and the
//! tile action grids.

use vstd::prelude::*;

use crate::coordinates::Coordinates;

verus! {

/// Anything with a fixed width and height, addressed by [`Coordinates`].
pub trait Rectangular: Sized {
    spec fn spec_width(&self) -> u16;

    spec fn spec_height(&self) -> u16;

    fn width(&self) -> (w: u16)
        ensures
            w == self.spec_width(),
    ;

    fn height(&self) -> (h: u16)
        ensures
            h == self.spec_height(),
    ;

    fn area(&self) -> (a: usize)
        ensures
            a == self.spec_width() * self.spec_height(),
    {
        let w = self.width();
        let h = self.height();
        proof {
            assert((w as int) * (h as int) <= 0xFFFF * 0xFFFF) by (nonlinear_arith)
                requires
                    w <= 0xFFFF,
                    h <= 0xFFFF,
            ;
        }
        w as usize * h as usize
    }

    fn is_in_bounds(&self, c: Coordinates) -> (r: bool)
        ensures
            r == (c.x < self.spec_width() && c.y < self.spec_height()),
    {
        c.x < self.width() && c.y < self.height()
    }

    fn is_out_of_bounds(&self, c: Coordinates) -> (r: bool)
        ensures
            r == !(c.x < self.spec_width() && c.y < self.spec_height()),
    {
        !self.is_in_bounds(c)
    }
}

#[derive(Debug, PartialEq, Eq, Clone, Copy, Structural)]
pub struct Rectangle {
    height: u16,
    width: u16,
}

impl Rectangle {
    pub fn with_width_and_height(width: u16, height: u16) -> (r: Rectangle)
        ensures
            r.spec_width() == width,
            r.spec_height() == height,
    {
        Rectangle { width, height }
    }
}

impl Rectangular for Rectangle {
    closed spec fn spec_width(&self) -> u16 {
        self.width
    }

    closed spec fn spec_height(&self) -> u16 {
        self.height
    }

    fn width(&self) -> u16 {
        self.width
    }

    fn height(&self) -> u16 {
        self.height
    }
}

#[derive(Debug, PartialEq, Eq, Clone, Copy, Structural)]
pub struct Square(u16);

impl Square {
    pub fn new(side: u16) -> (r: Square)
        ensures
            r.spec_width() == side,
            r.spec_height() == side,
    {
        Square(side)
    }

    pub fn side(&self) -> (s: u16)
        ensures
            s == self.spec_width(),
    {
        self.0
    }
}

impl Rectangular for Square {
    closed spec fn spec_width(&self) -> u16 {
        self.0
    }

    closed spec fn spec_height(&self) -> u16 {
        self.0
    }

    fn width(&self) -> u16 {
        self.0
    }

    fn height(&self) -> u16 {
        self.0
    }
}

} // verus!

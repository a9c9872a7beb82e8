//! Points and axis-aligned rectangles.

use vstd::prelude::*;
use crate::fixed::{min_of, sat_add, sat_dist, saturate};

verus! {

/// A position in image space or in view space; which one is decided by
/// where the value is used.
#[derive(Clone, Copy, Debug, PartialEq, Eq, Structural)]
pub struct Point {
    pub x: i64,
    pub y: i64,
}

/// A rectangle given by two opposite corners, in any order.
#[derive(Clone, Copy, Debug, PartialEq, Eq, Structural)]
pub struct Rect {
    pub x1: i64,
    pub y1: i64,
    pub x2: i64,
    pub y2: i64,
}

impl Point {
    /// The point shifted by `(dx, dy)`.
    pub open spec fn translated(self, dx: i64, dy: i64) -> Point {
        Point { x: saturate(self.x + dx), y: saturate(self.y + dy) }
    }

    /// Shifts the point by `(dx, dy)`.
    pub fn translate(self, dx: i64, dy: i64) -> (r: Point)
        ensures
            r == self.translated(dx, dy),
    {
        Point { x: sat_add(self.x, dx), y: sat_add(self.y, dy) }
    }
}

impl Rect {
    /// The smaller of the two x coordinates.
    pub open spec fn left(self) -> int {
        vstd::math::min(self.x1 as int, self.x2 as int)
    }

    /// The smaller of the two y coordinates.
    pub open spec fn top(self) -> int {
        vstd::math::min(self.y1 as int, self.y2 as int)
    }

    /// The horizontal extent, never negative.
    pub open spec fn width(self) -> int {
        saturate(vstd::math::abs(self.x2 - self.x1) as int) as int
    }

    /// The vertical extent, never negative.
    pub open spec fn height(self) -> int {
        saturate(vstd::math::abs(self.y2 - self.y1) as int) as int
    }

    /// The same rectangle with its corners exchanged.
    pub open spec fn flipped(self) -> Rect {
        Rect { x1: self.x2, y1: self.y2, x2: self.x1, y2: self.y1 }
    }

    /// Whether `p` lies in the normalized rectangle, borders included.
    pub open spec fn contains(self, p: Point) -> bool {
        &&& self.left() <= p.x <= self.left() + self.width()
        &&& self.top() <= p.y <= self.top() + self.height()
    }

    /// The rectangle shifted by `(dx, dy)`.
    pub open spec fn translated(self, dx: i64, dy: i64) -> Rect {
        Rect {
            x1: saturate(self.x1 + dx),
            y1: saturate(self.y1 + dy),
            x2: saturate(self.x2 + dx),
            y2: saturate(self.y2 + dy),
        }
    }

    /// The degenerate rectangle whose two corners are both `p`.
    pub open spec fn at(p: Point) -> Rect {
        Rect { x1: p.x, y1: p.y, x2: p.x, y2: p.y }
    }

    /// The rectangle with its second corner moved to `p`.
    pub open spec fn with_corner(self, p: Point) -> Rect {
        Rect { x1: self.x1, y1: self.y1, x2: p.x, y2: p.y }
    }

    /// Origin, width and height of the rectangle, whatever the order of
    /// its corners: `(x, y, w, h)` with `w` and `h` never negative.
    pub fn normalized(self) -> (r: (i64, i64, i64, i64))
        ensures
            r.0 == self.left(),
            r.1 == self.top(),
            r.2 == self.width(),
            r.3 == self.height(),
            r.2 >= 0,
            r.3 >= 0,
    {
        let x: i64 = min_of(self.x1, self.x2);
        let y: i64 = min_of(self.y1, self.y2);
        let w: i64 = sat_dist(self.x1, self.x2);
        let h: i64 = sat_dist(self.y1, self.y2);
        (x, y, w, h)
    }

    /// Tests whether `p` lies in the normalized rectangle, borders
    /// included.
    pub fn contains_point(self, p: Point) -> (r: bool)
        ensures
            r == self.contains(p),
    {
        let (x, y, w, h): (i64, i64, i64, i64) = self.normalized();
        p.x >= x && p.x as i128 <= x as i128 + w as i128 && p.y >= y && p.y as i128 <= y as i128
            + h as i128
    }

    /// Shifts both corners by `(dx, dy)`.
    pub fn translate(self, dx: i64, dy: i64) -> (r: Rect)
        ensures
            r == self.translated(dx, dy),
    {
        Rect {
            x1: sat_add(self.x1, dx),
            y1: sat_add(self.y1, dy),
            x2: sat_add(self.x2, dx),
            y2: sat_add(self.y2, dy),
        }
    }

    /// Makes the degenerate rectangle at `p`.
    pub fn at_point(p: Point) -> (r: Rect)
        ensures
            r == Rect::at(p),
    {
        Rect { x1: p.x, y1: p.y, x2: p.x, y2: p.y }
    }

    /// Moves the second corner to `p`.
    pub fn drag_to(self, p: Point) -> (r: Rect)
        ensures
            r == self.with_corner(p),
    {
        Rect { x1: self.x1, y1: self.y1, x2: p.x, y2: p.y }
    }
}

/// Width and height of a normalized rectangle are never negative, and
/// exchanging the two corners changes nothing about it.
pub proof fn lemma_normalized_ignores_corner_order(r: Rect)
    ensures
        r.width() >= 0,
        r.height() >= 0,
        r.flipped().left() == r.left(),
        r.flipped().top() == r.top(),
        r.flipped().width() == r.width(),
        r.flipped().height() == r.height(),
{
}

} // verus!

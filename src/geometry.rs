//! Points, outline curves and glyph outlines in font design units.
use vstd::prelude::*;

verus! {

/// A point in font design units.
#[derive(Clone, Copy, Debug, PartialEq, Eq, Structural)]
pub struct Point {
    pub x: i32,
    pub y: i32,
}

impl Point {
    pub fn new(x: i32, y: i32) -> (p: Point)
        ensures
            p.x == x,
            p.y == y,
    {
        Point { x, y }
    }
}

/// One segment of a glyph's vector boundary, with explicit end points.
#[derive(Clone, Copy, Debug, PartialEq, Eq, Structural)]
pub enum OutlineCurve {
    /// A straight line `from -> to`.
    Line(Point, Point),
    /// A quadratic Bezier curve `from -> to` with one control point.
    Quad(Point, Point, Point),
    /// A cubic Bezier curve `from -> to` with two control points.
    Cubic(Point, Point, Point, Point),
}

impl OutlineCurve {
    /// Where the curve starts.
    pub open spec fn start_point(self) -> Point {
        match self {
            OutlineCurve::Line(from, _) => from,
            OutlineCurve::Quad(from, _, _) => from,
            OutlineCurve::Cubic(from, _, _, _) => from,
        }
    }

    /// Where the curve ends.
    pub open spec fn end_point(self) -> Point {
        match self {
            OutlineCurve::Line(_, to) => to,
            OutlineCurve::Quad(_, _, to) => to,
            OutlineCurve::Cubic(_, _, _, to) => to,
        }
    }

    pub fn start(&self) -> (p: Point)
        ensures
            p == self.start_point(),
    {
        match self {
            OutlineCurve::Line(from, _) => *from,
            OutlineCurve::Quad(from, _, _) => *from,
            OutlineCurve::Cubic(from, _, _, _) => *from,
        }
    }

    pub fn end(&self) -> (p: Point)
        ensures
            p == self.end_point(),
    {
        match self {
            OutlineCurve::Line(_, to) => *to,
            OutlineCurve::Quad(_, _, to) => *to,
            OutlineCurve::Cubic(_, _, _, to) => *to,
        }
    }
}

/// An axis-aligned box given by two opposite corners, in either order.
#[derive(Clone, Copy, Debug, PartialEq, Eq, Structural)]
pub struct Bounds {
    pub min: Point,
    pub max: Point,
}

impl Bounds {
    pub open spec fn lo_x(self) -> int {
        if self.min.x <= self.max.x { self.min.x as int } else { self.max.x as int }
    }

    pub open spec fn lo_y(self) -> int {
        if self.min.y <= self.max.y { self.min.y as int } else { self.max.y as int }
    }

    /// Horizontal extent, whatever the order of the corners.
    pub open spec fn width(self) -> int {
        if self.min.x <= self.max.x {
            self.max.x - self.min.x
        } else {
            self.min.x - self.max.x
        }
    }

    /// Vertical extent, whatever the order of the corners.
    pub open spec fn height(self) -> int {
        if self.min.y <= self.max.y {
            self.max.y - self.min.y
        } else {
            self.min.y - self.max.y
        }
    }

    /// Width and height of the box.
    pub fn size(&self) -> (r: (i64, i64))
        ensures
            r.0 == self.width(),
            r.1 == self.height(),
            r.0 >= 0 && r.1 >= 0,
    {
        let w = if self.min.x <= self.max.x {
            self.max.x as i64 - self.min.x as i64
        } else {
            self.min.x as i64 - self.max.x as i64
        };
        let h = if self.min.y <= self.max.y {
            self.max.y as i64 - self.min.y as i64
        } else {
            self.min.y as i64 - self.max.y as i64
        };
        (w, h)
    }
}

/// A glyph outline as the font reports it: its curves and its bounding box.
#[derive(Clone, Debug)]
pub struct Outline {
    pub curves: Vec<OutlineCurve>,
    pub bounds: Bounds,
}

} // verus!

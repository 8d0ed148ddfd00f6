//! Typed outline curves and the contour well-formedness predicates: chaining
//! (each curve starts where the previous one ended) and closure (the last
//! curve ends where the first one started).

use vstd::prelude::*;

use crate::geometry::Point2;
use crate::geometry::point_in_bounds;

verus! {

/// One segment of a glyph contour: a straight line, a quadratic Bezier, or a
/// cubic Bezier. The first point is always the segment's start; the last is
/// its end; points between are control points.
#[derive(Clone, Copy, PartialEq, Eq, Structural, Debug)]
pub enum Curve {
    Line(Point2, Point2),
    Bezier2(Point2, Point2, Point2),
    Bezier3(Point2, Point2, Point2, Point2),
}

impl Curve {
    /// The start point of the curve.
    pub open spec fn spec_first_point(self) -> Point2 {
        match self {
            Curve::Line(p, _) => p,
            Curve::Bezier2(p, _, _) => p,
            Curve::Bezier3(p, _, _, _) => p,
        }
    }

    /// The end point of the curve.
    pub open spec fn spec_last_point(self) -> Point2 {
        match self {
            Curve::Line(_, p) => p,
            Curve::Bezier2(_, _, p) => p,
            Curve::Bezier3(_, _, _, p) => p,
        }
    }

    /// A curve is degenerate when its start and end coincide exactly.
    /// Coordinate equality is exact integer equality throughout the pipeline;
    /// no tolerance is applied anywhere.
    pub open spec fn spec_degenerate(self) -> bool {
        self.spec_first_point() == self.spec_last_point()
    }

    /// The control points of the curve, in order.
    pub open spec fn spec_points(self) -> Seq<Point2> {
        match self {
            Curve::Line(a, b) => seq![a, b],
            Curve::Bezier2(a, b, c) => seq![a, b, c],
            Curve::Bezier3(a, b, c, d) => seq![a, b, c, d],
        }
    }

    /// All control points of the curve lie within the coordinate bounds.
    pub open spec fn spec_in_bounds(self) -> bool {
        match self {
            Curve::Line(a, b) => point_in_bounds(a) && point_in_bounds(b),
            Curve::Bezier2(a, b, c) => {
                point_in_bounds(a) && point_in_bounds(b) && point_in_bounds(c)
            },
            Curve::Bezier3(a, b, c, d) => {
                point_in_bounds(a) && point_in_bounds(b) && point_in_bounds(c)
                    && point_in_bounds(d)
            },
        }
    }

    pub fn first_point(&self) -> (p: Point2)
        ensures
            p == self.spec_first_point(),
    {
        match self {
            Curve::Line(p, _) => *p,
            Curve::Bezier2(p, _, _) => *p,
            Curve::Bezier3(p, _, _, _) => *p,
        }
    }

    pub fn last_point(&self) -> (p: Point2)
        ensures
            p == self.spec_last_point(),
    {
        match self {
            Curve::Line(_, p) => *p,
            Curve::Bezier2(_, _, p) => *p,
            Curve::Bezier3(_, _, _, p) => *p,
        }
    }

    pub fn is_degenerate(&self) -> (b: bool)
        ensures
            b == self.spec_degenerate(),
    {
        let f = self.first_point();
        let l = self.last_point();
        f == l
    }
}

/// Every curve after the first starts exactly where its predecessor ended.
pub open spec fn contour_chained(s: Seq<Curve>) -> bool {
    forall|i: int|
        1 <= i < s.len() ==> (#[trigger] s[i]).spec_first_point() == s[i - 1].spec_last_point()
}

/// The last curve ends exactly where the first one started.
pub open spec fn contour_closed(s: Seq<Curve>) -> bool {
    s.len() > 0 ==> s[s.len() - 1].spec_last_point() == s[0].spec_first_point()
}

/// Every curve of the contour lies within the coordinate bounds.
pub open spec fn contour_in_bounds(s: Seq<Curve>) -> bool {
    forall|i: int| 0 <= i < s.len() ==> (#[trigger] s[i]).spec_in_bounds()
}

} // verus!

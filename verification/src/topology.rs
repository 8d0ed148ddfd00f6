//! The contour-overlap check: the hole-resolving fold is correct only when
//! every two contours of a glyph are either disjoint or nested. This module
//! checks a conservative witness of that condition over the contours'
//! control-point bounding rectangles — a Bezier curve lies inside the convex
//! hull of its control points, so disjoint control-point rectangles guarantee
//! disjoint contours — and rejects anything else as unsupported rather than
//! folding a possibly wrong volume.

use vstd::prelude::*;

use crate::curve::Curve;
use crate::geometry::Point2;

verus! {

/// An axis-aligned rectangle in the glyph plane.
#[derive(Clone, Copy, PartialEq, Eq, Structural, Debug)]
pub struct Rect {
    pub x_min: i64,
    pub x_max: i64,
    pub y_min: i64,
    pub y_max: i64,
}

pub open spec fn point_in_rect(p: Point2, r: Rect) -> bool {
    r.x_min <= p.x <= r.x_max && r.y_min <= p.y <= r.y_max
}

/// `r` is the bounding rectangle of the contour's control points: it bounds
/// every point and attains each of its four sides.
pub open spec fn is_bbox_of(s: Seq<Curve>, r: Rect) -> bool {
    &&& forall|i: int, k: int|
        0 <= i < s.len() && 0 <= k < (#[trigger] s[i]).spec_points().len() ==> point_in_rect(
            #[trigger] s[i].spec_points()[k],
            r,
        )
    &&& exists|i: int, k: int|
        0 <= i < s.len() && 0 <= k < s[i].spec_points().len() && (#[trigger] s[i].spec_points()[k]).x == r.x_min
    &&& exists|i: int, k: int|
        0 <= i < s.len() && 0 <= k < s[i].spec_points().len() && (#[trigger] s[i].spec_points()[k]).x == r.x_max
    &&& exists|i: int, k: int|
        0 <= i < s.len() && 0 <= k < s[i].spec_points().len() && (#[trigger] s[i].spec_points()[k]).y == r.y_min
    &&& exists|i: int, k: int|
        0 <= i < s.len() && 0 <= k < s[i].spec_points().len() && (#[trigger] s[i].spec_points()[k]).y == r.y_max
}

/// The bounding rectangle of a contour's control points. A contour has at
/// most one: bounds plus attainment pin every side.
pub open spec fn bbox_of(s: Seq<Curve>) -> Rect {
    choose|r: Rect| is_bbox_of(s, r)
}

/// Bounds and attainment determine the rectangle: a contour has one bounding
/// rectangle only.
pub proof fn lemma_bbox_unique(s: Seq<Curve>, a: Rect, b: Rect)
    requires
        is_bbox_of(s, a),
        is_bbox_of(s, b),
    ensures
        a == b,
{
}

/// The rectangles do not meet, even at their borders.
pub open spec fn rects_disjoint(a: Rect, b: Rect) -> bool {
    a.x_max < b.x_min || b.x_max < a.x_min || a.y_max < b.y_min || b.y_max < a.y_min
}

/// `a` strictly contains `b`: every side of `b` lies strictly inside `a`.
pub open spec fn rect_strictly_contains(a: Rect, b: Rect) -> bool {
    a.x_min < b.x_min && b.x_max < a.x_max && a.y_min < b.y_min && b.y_max < a.y_max
}

/// Two contours may share a glyph only when their rectangles are disjoint or
/// strictly nested, either way round.
pub open spec fn rects_compatible(a: Rect, b: Rect) -> bool {
    rects_disjoint(a, b) || rect_strictly_contains(a, b) || rect_strictly_contains(b, a)
}

/// The smaller and larger of two machine integers.
fn min_i64(a: i64, b: i64) -> (r: i64)
    ensures
        r <= a && r <= b,
        r == a || r == b,
{
    if a < b {
        a
    } else {
        b
    }
}

fn max_i64(a: i64, b: i64) -> (r: i64)
    ensures
        r >= a && r >= b,
        r == a || r == b,
{
    if a > b {
        a
    } else {
        b
    }
}

/// The bounding rectangle of one curve's control points.
fn curve_bbox(c: &Curve) -> (r: Rect)
    ensures
        forall|k: int|
            0 <= k < c.spec_points().len() ==> point_in_rect(#[trigger] c.spec_points()[k], r),
        exists|k: int|
            0 <= k < c.spec_points().len() && (#[trigger] c.spec_points()[k]).x == r.x_min,
        exists|k: int|
            0 <= k < c.spec_points().len() && (#[trigger] c.spec_points()[k]).x == r.x_max,
        exists|k: int|
            0 <= k < c.spec_points().len() && (#[trigger] c.spec_points()[k]).y == r.y_min,
        exists|k: int|
            0 <= k < c.spec_points().len() && (#[trigger] c.spec_points()[k]).y == r.y_max,
{
    match c {
        Curve::Line(a, b) => {
            let r = Rect {
                x_min: min_i64(a.x, b.x),
                x_max: max_i64(a.x, b.x),
                y_min: min_i64(a.y, b.y),
                y_max: max_i64(a.y, b.y),
            };
            proof {
                assert(c.spec_points()[0] == *a);
                assert(c.spec_points()[1] == *b);
            }
            r
        },
        Curve::Bezier2(a, b, c2) => {
            let r = Rect {
                x_min: min_i64(min_i64(a.x, b.x), c2.x),
                x_max: max_i64(max_i64(a.x, b.x), c2.x),
                y_min: min_i64(min_i64(a.y, b.y), c2.y),
                y_max: max_i64(max_i64(a.y, b.y), c2.y),
            };
            proof {
                assert(c.spec_points()[0] == *a);
                assert(c.spec_points()[1] == *b);
                assert(c.spec_points()[2] == *c2);
            }
            r
        },
        Curve::Bezier3(a, b, c2, d) => {
            let r = Rect {
                x_min: min_i64(min_i64(min_i64(a.x, b.x), c2.x), d.x),
                x_max: max_i64(max_i64(max_i64(a.x, b.x), c2.x), d.x),
                y_min: min_i64(min_i64(min_i64(a.y, b.y), c2.y), d.y),
                y_max: max_i64(max_i64(max_i64(a.y, b.y), c2.y), d.y),
            };
            proof {
                assert(c.spec_points()[0] == *a);
                assert(c.spec_points()[1] == *b);
                assert(c.spec_points()[2] == *c2);
                assert(c.spec_points()[3] == *d);
            }
            r
        },
    }
}

/// The union of two rectangles' extents.
fn rect_merge(a: Rect, b: Rect) -> (r: Rect)
    ensures
        r.x_min == a.x_min || r.x_min == b.x_min,
        r.x_min <= a.x_min && r.x_min <= b.x_min,
        r.x_max == a.x_max || r.x_max == b.x_max,
        r.x_max >= a.x_max && r.x_max >= b.x_max,
        r.y_min == a.y_min || r.y_min == b.y_min,
        r.y_min <= a.y_min && r.y_min <= b.y_min,
        r.y_max == a.y_max || r.y_max == b.y_max,
        r.y_max >= a.y_max && r.y_max >= b.y_max,
{
    Rect {
        x_min: min_i64(a.x_min, b.x_min),
        x_max: max_i64(a.x_max, b.x_max),
        y_min: min_i64(a.y_min, b.y_min),
        y_max: max_i64(a.y_max, b.y_max),
    }
}

/// The bounding rectangle of a contour's control points, or `None` for an
/// empty contour.
pub fn contour_bbox(contour: &Vec<Curve>) -> (r: Option<Rect>)
    ensures
        r is Some <==> contour@.len() > 0,
        r matches Some(rect) ==> is_bbox_of(contour@, rect),
{
    if contour.len() == 0 {
        return None;
    }
    let mut rect = curve_bbox(&contour[0]);
    let mut i: usize = 1;
    while i < contour.len()
        invariant
            1 <= i <= contour@.len(),
            forall|ci: int, k: int|
                0 <= ci < i && 0 <= k < (#[trigger] contour@[ci]).spec_points().len()
                    ==> point_in_rect(#[trigger] contour@[ci].spec_points()[k], rect),
            exists|ci: int, k: int|
                0 <= ci < i && 0 <= k < contour@[ci].spec_points().len() && (#[trigger] contour@[ci].spec_points()[k]).x == rect.x_min,
            exists|ci: int, k: int|
                0 <= ci < i && 0 <= k < contour@[ci].spec_points().len() && (#[trigger] contour@[ci].spec_points()[k]).x == rect.x_max,
            exists|ci: int, k: int|
                0 <= ci < i && 0 <= k < contour@[ci].spec_points().len() && (#[trigger] contour@[ci].spec_points()[k]).y == rect.y_min,
            exists|ci: int, k: int|
                0 <= ci < i && 0 <= k < contour@[ci].spec_points().len() && (#[trigger] contour@[ci].spec_points()[k]).y == rect.y_max,
        decreases contour@.len() - i,
    {
        let cb = curve_bbox(&contour[i]);
        rect = rect_merge(rect, cb);
        i = i + 1;
    }
    Some(rect)
}

/// Checks that every two of the given rectangles are disjoint or strictly
/// nested: the precondition of the hole-resolving fold.
pub fn rects_pairwise_compatible(rects: &Vec<Rect>) -> (ok: bool)
    ensures
        ok <==> forall|i: int, j: int|
            0 <= i < j < rects@.len() ==> rects_compatible(#[trigger] rects@[i], #[trigger] rects@[j]),
{
    let mut i: usize = 0;
    while i < rects.len()
        invariant
            i <= rects@.len(),
            forall|a: int, b: int|
                0 <= a < b < rects@.len() && a < i ==> rects_compatible(
                    #[trigger] rects@[a],
                    #[trigger] rects@[b],
                ),
        decreases rects@.len() - i,
    {
        let mut j: usize = i + 1;
        while j < rects.len()
            invariant
                i < j <= rects@.len() || (i >= rects@.len() - 1 && j == i + 1),
                i < rects@.len(),
                forall|a: int, b: int|
                    0 <= a < b < rects@.len() && a < i ==> rects_compatible(
                        #[trigger] rects@[a],
                        #[trigger] rects@[b],
                    ),
                forall|b: int|
                    i < b < j ==> rects_compatible(rects@[i as int], #[trigger] rects@[b]),
            decreases rects@.len() - j,
        {
            let a = rects[i];
            let b = rects[j];
            let disjoint = a.x_max < b.x_min || b.x_max < a.x_min || a.y_max < b.y_min || b.y_max
                < a.y_min;
            let a_in_b = b.x_min < a.x_min && a.x_max < b.x_max && b.y_min < a.y_min && a.y_max
                < b.y_max;
            let b_in_a = a.x_min < b.x_min && b.x_max < a.x_max && a.y_min < b.y_min && b.y_max
                < a.y_max;
            if !(disjoint || a_in_b || b_in_a) {
                return false;
            }
            j = j + 1;
        }
        i = i + 1;
    }
    true
}

} // verus!

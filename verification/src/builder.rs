//! The outline builder: accumulates move/line/quadratic/cubic commands from a
//! font's outline stream into contours, and closes each contour when its end
//! is announced, inserting a synthetic straight segment when the pen has not
//! returned to the contour's start point.
//!
//! Equality of points is exact integer equality: a closing segment is inserted
//! exactly when the pen position differs from the contour's start point, and
//! the inserted segment is therefore never degenerate.

use vstd::prelude::*;

use crate::curve::Curve;
use crate::curve::contour_chained;
use crate::curve::contour_closed;
use crate::geometry::Point2;

verus! {

/// A finished contour: non-empty, each curve starting where the previous one
/// ended, and the last curve ending at the first curve's start.
pub open spec fn contour_complete(s: Seq<Curve>) -> bool {
    s.len() > 0 && contour_chained(s) && contour_closed(s)
}

/// The mathematical value of a list of contours.
pub open spec fn outline_of(contours: Seq<Vec<Curve>>) -> Seq<Seq<Curve>> {
    contours.map_values(|c: Vec<Curve>| c@)
}

/// Appends one curve to the last contour of an outline.
pub open spec fn push_curve(o: Seq<Seq<Curve>>, c: Curve) -> Seq<Seq<Curve>> {
    o.update(o.len() - 1, o.last().push(c))
}

/// Accumulates a glyph's outline commands into contours.
pub struct GlyphBuilder {
    pub p0: Option<Point2>,
    pub contours: Vec<Vec<Curve>>,
}

impl GlyphBuilder {
    /// The current pen position: `Some` between a `move_to` and the matching
    /// `close`, `None` otherwise.
    pub open spec fn spec_pen(self) -> Option<Point2> {
        self.p0
    }

    /// The contours accumulated so far, as a mathematical value.
    pub open spec fn outline(self) -> Seq<Seq<Curve>> {
        outline_of(self.contours@)
    }

    /// The contour currently being built: the last one.
    pub open spec fn current(self) -> Seq<Curve> {
        self.outline().last()
    }

    /// Builder invariant. While the pen is down, every contour but the last
    /// is complete and the last is chained with the pen at its end; once the
    /// pen is up, every contour is complete.
    pub open spec fn wf(self) -> bool {
        match self.spec_pen() {
            Some(p) => {
                &&& self.outline().len() > 0
                &&& forall|i: int|
                    0 <= i < self.outline().len() - 1 ==> contour_complete(
                        #[trigger] self.outline()[i],
                    )
                &&& contour_chained(self.current())
                &&& (self.current().len() > 0 ==> p == self.current().last().spec_last_point())
            },
            None => forall|i: int|
                0 <= i < self.outline().len() ==> contour_complete(#[trigger] self.outline()[i]),
        }
    }

    /// A fresh builder with no contours and the pen up.
    pub fn new() -> (b: GlyphBuilder)
        ensures
            b.wf(),
            b.spec_pen() is None,
            b.outline() == Seq::<Seq<Curve>>::empty(),
    {
        let b = GlyphBuilder { p0: None, contours: Vec::new() };
        proof {
            assert(b.outline() =~= Seq::<Seq<Curve>>::empty());
        }
        b
    }

    /// Starts a new contour at `(x, y)`. The previous contour, if any, must
    /// already have been closed.
    pub fn move_to(&mut self, x: i64, y: i64)
        requires
            old(self).wf(),
            old(self).spec_pen() is None,
        ensures
            final(self).wf(),
            final(self).spec_pen() == Some(Point2 { x, y }),
            final(self).outline() == old(self).outline().push(Seq::<Curve>::empty()),
    {
        self.p0 = Some(Point2 { x, y });
        self.contours.push(Vec::new());
        proof {
            lemma_outline_snoc(self.contours@);
            assert(self.contours@.drop_last() =~= old(self).contours@);
            assert(self.outline() =~= old(self).outline().push(Seq::<Curve>::empty()));
        }
    }

    /// Appends a straight segment from the pen to `(x, y)` and moves the pen
    /// there.
    pub fn line_to(&mut self, x: i64, y: i64)
        requires
            old(self).wf(),
            old(self).spec_pen() is Some,
        ensures
            final(self).wf(),
            final(self).spec_pen() == Some(Point2 { x, y }),
            final(self).outline() == push_curve(
                old(self).outline(),
                Curve::Line(old(self).spec_pen().unwrap(), Point2 { x, y }),
            ),
    {
        let p0 = self.p0.unwrap();
        self.push_and_move(Curve::Line(p0, Point2 { x, y }));
    }

    /// Appends a quadratic Bezier with control point `(x1, y1)` ending at
    /// `(x, y)` and moves the pen to the end point.
    pub fn quad_to(&mut self, x1: i64, y1: i64, x: i64, y: i64)
        requires
            old(self).wf(),
            old(self).spec_pen() is Some,
        ensures
            final(self).wf(),
            final(self).spec_pen() == Some(Point2 { x, y }),
            final(self).outline() == push_curve(
                old(self).outline(),
                Curve::Bezier2(
                    old(self).spec_pen().unwrap(),
                    Point2 { x: x1, y: y1 },
                    Point2 { x, y },
                ),
            ),
    {
        let p0 = self.p0.unwrap();
        self.push_and_move(Curve::Bezier2(p0, Point2 { x: x1, y: y1 }, Point2 { x, y }));
    }

    /// Appends a cubic Bezier with control points `(x1, y1)` and `(x2, y2)`
    /// ending at `(x, y)` and moves the pen to the end point.
    pub fn curve_to(&mut self, x1: i64, y1: i64, x2: i64, y2: i64, x: i64, y: i64)
        requires
            old(self).wf(),
            old(self).spec_pen() is Some,
        ensures
            final(self).wf(),
            final(self).spec_pen() == Some(Point2 { x, y }),
            final(self).outline() == push_curve(
                old(self).outline(),
                Curve::Bezier3(
                    old(self).spec_pen().unwrap(),
                    Point2 { x: x1, y: y1 },
                    Point2 { x: x2, y: y2 },
                    Point2 { x, y },
                ),
            ),
    {
        let p0 = self.p0.unwrap();
        self.push_and_move(
            Curve::Bezier3(p0, Point2 { x: x1, y: y1 }, Point2 { x: x2, y: y2 }, Point2 { x, y }),
        );
    }

    /// Ends the current contour. If the pen has not returned to the contour's
    /// start point, a straight closing segment is appended; the comparison is
    /// exact, so the closing segment is never degenerate. Afterwards every
    /// accumulated contour is complete.
    pub fn close(&mut self)
        requires
            old(self).wf(),
            old(self).spec_pen() is Some,
            old(self).current().len() > 0,
        ensures
            final(self).wf(),
            final(self).spec_pen() is None,
            ({
                let p0 = old(self).spec_pen().unwrap();
                let p1 = old(self).current()[0].spec_first_point();
                if p0 != p1 {
                    final(self).outline() == push_curve(
                        old(self).outline(),
                        Curve::Line(p0, p1),
                    )
                } else {
                    final(self).outline() == old(self).outline()
                }
            }),
            forall|i: int|
                0 <= i < final(self).outline().len() ==> contour_complete(
                    #[trigger] final(self).outline()[i],
                ),
    {
        let p0 = self.p0.unwrap();
        let n = self.contours.len();
        let p1 = self.contours[n - 1][0].first_point();
        if p0 != p1 {
            self.push_and_move(Curve::Line(p0, p1));
            proof {
                assert(self.current()[0] == old(self).current()[0]);
            }
        }
        self.p0 = None;
        proof {
            assert forall|i: int|
                0 <= i < self.outline().len() implies contour_complete(
                #[trigger] self.outline()[i],
            ) by {
                if i < self.outline().len() - 1 {
                    assert(contour_complete(old(self).outline()[i]));
                } else {
                    assert(contour_chained(self.current()));
                    assert(self.current()[0].spec_first_point() == p1);
                    assert(self.current().last().spec_last_point() == p0 || self.current().last()
                        == Curve::Line(p0, p1));
                }
            }
        }
    }

    /// Pushes one curve onto the contour under construction and moves the
    /// pen to its end point.
    fn push_and_move(&mut self, c: Curve)
        requires
            old(self).wf(),
            old(self).spec_pen() is Some,
            c.spec_first_point() == old(self).spec_pen().unwrap(),
        ensures
            final(self).wf(),
            final(self).spec_pen() == Some(c.spec_last_point()),
            final(self).outline() == push_curve(old(self).outline(), c),
            final(self).current() == old(self).current().push(c),
    {
        let mut last = self.contours.pop().unwrap();
        last.push(c);
        self.contours.push(last);
        self.p0 = Some(c.last_point());
        proof {
            lemma_outline_snoc(self.contours@);
            lemma_outline_snoc(old(self).contours@);
            assert(self.contours@.drop_last() =~= old(self).contours@.drop_last());
            assert(self.outline() =~= push_curve(old(self).outline(), c));
            let cur = self.outline().last();
            let prev = old(self).current();
            assert(cur =~= prev.push(c));
            assert forall|i: int| 1 <= i < cur.len() implies (#[trigger] cur[i]).spec_first_point()
                == cur[i - 1].spec_last_point() by {
                if i < cur.len() - 1 {
                    assert(cur[i] == prev[i] && cur[i - 1] == prev[i - 1]);
                } else {
                    assert(cur[i] == c);
                }
            }
            assert forall|i: int|
                0 <= i < self.outline().len() - 1 implies contour_complete(
                #[trigger] self.outline()[i],
            ) by {
                assert(self.outline()[i] == old(self).outline()[i]);
                assert(contour_complete(old(self).outline()[i]));
            }
        }
    }
}

/// The value of a non-empty contour list is the value of its front followed
/// by the value of its last contour.
pub proof fn lemma_outline_snoc(s: Seq<Vec<Curve>>)
    requires
        s.len() > 0,
    ensures
        outline_of(s) =~= outline_of(s.drop_last()).push(s.last()@),
{
}

/// Closure invariant: once the pen is up, every contour a well-formed builder
/// holds is closed — its last curve ends exactly at its first curve's start.
pub proof fn lemma_finished_outline_closed(b: GlyphBuilder)
    requires
        b.wf(),
        b.spec_pen() is None,
    ensures
        forall|i: int| 0 <= i < b.outline().len() ==> contour_closed(#[trigger] b.outline()[i]),
{
}

} // verus!

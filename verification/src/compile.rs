//! Centering, orientation and edge compilation: every control point of a
//! contour is re-based about the glyph's horizontal center, given its depth,
//! and sent through the orientation transform; each non-degenerate curve then
//! becomes exactly one kernel-ready edge description.
//!
//! To keep the horizontal midpoint `(x_min + x_max) / 2` exact, compiled
//! coordinates are doubled: a plane point `(x, y)` at depth `d` enters the
//! transform as `(2x - center2, 2y, 2d)`, where `center2 = x_min + x_max`.

use vstd::prelude::*;

use crate::curve::Curve;
use crate::curve::contour_chained;
use crate::curve::contour_closed;
use crate::curve::contour_in_bounds;
use crate::geometry::COORD_LIMIT;
use crate::geometry::Mat3;
use crate::geometry::Point2;
use crate::geometry::Vec3;
use crate::geometry::is_identity;
use crate::geometry::is_quarter_turn;
use crate::geometry::mat_in_bounds;
use crate::geometry::point_in_bounds;

verus! {

/// One kernel-ready edge: a straight segment, a quadratic Bezier or a cubic
/// Bezier with transformed, depth-assigned control points.
#[derive(Clone, Copy, PartialEq, Eq, Structural, Debug)]
pub enum Edge3 {
    Line(Vec3, Vec3),
    Bezier2(Vec3, Vec3, Vec3),
    Bezier3(Vec3, Vec3, Vec3, Vec3),
}

impl Edge3 {
    /// The transformed start point of the edge.
    pub open spec fn spec_first_point(self) -> Vec3 {
        match self {
            Edge3::Line(p, _) => p,
            Edge3::Bezier2(p, _, _) => p,
            Edge3::Bezier3(p, _, _, _) => p,
        }
    }

    /// The transformed end point of the edge.
    pub open spec fn spec_last_point(self) -> Vec3 {
        match self {
            Edge3::Line(_, p) => p,
            Edge3::Bezier2(_, _, p) => p,
            Edge3::Bezier3(_, _, _, p) => p,
        }
    }
}

/// Every edge after the first starts exactly where its predecessor ended.
pub open spec fn edges_chained(s: Seq<Edge3>) -> bool {
    forall|i: int|
        1 <= i < s.len() ==> (#[trigger] s[i]).spec_first_point() == s[i - 1].spec_last_point()
}

/// The last edge ends exactly where the first one started.
pub open spec fn edges_closed(s: Seq<Edge3>) -> bool {
    s.len() > 0 ==> s[s.len() - 1].spec_last_point() == s[0].spec_first_point()
}

/// `v` is the image of plane point `p` under re-basing about `center2`,
/// depth assignment `depth2` and the orientation `m`, in doubled coordinates.
pub open spec fn point_maps_to(m: Mat3, p: Point2, center2: int, depth2: int, v: Vec3) -> bool {
    &&& v.x == m.apply_x(2 * p.x - center2, 2 * p.y, depth2)
    &&& v.y == m.apply_y(2 * p.x - center2, 2 * p.y, depth2)
    &&& v.z == m.apply_z(2 * p.x - center2, 2 * p.y, depth2)
}

/// `e` is the curve `c` with every control point sent through the transform.
pub open spec fn curve_maps_to(m: Mat3, c: Curve, center2: int, depth2: int, e: Edge3) -> bool {
    match (c, e) {
        (Curve::Line(a, b), Edge3::Line(a3, b3)) => {
            point_maps_to(m, a, center2, depth2, a3) && point_maps_to(m, b, center2, depth2, b3)
        },
        (Curve::Bezier2(a, b, c2), Edge3::Bezier2(a3, b3, c3)) => {
            point_maps_to(m, a, center2, depth2, a3) && point_maps_to(m, b, center2, depth2, b3)
                && point_maps_to(m, c2, center2, depth2, c3)
        },
        (Curve::Bezier3(a, b, c2, d), Edge3::Bezier3(a3, b3, c3, d3)) => {
            point_maps_to(m, a, center2, depth2, a3) && point_maps_to(m, b, center2, depth2, b3)
                && point_maps_to(m, c2, center2, depth2, c3) && point_maps_to(
                m,
                d,
                center2,
                depth2,
                d3,
            )
        },
        _ => false,
    }
}

/// The sub-sequence of non-degenerate curves of a contour, in order.
pub open spec fn keep_non_degenerate(s: Seq<Curve>) -> Seq<Curve>
    decreases s.len(),
{
    if s.len() == 0 {
        Seq::empty()
    } else {
        let front = keep_non_degenerate(s.drop_last());
        if s.last().spec_degenerate() {
            front
        } else {
            front.push(s.last())
        }
    }
}

/// How many curves of the contour are degenerate.
pub open spec fn degenerate_count(s: Seq<Curve>) -> int
    decreases s.len(),
{
    if s.len() == 0 {
        0
    } else {
        degenerate_count(s.drop_last()) + if s.last().spec_degenerate() {
            1int
        } else {
            0int
        }
    }
}

/// Dropping the degenerate curves removes exactly one curve per degenerate
/// curve, and no surviving curve is degenerate.
pub proof fn lemma_keep_non_degenerate_len(s: Seq<Curve>)
    ensures
        keep_non_degenerate(s).len() + degenerate_count(s) == s.len(),
        0 <= degenerate_count(s) <= s.len(),
        forall|i: int|
            0 <= i < keep_non_degenerate(s).len() ==> !(#[trigger] keep_non_degenerate(
                s,
            )[i]).spec_degenerate(),
    decreases s.len(),
{
    if s.len() > 0 {
        lemma_keep_non_degenerate_len(s.drop_last());
    }
}

/// Dropping degenerate curves preserves chaining, and preserves the contour's
/// endpoints whenever any curve survives; when none survives, the contour's
/// start and end already coincided.
pub proof fn lemma_keep_non_degenerate_chained(s: Seq<Curve>)
    requires
        s.len() > 0,
        contour_chained(s),
    ensures
        contour_chained(keep_non_degenerate(s)),
        keep_non_degenerate(s).len() > 0 ==> {
            &&& keep_non_degenerate(s)[0].spec_first_point() == s[0].spec_first_point()
            &&& keep_non_degenerate(s).last().spec_last_point() == s.last().spec_last_point()
        },
        keep_non_degenerate(s).len() == 0 ==> s[0].spec_first_point()
            == s.last().spec_last_point(),
    decreases s.len(),
{
    let k = keep_non_degenerate(s);
    let u = s.drop_last();
    let t = s.last();
    if u.len() == 0 {
        assert(keep_non_degenerate(u) =~= Seq::<Curve>::empty());
        assert(k =~= if t.spec_degenerate() {
            Seq::<Curve>::empty()
        } else {
            Seq::<Curve>::empty().push(t)
        });
    } else {
        assert(contour_chained(u)) by {
            assert forall|i: int|
                1 <= i < u.len() implies (#[trigger] u[i]).spec_first_point() == u[i
                - 1].spec_last_point() by {
                assert(s[i] == u[i] && s[i - 1] == u[i - 1]);
            }
        }
        lemma_keep_non_degenerate_chained(u);
        assert(t.spec_first_point() == u.last().spec_last_point());
        let ku = keep_non_degenerate(u);
        if t.spec_degenerate() {
            assert(k == ku);
            assert(t.spec_last_point() == u.last().spec_last_point());
        } else {
            assert(k == ku.push(t));
            if ku.len() > 0 {
                assert forall|i: int|
                    1 <= i < k.len() implies (#[trigger] k[i]).spec_first_point() == k[i
                    - 1].spec_last_point() by {
                    if i < k.len() - 1 {
                        assert(k[i] == ku[i] && k[i - 1] == ku[i - 1]);
                    } else {
                        assert(k[i] == t && k[i - 1] == ku.last());
                    }
                }
            } else {
                assert(k =~= Seq::<Curve>::empty().push(t));
                assert(k[0].spec_first_point() == t.spec_first_point());
                assert(u[0].spec_first_point() == u.last().spec_last_point());
            }
        }
    }
}

/// Dropping degenerate curves preserves closure.
pub proof fn lemma_keep_non_degenerate_closed(s: Seq<Curve>)
    requires
        s.len() > 0,
        contour_chained(s),
        contour_closed(s),
    ensures
        contour_closed(keep_non_degenerate(s)),
{
    lemma_keep_non_degenerate_chained(s);
}

/// A contour with no degenerate curve is left unchanged by the filter.
pub proof fn lemma_keep_non_degenerate_id(s: Seq<Curve>)
    requires
        forall|i: int| 0 <= i < s.len() ==> !(#[trigger] s[i]).spec_degenerate(),
    ensures
        keep_non_degenerate(s) == s,
    decreases s.len(),
{
    if s.len() > 0 {
        lemma_keep_non_degenerate_id(s.drop_last());
        assert(keep_non_degenerate(s) =~= s);
    } else {
        assert(keep_non_degenerate(s) =~= s);
    }
}

/// Dropping degenerate curves keeps every control point within bounds.
pub proof fn lemma_keep_non_degenerate_in_bounds(s: Seq<Curve>)
    requires
        contour_in_bounds(s),
    ensures
        contour_in_bounds(keep_non_degenerate(s)),
    decreases s.len(),
{
    if s.len() > 0 {
        assert(contour_in_bounds(s.drop_last())) by {
            assert forall|i: int|
                0 <= i < s.drop_last().len() implies (#[trigger] s.drop_last()[i]).spec_in_bounds() by {
                assert(s.drop_last()[i] == s[i]);
            }
        }
        lemma_keep_non_degenerate_in_bounds(s.drop_last());
        let k = keep_non_degenerate(s);
        let ku = keep_non_degenerate(s.drop_last());
        if !s.last().spec_degenerate() {
            assert forall|i: int| 0 <= i < k.len() implies (#[trigger] k[i]).spec_in_bounds() by {
                if i < k.len() - 1 {
                    assert(k[i] == ku[i]);
                } else {
                    assert(k[i] == s.last());
                }
            }
        }
    }
}

/// Keeps only the non-degenerate curves of a contour.
pub fn filter_degenerate(contour: &Vec<Curve>) -> (r: Vec<Curve>)
    ensures
        r@ == keep_non_degenerate(contour@),
{
    let mut r: Vec<Curve> = Vec::new();
    let mut i: usize = 0;
    while i < contour.len()
        invariant
            i <= contour@.len(),
            r@ == keep_non_degenerate(contour@.take(i as int)),
        decreases contour@.len() - i,
    {
        let c = contour[i];
        proof {
            assert(contour@.take(i + 1 as int).drop_last() =~= contour@.take(i as int));
            assert(contour@.take(i + 1 as int).last() == contour@[i as int]);
        }
        if !c.is_degenerate() {
            r.push(c);
        }
        i = i + 1;
    }
    proof {
        assert(contour@.take(contour@.len() as int) =~= contour@);
    }
    r
}

/// A mapped edge starts at the image of the curve's start and ends at the
/// image of the curve's end.
pub proof fn lemma_maps_endpoints(m: Mat3, c: Curve, center2: int, depth2: int, e: Edge3)
    requires
        curve_maps_to(m, c, center2, depth2, e),
    ensures
        point_maps_to(m, c.spec_first_point(), center2, depth2, e.spec_first_point()),
        point_maps_to(m, c.spec_last_point(), center2, depth2, e.spec_last_point()),
{
}

/// The transform is a function: equal plane points have equal images.
pub proof fn lemma_point_map_functional(
    m: Mat3,
    p: Point2,
    q: Point2,
    center2: int,
    depth2: int,
    v: Vec3,
    w: Vec3,
)
    requires
        point_maps_to(m, p, center2, depth2, v),
        point_maps_to(m, q, center2, depth2, w),
        p == q,
    ensures
        v == w,
{
}

/// Compiling a chained, closed contour yields a chained, closed edge loop:
/// the transform maps shared endpoints to shared endpoints.
pub proof fn lemma_compiled_chained(
    m: Mat3,
    s: Seq<Curve>,
    center2: int,
    depth2: int,
    r: Seq<Edge3>,
)
    requires
        r.len() == s.len(),
        forall|i: int|
            0 <= i < s.len() ==> curve_maps_to(m, #[trigger] s[i], center2, depth2, r[i]),
        contour_chained(s),
        contour_closed(s),
    ensures
        edges_chained(r),
        edges_closed(r),
{
    assert forall|i: int|
        1 <= i < r.len() implies (#[trigger] r[i]).spec_first_point() == r[i
        - 1].spec_last_point() by {
        lemma_maps_endpoints(m, s[i], center2, depth2, r[i]);
        lemma_maps_endpoints(m, s[i - 1], center2, depth2, r[i - 1]);
        lemma_point_map_functional(
            m,
            s[i].spec_first_point(),
            s[i - 1].spec_last_point(),
            center2,
            depth2,
            r[i].spec_first_point(),
            r[i - 1].spec_last_point(),
        );
    }
    if r.len() > 0 {
        let n = r.len() - 1;
        lemma_maps_endpoints(m, s[n], center2, depth2, r[n]);
        lemma_maps_endpoints(m, s[0], center2, depth2, r[0]);
        lemma_point_map_functional(
            m,
            s[n].spec_last_point(),
            s[0].spec_first_point(),
            center2,
            depth2,
            r[n].spec_last_point(),
            r[0].spec_first_point(),
        );
    }
}

/// Re-bases `p` about `center2`, assigns it depth `depth2` and applies the
/// orientation `m`, in doubled coordinates.
pub fn transform_point(m: &Mat3, p: Point2, center2: i64, depth2: i64) -> (v: Vec3)
    requires
        mat_in_bounds(*m),
        point_in_bounds(p),
        -2 * COORD_LIMIT <= center2 <= 2 * COORD_LIMIT,
        -2 * COORD_LIMIT <= depth2 <= 2 * COORD_LIMIT,
    ensures
        point_maps_to(*m, p, center2 as int, depth2 as int, v),
{
    m.apply(Vec3 { x: 2 * p.x - center2, y: 2 * p.y, z: depth2 })
}

/// Compiles one curve into one edge description.
pub fn transform_curve(m: &Mat3, c: &Curve, center2: i64, depth2: i64) -> (e: Edge3)
    requires
        mat_in_bounds(*m),
        c.spec_in_bounds(),
        -2 * COORD_LIMIT <= center2 <= 2 * COORD_LIMIT,
        -2 * COORD_LIMIT <= depth2 <= 2 * COORD_LIMIT,
    ensures
        curve_maps_to(*m, *c, center2 as int, depth2 as int, e),
{
    match c {
        Curve::Line(a, b) => Edge3::Line(
            transform_point(m, *a, center2, depth2),
            transform_point(m, *b, center2, depth2),
        ),
        Curve::Bezier2(a, b, c2) => Edge3::Bezier2(
            transform_point(m, *a, center2, depth2),
            transform_point(m, *b, center2, depth2),
            transform_point(m, *c2, center2, depth2),
        ),
        Curve::Bezier3(a, b, c2, d) => Edge3::Bezier3(
            transform_point(m, *a, center2, depth2),
            transform_point(m, *b, center2, depth2),
            transform_point(m, *c2, center2, depth2),
            transform_point(m, *d, center2, depth2),
        ),
    }
}

/// Compiles a contour: drops its degenerate curves (start equal to end,
/// exactly), then maps each survivor to exactly one edge description. The
/// filter runs only here, after closure synthesis, never before it.
pub fn compile_contour(m: &Mat3, contour: &Vec<Curve>, center2: i64, depth2: i64) -> (r: Vec<
    Edge3,
>)
    requires
        mat_in_bounds(*m),
        contour_in_bounds(contour@),
        -2 * COORD_LIMIT <= center2 <= 2 * COORD_LIMIT,
        -2 * COORD_LIMIT <= depth2 <= 2 * COORD_LIMIT,
    ensures
        r@.len() == keep_non_degenerate(contour@).len(),
        forall|i: int|
            0 <= i < r@.len() ==> curve_maps_to(
                *m,
                keep_non_degenerate(contour@)[i],
                center2 as int,
                depth2 as int,
                #[trigger] r@[i],
            ),
{
    let mut r: Vec<Edge3> = Vec::new();
    let mut i: usize = 0;
    while i < contour.len()
        invariant
            mat_in_bounds(*m),
            contour_in_bounds(contour@),
            -2 * COORD_LIMIT <= center2 <= 2 * COORD_LIMIT,
            -2 * COORD_LIMIT <= depth2 <= 2 * COORD_LIMIT,
            i <= contour@.len(),
            r@.len() == keep_non_degenerate(contour@.take(i as int)).len(),
            forall|j: int|
                0 <= j < r@.len() ==> curve_maps_to(
                    *m,
                    keep_non_degenerate(contour@.take(i as int))[j],
                    center2 as int,
                    depth2 as int,
                    #[trigger] r@[j],
                ),
        decreases contour@.len() - i,
    {
        let c = contour[i];
        proof {
            assert(contour@.take(i + 1 as int).drop_last() =~= contour@.take(i as int));
            assert(contour@.take(i + 1 as int).last() == contour@[i as int]);
        }
        if !c.is_degenerate() {
            let e = transform_curve(m, &c, center2, depth2);
            r.push(e);
        }
        i = i + 1;
    }
    proof {
        assert(contour@.take(contour@.len() as int) =~= contour@);
    }
    r
}

/// The transform maps each curve to exactly one edge: two edges mapped from
/// the same curve are equal.
pub proof fn lemma_curve_map_functional(
    m: Mat3,
    c: Curve,
    center2: int,
    depth2: int,
    e1: Edge3,
    e2: Edge3,
)
    requires
        curve_maps_to(m, c, center2, depth2, e1),
        curve_maps_to(m, c, center2, depth2, e2),
    ensures
        e1 == e2,
{
}

/// Both stock orientations are injective on plane points: distinct points
/// have distinct images.
pub proof fn lemma_stock_orientation_injective(
    m: Mat3,
    p: Point2,
    q: Point2,
    center2: int,
    depth2: int,
    v: Vec3,
    w: Vec3,
)
    requires
        is_identity(m) || is_quarter_turn(m),
        point_maps_to(m, p, center2, depth2, v),
        point_maps_to(m, q, center2, depth2, w),
        p != q,
    ensures
        v != w,
{
}

/// Under a stock orientation, the one edge compiled from a non-degenerate
/// curve is itself non-degenerate: its ends are distinct points in space, so
/// no zero-length kernel edge is ever emitted.
pub proof fn lemma_compiled_edge_nondegenerate(
    m: Mat3,
    c: Curve,
    center2: int,
    depth2: int,
    e: Edge3,
)
    requires
        is_identity(m) || is_quarter_turn(m),
        curve_maps_to(m, c, center2, depth2, e),
        !c.spec_degenerate(),
    ensures
        e.spec_first_point() != e.spec_last_point(),
{
    lemma_maps_endpoints(m, c, center2, depth2, e);
    lemma_stock_orientation_injective(
        m,
        c.spec_first_point(),
        c.spec_last_point(),
        center2,
        depth2,
        e.spec_first_point(),
        e.spec_last_point(),
    );
}

} // verus!

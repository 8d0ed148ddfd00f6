//! The per-glyph pipeline: from a glyph's closed contours and bounding box to
//! a kernel-ready plan — one closed edge loop per surviving contour, centered
//! about the glyph's horizontal midpoint, oriented, and paired with the
//! extrusion vector — with the per-contour failures of the design isolated:
//! a contour without a usable edge is skipped, a glyph without a surviving
//! contour is empty, and a glyph whose contours overlap without nesting is
//! rejected before any boolean work.

use vstd::prelude::*;

use crate::compile::Edge3;
use crate::compile::compile_contour;
use crate::compile::curve_maps_to;
use crate::compile::edges_chained;
use crate::compile::edges_closed;
use crate::compile::filter_degenerate;
use crate::compile::keep_non_degenerate;
use crate::compile::lemma_compiled_chained;
use crate::compile::lemma_keep_non_degenerate_chained;
use crate::compile::lemma_keep_non_degenerate_closed;
use crate::compile::lemma_keep_non_degenerate_id;
use crate::compile::lemma_keep_non_degenerate_in_bounds;
use crate::compile::lemma_keep_non_degenerate_len;
use crate::builder::contour_complete;
use crate::builder::outline_of;
use crate::curve::Curve;
use crate::curve::contour_chained;
use crate::curve::contour_closed;
use crate::curve::contour_in_bounds;
use crate::errors::GlyphError;
use crate::geometry::COORD_LIMIT;
use crate::geometry::Mat3;
use crate::geometry::Vec3;
use crate::geometry::Point2;
use crate::geometry::iabs;
use crate::geometry::mat_in_bounds;
use crate::topology::Rect;
use crate::topology::bbox_of;
use crate::topology::contour_bbox;
use crate::topology::is_bbox_of;
use crate::topology::lemma_bbox_unique;
use crate::topology::rects_compatible;
use crate::topology::rects_pairwise_compatible;

verus! {

/// The surviving contours of an outline: each contour with its degenerate
/// curves dropped, kept only when at least one curve remains.
pub open spec fn surviving(o: Seq<Seq<Curve>>) -> Seq<Seq<Curve>>
    decreases o.len(),
{
    if o.len() == 0 {
        Seq::empty()
    } else {
        let front = surviving(o.drop_last());
        let k = keep_non_degenerate(o.last());
        if k.len() == 0 {
            front
        } else {
            front.push(k)
        }
    }
}

/// Every contour of the outline lies within the coordinate bounds.
pub open spec fn outline_in_bounds(o: Seq<Seq<Curve>>) -> bool {
    forall|i: int| 0 <= i < o.len() ==> contour_in_bounds(#[trigger] o[i])
}

/// Every contour of the outline is complete: non-empty, chained and closed.
pub open spec fn outline_complete(o: Seq<Seq<Curve>>) -> bool {
    forall|i: int| 0 <= i < o.len() ==> contour_complete(#[trigger] o[i])
}

/// Everything the solid kernel needs to build one glyph's net solid: one
/// closed edge loop per surviving contour, and the depth vector each face is
/// extruded along.
#[derive(Debug)]
pub struct GlyphPlan {
    pub faces: Vec<Vec<Edge3>>,
    pub extrusion: Vec3,
}

/// A contour ready for edge compilation: non-empty, chained, closed, within
/// bounds, and free of degenerate curves.
pub open spec fn contour_usable(c: Seq<Curve>) -> bool {
    &&& c.len() > 0
    &&& contour_chained(c)
    &&& contour_closed(c)
    &&& contour_in_bounds(c)
    &&& forall|t: int| 0 <= t < c.len() ==> !(#[trigger] c[t]).spec_degenerate()
}

/// Every surviving contour of a complete, in-bounds outline is usable.
pub proof fn lemma_surviving_usable(o: Seq<Seq<Curve>>)
    requires
        outline_in_bounds(o),
        outline_complete(o),
    ensures
        forall|k: int| 0 <= k < surviving(o).len() ==> contour_usable(#[trigger] surviving(o)[k]),
    decreases o.len(),
{
    if o.len() > 0 {
        let u = o.drop_last();
        assert(outline_in_bounds(u) && outline_complete(u)) by {
            assert forall|i: int|
                0 <= i < u.len() implies contour_in_bounds(#[trigger] u[i]) && contour_complete(
                u[i],
            ) by {
                assert(u[i] == o[i]);
            }
        }
        lemma_surviving_usable(u);
        let last = o.last();
        let kl = keep_non_degenerate(last);
        assert(contour_complete(last) && contour_in_bounds(last));
        lemma_keep_non_degenerate_len(last);
        lemma_keep_non_degenerate_chained(last);
        lemma_keep_non_degenerate_closed(last);
        lemma_keep_non_degenerate_in_bounds(last);
        let sv = surviving(o);
        let front = surviving(u);
        assert forall|k: int| 0 <= k < sv.len() implies contour_usable(#[trigger] sv[k]) by {
            if kl.len() == 0 {
                assert(sv[k] == front[k]);
            } else {
                if k < sv.len() - 1 {
                    assert(sv[k] == front[k]);
                } else {
                    assert(sv[k] == kl);
                }
            }
        }
    }
}

/// Each surviving contour is pairwise compatible with every other: the
/// condition under which the hole-resolving fold is meaningful.
pub open spec fn survivors_compatible(sv: Seq<Seq<Curve>>) -> bool {
    forall|i: int, j: int|
        0 <= i < j < sv.len() ==> rects_compatible(bbox_of(#[trigger] sv[i]), bbox_of(#[trigger] sv[j]))
}

/// What a successful plan promises: one face per surviving contour, each
/// curve mapped to exactly one edge under the centering transform, each edge
/// loop chained and closed, and the extrusion vector oriented.
pub open spec fn plan_matches(
    plan: GlyphPlan,
    sv: Seq<Seq<Curve>>,
    m: Mat3,
    center2: int,
    depth2: int,
    thickness: int,
) -> bool {
    &&& plan.faces@.len() == sv.len()
    &&& forall|i: int| 0 <= i < sv.len() ==> (#[trigger] plan.faces@[i])@.len() == sv[i].len()
    &&& forall|i: int, j: int|
        0 <= i < sv.len() && 0 <= j < sv[i].len() ==> curve_maps_to(
            m,
            #[trigger] sv[i][j],
            center2,
            depth2,
            plan.faces@[i]@[j],
        )
    &&& forall|i: int|
        0 <= i < plan.faces@.len() ==> edges_chained((#[trigger] plan.faces@[i])@) && edges_closed(
            plan.faces@[i]@,
        )
    &&& plan.extrusion.x == m.apply_x(0, 0, 2 * thickness)
    &&& plan.extrusion.y == m.apply_y(0, 0, 2 * thickness)
    &&& plan.extrusion.z == m.apply_z(0, 0, 2 * thickness)
}

/// Compiles one glyph: drops degenerate curves, skips contours left without
/// an edge, re-bases every point about the horizontal midpoint of the given
/// bounding box, orients, and emits one closed edge loop per surviving
/// contour together with the oriented extrusion vector.
///
/// Coordinates of the plan are doubled, so the midpoint `x_min + x_max` and
/// the half-depths `thickness / 2` stay exact integers.
pub fn plan_glyph(
    contours: &Vec<Vec<Curve>>,
    x_min: i64,
    x_max: i64,
    m: &Mat3,
    thickness: i64,
) -> (r: Result<GlyphPlan, GlyphError>)
    requires
        mat_in_bounds(*m),
        outline_in_bounds(outline_of(contours@)),
        outline_complete(outline_of(contours@)),
        -COORD_LIMIT <= x_min <= x_max <= COORD_LIMIT,
        0 < thickness <= COORD_LIMIT,
    ensures
        r is Err ==> r == Result::<GlyphPlan, GlyphError>::Err(GlyphError::EmptyGlyph) || r
            == Result::<GlyphPlan, GlyphError>::Err(GlyphError::UnsupportedTopology),
        r == Result::<GlyphPlan, GlyphError>::Err(GlyphError::EmptyGlyph) <==> surviving(
            outline_of(contours@),
        ).len() == 0,
        r == Result::<GlyphPlan, GlyphError>::Err(GlyphError::UnsupportedTopology) <==> (
        surviving(outline_of(contours@)).len() > 0 && !survivors_compatible(
            surviving(outline_of(contours@)),
        )),
        r matches Result::Ok(plan) ==> plan_matches(
            plan,
            surviving(outline_of(contours@)),
            *m,
            (x_min + x_max) as int,
            -thickness as int,
            thickness as int,
        ),
{
    let ghost o = outline_of(contours@);
    let center2 = x_min + x_max;
    let depth2 = -thickness;
    let mut kept: Vec<Vec<Curve>> = Vec::new();
    let mut rects: Vec<Rect> = Vec::new();
    let mut i: usize = 0;
    while i < contours.len()
        invariant
            o == outline_of(contours@),
            i <= contours@.len(),
            outline_of(kept@) == surviving(o.take(i as int)),
            rects@.len() == kept@.len(),
            forall|k: int| 0 <= k < kept@.len() ==> is_bbox_of((#[trigger] kept@[k])@, rects@[k]),
        decreases contours@.len() - i,
    {
        let f = filter_degenerate(&contours[i]);
        proof {
            assert(o.take(i + 1 as int).drop_last() =~= o.take(i as int));
            assert(o.take(i + 1 as int).last() == o[i as int]);
            assert(contours@[i as int]@ == o[i as int]);
        }
        if f.len() > 0 {
            let ghost kept0 = kept@;
            let rb = contour_bbox(&f);
            match rb {
                Some(rect) => {
                    rects.push(rect);
                    kept.push(f);
                    proof {
                        crate::builder::lemma_outline_snoc(kept@);
                        assert(kept@.drop_last() =~= kept0);
                        assert(outline_of(kept@) =~= surviving(o.take(i as int)).push(f@));
                        assert forall|k: int|
                            0 <= k < kept@.len() implies is_bbox_of(
                            (#[trigger] kept@[k])@,
                            rects@[k],
                        ) by {
                            if k < kept@.len() - 1 {
                                assert(kept@[k] == kept0[k]);
                            } else {
                                assert(kept@[k] == f);
                            }
                        }
                    }
                },
                None => {
                    proof {
                        assert(false);
                    }
                },
            }
        }
        proof {
            assert(outline_of(kept@) =~= surviving(o.take(i + 1 as int)));
        }
        i = i + 1;
    }
    proof {
        assert(o.take(o.len() as int) =~= o);
    }
    let ghost sv = surviving(o);
    if kept.len() == 0 {
        return Err(GlyphError::EmptyGlyph);
    }
    proof {
        assert forall|k: int| 0 <= k < sv.len() implies bbox_of(#[trigger] sv[k]) == rects@[k] by {
            assert(sv[k] == kept@[k]@);
            assert(is_bbox_of(sv[k], rects@[k]));
            assert(is_bbox_of(sv[k], bbox_of(sv[k])));
            lemma_bbox_unique(sv[k], bbox_of(sv[k]), rects@[k]);
        }
    }
    let compatible = rects_pairwise_compatible(&rects);
    proof {
        assert(sv.len() == rects@.len());
        if compatible {
            assert forall|a: int, b: int|
                0 <= a < b < sv.len() implies rects_compatible(
                bbox_of(#[trigger] sv[a]),
                bbox_of(#[trigger] sv[b]),
            ) by {
                assert(rects_compatible(rects@[a], rects@[b]));
            }
            assert(survivors_compatible(sv));
        } else {
            let (a, b): (int, int) = choose|a: int, b: int|
                0 <= a < b < rects@.len() && !rects_compatible(
                    #[trigger] rects@[a],
                    #[trigger] rects@[b],
                );
            assert(!rects_compatible(bbox_of(sv[a]), bbox_of(sv[b])));
            assert(!survivors_compatible(sv));
        }
    }
    if !compatible {
        return Err(GlyphError::UnsupportedTopology);
    }
    let mut faces: Vec<Vec<Edge3>> = Vec::new();
    let mut k: usize = 0;
    while k < kept.len()
        invariant
            mat_in_bounds(*m),
            outline_in_bounds(o),
            outline_complete(o),
            o == outline_of(contours@),
            sv == surviving(o),
            outline_of(kept@) == sv,
            center2 == x_min + x_max,
            depth2 == -thickness,
            -COORD_LIMIT <= x_min <= x_max <= COORD_LIMIT,
            0 < thickness <= COORD_LIMIT,
            k <= kept@.len(),
            faces@.len() == k,
            forall|i: int| 0 <= i < k ==> (#[trigger] faces@[i])@.len() == sv[i].len(),
            forall|i: int, j: int|
                0 <= i < k && 0 <= j < sv[i].len() ==> curve_maps_to(
                    *m,
                    #[trigger] sv[i][j],
                    center2 as int,
                    depth2 as int,
                    faces@[i]@[j],
                ),
            forall|i: int|
                0 <= i < k ==> edges_chained((#[trigger] faces@[i])@) && edges_closed(
                    faces@[i]@,
                ),
        decreases kept@.len() - k,
    {
        proof {
            assert(kept@[k as int]@ == sv[k as int]);
            lemma_surviving_usable(o);
            assert(contour_usable(sv[k as int]));
        }
        let edges = compile_contour(m, &kept[k], center2, depth2);
        proof {
            let kc = kept@[k as int]@;
            lemma_keep_non_degenerate_id(kc);
            lemma_compiled_chained(*m, kc, center2 as int, depth2 as int, edges@);
        }
        faces.push(edges);
        k = k + 1;
    }
    let extrusion = m.apply(Vec3 { x: 0, y: 0, z: 2 * thickness });
    Ok(GlyphPlan { faces, extrusion })
}

/// The horizontal model-space coordinate of a contour point on the glyph's
/// back face, in doubled coordinates: re-based about `center2`, at depth
/// `-t2`, under the orientation `m`.
pub open spec fn back_x(m: Mat3, p: Point2, center2: int, t2: int) -> int {
    m.apply_x(2 * p.x - center2, 2 * p.y, -t2)
}

/// The same point carried to the front face by the extrusion vector
/// `m . (0, 0, 2 t2)`.
pub open spec fn front_x(m: Mat3, p: Point2, center2: int, t2: int) -> int {
    back_x(m, p, center2, t2) + 2 * t2 * m.m02
}

/// Centering invariant. Take a glyph's control points, let `half` be the
/// doubled horizontal half-width about `center2` with both extremes attained
/// — exactly what re-basing about the midpoint of an exact bounding box
/// gives — and orient by any transform about the vertical axis (`m.m01 == 0`,
/// as the identity and every rotation about the y axis have). Then the
/// horizontal extent of the transformed points together with their extruded
/// front copies is `[-bound, bound]`, attained on both sides: the recomputed
/// horizontal bounding-box midpoint of the transformed glyph is exactly zero.
pub proof fn lemma_centering_zero(ps: Seq<Point2>, m: Mat3, center2: int, t2: int, half: int)
    requires
        m.m01 == 0,
        half >= 0,
        ps.len() > 0,
        forall|i: int| 0 <= i < ps.len() ==> -half <= 2 * (#[trigger] ps[i]).x - center2 <= half,
        exists|i: int| 0 <= i < ps.len() && 2 * (#[trigger] ps[i]).x - center2 == half,
        exists|i: int| 0 <= i < ps.len() && 2 * (#[trigger] ps[i]).x - center2 == -half,
    ensures
        ({
            let bound = iabs(m.m00 as int) * half + iabs((m.m02 * t2) as int);
            &&& forall|i: int|
                0 <= i < ps.len() ==> -bound <= back_x(m, #[trigger] ps[i], center2, t2) <= bound
                    && -bound <= front_x(m, ps[i], center2, t2) <= bound
            &&& exists|i: int|
                0 <= i < ps.len() && (back_x(m, #[trigger] ps[i], center2, t2) == bound || front_x(
                    m,
                    ps[i],
                    center2,
                    t2,
                ) == bound)
            &&& exists|i: int|
                0 <= i < ps.len() && (back_x(m, #[trigger] ps[i], center2, t2) == -bound
                    || front_x(m, ps[i], center2, t2) == -bound)
        }),
{
    let a = m.m00 as int;
    let d = (m.m02 * t2) as int;
    let bound = iabs(a) * half + iabs(d);
    assert(m.m02 * (-t2) == -d && 2 * t2 * m.m02 == 2 * d) by (nonlinear_arith)
        requires
            d == m.m02 * t2,
    ;
    assert forall|i: int|
        0 <= i < ps.len() implies -bound <= back_x(m, #[trigger] ps[i], center2, t2) <= bound
            && -bound <= front_x(m, ps[i], center2, t2) <= bound by {
        let u = 2 * ps[i].x - center2;
        assert(-half <= u <= half);
        assert(-(iabs(a) * half) <= a * u <= iabs(a) * half) by (nonlinear_arith)
            requires
                -half <= u <= half,
                half >= 0,
        ;
        assert(back_x(m, ps[i], center2, t2) == a * u - d);
        assert(front_x(m, ps[i], center2, t2) == a * u + d);
    }
    let jmax = choose|i: int| 0 <= i < ps.len() && 2 * (#[trigger] ps[i]).x - center2 == half;
    let jmin = choose|i: int| 0 <= i < ps.len() && 2 * (#[trigger] ps[i]).x - center2 == -half;
    let utop: int = if a >= 0 {
        2 * ps[jmax].x - center2
    } else {
        2 * ps[jmin].x - center2
    };
    let jtop: int = if a >= 0 {
        jmax
    } else {
        jmin
    };
    let jbot: int = if a >= 0 {
        jmin
    } else {
        jmax
    };
    let ubot: int = if a >= 0 {
        2 * ps[jmin].x - center2
    } else {
        2 * ps[jmax].x - center2
    };
    assert(a * utop == iabs(a) * half && a * ubot == -(iabs(a) * half)) by (nonlinear_arith)
        requires
            (a >= 0 && utop == half && ubot == -half) || (a < 0 && utop == -half && ubot == half),
    ;
    assert(back_x(m, ps[jtop], center2, t2) == a * utop - d);
    assert(front_x(m, ps[jtop], center2, t2) == a * utop + d);
    assert(back_x(m, ps[jbot], center2, t2) == a * ubot - d);
    assert(front_x(m, ps[jbot], center2, t2) == a * ubot + d);
    if d >= 0 {
        assert(front_x(m, ps[jtop], center2, t2) == bound);
        assert(back_x(m, ps[jbot], center2, t2) == -bound);
    } else {
        assert(back_x(m, ps[jtop], center2, t2) == bound);
        assert(front_x(m, ps[jbot], center2, t2) == -bound);
    }
}

/// Idempotence: a glyph plan is a function of its inputs alone. Any two plans
/// meeting the success contract for the same surviving contours, orientation,
/// centering and thickness carry identical geometry, so rebuilding a glyph
/// can never change what is exported.
pub proof fn lemma_plan_unique(
    p1: GlyphPlan,
    p2: GlyphPlan,
    sv: Seq<Seq<Curve>>,
    m: Mat3,
    center2: int,
    depth2: int,
    thickness: int,
)
    requires
        plan_matches(p1, sv, m, center2, depth2, thickness),
        plan_matches(p2, sv, m, center2, depth2, thickness),
    ensures
        p1.faces@.len() == p2.faces@.len(),
        forall|i: int| 0 <= i < p1.faces@.len() ==> (#[trigger] p1.faces@[i])@ == p2.faces@[i]@,
        p1.extrusion == p2.extrusion,
{
    assert forall|i: int|
        0 <= i < p1.faces@.len() implies (#[trigger] p1.faces@[i])@ == p2.faces@[i]@ by {
        assert forall|j: int|
            0 <= j < sv[i].len() implies p1.faces@[i]@[j] == p2.faces@[i]@[j] by {
            crate::compile::lemma_curve_map_functional(
                m,
                sv[i][j],
                center2,
                depth2,
                p1.faces@[i]@[j],
                p2.faces@[i]@[j],
            );
        }
        assert(p1.faces@[i]@ =~= p2.faces@[i]@);
    }
}

/// Ties the planned geometry to the centering statement: an edge control
/// point placed at the back depth `-t2` has exactly the horizontal coordinate
/// `back_x`, and its extruded copy exactly `front_x`.
pub proof fn lemma_back_and_front_of_mapped_point(
    m: Mat3,
    p: Point2,
    center2: int,
    t2: int,
    v: Vec3,
)
    requires
        crate::compile::point_maps_to(m, p, center2, -t2, v),
    ensures
        v.x == back_x(m, p, center2, t2),
        v.x + m.apply_x(0, 0, 2 * t2) == front_x(m, p, center2, t2),
{
}

} // verus!

use crossglyph::builder::GlyphBuilder;
use crossglyph::compile::{compile_contour, filter_degenerate, transform_point, Edge3};
use crossglyph::curve::Curve;
use crossglyph::errors::GlyphError;
use crossglyph::geometry::{Mat3, Point2, Vec3};
use crossglyph::pipeline::plan_glyph;
use crossglyph::topology::contour_bbox;

fn p(x: i64, y: i64) -> Point2 {
    Point2 { x, y }
}

fn square(b: &mut GlyphBuilder, x0: i64, y0: i64, x1: i64, y1: i64) {
    b.move_to(x0, y0);
    b.line_to(x1, y0);
    b.line_to(x1, y1);
    b.line_to(x0, y1);
    b.close();
}

fn edge_points(e: &Edge3) -> Vec<Vec3> {
    match e {
        Edge3::Line(a, b) => vec![*a, *b],
        Edge3::Bezier2(a, b, c) => vec![*a, *b, *c],
        Edge3::Bezier3(a, b, c, d) => vec![*a, *b, *c, *d],
    }
}

fn edge_first(e: &Edge3) -> Vec3 {
    edge_points(e)[0]
}

fn edge_last(e: &Edge3) -> Vec3 {
    *edge_points(e).last().unwrap()
}

#[test]
fn transform_point_identity_centers_and_doubles() {
    let m = Mat3::identity();
    // center2 = x_min + x_max = 100, back depth -10
    let v = transform_point(&m, p(0, 0), 100, -10);
    assert_eq!(v, Vec3 { x: -100, y: 0, z: -10 });
    let v = transform_point(&m, p(100, 30), 100, -10);
    assert_eq!(v, Vec3 { x: 100, y: 60, z: -10 });
}

#[test]
fn transform_point_quarter_turn_swaps_axes() {
    let m = Mat3::rotation_y_quarter();
    // (x, y, z) goes to (z, y, -x)
    let v = transform_point(&m, p(100, 30), 100, -10);
    assert_eq!(v, Vec3 { x: -10, y: 60, z: -100 });
}

#[test]
fn degenerate_curves_produce_one_fewer_edge() {
    let contour = vec![
        Curve::Line(p(0, 0), p(10, 0)),
        Curve::Line(p(10, 0), p(10, 0)),
        Curve::Line(p(10, 0), p(0, 0)),
    ];
    let kept = filter_degenerate(&contour);
    assert_eq!(kept.len(), 2);
    let m = Mat3::identity();
    let edges = compile_contour(&m, &contour, 10, -4);
    // three curves, one degenerate: exactly two edges, none of zero length
    assert_eq!(edges.len(), 2);
    for e in &edges {
        assert_ne!(edge_first(e), edge_last(e));
    }
}

#[test]
fn plan_square_glyph() {
    let mut b = GlyphBuilder::new();
    square(&mut b, 0, 0, 100, 100);
    let m = Mat3::identity();
    let plan = plan_glyph(&b.contours, 0, 100, &m, 10).unwrap();
    assert_eq!(plan.faces.len(), 1);
    assert_eq!(plan.faces[0].len(), 4);
    assert_eq!(plan.extrusion, Vec3 { x: 0, y: 0, z: 20 });
    // doubled, centered coordinates at the back depth
    assert_eq!(
        plan.faces[0][0],
        Edge3::Line(Vec3 { x: -100, y: 0, z: -10 }, Vec3 { x: 100, y: 0, z: -10 })
    );
    // the edge loop is chained and closed
    let face = &plan.faces[0];
    for w in face.windows(2) {
        assert_eq!(edge_first(&w[1]), edge_last(&w[0]));
    }
    assert_eq!(edge_first(&face[0]), edge_last(&face[face.len() - 1]));
}

#[test]
fn plan_rejects_empty_outline() {
    let contours: Vec<Vec<Curve>> = vec![];
    let m = Mat3::identity();
    let r = plan_glyph(&contours, 0, 1, &m, 10);
    assert_eq!(r.unwrap_err(), GlyphError::EmptyGlyph);
}

#[test]
fn plan_skips_contour_of_only_degenerate_curves() {
    // one contour entirely degenerate, one real: the degenerate one is
    // skipped and the glyph still builds
    let degenerate = vec![Curve::Line(p(5, 5), p(5, 5))];
    let mut b = GlyphBuilder::new();
    square(&mut b, 0, 0, 100, 100);
    let mut contours = vec![degenerate.clone()];
    contours.push(b.contours[0].clone());
    let m = Mat3::identity();
    let plan = plan_glyph(&contours, 0, 100, &m, 10).unwrap();
    assert_eq!(plan.faces.len(), 1);

    // a glyph with nothing but degenerate contours is empty
    let contours = vec![degenerate];
    let r = plan_glyph(&contours, 0, 100, &m, 10);
    assert_eq!(r.unwrap_err(), GlyphError::EmptyGlyph);
}

#[test]
fn plan_accepts_nested_hole_contour() {
    let mut b = GlyphBuilder::new();
    square(&mut b, 0, 0, 100, 100);
    square(&mut b, 20, 20, 80, 80);
    let m = Mat3::identity();
    let plan = plan_glyph(&b.contours, 0, 100, &m, 10).unwrap();
    assert_eq!(plan.faces.len(), 2);
}

#[test]
fn plan_rejects_partially_overlapping_contours() {
    let mut b = GlyphBuilder::new();
    square(&mut b, 0, 0, 100, 100);
    square(&mut b, 50, 50, 150, 150);
    let m = Mat3::identity();
    let r = plan_glyph(&b.contours, 0, 150, &m, 10);
    assert_eq!(r.unwrap_err(), GlyphError::UnsupportedTopology);
}

#[test]
fn plan_is_deterministic() {
    let mut b = GlyphBuilder::new();
    square(&mut b, 0, 0, 100, 100);
    square(&mut b, 20, 20, 80, 80);
    let m = Mat3::rotation_y_quarter();
    let plan1 = plan_glyph(&b.contours, 0, 100, &m, 10).unwrap();
    let plan2 = plan_glyph(&b.contours, 0, 100, &m, 10).unwrap();
    assert_eq!(plan1.faces, plan2.faces);
    assert_eq!(plan1.extrusion, plan2.extrusion);
}

/// The recomputed horizontal extent of the planned glyph — back faces plus
/// their extruded copies — is symmetric about zero, for both orientations.
fn assert_horizontal_extent_symmetric(m: &Mat3) {
    let mut b = GlyphBuilder::new();
    // an off-center glyph: x from 40 to 100
    square(&mut b, 40, 0, 100, 100);
    let plan = plan_glyph(&b.contours, 40, 100, m, 10).unwrap();
    let mut xs: Vec<i64> = vec![];
    for face in &plan.faces {
        for e in face {
            for q in edge_points(e) {
                xs.push(q.x);
                xs.push(q.x + plan.extrusion.x);
            }
        }
    }
    let min = *xs.iter().min().unwrap();
    let max = *xs.iter().max().unwrap();
    assert_eq!(min + max, 0);
}

#[test]
fn centering_zeroes_extent_identity() {
    assert_horizontal_extent_symmetric(&Mat3::identity());
}

#[test]
fn centering_zeroes_extent_quarter_turn() {
    assert_horizontal_extent_symmetric(&Mat3::rotation_y_quarter());
}

#[test]
fn contour_bbox_of_square() {
    let mut b = GlyphBuilder::new();
    square(&mut b, 3, -2, 9, 11);
    let r = contour_bbox(&b.contours[0]).unwrap();
    assert_eq!((r.x_min, r.x_max, r.y_min, r.y_max), (3, 9, -2, 11));
    let empty: Vec<Curve> = vec![];
    assert!(contour_bbox(&empty).is_none());
}

#[test]
fn error_descriptions() {
    assert_eq!(GlyphError::GlyphNotFound.describe(), "glyph not found");
    assert_eq!(GlyphError::DegenerateBoundary.describe(), "degenerate boundary");
    assert_eq!(GlyphError::EmptyGlyph.describe(), "empty glyph");
    assert_eq!(GlyphError::BooleanFailure.describe(), "boolean operation failed");
    assert_eq!(
        GlyphError::UnsupportedTopology.describe(),
        "unsupported contour topology"
    );
}

use crossglyph::builder::GlyphBuilder;
use crossglyph::curve::Curve;
use crossglyph::geometry::Point2;

fn p(x: i64, y: i64) -> Point2 {
    Point2 { x, y }
}

#[test]
fn builder_collects_one_contour() {
    let mut b = GlyphBuilder::new();
    b.move_to(0, 0);
    b.line_to(100, 0);
    b.quad_to(150, 50, 100, 100);
    b.curve_to(80, 120, 20, 120, 0, 100);
    b.close();
    assert_eq!(b.contours.len(), 1);
    let c = &b.contours[0];
    assert_eq!(c.len(), 4);
    assert_eq!(c[0], Curve::Line(p(0, 0), p(100, 0)));
    assert_eq!(c[1], Curve::Bezier2(p(100, 0), p(150, 50), p(100, 100)));
    assert_eq!(
        c[2],
        Curve::Bezier3(p(100, 100), p(80, 120), p(20, 120), p(0, 100))
    );
    // the pen ended at (0, 100), so close inserted the straight segment back
    // to the contour's start
    assert_eq!(c[3], Curve::Line(p(0, 100), p(0, 0)));
}

#[test]
fn close_inserts_no_segment_when_pen_returned() {
    let mut b = GlyphBuilder::new();
    b.move_to(0, 0);
    b.line_to(10, 0);
    b.line_to(0, 0);
    b.close();
    assert_eq!(b.contours.len(), 1);
    assert_eq!(b.contours[0].len(), 2);
}

#[test]
fn closure_invariant_holds_for_every_contour() {
    let mut b = GlyphBuilder::new();
    b.move_to(0, 0);
    b.line_to(10, 0);
    b.line_to(10, 10);
    b.close();
    b.move_to(2, 2);
    b.quad_to(5, 5, 8, 2);
    b.close();
    assert_eq!(b.contours.len(), 2);
    for contour in &b.contours {
        let first = contour.first().unwrap().first_point();
        let last = contour.last().unwrap().last_point();
        assert_eq!(first, last);
        // and each curve starts where its predecessor ended
        for w in contour.windows(2) {
            assert_eq!(w[1].first_point(), w[0].last_point());
        }
    }
}

#[test]
fn first_point_of_each_variant() {
    assert_eq!(Curve::Line(p(1, 2), p(3, 4)).first_point(), p(1, 2));
    assert_eq!(Curve::Bezier2(p(5, 6), p(0, 0), p(1, 1)).first_point(), p(5, 6));
    assert_eq!(
        Curve::Bezier3(p(7, 8), p(0, 0), p(1, 1), p(2, 2)).first_point(),
        p(7, 8)
    );
}

#[test]
fn degenerate_curve_detection_is_exact() {
    assert!(Curve::Line(p(3, 3), p(3, 3)).is_degenerate());
    assert!(!Curve::Line(p(3, 3), p(3, 4)).is_degenerate());
    // a Bezier that starts and ends at the same point is degenerate even with
    // distinct control points
    assert!(Curve::Bezier2(p(1, 1), p(9, 9), p(1, 1)).is_degenerate());
    assert!(Curve::Bezier3(p(1, 1), p(9, 9), p(8, 8), p(1, 2)).is_degenerate() == false);
}

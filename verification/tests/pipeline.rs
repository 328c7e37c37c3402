use squarer::geometry::{bounding_box, canonical_order, validate_quadrilateral, ControlPoint};
use squarer::projection::solve_projection;
use squarer::raster::{Pixel, PixelBuffer};
use squarer::rectify::rectify;
use squarer::SquareError;

fn pt(x: i32, y: i32) -> ControlPoint {
    ControlPoint { x, y }
}

fn solid(w: usize, h: usize, rgba: [u8; 4]) -> PixelBuffer {
    let mut bytes: Vec<u8> = Vec::new();
    for _ in 0..w * h {
        bytes.extend_from_slice(&rgba);
    }
    PixelBuffer::from_rgba(w, h, &bytes).unwrap()
}

fn pixel(r: u8, g: u8, b: u8, a: u8) -> Pixel {
    Pixel { r, g, b, a }
}

#[test]
fn convex_points_accepted_and_hull_is_input_set() {
    let points = vec![pt(90, 10), pt(10, 90), pt(10, 10), pt(90, 90)];
    let hull = validate_quadrilateral(&points).unwrap();
    let mut got = vec![
        (hull.p0.x, hull.p0.y),
        (hull.p1.x, hull.p1.y),
        (hull.p2.x, hull.p2.y),
        (hull.p3.x, hull.p3.y),
    ];
    got.sort();
    let mut want = vec![(10, 10), (10, 90), (90, 10), (90, 90)];
    want.sort();
    assert_eq!(got, want);
}

#[test]
fn interior_point_rejected() {
    let points = vec![pt(0, 0), pt(100, 0), pt(50, 100), pt(50, 40)];
    let r = validate_quadrilateral(&points);
    assert_eq!(r.unwrap_err(), SquareError::InvalidQuadrilateral);
}

#[test]
fn collinear_points_rejected() {
    let points = vec![pt(0, 0), pt(10, 10), pt(20, 20), pt(5, 30)];
    let src = solid(40, 40, [1, 2, 3, 255]);
    match rectify(&src, &points) {
        Err(e) => assert_eq!(e, SquareError::InvalidQuadrilateral),
        Ok(_) => panic!("collinear points must be rejected"),
    }
}

#[test]
fn cyclic_rotation_gives_identical_output() {
    let src = solid(100, 100, [9, 8, 7, 255]);
    let base = vec![pt(20, 10), pt(80, 30), pt(70, 90), pt(10, 70)];
    let out0 = rectify(&src, &base).unwrap();
    for k in 1..4 {
        let rotated: Vec<ControlPoint> = (0..4).map(|i| base[(i + k) % 4]).collect();
        let out = rectify(&src, &rotated).unwrap();
        assert_eq!(out.width, out0.width);
        assert_eq!(out.height, out0.height);
        assert_eq!(out.to_rgba(), out0.to_rgba());
    }
}

#[test]
fn red_square_scenario() {
    let src = solid(100, 100, [255, 0, 0, 255]);
    let points = vec![pt(10, 10), pt(90, 10), pt(90, 90), pt(10, 90)];
    let out = rectify(&src, &points).unwrap();
    assert_eq!(out.width, 80);
    assert_eq!(out.height, 80);
    for y in 0..80 {
        for x in 0..80 {
            assert_eq!(out.get(x, y), pixel(255, 0, 0, 255));
        }
    }
}

#[test]
fn axis_aligned_round_trip_is_cropped_source() {
    // A 4x4 source with a distinct pixel everywhere; the control points are
    // the corners of an axis-aligned rectangle, so the output is the crop.
    let mut bytes: Vec<u8> = Vec::new();
    for k in 0..16u8 {
        bytes.extend_from_slice(&[k, 2 * k, 3 * k, 255]);
    }
    let src = PixelBuffer::from_rgba(4, 4, &bytes).unwrap();
    let points = vec![pt(1, 1), pt(3, 1), pt(3, 3), pt(1, 3)];
    let out = rectify(&src, &points).unwrap();
    assert_eq!(out.width, 2);
    assert_eq!(out.height, 2);
    for y in 0..2 {
        for x in 0..2 {
            assert_eq!(out.get(x, y), src.get(x + 1, y + 1));
        }
    }
}

#[test]
fn output_dimensions_follow_points_not_image() {
    let src = solid(10, 10, [0, 0, 0, 255]);
    let points = vec![pt(20, 10), pt(80, 30), pt(70, 90), pt(10, 70)];
    let out = rectify(&src, &points).unwrap();
    assert_eq!(out.width, 70);
    assert_eq!(out.height, 80);
}

#[test]
fn skewed_quadrilateral_corners_map_back() {
    let points = vec![pt(20, 10), pt(80, 30), pt(70, 90), pt(10, 70)];
    let hull = validate_quadrilateral(&points).unwrap();
    let ordered = canonical_order(hull);
    assert_eq!((ordered.p0.x, ordered.p0.y), (20, 10));
    let bb = bounding_box(&ordered);
    assert_eq!((bb.min_x, bb.min_y, bb.max_x, bb.max_y), (10, 10, 80, 90));
    let proj = solve_projection(&ordered, &bb).unwrap();
    // Destination rectangle corners land exactly on the crop-local corners.
    assert_eq!(proj.apply(0, 0).unwrap(), (10, 0));
    assert_eq!(proj.apply(70, 0).unwrap(), (70, 20));
    assert_eq!(proj.apply(70, 80).unwrap(), (60, 80));
    assert_eq!(proj.apply(0, 80).unwrap(), (0, 60));
}

#[test]
fn outside_pixels_are_transparent() {
    // A diamond: traversal starts at (0, 50), and the affine map sends the
    // destination column x = 0 to the diamond edge from (0, 50) to (50, 100);
    // near its lower end the source y rounds to 100, which is outside the
    // crop, so the pixel is transparent.
    let src = solid(100, 100, [255, 0, 0, 255]);
    let points = vec![pt(50, 0), pt(100, 50), pt(50, 100), pt(0, 50)];
    let out = rectify(&src, &points).unwrap();
    assert_eq!(out.width, 100);
    assert_eq!(out.height, 100);
    assert_eq!(out.get(0, 99), pixel(0, 0, 0, 0));
    assert_eq!(out.get(0, 98), pixel(255, 0, 0, 255));
    assert_eq!(out.get(50, 50), pixel(255, 0, 0, 255));
}

#[test]
fn error_messages_name_the_failure() {
    assert_eq!(
        SquareError::InvalidQuadrilateral.message(),
        "Non-convex quadrilateral"
    );
    assert_eq!(SquareError::DegenerateProjection.message(), "Degenerate projection");
}

#[test]
fn rgba_packing_round_trips() {
    let mut bytes: Vec<u8> = Vec::new();
    for k in 0..24u8 {
        bytes.push(k);
    }
    let buf = PixelBuffer::from_rgba(3, 2, &bytes).unwrap();
    assert_eq!(buf.to_rgba(), bytes);
    assert!(PixelBuffer::from_rgba(3, 2, &vec![0u8; 23]).is_none());
}

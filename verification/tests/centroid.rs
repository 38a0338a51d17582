use shape_builder::arrange::ShapeBuilder;
use shape_builder::rat::{rat_eq, Rat};

fn ri(n: i64) -> Rat {
    Rat::from_int(n)
}

fn rq(n: i64, d: i64) -> Rat {
    Rat::new(n, d).unwrap()
}

fn to_f64(r: Rat) -> f64 {
    r.num as f64 / r.den as f64
}

#[test]
fn centroid_undefined_for_empty_store() {
    let sb = ShapeBuilder::new();
    assert!(sb.calculate_centroid().is_none());
}

#[test]
fn centroid_undefined_for_one_segment() {
    let mut sb = ShapeBuilder::new();
    assert!(sb.add_line(ri(0), ri(0), ri(1), ri(1)));
    assert!(sb.calculate_centroid().is_none());
}

#[test]
fn centroid_undefined_for_two_segments() {
    let mut sb = ShapeBuilder::new();
    assert!(sb.add_line(ri(0), ri(0), ri(1), ri(0)));
    assert!(sb.add_line(ri(3), ri(2), ri(4), ri(5)));
    assert!(sb.calculate_centroid().is_none());
}

#[test]
fn centroid_of_closed_triangle() {
    let mut sb = ShapeBuilder::new();
    assert!(sb.add_line(ri(0), ri(0), ri(1), ri(0)));
    assert!(sb.add_line(ri(1), ri(0), rq(1, 2), ri(1)));
    assert!(sb.add_line(rq(1, 2), ri(1), ri(0), ri(0)));
    let c = sb.calculate_centroid().expect("triangle has a centroid");
    assert!(rat_eq(c.x, rq(1, 2)));
    assert!(rat_eq(c.y, rq(1, 3)));
    assert!((to_f64(c.x) - 0.5).abs() < 1e-6);
    assert!((to_f64(c.y) - 1.0 / 3.0).abs() < 1e-6);
}

#[test]
fn centroid_of_unit_square_any_insertion_order() {
    let edges: [(i64, i64, i64, i64); 4] = [
        (0, 0, 1, 0),
        (1, 0, 1, 1),
        (1, 1, 0, 1),
        (0, 1, 0, 0),
    ];
    let orders: [[usize; 4]; 24] = [
        [0, 1, 2, 3],
        [0, 1, 3, 2],
        [0, 2, 1, 3],
        [0, 2, 3, 1],
        [0, 3, 1, 2],
        [0, 3, 2, 1],
        [1, 0, 2, 3],
        [1, 0, 3, 2],
        [1, 2, 0, 3],
        [1, 2, 3, 0],
        [1, 3, 0, 2],
        [1, 3, 2, 0],
        [2, 0, 1, 3],
        [2, 0, 3, 1],
        [2, 1, 0, 3],
        [2, 1, 3, 0],
        [2, 3, 0, 1],
        [2, 3, 1, 0],
        [3, 0, 1, 2],
        [3, 0, 2, 1],
        [3, 1, 0, 2],
        [3, 1, 2, 0],
        [3, 2, 0, 1],
        [3, 2, 1, 0],
    ];
    for order in orders.iter() {
        let mut sb = ShapeBuilder::new();
        for &k in order.iter() {
            let (ax, ay, bx, by) = edges[k];
            assert!(sb.add_line(ri(ax), ri(ay), ri(bx), ri(by)));
        }
        assert_eq!(sb.get_lines().len(), 4);
        let c = sb.calculate_centroid().expect("square has a centroid");
        assert!(rat_eq(c.x, rq(1, 2)));
        assert!(rat_eq(c.y, rq(1, 2)));
        assert!((to_f64(c.x) - 0.5).abs() < 1e-6);
        assert!((to_f64(c.y) - 0.5).abs() < 1e-6);
    }
}

#[test]
fn centroid_of_rectangle() {
    let mut sb = ShapeBuilder::new();
    assert!(sb.add_rect(ri(0), ri(0), ri(4), ri(2)));
    let c = sb.calculate_centroid().expect("rectangle has a centroid");
    assert!(rat_eq(c.x, ri(2)));
    assert!(rat_eq(c.y, ri(1)));
}

#[test]
fn rational_constructor_rejects_zero_denominator() {
    assert!(Rat::new(1, 0).is_none());
}

#[test]
fn rational_constructor_normalizes_sign() {
    let r = Rat::new(1, -2).unwrap();
    assert!(r.den > 0);
    assert!(rat_eq(r, Rat { num: -1, den: 2 }));
}

#[test]
fn rational_equality_ignores_representation() {
    assert!(rat_eq(rq(2, 4), rq(1, 2)));
    assert!(!rat_eq(rq(2, 4), rq(2, 3)));
    assert!(shape_builder::geom::points_equal(
        &shape_builder::geom::Point { x: rq(2, 4), y: ri(0) },
        &shape_builder::geom::Point { x: rq(1, 2), y: ri(0) },
    ));
}

use shape_builder::arrange::ShapeBuilder;
use shape_builder::geom::{get_intersection, segments_equal, Point, SegRelation, Segment};
use shape_builder::rat::Rat;

fn ri(n: i64) -> Rat {
    Rat::from_int(n)
}

fn pt(x: i64, y: i64) -> Point {
    Point { x: ri(x), y: ri(y) }
}

fn seg(ax: i64, ay: i64, bx: i64, by: i64) -> Segment {
    Segment { a: pt(ax, ay), b: pt(bx, by) }
}

fn add(sb: &mut ShapeBuilder, ax: i64, ay: i64, bx: i64, by: i64) {
    assert!(sb.add_line(ri(ax), ri(ay), ri(bx), ri(by)));
}

fn has_seg(lines: &[Segment], expect: &Segment) -> bool {
    lines.iter().any(|s| segments_equal(s, expect))
}

#[test]
fn insert_single_segment() {
    let mut sb = ShapeBuilder::new();
    add(&mut sb, 1, 2, 3, 4);
    let lines = sb.get_lines();
    assert_eq!(lines.len(), 1);
    assert!(has_seg(&lines, &seg(1, 2, 3, 4)));
    assert!(has_seg(&lines, &seg(3, 4, 1, 2)));
}

#[test]
fn insert_zero_length_segment_is_filtered() {
    let mut sb = ShapeBuilder::new();
    assert!(sb.add_line(ri(5), ri(5), ri(5), ri(5)));
    assert_eq!(sb.get_lines().len(), 0);
}

#[test]
fn insert_two_unrelated_segments() {
    let mut sb = ShapeBuilder::new();
    add(&mut sb, 0, 0, 1, 0);
    add(&mut sb, 3, 2, 4, 5);
    let lines = sb.get_lines();
    assert_eq!(lines.len(), 2);
    assert!(has_seg(&lines, &seg(0, 0, 1, 0)));
    assert!(has_seg(&lines, &seg(3, 2, 4, 5)));
}

#[test]
fn collinear_overlap_merges_to_union_extremes() {
    let mut sb = ShapeBuilder::new();
    add(&mut sb, 1, 0, 4, 0);
    add(&mut sb, 1, 0, 2, 0);
    let lines = sb.get_lines();
    assert_eq!(lines.len(), 1);
    assert!(has_seg(&lines, &seg(1, 0, 4, 0)));
}

#[test]
fn collinear_merge_extremes_do_not_depend_on_order() {
    let mut first = ShapeBuilder::new();
    add(&mut first, 1, 0, 4, 0);
    add(&mut first, 1, 0, 2, 0);
    let mut second = ShapeBuilder::new();
    add(&mut second, 1, 0, 2, 0);
    add(&mut second, 1, 0, 4, 0);
    let a = first.get_lines();
    let b = second.get_lines();
    assert_eq!(a.len(), 1);
    assert_eq!(b.len(), 1);
    assert!(segments_equal(&a[0], &b[0]));
    assert!(has_seg(&b, &seg(1, 0, 4, 0)));
}

#[test]
fn reinserting_a_covered_collinear_segment_changes_nothing() {
    let mut sb = ShapeBuilder::new();
    add(&mut sb, 1, 0, 4, 0);
    add(&mut sb, 2, 0, 3, 0);
    let lines = sb.get_lines();
    assert_eq!(lines.len(), 1);
    assert!(has_seg(&lines, &seg(1, 0, 4, 0)));
}

#[test]
fn disjoint_collinear_segments_also_merge() {
    // Classification is line-level: same supporting line, no finite
    // overlap needed.
    let mut sb = ShapeBuilder::new();
    add(&mut sb, 0, 0, 1, 0);
    add(&mut sb, 5, 0, 6, 0);
    let lines = sb.get_lines();
    assert_eq!(lines.len(), 1);
    assert!(has_seg(&lines, &seg(0, 0, 6, 0)));
}

#[test]
fn crossing_segments_split_into_four() {
    let mut sb = ShapeBuilder::new();
    add(&mut sb, 0, 1, 0, -1);
    add(&mut sb, -1, 0, 1, 0);
    let lines = sb.get_lines();
    assert_eq!(lines.len(), 4);
    assert!(has_seg(&lines, &seg(0, 1, 0, 0)));
    assert!(has_seg(&lines, &seg(0, 0, 0, -1)));
    assert!(has_seg(&lines, &seg(-1, 0, 0, 0)));
    assert!(has_seg(&lines, &seg(0, 0, 1, 0)));
}

#[test]
fn crossing_splits_with_vertical_candidate() {
    // Same crossing as above with the insertion order reversed, so the
    // candidate being split is vertical and the split points sort by y.
    let mut sb = ShapeBuilder::new();
    add(&mut sb, -1, 0, 1, 0);
    add(&mut sb, 0, 1, 0, -1);
    let lines = sb.get_lines();
    assert_eq!(lines.len(), 4);
    assert!(has_seg(&lines, &seg(0, 1, 0, 0)));
    assert!(has_seg(&lines, &seg(0, 0, 0, -1)));
    assert!(has_seg(&lines, &seg(-1, 0, 0, 0)));
    assert!(has_seg(&lines, &seg(0, 0, 1, 0)));
}

#[test]
fn crossing_splits_with_descending_candidate() {
    // The candidate runs right to left, so its split points sort by
    // descending x.
    let mut sb = ShapeBuilder::new();
    add(&mut sb, 0, 1, 0, -1);
    add(&mut sb, 1, 0, -1, 0);
    let lines = sb.get_lines();
    assert_eq!(lines.len(), 4);
    assert!(has_seg(&lines, &seg(0, 1, 0, 0)));
    assert!(has_seg(&lines, &seg(0, 0, 0, -1)));
    assert!(has_seg(&lines, &seg(-1, 0, 0, 0)));
    assert!(has_seg(&lines, &seg(0, 0, 1, 0)));
}

#[test]
fn reinserting_after_cross_split_keeps_the_set() {
    let mut sb = ShapeBuilder::new();
    add(&mut sb, 0, 1, 0, -1);
    add(&mut sb, -1, 0, 1, 0);
    add(&mut sb, -1, 0, 1, 0);
    let lines = sb.get_lines();
    assert_eq!(lines.len(), 4);
    assert!(has_seg(&lines, &seg(0, 1, 0, 0)));
    assert!(has_seg(&lines, &seg(0, 0, 0, -1)));
    assert!(has_seg(&lines, &seg(-1, 0, 0, 0)));
    assert!(has_seg(&lines, &seg(0, 0, 1, 0)));
}

#[test]
fn inserting_same_segment_twice_does_not_grow() {
    let mut sb = ShapeBuilder::new();
    add(&mut sb, 2, 0, 1, 0);
    add(&mut sb, 2, 0, 1, 0);
    let lines = sb.get_lines();
    assert_eq!(lines.len(), 1);
    assert!(has_seg(&lines, &seg(1, 0, 2, 0)));
}

#[test]
fn delete_absent_segment_is_noop() {
    let mut sb = ShapeBuilder::new();
    add(&mut sb, 0, 0, 1, 1);
    sb.delete_line(ri(5), ri(5), ri(6), ri(6));
    let lines = sb.get_lines();
    assert_eq!(lines.len(), 1);
    assert!(has_seg(&lines, &seg(0, 0, 1, 1)));
}

#[test]
fn delete_present_segment_removes_exactly_one() {
    let mut sb = ShapeBuilder::new();
    add(&mut sb, 0, 0, 1, 1);
    add(&mut sb, 3, 0, 4, 1);
    sb.delete_line(ri(0), ri(0), ri(1), ri(1));
    let lines = sb.get_lines();
    assert_eq!(lines.len(), 1);
    assert!(has_seg(&lines, &seg(3, 0, 4, 1)));
}

#[test]
fn delete_matches_either_endpoint_order() {
    let mut sb = ShapeBuilder::new();
    add(&mut sb, 0, 0, 1, 1);
    sb.delete_line(ri(1), ri(1), ri(0), ri(0));
    assert_eq!(sb.get_lines().len(), 0);
}

#[test]
fn clear_empties_any_arrangement() {
    let mut sb = ShapeBuilder::new();
    sb.clear();
    assert_eq!(sb.get_lines().len(), 0);
    add(&mut sb, 0, 0, 1, 1);
    add(&mut sb, 0, 1, 1, 0);
    sb.clear();
    assert_eq!(sb.get_lines().len(), 0);
}

#[test]
fn add_rect_stores_four_edges() {
    let mut sb = ShapeBuilder::new();
    assert!(sb.add_rect(ri(0), ri(0), ri(2), ri(2)));
    let lines = sb.get_lines();
    assert_eq!(lines.len(), 4);
    assert!(has_seg(&lines, &seg(0, 0, 2, 0)));
    assert!(has_seg(&lines, &seg(2, 0, 2, 2)));
    assert!(has_seg(&lines, &seg(2, 2, 0, 2)));
    assert!(has_seg(&lines, &seg(0, 2, 0, 0)));
}

#[test]
fn insertion_fails_and_leaves_store_unchanged_on_overflow() {
    let big: i64 = 1 << 62;
    let mut sb = ShapeBuilder::new();
    assert!(sb.add_line(ri(-big), ri(0), ri(big), ri(1)));
    assert_eq!(sb.get_lines().len(), 1);
    // Classifying against the stored segment needs the difference of its
    // x coordinates, which exceeds i64.
    assert!(!sb.add_line(ri(0), ri(-5), ri(1), ri(5)));
    let lines = sb.get_lines();
    assert_eq!(lines.len(), 1);
    assert!(has_seg(&lines, &seg(-big, 0, big, 1)));
}

#[test]
fn intersection_reports_crossing_point() {
    let r = get_intersection(&pt(0, 1), &pt(0, -1), &pt(-1, 0), &pt(1, 0));
    match r {
        Some(SegRelation::Cross(p)) => {
            assert!(shape_builder::geom::points_equal(&p, &pt(0, 0)));
        },
        _ => panic!("expected a crossing"),
    }
}

#[test]
fn intersection_reports_touch_at_endpoint() {
    let r = get_intersection(&pt(0, 0), &pt(1, 0), &pt(1, 0), &pt(2, 5));
    match r {
        Some(SegRelation::Cross(p)) => {
            assert!(shape_builder::geom::points_equal(&p, &pt(1, 0)));
        },
        _ => panic!("expected a touch"),
    }
}

#[test]
fn intersection_reports_parallel_disjoint() {
    let r = get_intersection(&pt(0, 0), &pt(1, 0), &pt(0, 1), &pt(1, 1));
    assert!(matches!(r, Some(SegRelation::Disjoint)));
}

#[test]
fn intersection_reports_lines_meeting_outside_extents() {
    let r = get_intersection(&pt(0, 0), &pt(1, 0), &pt(5, -1), &pt(5, 1));
    assert!(matches!(r, Some(SegRelation::Disjoint)));
}

#[test]
fn intersection_reports_collinear_lines() {
    let r = get_intersection(&pt(0, 0), &pt(1, 0), &pt(5, 0), &pt(6, 0));
    assert!(matches!(r, Some(SegRelation::CollinearOverlap)));
}

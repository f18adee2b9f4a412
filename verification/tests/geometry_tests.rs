use breakout::geometry::is_intersect;

#[test]
fn crossing_segments_intersect() {
    // A horizontal segment crossed by a vertical one.
    assert!(is_intersect(0, 0, 10, 0, 5, -5, 5, 5));
    // A steep travel segment through a block's top edge.
    assert!(is_intersect(105, 25, 145, 25, 114, 22, 114, 26));
}

#[test]
fn parallel_segments_do_not_intersect() {
    assert!(!is_intersect(0, 0, 10, 0, 0, 1, 10, 1));
    assert!(!is_intersect(0, 0, 0, 10, 1, 0, 1, 10));
}

#[test]
fn disjoint_collinear_extension_does_not_intersect() {
    // The second segment lies wholly to one side of the first's span.
    assert!(!is_intersect(0, 0, 10, 0, 20, -5, 20, 5));
}

#[test]
fn touching_endpoint_counts_as_intersection() {
    assert!(is_intersect(0, 0, 10, 0, 10, 0, 10, 5));
    assert!(is_intersect(0, 0, 10, 0, 5, 0, 5, 5));
}

#[test]
fn collinear_overlap_counts_as_intersection() {
    assert!(is_intersect(0, 0, 10, 0, 5, 0, 15, 0));
}

#[test]
fn large_coordinates_do_not_overflow() {
    assert!(is_intersect(
        i32::MIN,
        i32::MIN,
        i32::MAX,
        i32::MAX,
        i32::MIN,
        i32::MAX,
        i32::MAX,
        i32::MIN,
    ));
    assert!(!is_intersect(
        i32::MIN,
        i32::MIN,
        i32::MAX,
        i32::MIN + 1,
        i32::MIN,
        i32::MAX,
        i32::MAX,
        i32::MAX,
    ));
}

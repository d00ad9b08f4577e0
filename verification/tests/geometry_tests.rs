use space_race::geometry::Vec2;
use space_race::geometry::collide;
use space_race::geometry::intersects;

fn v(x: i64, y: i64) -> Vec2 {
    Vec2 { x, y }
}

#[test]
fn intersection_symmetry_examples() {
    let cases = [
        ((0, 0), (10, 10), (5, 5), (10, 10)),
        ((0, 0), (10, 10), (10, 0), (10, 10)),
        ((0, 0), (4, 4), (100, 100), (2, 2)),
        ((-3, 7), (6, 2), (-1, 6), (8, 4)),
        ((8, 8), (4, 4), (10, 10), (4, 4)),
    ];
    for &((ax, ay), (aw, ah), (bx, by), (bw, bh)) in cases.iter() {
        let forward = intersects(v(ax, ay), v(aw, ah), v(bx, by), v(bw, bh));
        let backward = intersects(v(bx, by), v(bw, bh), v(ax, ay), v(aw, ah));
        assert_eq!(forward, backward);
    }
}

#[test]
fn no_touch_boundary() {
    // A spans x in [0, 10], B spans x in [10, 20], same y range: only the
    // shared edge touches, which must not count as an intersection.
    let a_pos = v(5, 5);
    let a_size = v(10, 10);
    let b_pos = v(15, 5);
    let b_size = v(10, 10);
    assert!(!intersects(a_pos, a_size, b_pos, b_size));
    assert!(!intersects(b_pos, b_size, a_pos, a_size));
    assert!(collide(a_pos, a_size, b_pos, b_size).is_none());
}

#[test]
fn overlapping_boxes_intersect() {
    assert!(intersects(v(0, 0), v(10, 10), v(5, 5), v(10, 10)));
    assert!(intersects(v(0, 0), v(10, 10), v(0, 0), v(2, 2)));
}

#[test]
fn penetration_depth_exact() {
    // A spans x in [6, 10], B spans x in [8, 12]: A sticks 2 units past B's
    // left edge; the y extents coincide, so no side qualifies there.
    let c = collide(v(8, 0), v(4, 4), v(10, 0), v(4, 4)).unwrap();
    assert_eq!(c.x_depth, 2);
    assert_eq!(c.y_depth, 0);
}

#[test]
fn penetration_depth_signed_from_the_far_side() {
    // A spans x in [10, 14], B spans x in [8, 12]: A crosses B's right edge,
    // so the depth is negative (A's min minus B's max).
    let c = collide(v(12, 0), v(4, 4), v(10, 0), v(4, 4)).unwrap();
    assert_eq!(c.x_depth, -2);
    assert_eq!(c.y_depth, 0);
}

#[test]
fn no_collision_when_apart() {
    assert!(collide(v(0, 0), v(4, 4), v(100, 100), v(4, 4)).is_none());
}

#[test]
fn zero_depths_when_fully_confined() {
    // A sits strictly inside B on both axes: the boxes overlap, so a
    // collision is reported, but no side is crossed, so both depths are
    // zero.
    let a_pos = v(0, 0);
    let a_size = v(2, 2);
    let b_pos = v(0, 0);
    let b_size = v(10, 10);
    assert!(intersects(a_pos, a_size, b_pos, b_size));
    let c = collide(a_pos, a_size, b_pos, b_size).unwrap();
    assert_eq!(c.x_depth, 0);
    assert_eq!(c.y_depth, 0);
}

#[test]
fn zero_depth_on_an_edge_aligned_axis() {
    // The x extents coincide exactly, so neither of A's x edges crosses a
    // side of B: the x depth is zero while the crossed y side reports 2.
    let c = collide(v(0, 8), v(4, 4), v(0, 10), v(4, 4)).unwrap();
    assert_eq!(c.x_depth, 0);
    assert_eq!(c.y_depth, 2);
}

#[test]
fn depth_correction_eliminates_overlap() {
    let a_pos = v(8, 0);
    let a_size = v(4, 4);
    let b_pos = v(10, 0);
    let b_size = v(4, 4);
    let c = collide(a_pos, a_size, b_pos, b_size).unwrap();
    let moved = v(a_pos.x - c.x_depth, a_pos.y - c.y_depth);
    assert!(!intersects(moved, a_size, b_pos, b_size));
    assert!(collide(moved, a_size, b_pos, b_size).is_none());
}

#[test]
fn depth_correction_eliminates_overlap_diagonal() {
    let a_pos = v(8, 8);
    let a_size = v(4, 4);
    let b_pos = v(10, 10);
    let b_size = v(4, 4);
    let c = collide(a_pos, a_size, b_pos, b_size).unwrap();
    assert_eq!(c.x_depth, 2);
    assert_eq!(c.y_depth, 2);
    let moved = v(a_pos.x - c.x_depth, a_pos.y - c.y_depth);
    assert!(!intersects(moved, a_size, b_pos, b_size));
}

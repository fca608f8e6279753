use rustout::collision::{collide_with_boundary, collide_with_rect, BounceDirection};
use rustout::geometry::{Rect, Vec2};

fn rect(min_x: i64, min_y: i64, max_x: i64, max_y: i64) -> Rect {
    Rect {
        min: Vec2 { x: min_x, y: min_y },
        max: Vec2 { x: max_x, y: max_y },
    }
}

#[test]
fn containment_returns_none() {
    let boundary = rect(0, 0, 100, 100);
    let inner = rect(10, 10, 20, 20);
    assert_eq!(collide_with_boundary(&inner, &boundary), None);
    // A box equal to the boundary is still contained.
    assert_eq!(collide_with_boundary(&boundary, &boundary), None);
}

#[test]
fn left_exit_maps_to_rightward_bounce() {
    let boundary = rect(0, 0, 100, 100);
    // The boundary's own box moved one unit past the left edge.
    let shifted = rect(-1, 0, 99, 100);
    assert_eq!(
        collide_with_boundary(&shifted, &boundary),
        Some(BounceDirection::Right)
    );
}

#[test]
fn corner_overshoot_reports_single_edge() {
    let boundary = rect(0, 0, 100, 100);
    // Both the left and the top edge are violated; the left edge has
    // priority and only one edge is ever reported.
    let corner = rect(-5, -5, 20, 20);
    assert_eq!(
        collide_with_boundary(&corner, &boundary),
        Some(BounceDirection::Right)
    );
}

#[test]
fn right_top_bottom_edges_resolve_in_order() {
    let boundary = rect(0, 0, 100, 100);
    assert_eq!(
        collide_with_boundary(&rect(50, 10, 101, 20), &boundary),
        Some(BounceDirection::Left)
    );
    assert_eq!(
        collide_with_boundary(&rect(50, -1, 60, 20), &boundary),
        Some(BounceDirection::Down)
    );
    assert_eq!(
        collide_with_boundary(&rect(50, 50, 60, 101), &boundary),
        Some(BounceDirection::Up)
    );
}

#[test]
fn rightward_motion_resolves_left_side() {
    // Moving strictly rightward, overlapping the obstacle's left edge: the
    // resolved side must be consistent with a rightward approach even
    // though the raw top/bottom depths are smaller.
    let dir = Vec2 { x: 100, y: 0 };
    let moving = rect(0, 0, 12, 10);
    let obstacle = rect(10, 0, 30, 10);
    assert_eq!(
        collide_with_rect(&dir, &moving, &obstacle),
        Some(BounceDirection::Left)
    );
}

#[test]
fn no_overlap_returns_none() {
    let dir = Vec2 { x: 100, y: 100 };
    let moving = rect(0, 0, 10, 10);
    let obstacle = rect(20, 20, 30, 30);
    assert_eq!(collide_with_rect(&dir, &moving, &obstacle), None);
}

#[test]
fn touching_edges_do_not_intersect() {
    // Zero-area overlap is not a collision.
    let dir = Vec2 { x: 100, y: 0 };
    let moving = rect(0, 0, 10, 10);
    let touching = rect(10, 0, 20, 10);
    assert_eq!(collide_with_rect(&dir, &moving, &touching), None);
}

#[test]
fn zero_direction_overlap_returns_none() {
    // Intersecting but no direction-eligible edge: a geometric
    // inconsistency, resolved as a no-op.
    let dir = Vec2 { x: 0, y: 0 };
    let moving = rect(5, 5, 15, 15);
    let obstacle = rect(0, 0, 30, 30);
    assert_eq!(collide_with_rect(&dir, &moving, &obstacle), None);
}

#[test]
fn equal_depth_tie_prefers_bottom() {
    // Bottom and right penetration depths are exactly equal (both 5);
    // the fixed priority order picks the bottom edge, every run.
    let dir = Vec2 { x: -100, y: -100 };
    let moving = rect(25, 25, 35, 35);
    let obstacle = rect(0, 0, 30, 30);
    for _ in 0..16 {
        assert_eq!(
            collide_with_rect(&dir, &moving, &obstacle),
            Some(BounceDirection::Down)
        );
    }
}

#[test]
fn equal_depth_tie_prefers_right_over_top() {
    // Right and top depths tie at 5 while bottom and top eligibility is
    // gated away; right precedes top in the fixed order.
    let dir = Vec2 { x: -100, y: 100 };
    let moving = rect(25, -5, 35, 5);
    let obstacle = rect(0, 0, 30, 30);
    for _ in 0..16 {
        assert_eq!(
            collide_with_rect(&dir, &moving, &obstacle),
            Some(BounceDirection::Right)
        );
    }
}

#[test]
fn two_obstacles_equal_minimum_same_choice() {
    // Two distinct obstacles each produce the same equal-minimum tie; the
    // resolver picks the same fixed-priority side for both, repeatedly.
    let dir = Vec2 { x: -100, y: -100 };
    let moving = rect(25, 25, 35, 35);
    let first = rect(0, 0, 30, 30);
    let second = rect(-10, -10, 30, 30);
    for _ in 0..8 {
        let a = collide_with_rect(&dir, &moving, &first);
        let b = collide_with_rect(&dir, &moving, &second);
        assert_eq!(a, Some(BounceDirection::Down));
        assert_eq!(a, b);
    }
}

#[test]
fn gated_depth_overrides_closest_edge() {
    // The moving box is nominally closest to the obstacle's top edge, but
    // it moves upward, so the bottom edge is the only eligible side.
    let dir = Vec2 { x: 0, y: -100 };
    let moving = rect(10, 8, 20, 40);
    let obstacle = rect(0, 0, 30, 30);
    assert_eq!(
        collide_with_rect(&dir, &moving, &obstacle),
        Some(BounceDirection::Down)
    );
}

use rustout::fixed::{clamp_pos, div_by, isqrt, POS_LIMIT, SCALE};
use rustout::geometry::{Rect, Vec2};

#[test]
fn intersects_is_symmetric() {
    let a = Rect {
        min: Vec2 { x: 0, y: 0 },
        max: Vec2 { x: 10, y: 10 },
    };
    let b = Rect {
        min: Vec2 { x: 5, y: 5 },
        max: Vec2 { x: 15, y: 15 },
    };
    let c = Rect {
        min: Vec2 { x: 20, y: 20 },
        max: Vec2 { x: 30, y: 30 },
    };
    assert_eq!(a.intersects(&b), b.intersects(&a));
    assert!(a.intersects(&b));
    assert_eq!(a.intersects(&c), c.intersects(&a));
    assert!(!a.intersects(&c));
}

#[test]
fn contains_keeps_every_edge_inside() {
    let outer = Rect {
        min: Vec2 { x: 0, y: 0 },
        max: Vec2 { x: 100, y: 100 },
    };
    let inner = Rect {
        min: Vec2 { x: 10, y: 20 },
        max: Vec2 { x: 90, y: 80 },
    };
    assert!(outer.contains_rect(&inner));
    assert!(inner.left() >= outer.left());
    assert!(inner.right() <= outer.right());
    assert!(inner.top() >= outer.top());
    assert!(inner.bottom() <= outer.bottom());
}

#[test]
fn from_center_size_and_center_round_trip() {
    let r = Rect::from_center_size(Vec2 { x: 50, y: 60 }, Vec2 { x: 10, y: 20 });
    assert_eq!(r.min.x, 45);
    assert_eq!(r.max.x, 55);
    assert_eq!(r.min.y, 50);
    assert_eq!(r.max.y, 70);
    let c = r.center();
    assert_eq!(c.x, 50);
    assert_eq!(c.y, 60);
}

#[test]
fn isqrt_exact_values() {
    assert_eq!(isqrt(0), 0);
    assert_eq!(isqrt(1), 1);
    assert_eq!(isqrt(15), 3);
    assert_eq!(isqrt(16), 4);
    assert_eq!(isqrt(6710886400), 81920);
}

#[test]
fn div_by_truncates_toward_zero() {
    assert_eq!(div_by(7, 2), 3);
    assert_eq!(div_by(-7, 2), -3);
    assert_eq!(div_by(0, 5), 0);
}

#[test]
fn clamp_pos_saturates_at_world_limit() {
    assert_eq!(clamp_pos(POS_LIMIT + 17), POS_LIMIT);
    assert_eq!(clamp_pos(-POS_LIMIT - 17), -POS_LIMIT);
    assert_eq!(clamp_pos(42), 42);
}

#[test]
fn normalize_zero_stays_zero() {
    let z = Vec2 { x: 0, y: 0 };
    let n = z.normalized();
    assert_eq!(n.x, 0);
    assert_eq!(n.y, 0);
}

#[test]
fn normalize_axis_is_exact_unit() {
    let n = Vec2 { x: 5, y: 0 }.normalized();
    assert_eq!(n.x, SCALE);
    assert_eq!(n.y, 0);
    let m = Vec2 { x: 0, y: -3 }.normalized();
    assert_eq!(m.x, 0);
    assert_eq!(m.y, -SCALE);
}

#[test]
fn normalize_diagonal_exact_components() {
    // (3, 4) is scaled into the band as 16384 * (3, 4), whose magnitude is
    // exactly 81920; the components divide out to 0.6 and 0.8 truncated.
    let n = Vec2 { x: 3, y: 4 }.normalized();
    assert_eq!(n.x, 39321);
    assert_eq!(n.y, 52428);
}

#[test]
fn normalize_magnitude_within_tolerance() {
    let samples = [
        Vec2 { x: 1, y: 1 },
        Vec2 { x: -7, y: 3 },
        Vec2 { x: 123456, y: -654321 },
        Vec2 { x: -65536, y: -65536 },
        Vec2 { x: 1, y: 100000 },
    ];
    for v in samples {
        let n = v.normalized();
        let mag = n.x * n.x + n.y * n.y;
        let unit = SCALE * SCALE;
        let tol = 16 * SCALE;
        assert!(mag >= unit - tol, "magnitude {mag} too small for {v:?}");
        assert!(mag <= unit + tol, "magnitude {mag} too large for {v:?}");
    }
}

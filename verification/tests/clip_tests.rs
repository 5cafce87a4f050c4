use text_brush::{clip, Rect};

fn rect(min_x: i64, min_y: i64, max_x: i64, max_y: i64) -> Rect {
    Rect { min_x, min_y, max_x, max_y }
}

const BIG: i64 = 0x2000_0000;

#[test]
fn identity_when_fully_inside() {
    let screen = rect(10, 20, 110, 220);
    let uv = rect(0, 0, 1000, 2000);
    let bounds = rect(-BIG, -BIG, BIG, BIG);
    let (s, u) = clip(screen, uv, bounds).expect("inside quad survives");
    assert_eq!(s, screen);
    assert_eq!(u, uv);
}

#[test]
fn touching_edge_is_not_clipped() {
    let screen = rect(0, 0, 500, 500);
    let uv = rect(0, 0, 64, 64);
    let bounds = rect(0, 0, 500, 500);
    let (s, u) = clip(screen, uv, bounds).expect("touching quad survives");
    assert_eq!(s, screen);
    assert_eq!(u, uv);
}

#[test]
fn max_side_clips_proportionally() {
    let screen = rect(0, 0, 10, 10);
    let uv = rect(0, 0, 100, 100);
    let bounds = rect(-BIG, -BIG, 5, 5);
    let (s, u) = clip(screen, uv, bounds).expect("half the quad survives");
    assert_eq!(s, rect(0, 0, 5, 5));
    // uv extent scaled by 5/10 on both axes, measured from the min edge.
    assert_eq!(u, rect(0, 0, 50, 50));
}

#[test]
fn min_side_clips_proportionally() {
    let screen = rect(0, 0, 10, 10);
    let uv = rect(0, 0, 100, 100);
    let bounds = rect(4, 4, BIG, BIG);
    let (s, u) = clip(screen, uv, bounds).expect("quad partly survives");
    assert_eq!(s, rect(4, 4, 10, 10));
    // uv min edge rescaled from the max edge: 100 - 100 * 6 / 10.
    assert_eq!(u, rect(40, 40, 100, 100));
}

#[test]
fn rescale_rounds_toward_zero() {
    let screen = rect(0, 0, 3, 3);
    let uv = rect(0, 0, 7, 7);
    let bounds = rect(-BIG, -BIG, 2, 2);
    let (s, u) = clip(screen, uv, bounds).expect("quad partly survives");
    assert_eq!(s, rect(0, 0, 2, 2));
    // 7 * 2 / 3 = 4 after flooring.
    assert_eq!(u, rect(0, 0, 4, 4));
}

#[test]
fn both_sides_clip_on_one_axis() {
    let screen = rect(0, 0, 10, 10);
    let uv = rect(0, 0, 100, 100);
    let bounds = rect(2, -BIG, 8, BIG);
    let (s, u) = clip(screen, uv, bounds).expect("middle strip survives");
    assert_eq!(s, rect(2, 0, 8, 10));
    // max edge first: 100 * 8 / 10 = 80; then min from it: 80 - 80 * 6 / 8 = 20.
    assert_eq!(u, rect(20, 0, 80, 100));
}

#[test]
fn fully_outside_is_dropped() {
    let screen = rect(100, 100, 200, 200);
    let uv = rect(0, 0, 10, 10);
    let bounds = rect(-BIG, -BIG, 50, 50);
    assert!(clip(screen, uv, bounds).is_none());
}

#[test]
fn degenerate_input_is_dropped() {
    let screen = rect(5, 5, 5, 20);
    let uv = rect(0, 0, 10, 10);
    let bounds = rect(-BIG, -BIG, BIG, BIG);
    assert!(clip(screen, uv, bounds).is_none());
}

#[test]
fn flipped_bounds_drop_everything() {
    let screen = rect(0, 0, 10, 10);
    let uv = rect(0, 0, 10, 10);
    let bounds = rect(8, 0, 2, 10);
    assert!(clip(screen, uv, bounds).is_none());
}

#[test]
fn clipped_result_stays_inside_bounds() {
    // A small sweep of quads against one bound: every surviving quad lies
    // inside the bounds, and its uv inside the original uv.
    let bounds = rect(-3, -3, 7, 7);
    let uv = rect(0, 0, 64, 64);
    for dx in -10..10i64 {
        for dy in -10..10i64 {
            let screen = rect(dx, dy, dx + 6, dy + 6);
            if let Some((s, u)) = clip(screen, uv, bounds) {
                assert!(s.min_x < s.max_x && s.min_y < s.max_y);
                assert!(bounds.min_x <= s.min_x && s.max_x <= bounds.max_x);
                assert!(bounds.min_y <= s.min_y && s.max_y <= bounds.max_y);
                assert!(uv.min_x <= u.min_x && u.max_x <= uv.max_x);
                assert!(uv.min_y <= u.min_y && u.max_y <= uv.max_y);
            }
        }
    }
}

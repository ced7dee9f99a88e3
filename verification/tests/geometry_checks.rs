use pong::fixed::{SCALE, div_toward_zero, isqrt};
use pong::geometry::{
    clip_space_to_screen_space, screen_space_to_clip_space, FieldSize, Point3, Vector2D,
    UNIT_NORM_SQ_MAX, UNIT_NORM_SQ_MIN,
};

fn field() -> FieldSize {
    FieldSize { width: 800, height: 600 }
}

#[test]
fn normalize_three_four_five() {
    // (3, 4) has norm 5; each component is scaled by SCALE / 5 with
    // truncation.
    let v = Vector2D { x: 3, y: 4 }.normalize();
    assert_eq!(v, Vector2D { x: 614, y: 819 });
    let n = v.x * v.x + v.y * v.y;
    assert!(UNIT_NORM_SQ_MIN <= n && n <= UNIT_NORM_SQ_MAX);
}

#[test]
fn normalize_axis_vectors_exactly() {
    assert_eq!(Vector2D { x: 1022, y: 0 }.normalize(), Vector2D { x: SCALE, y: 0 });
    assert_eq!(Vector2D { x: 0, y: -7 }.normalize(), Vector2D { x: 0, y: -SCALE });
    assert_eq!(Vector2D { x: -5, y: 0 }.normalize(), Vector2D { x: -SCALE, y: 0 });
}

#[test]
fn normalize_diagonal() {
    let v = Vector2D { x: -SCALE, y: -SCALE }.normalize();
    assert_eq!(v, Vector2D { x: -724, y: -724 });
    let n = v.x * v.x + v.y * v.y;
    assert!(UNIT_NORM_SQ_MIN <= n && n <= UNIT_NORM_SQ_MAX);
}

#[test]
fn isqrt_exact_values() {
    assert_eq!(isqrt(0), 0);
    assert_eq!(isqrt(1), 1);
    assert_eq!(isqrt(2), 1);
    assert_eq!(isqrt(144), 12);
    assert_eq!(isqrt(145), 12);
    assert_eq!(isqrt(u64::MAX), 0xFFFF_FFFF);
}

#[test]
fn div_toward_zero_truncates_like_rust() {
    assert_eq!(div_toward_zero(7, 2), 7 / 2);
    assert_eq!(div_toward_zero(-7, 2), -7 / 2);
    assert_eq!(div_toward_zero(-1, 1024), 0);
    assert_eq!(div_toward_zero(0, 5), 0);
}

#[test]
fn screen_to_clip_exact_values() {
    // The field centre projects to the clip-space origin, corners to
    // the extremes.
    let size = field();
    let c = screen_space_to_clip_space(&Point3 { x: 400 * SCALE, y: 300 * SCALE, z: 0 }, &size);
    assert_eq!((c.x, c.y, c.z), (0, 0, SCALE));
    let tl = screen_space_to_clip_space(&Point3 { x: 0, y: 0, z: 0 }, &size);
    assert_eq!((tl.x, tl.y), (-SCALE, -SCALE));
    let br = screen_space_to_clip_space(&Point3 { x: 800 * SCALE, y: 600 * SCALE, z: 0 }, &size);
    assert_eq!((br.x, br.y), (SCALE, SCALE));
}

#[test]
fn clip_to_screen_exact_values() {
    let size = field();
    let p = clip_space_to_screen_space(&Point3 { x: 0, y: 0, z: 0 }, &size);
    assert_eq!((p.x, p.y, p.z), (400 * SCALE, 300 * SCALE, SCALE));
    let q = clip_space_to_screen_space(&Point3 { x: 512, y: -512, z: 0 }, &size);
    assert_eq!((q.x, q.y), (600 * SCALE, 150 * SCALE));
}

#[test]
fn projection_round_trip_within_one_unit() {
    // Mapping a clip coordinate to screen space and back returns it up
    // to one fixed-point unit of truncation.
    let sizes = [
        FieldSize { width: 800, height: 600 },
        FieldSize { width: 801, height: 601 },
        FieldSize { width: 1, height: 1 },
        FieldSize { width: 32768, height: 32768 },
    ];
    let coords: [i64; 7] = [-1024, -511, -1, 0, 1, 511, 1024];
    for size in sizes {
        for c in coords {
            let p = clip_space_to_screen_space(&Point3 { x: c, y: c, z: 0 }, &size);
            let back = screen_space_to_clip_space(&p, &size);
            assert!(c - 1 <= back.x && back.x <= c, "x: {c} came back as {}", back.x);
            assert!(c - 1 <= back.y && back.y <= c, "y: {c} came back as {}", back.y);
        }
    }
}

#[test]
fn projection_round_trip_exact_samples() {
    let size = field();
    let p = clip_space_to_screen_space(&Point3 { x: 512, y: 511, z: 0 }, &size);
    let back = screen_space_to_clip_space(&p, &size);
    assert_eq!(back.x, 512);
    assert_eq!(back.y, 511);
    let odd = FieldSize { width: 801, height: 801 };
    let p2 = clip_space_to_screen_space(&Point3 { x: 1, y: 1023, z: 0 }, &odd);
    let back2 = screen_space_to_clip_space(&p2, &odd);
    assert_eq!(back2.x, 0);
    assert_eq!(back2.y, 1022);
}

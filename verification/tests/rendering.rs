use pong::fixed::SCALE;
use pong::game::{frame_indices, Controller};
use pong::geometry::FieldSize;
use pong::sample::FrameSamples;

fn field() -> FieldSize {
    FieldSize { width: 800, height: 600 }
}

#[test]
fn frame_vertices_lists_all_corners() {
    let c = Controller::new_with(&field(), 1023, 512);
    let v = c.frame_vertices();
    assert_eq!(v.len(), 12);
    assert_eq!(v[0], c.players.0.vertices.top_left);
    assert_eq!(v[1], c.players.0.vertices.top_right);
    assert_eq!(v[2], c.players.0.vertices.bottom_right);
    assert_eq!(v[3], c.players.0.vertices.bottom_left);
    assert_eq!(v[4], c.players.1.vertices.top_left);
    assert_eq!(v[5], c.players.1.vertices.top_right);
    assert_eq!(v[6], c.players.1.vertices.bottom_right);
    assert_eq!(v[7], c.players.1.vertices.bottom_left);
    assert_eq!(v[8], c.ball.vertices.top_left);
    assert_eq!(v[9], c.ball.vertices.top_right);
    assert_eq!(v[10], c.ball.vertices.bottom_right);
    assert_eq!(v[11], c.ball.vertices.bottom_left);
}

#[test]
fn frame_indices_draw_three_rectangles() {
    let idx = frame_indices();
    assert_eq!(idx, vec![0, 1, 2, 0, 2, 3, 4, 5, 6, 4, 6, 7, 8, 9, 10, 8, 10, 11]);
}

#[test]
fn paddle_corners_project_field_edges() {
    // The left paddle's top-left corner is the field's top-left, which
    // projects to clip-space (-1, -1); its right edge sits 30 px in.
    let c = Controller::new_with(&field(), 1023, 512);
    let q = c.players.0.vertices;
    // x = 0 -> -SCALE; y = 250 px of 600 -> 2*250/600 - 1 in fixed point.
    assert_eq!(q.top_left.x, -SCALE);
    assert_eq!(q.top_left.y, 2 * 250 * SCALE / 600 - SCALE);
    assert_eq!(q.top_left.z, SCALE);
    // x = 30 px of 800 -> 2*30/800 - 1 in fixed point.
    assert_eq!(q.top_right.x, 2 * 30 * SCALE / 800 - SCALE);
    // y = 350 px of 600.
    assert_eq!(q.bottom_left.y, 2 * 350 * SCALE / 600 - SCALE);
}

#[test]
fn ball_corners_follow_position() {
    let size = field();
    let mut c = Controller::new_with(&size, 1023, 512);
    let before = c.ball.vertices;
    let s = FrameSamples { bounce_first: 512, bounce_second: 512, serve_x: 512, serve_y: 512 };
    let _ = c.ball_update_with(256, &s);
    let after = c.ball.vertices;
    assert_ne!(before, after);
    // The ball moved 100 px right; its top-left corner projects there.
    assert_eq!(after.top_left.x, 2 * 490 * SCALE / 800 - SCALE);
    assert_eq!(after.top_left.y, 2 * 290 * SCALE / 600 - SCALE);
}

#[test]
fn window_handle_constructs() {
    let _shell: pong::window::Window = pong::window::Window::new();
}

#[test]
fn drawn_samples_are_in_range() {
    for _ in 0..50 {
        let s = FrameSamples::draw();
        assert!(0 <= s.bounce_first && s.bounce_first < SCALE);
        assert!(0 <= s.bounce_second && s.bounce_second < SCALE);
        assert!(0 <= s.serve_x && s.serve_x < SCALE);
        assert!(0 <= s.serve_y && s.serve_y < SCALE);
    }
}

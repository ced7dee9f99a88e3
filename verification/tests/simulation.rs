use pong::fixed::SCALE;
use pong::game::{Ball, Controller, Input};
use pong::geometry::{FieldSize, Vector2D};
use pong::sample::FrameSamples;

fn field() -> FieldSize {
    FieldSize { width: 800, height: 600 }
}

fn samples() -> FrameSamples {
    FrameSamples { bounce_first: 512, bounce_second: 512, serve_x: 512, serve_y: 512 }
}

#[test]
fn initial_layout_matches_field() {
    // Serve samples 1023/512 give the raw heading (1022, 0), which
    // normalizes to exactly (SCALE, 0).
    let c = Controller::new_with(&field(), 1023, 512);
    assert_eq!(c.players.0.position.x, 0);
    assert_eq!(c.players.0.position.y, 250 * SCALE);
    assert_eq!(c.players.1.position.x, 770 * SCALE);
    assert_eq!(c.players.1.position.y, 250 * SCALE);
    assert_eq!(c.ball.position.x, 390 * SCALE);
    assert_eq!(c.ball.position.y, 290 * SCALE);
    assert_eq!(c.ball.direction, Vector2D { x: SCALE, y: 0 });
    assert_eq!(c.players.0.points, 0);
    assert_eq!(c.players.1.points, 0);
}

#[test]
fn quarter_second_moves_ball_hundred_pixels() {
    let mut c = Controller::new_with(&field(), 1023, 512);
    c.input(0, 256);
    c.input(1, 256);
    let ev = c.ball_update_with(256, &samples());
    assert!(ev.is_none());
    assert_eq!(c.ball.position.x, 490 * SCALE);
    assert_eq!(c.ball.position.y, 290 * SCALE);
    assert_eq!(c.ball.direction, Vector2D { x: SCALE, y: 0 });
    // Paddles had no command, so they did not move.
    assert_eq!(c.players.0.position.y, 250 * SCALE);
    assert_eq!(c.players.1.position.y, 250 * SCALE);
}

#[test]
fn ball_reaches_right_paddle_and_rebounds() {
    let mut c = Controller::new_with(&field(), 1023, 512);
    // Four quarter-second frames: 390 -> 490 -> 590 -> 690 -> 790.
    // At 790 the leading edge has reached the right paddle's face and
    // the vertical overlap holds, so the horizontal heading flips; the
    // strike offset 290 - 250 = 40 px lies in the centre band and the
    // sample 512 maps to a flat rebound.
    for _ in 0..4 {
        let ev = c.ball_update_with(256, &samples());
        assert!(ev.is_none());
    }
    assert_eq!(c.ball.position.x, 790 * SCALE);
    assert_eq!(c.ball.position.y, 290 * SCALE);
    assert_eq!(c.ball.direction, Vector2D { x: -SCALE, y: 0 });
}

#[test]
fn edge_strike_rebounds_steeply() {
    let size = field();
    let mut c = Controller::new_with(&size, 1023, 512);
    // Strike the right paddle 60 px below its origin: offset above the
    // centre band, so the vertical heading is drawn from [0.3, 1.0).
    c.ball = Ball::new(790 * SCALE, 310 * SCALE, Vector2D { x: SCALE, y: 0 }, &size);
    let s = FrameSamples { bounce_first: 0, bounce_second: 0, serve_x: 512, serve_y: 512 };
    let ev = c.ball_update_with(0, &s);
    assert!(ev.is_none());
    // Sample 0 maps to the lowest steep heading 307; the normalized
    // heading of (-1024, 307) is exactly (-980, 294).
    assert_eq!(c.ball.direction, Vector2D { x: -980, y: 294 });
}

#[test]
fn near_strike_rebounds_upward() {
    let size = field();
    let mut c = Controller::new_with(&size, 1023, 512);
    // Strike 10 px below the paddle origin: offset below the centre
    // band, so the vertical heading is drawn from [-1.0, -0.3).
    c.ball = Ball::new(790 * SCALE, 260 * SCALE, Vector2D { x: SCALE, y: 0 }, &size);
    let s = FrameSamples { bounce_first: 0, bounce_second: 0, serve_x: 512, serve_y: 512 };
    let ev = c.ball_update_with(0, &s);
    assert!(ev.is_none());
    // Sample 0 maps to -1024; the normalized heading of (-1024, -1024)
    // is exactly (-724, -724).
    assert_eq!(c.ball.direction, Vector2D { x: -724, y: -724 });
}

#[test]
fn wall_overlap_flips_vertical_heading() {
    let size = field();
    let mut c = Controller::new_with(&size, 1023, 512);
    // A ball already overlapping the bottom wall, moving straight down.
    c.ball = Ball::new(400 * SCALE, 595 * SCALE, Vector2D { x: 0, y: SCALE }, &size);
    let ev = c.ball_update_with(0, &samples());
    assert!(ev.is_none());
    assert_eq!(c.ball.direction, Vector2D { x: 0, y: -SCALE });
    // The position is not corrected on a wall bounce.
    assert_eq!(c.ball.position.y, 595 * SCALE);
}

#[test]
fn wall_bounce_after_movement_keeps_overlap() {
    let size = field();
    let mut c = Controller::new_with(&size, 1023, 512);
    c.ball = Ball::new(400 * SCALE, 590 * SCALE, Vector2D { x: 0, y: SCALE }, &size);
    // A quarter second moves the ball 100 px down, past the wall; the
    // heading flips but the overlapping position is kept by design.
    let ev = c.ball_update_with(256, &samples());
    assert!(ev.is_none());
    assert_eq!(c.ball.position.y, 690 * SCALE);
    assert_eq!(c.ball.direction, Vector2D { x: 0, y: -SCALE });
}

#[test]
fn ball_past_left_edge_scores_for_right() {
    let size = field();
    let mut c = Controller::new_with(&size, 1023, 512);
    // The ball's right edge is fully past the left field edge.
    c.ball = Ball::new(-21 * SCALE, 300 * SCALE, Vector2D { x: -SCALE, y: 0 }, &size);
    let s = FrameSamples { bounce_first: 512, bounce_second: 512, serve_x: 512, serve_y: 512 };
    let ev = c.ball_update_with(0, &s).expect("a point must be scored");
    assert_eq!(ev.scorer, 1);
    assert_eq!(ev.left_points, 0);
    assert_eq!(ev.right_points, 1);
    assert_eq!(c.players.0.points, 0);
    assert_eq!(c.players.1.points, 1);
    // The ball is reset to the field centre with a rightward serve:
    // samples 512/512 give the raw heading (512, 0), normalized to
    // exactly (SCALE, 0).
    assert_eq!(c.ball.position.x, 390 * SCALE);
    assert_eq!(c.ball.position.y, 290 * SCALE);
    assert_eq!(c.ball.direction, Vector2D { x: SCALE, y: 0 });
}

#[test]
fn ball_at_exact_right_edge_does_not_score() {
    let size = field();
    let mut c = Controller::new_with(&size, 1023, 512);
    // Left edge exactly at the field width: the scoring check asks for
    // strictly beyond, so no point is scored. The ball sits outside
    // both paddles' vertical band.
    c.ball = Ball::new(800 * SCALE, 500 * SCALE, Vector2D { x: SCALE, y: 0 }, &size);
    let ev = c.ball_update_with(0, &samples());
    assert!(ev.is_none());
    assert_eq!(c.players.0.points, 0);
    assert_eq!(c.players.1.points, 0);
    assert_eq!(c.ball.position.x, 800 * SCALE);
}

#[test]
fn ball_past_right_edge_scores_for_left() {
    let size = field();
    let mut c = Controller::new_with(&size, 1023, 512);
    // One fixed-point unit beyond the field width, outside the
    // paddles' vertical band.
    c.ball = Ball::new(800 * SCALE + 1, 500 * SCALE, Vector2D { x: SCALE, y: 0 }, &size);
    let s = FrameSamples { bounce_first: 512, bounce_second: 512, serve_x: 0, serve_y: 512 };
    let ev = c.ball_update_with(0, &s).expect("a point must be scored");
    assert_eq!(ev.scorer, 0);
    assert_eq!(ev.left_points, 1);
    assert_eq!(ev.right_points, 0);
    assert_eq!(c.players.0.points, 1);
    // Reset to centre with a leftward serve: samples 0/512 give the
    // raw heading (-1024, 0), normalized to exactly (-SCALE, 0).
    assert_eq!(c.ball.position.x, 390 * SCALE);
    assert_eq!(c.ball.position.y, 290 * SCALE);
    assert_eq!(c.ball.direction, Vector2D { x: -SCALE, y: 0 });
}

#[test]
fn paddle_up_moves_and_clamps() {
    let size = field();
    let mut c = Controller::new_with(&size, 1023, 512);
    c.set_input(0, Input::Up);
    // A quarter second at 500 px/s moves the paddle 125 px.
    c.input(0, 256);
    assert_eq!(c.players.0.position.y, 375 * SCALE);
    // One full second would overshoot; the paddle snaps to the lowest
    // legal height 600 - 100 = 500 px.
    c.input(0, 1024);
    assert_eq!(c.players.0.position.y, 500 * SCALE);
}

#[test]
fn paddle_down_moves_and_clamps() {
    let size = field();
    let mut c = Controller::new_with(&size, 1023, 512);
    c.set_input(1, Input::Down);
    c.input(1, 256);
    assert_eq!(c.players.1.position.y, 125 * SCALE);
    c.input(1, 1024);
    assert_eq!(c.players.1.position.y, 0);
}

#[test]
fn idle_paddle_stays_put() {
    let size = field();
    let mut c = Controller::new_with(&size, 1023, 512);
    c.input(0, 1024);
    c.input(1, 1024);
    assert_eq!(c.players.0.position.y, 250 * SCALE);
    assert_eq!(c.players.1.position.y, 250 * SCALE);
}

#[test]
fn degenerate_serve_falls_back_to_horizontal() {
    // Sample 512 maps the full-range serve to a zero horizontal
    // component, and 512 maps the vertical one to zero as well; the
    // zero vector cannot be normalized, so the serve falls back to a
    // horizontal heading.
    let c = Controller::new_with(&field(), 512, 512);
    assert_eq!(c.ball.direction, Vector2D { x: -SCALE, y: 0 });
}

#[test]
fn degenerate_rebound_keeps_heading() {
    let size = field();
    let mut c = Controller::new_with(&size, 1023, 512);
    // A vertically moving ball inside the left paddle's zone: the
    // flipped horizontal component is zero and the centre-band sample
    // 512 maps to zero, so the heading is left unchanged.
    c.ball = Ball::new(0, 290 * SCALE, Vector2D { x: 0, y: SCALE }, &size);
    let ev = c.ball_update_with(0, &samples());
    assert!(ev.is_none());
    assert_eq!(c.ball.direction, Vector2D { x: 0, y: SCALE });
}

#[test]
fn heading_stays_near_unit_over_many_frames() {
    let size = field();
    let mut c = Controller::new_with(&size, 700, 300);
    c.set_input(0, Input::Up);
    c.set_input(1, Input::Down);
    let lo = SCALE * SCALE - 3 * SCALE - 3;
    let hi = SCALE * SCALE + 2 * SCALE;
    for _ in 0..200 {
        let _ = c.update(200);
        let d = c.ball.direction;
        let n = d.x * d.x + d.y * d.y;
        assert!(lo <= n && n <= hi, "heading drifted from unit length: {n}");
        // Paddles never leave the field.
        assert!(0 <= c.players.0.position.y && c.players.0.position.y <= 500 * SCALE);
        assert!(0 <= c.players.1.position.y && c.players.1.position.y <= 500 * SCALE);
    }
}

#[test]
fn random_serve_is_near_unit() {
    let c = Controller::new(&field());
    let d = c.ball.direction;
    let n = d.x * d.x + d.y * d.y;
    assert!(SCALE * SCALE - 3 * SCALE - 3 <= n && n <= SCALE * SCALE + 2 * SCALE);
}

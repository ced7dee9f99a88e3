//! The Pong simulation: paddles, ball, collision response and scoring,
//! advanced one frame at a time over fixed-point integer state.

use vstd::prelude::*;
use crate::fixed::{SCALE, div_trunc, div_toward_zero, clamp, clamp_spec, range_map,
    range_map_spec};
use crate::geometry::{Vector2D, Vec2Model, norm_sq, normalized, near_unit,
    lemma_near_unit_bounds, lemma_normalized_near_unit, FieldSize, Point3, clip_of,
    screen_space_to_clip_space, POS_LIMIT};
use crate::sample::{FrameSamples, SampleModel, sample_model_wf};

verus! {

/// Paddle width, fixed-point.
pub const PADDLE_WIDTH: i64 = 30 * SCALE;

/// Paddle height, fixed-point.
pub const PADDLE_HEIGHT: i64 = 100 * SCALE;

/// Paddle speed, whole pixels per second.
pub const PADDLE_SPEED: i64 = 500;

/// Ball side length, fixed-point.
pub const BALL_SIZE: i64 = 20 * SCALE;

/// Ball speed, whole pixels per second.
pub const BALL_SPEED: i64 = 400;

/// Largest accepted frame time: one hour, in fixed-point seconds.
pub const DT_MAX: i64 = 3600 * SCALE;

/// Lower edge of the band of rebound offsets treated as a centre hit.
pub const BOUNCE_BAND_LO: i64 = 25 * SCALE;

/// Upper edge of the band of rebound offsets treated as a centre hit.
pub const BOUNCE_BAND_HI: i64 = 55 * SCALE;

/// Magnitude bound of the vertical heading sampled after a centre hit:
/// one twentieth of `SCALE`.
pub const BOUNCE_FLAT_MAX: i64 = 51;

/// Smallest magnitude of the vertical heading sampled after an edge
/// hit: three tenths of `SCALE`.
pub const BOUNCE_STEEP_MIN: i64 = 307;

/// Half-width of the vertical-heading range of a fresh serve: one
/// tenth of `SCALE`.
pub const SERVE_Y_MAX: i64 = 102;

/// A player's current directional command.
#[derive(Clone, Copy, PartialEq, Eq, Structural, Debug)]
pub enum Input {
    Up,
    Down,
    Idle,
}

/// The four projected corners of an axis-aligned rectangle, in the
/// order the renderer consumes them.
#[derive(Clone, Copy, PartialEq, Eq, Structural, Debug)]
pub struct Quad {
    pub top_left: Point3,
    pub top_right: Point3,
    pub bottom_right: Point3,
    pub bottom_left: Point3,
}

/// The corner is the projection of the screen-space point `(sx, sy)`.
pub open spec fn corner_matches(p: Point3, sx: int, sy: int, size: FieldSize) -> bool {
    &&& p.x == clip_of(sx, size.width as int)
    &&& p.y == clip_of(sy, size.height as int)
    &&& p.z == SCALE
}

/// The quad holds the projected corners of the `w` by `h` rectangle
/// whose top-left corner sits at `pos`.
pub open spec fn quad_matches(q: Quad, pos: Vec2Model, w: int, h: int, size: FieldSize) -> bool {
    &&& corner_matches(q.top_left, pos.x, pos.y, size)
    &&& corner_matches(q.top_right, pos.x + w, pos.y, size)
    &&& corner_matches(q.bottom_right, pos.x + w, pos.y + h, size)
    &&& corner_matches(q.bottom_left, pos.x, pos.y + h, size)
}

/// Project the four corners of the `w` by `h` rectangle at `pos`.
fn rect_vertices(pos: Vector2D, w: i64, h: i64, size: &FieldSize) -> (q: Quad)
    requires
        size.wf(),
        0 <= w <= 0x10_0000,
        0 <= h <= 0x10_0000,
        -POS_LIMIT <= pos.x <= POS_LIMIT,
        -POS_LIMIT <= pos.y <= POS_LIMIT,
    ensures
        quad_matches(q, pos@, w as int, h as int, *size),
{
    let top_left = screen_space_to_clip_space(&Point3 { x: pos.x, y: pos.y, z: 0 }, size);
    let top_right = screen_space_to_clip_space(&Point3 { x: pos.x + w, y: pos.y, z: 0 }, size);
    let bottom_right = screen_space_to_clip_space(
        &Point3 { x: pos.x + w, y: pos.y + h, z: 0 },
        size,
    );
    let bottom_left = screen_space_to_clip_space(&Point3 { x: pos.x, y: pos.y + h, z: 0 }, size);
    Quad { top_left, top_right, bottom_right, bottom_left }
}

/// Model of a paddle: position, command and score, unbounded.
pub ghost struct PlayerModel {
    pub x: int,
    pub y: int,
    pub input: Input,
    pub points: int,
}

/// Model of the ball: position and heading.
pub ghost struct BallModel {
    pub pos: Vec2Model,
    pub dir: Vec2Model,
}

/// Model of the whole game.
pub ghost struct GameModel {
    pub size: FieldSize,
    pub left: PlayerModel,
    pub right: PlayerModel,
    pub ball: BallModel,
}

/// Model of one scoring event.
pub ghost struct ScoreModel {
    pub scorer: int,
    pub left_points: int,
    pub right_points: int,
}

/// Invariant of the game state: paddles pinned to their side and
/// confined to the field, ball position representable, heading near
/// unit length.
pub open spec fn game_model_wf(g: GameModel) -> bool {
    &&& g.size.wf()
    &&& g.size.height_fp() >= PADDLE_HEIGHT
    &&& g.left.x == 0
    &&& g.right.x == g.size.width_fp() - PADDLE_WIDTH
    &&& 0 <= g.left.y <= g.size.height_fp() - PADDLE_HEIGHT
    &&& 0 <= g.right.y <= g.size.height_fp() - PADDLE_HEIGHT
    &&& 0 <= g.left.points
    &&& 0 <= g.right.points
    &&& -POS_LIMIT <= g.ball.pos.x <= POS_LIMIT
    &&& -POS_LIMIT <= g.ball.pos.y <= POS_LIMIT
    &&& near_unit(g.ball.dir)
}

/// Where a paddle's top edge ends up after applying its command for
/// `dt`: move at paddle speed, then snap back inside the field.
pub open spec fn paddle_y_after(y: int, input: Input, dt: int, size: FieldSize) -> int {
    match input {
        Input::Up => {
            let ny = y + PADDLE_SPEED * dt;
            if ny + PADDLE_HEIGHT > size.height_fp() {
                size.height_fp() - PADDLE_HEIGHT
            } else {
                ny
            }
        },
        Input::Down => {
            let ny = y - PADDLE_SPEED * dt;
            if ny < 0 {
                0
            } else {
                ny
            }
        },
        Input::Idle => y,
    }
}

/// The signed distance a paddle's command asks for.
pub open spec fn paddle_shift(input: Input, dt: int) -> int {
    match input {
        Input::Up => PADDLE_SPEED * dt,
        Input::Down => -(PADDLE_SPEED * dt),
        Input::Idle => 0,
    }
}

/// Law: for a paddle inside the field and a non-negative `dt`, the
/// stepped position is the requested move clamped to the legal band.
pub proof fn lemma_paddle_step_is_clamp(y: int, input: Input, dt: int, size: FieldSize)
    requires
        0 <= y <= size.height_fp() - PADDLE_HEIGHT,
        0 <= dt,
        size.height_fp() >= PADDLE_HEIGHT,
    ensures
        paddle_y_after(y, input, dt, size) == clamp_spec(
            y + paddle_shift(input, dt),
            0,
            size.height_fp() - PADDLE_HEIGHT,
        ),
{
    assert(PADDLE_SPEED * dt >= 0) by (nonlinear_arith)
        requires
            dt >= 0,
    ;
}

/// A paddle with its command applied for `dt`.
pub open spec fn paddle_stepped(p: PlayerModel, dt: int, size: FieldSize) -> PlayerModel {
    PlayerModel { x: p.x, y: paddle_y_after(p.y, p.input, dt, size), input: p.input, points: p.points }
}

/// A player-controlled paddle: its position, derived renderable
/// corners, current command, and score.
#[derive(Clone, Copy, PartialEq, Eq, Structural, Debug)]
pub struct Player {
    pub position: Vector2D,
    pub vertices: Quad,
    pub input: Input,
    pub points: u32,
}

impl View for Player {
    type V = PlayerModel;

    open spec fn view(&self) -> PlayerModel {
        PlayerModel {
            x: self.position.x as int,
            y: self.position.y as int,
            input: self.input,
            points: self.points as int,
        }
    }
}

impl Player {
    /// The position is representable and the cached corners are the
    /// projection of the paddle rectangle.
    pub open spec fn wf(self, size: FieldSize) -> bool {
        &&& -POS_LIMIT <= self.position.x <= POS_LIMIT
        &&& -POS_LIMIT <= self.position.y <= POS_LIMIT
        &&& quad_matches(
            self.vertices,
            self.position@,
            PADDLE_WIDTH as int,
            PADDLE_HEIGHT as int,
            size,
        )
    }

    /// A paddle at `(x, y)` with no command and no points.
    pub fn new(x: i64, y: i64, size: &FieldSize) -> (p: Self)
        requires
            size.wf(),
            -POS_LIMIT <= x <= POS_LIMIT,
            -POS_LIMIT <= y <= POS_LIMIT,
        ensures
            p.wf(*size),
            p.position.x == x,
            p.position.y == y,
            p.input == Input::Idle,
            p.points == 0,
    {
        Self {
            position: Vector2D::new(x, y),
            vertices: Player::move_vertices(Vector2D::new(x, y), size),
            input: Input::Idle,
            points: 0,
        }
    }

    /// Move the paddle to `(x, y)` and recompute its corners.
    pub fn move_position(&mut self, x: i64, y: i64, size: &FieldSize)
        requires
            size.wf(),
            -POS_LIMIT <= x <= POS_LIMIT,
            -POS_LIMIT <= y <= POS_LIMIT,
        ensures
            final(self).wf(*size),
            final(self).position.x == x,
            final(self).position.y == y,
            final(self).input == old(self).input,
            final(self).points == old(self).points,
    {
        self.position = Vector2D::new(x, y);
        self.vertices = Player::move_vertices(self.position, size);
    }

    /// The projected corners of a paddle rectangle at `to`.
    pub fn move_vertices(to: Vector2D, size: &FieldSize) -> (q: Quad)
        requires
            size.wf(),
            -POS_LIMIT <= to.x <= POS_LIMIT,
            -POS_LIMIT <= to.y <= POS_LIMIT,
        ensures
            quad_matches(q, to@, PADDLE_WIDTH as int, PADDLE_HEIGHT as int, *size),
    {
        rect_vertices(to, PADDLE_WIDTH, PADDLE_HEIGHT, size)
    }
}

/// The ball moved along its heading at ball speed for `dt`, with
/// coordinates kept inside the representable band.
pub open spec fn ball_advanced(b: BallModel, dt: int) -> BallModel {
    BallModel {
        pos: Vec2Model {
            x: clamp_spec(
                b.pos.x + div_trunc(b.dir.x * BALL_SPEED * dt, SCALE as int),
                -POS_LIMIT as int,
                POS_LIMIT as int,
            ),
            y: clamp_spec(
                b.pos.y + div_trunc(b.dir.y * BALL_SPEED * dt, SCALE as int),
                -POS_LIMIT as int,
                POS_LIMIT as int,
            ),
        },
        dir: b.dir,
    }
}

/// The ball with its vertical heading inverted if it overlaps the top
/// or bottom wall; its position is not corrected.
pub open spec fn wall_bounced(b: BallModel, size: FieldSize) -> BallModel {
    if b.pos.y + BALL_SIZE > size.height_fp() || b.pos.y < 0 {
        BallModel { pos: b.pos, dir: Vec2Model { x: b.dir.x, y: -b.dir.y } }
    } else {
        b
    }
}

/// Whether the ball strikes the paddle: its leading edge has reached
/// the paddle's front face while overlapping it vertically.
pub open spec fn collides(b: BallModel, p: PlayerModel) -> bool {
    let anchor = if b.dir.x >= 0 { BALL_SIZE as int } else { 0 };
    &&& b.pos.x + anchor >= p.x
    &&& b.pos.x <= p.x + PADDLE_WIDTH
    &&& b.pos.y >= p.y - BALL_SIZE
    &&& b.pos.y <= p.y + PADDLE_HEIGHT
}

/// Lower end of the range the rebound's vertical heading is sampled
/// from, by where along the paddle the ball struck.
pub open spec fn bounce_range_lo(offset: int) -> int {
    if BOUNCE_BAND_LO <= offset <= BOUNCE_BAND_HI {
        -BOUNCE_FLAT_MAX as int
    } else if offset > BOUNCE_BAND_HI {
        BOUNCE_STEEP_MIN as int
    } else {
        -SCALE as int
    }
}

/// Upper end of the range the rebound's vertical heading is sampled
/// from, by where along the paddle the ball struck.
pub open spec fn bounce_range_hi(offset: int) -> int {
    if BOUNCE_BAND_LO <= offset <= BOUNCE_BAND_HI {
        BOUNCE_FLAT_MAX as int
    } else if offset > BOUNCE_BAND_HI {
        SCALE as int
    } else {
        -BOUNCE_STEEP_MIN as int
    }
}

/// The ball after the collision check against one paddle: on a hit the
/// horizontal heading flips, a fresh vertical heading is sampled by
/// strike offset, and the heading is renormalized. A sampled zero
/// vector cannot be renormalized and leaves the heading unchanged.
pub open spec fn bounce_phase(b: BallModel, p: PlayerModel, u: int) -> BallModel {
    if collides(b, p) {
        let offset = b.pos.y - p.y;
        let sy = range_map_spec(u, bounce_range_lo(offset), bounce_range_hi(offset));
        let fx = -b.dir.x;
        if fx == 0 && sy == 0 {
            b
        } else {
            BallModel { pos: b.pos, dir: normalized(Vec2Model { x: fx, y: sy }) }
        }
    } else {
        b
    }
}

/// The raw serve heading drawn from two uniform samples: horizontal
/// component in `[lo, hi)`, vertical in `[-SERVE_Y_MAX, SERVE_Y_MAX)`.
/// A sampled zero vector falls back to a horizontal serve.
pub open spec fn serve_heading(u_x: int, u_y: int, lo: int, hi: int) -> Vec2Model {
    let sx = range_map_spec(u_x, lo, hi);
    let sy = range_map_spec(u_y, -SERVE_Y_MAX as int, SERVE_Y_MAX as int);
    if sx == 0 && sy == 0 {
        Vec2Model { x: if lo < 0 { -SCALE as int } else { SCALE as int }, y: 0 }
    } else {
        Vec2Model { x: sx, y: sy }
    }
}

/// Top-left corner of a ball centred in the field.
pub open spec fn ball_center(size: FieldSize) -> Vec2Model {
    Vec2Model {
        x: div_trunc(size.width_fp() - BALL_SIZE, 2),
        y: div_trunc(size.height_fp() - BALL_SIZE, 2),
    }
}

/// Starting height of both paddles: vertically centred.
pub open spec fn paddle_start_y(size: FieldSize) -> int {
    div_trunc(size.height_fp() - PADDLE_HEIGHT, 2)
}

/// A freshly served ball: centred, with a normalized serve heading.
pub open spec fn ball_reset(size: FieldSize, u_x: int, u_y: int, lo: int, hi: int) -> BallModel {
    BallModel {
        pos: ball_center(size),
        dir: normalized(serve_heading(u_x, u_y, lo, hi)),
    }
}

/// The scoring check: a ball fully past the left edge scores for the
/// right paddle, one past the right edge scores for the left paddle;
/// either replaces the ball with a serve toward the loser's side.
pub open spec fn score_phase(g: GameModel, s: SampleModel) -> (GameModel, Option<ScoreModel>) {
    if g.ball.pos.x + BALL_SIZE < 0 {
        let right = PlayerModel {
            x: g.right.x,
            y: g.right.y,
            input: g.right.input,
            points: g.right.points + 1,
        };
        let g2 = GameModel {
            size: g.size,
            left: g.left,
            right,
            ball: ball_reset(g.size, s.serve_x, s.serve_y, 0, SCALE as int),
        };
        (
            g2,
            Some(
                ScoreModel {
                    scorer: 1,
                    left_points: g.left.points,
                    right_points: g.right.points + 1,
                },
            ),
        )
    } else if g.ball.pos.x > g.size.width_fp() {
        let left = PlayerModel {
            x: g.left.x,
            y: g.left.y,
            input: g.left.input,
            points: g.left.points + 1,
        };
        let g2 = GameModel {
            size: g.size,
            left,
            right: g.right,
            ball: ball_reset(g.size, s.serve_x, s.serve_y, -SCALE as int, 0),
        };
        (
            g2,
            Some(
                ScoreModel {
                    scorer: 0,
                    left_points: g.left.points + 1,
                    right_points: g.right.points,
                },
            ),
        )
    } else {
        (g, None)
    }
}

/// One whole ball step: advance, wall bounce, both paddle checks in
/// order, then the scoring check.
pub open spec fn ball_phase(g: GameModel, dt: int, s: SampleModel) -> (
    GameModel,
    Option<ScoreModel>,
) {
    let b1 = ball_advanced(g.ball, dt);
    let b2 = wall_bounced(b1, g.size);
    let b3 = bounce_phase(b2, g.left, s.bounce_first);
    let b4 = bounce_phase(b3, g.right, s.bounce_second);
    score_phase(GameModel { size: g.size, left: g.left, right: g.right, ball: b4 }, s)
}

/// One whole frame: both paddles apply their commands, then the ball
/// steps.
pub open spec fn game_step(g: GameModel, dt: int, s: SampleModel) -> (
    GameModel,
    Option<ScoreModel>,
) {
    let stepped = GameModel {
        size: g.size,
        left: paddle_stepped(g.left, dt, g.size),
        right: paddle_stepped(g.right, dt, g.size),
        ball: g.ball,
    };
    ball_phase(stepped, dt, s)
}

/// The state a fresh game starts from: paddles centred on their sides
/// with no points, ball centred with a serve heading drawn from the
/// full horizontal range.
pub open spec fn initial_game(size: FieldSize, u_x: int, u_y: int) -> GameModel {
    GameModel {
        size,
        left: PlayerModel { x: 0, y: paddle_start_y(size), input: Input::Idle, points: 0 },
        right: PlayerModel {
            x: size.width_fp() - PADDLE_WIDTH,
            y: paddle_start_y(size),
            input: Input::Idle,
            points: 0,
        },
        ball: BallModel {
            pos: ball_center(size),
            dir: normalized(serve_heading(u_x, u_y, -SCALE as int, SCALE as int)),
        },
    }
}

/// The moving square whose heading changes on collisions.
#[derive(Clone, Copy, PartialEq, Eq, Structural, Debug)]
pub struct Ball {
    pub position: Vector2D,
    pub vertices: Quad,
    pub direction: Vector2D,
}

impl View for Ball {
    type V = BallModel;

    open spec fn view(&self) -> BallModel {
        BallModel { pos: self.position@, dir: self.direction@ }
    }
}

impl Ball {
    /// The position is representable, the heading near unit length,
    /// and the cached corners are the projection of the ball square.
    pub open spec fn wf(self, size: FieldSize) -> bool {
        &&& -POS_LIMIT <= self.position.x <= POS_LIMIT
        &&& -POS_LIMIT <= self.position.y <= POS_LIMIT
        &&& near_unit(self.direction@)
        &&& quad_matches(self.vertices, self.position@, BALL_SIZE as int, BALL_SIZE as int, size)
    }

    /// A ball at `(x, y)` heading along `direction`, which is
    /// normalized first.
    pub fn new(x: i64, y: i64, direction: Vector2D, size: &FieldSize) -> (b: Self)
        requires
            size.wf(),
            -POS_LIMIT <= x <= POS_LIMIT,
            -POS_LIMIT <= y <= POS_LIMIT,
            norm_sq(direction@) >= 1,
            -0x10_0000 <= direction.x <= 0x10_0000,
            -0x10_0000 <= direction.y <= 0x10_0000,
        ensures
            b.wf(*size),
            b.position.x == x,
            b.position.y == y,
            b@.dir == normalized(direction@),
    {
        Self {
            position: Vector2D::new(x, y),
            vertices: Ball::move_vertices(Vector2D::new(x, y), size),
            direction: direction.normalize(),
        }
    }

    /// Move the ball to `(x, y)` and recompute its corners; the
    /// heading is untouched.
    pub fn move_position(&mut self, x: i64, y: i64, size: &FieldSize)
        requires
            size.wf(),
            -POS_LIMIT <= x <= POS_LIMIT,
            -POS_LIMIT <= y <= POS_LIMIT,
        ensures
            final(self).position.x == x,
            final(self).position.y == y,
            final(self).direction == old(self).direction,
            quad_matches(
                final(self).vertices,
                final(self).position@,
                BALL_SIZE as int,
                BALL_SIZE as int,
                *size,
            ),
    {
        self.position = Vector2D::new(x, y);
        self.vertices = Ball::move_vertices(self.position, size);
    }

    /// The projected corners of a ball square at `to`.
    pub fn move_vertices(to: Vector2D, size: &FieldSize) -> (q: Quad)
        requires
            size.wf(),
            -POS_LIMIT <= to.x <= POS_LIMIT,
            -POS_LIMIT <= to.y <= POS_LIMIT,
        ensures
            quad_matches(q, to@, BALL_SIZE as int, BALL_SIZE as int, *size),
    {
        rect_vertices(to, BALL_SIZE, BALL_SIZE, size)
    }

    /// Replace the heading; position and corners are untouched.
    fn set_direction(&mut self, d: Vector2D)
        ensures
            final(self).direction == d,
            final(self).position == old(self).position,
            final(self).vertices == old(self).vertices,
    {
        self.direction = d;
    }

    /// Run the collision check against one paddle, flipping and
    /// resampling the heading on a hit.
    fn paddle_bounce(&mut self, paddle: &Player, u: i64)
        requires
            -POS_LIMIT <= old(self).position.x <= POS_LIMIT,
            -POS_LIMIT <= old(self).position.y <= POS_LIMIT,
            near_unit(old(self).direction@),
            -POS_LIMIT <= paddle.position.x <= POS_LIMIT,
            -POS_LIMIT <= paddle.position.y <= POS_LIMIT,
            0 <= u < SCALE,
        ensures
            final(self)@ == bounce_phase(old(self)@, paddle@, u as int),
            final(self).position == old(self).position,
            final(self).vertices == old(self).vertices,
            near_unit(final(self).direction@),
    {
        proof {
            lemma_near_unit_bounds(self.direction@);
        }
        let anchor: i64 = if self.direction.x >= 0 {
            BALL_SIZE
        } else {
            0
        };
        if self.position.x + anchor >= paddle.position.x
            && self.position.x <= paddle.position.x + PADDLE_WIDTH
            && self.position.y >= paddle.position.y - BALL_SIZE
            && self.position.y <= paddle.position.y + PADDLE_HEIGHT {
            let offset: i64 = self.position.y - paddle.position.y;
            let lo: i64 = bounce_range_bounds(offset).0;
            let hi: i64 = bounce_range_bounds(offset).1;
            let sy: i64 = range_map(u, lo, hi);
            let fx: i64 = -self.direction.x;
            if fx == 0 && sy == 0 {
            } else {
                proof {
                    assert(fx * fx + sy * sy >= 1) by (nonlinear_arith)
                        requires
                            !(fx == 0 && sy == 0),
                    ;
                }
                let nd = Vector2D::new(fx, sy).normalize();
                self.set_direction(nd);
            }
        }
    }
}

/// The sampling range for the rebound's vertical heading, by strike
/// offset.
fn bounce_range_bounds(offset: i64) -> (r: (i64, i64))
    ensures
        r.0 == bounce_range_lo(offset as int),
        r.1 == bounce_range_hi(offset as int),
        r.0 < r.1,
        -SCALE <= r.0,
        r.1 <= SCALE,
{
    if BOUNCE_BAND_LO <= offset && offset <= BOUNCE_BAND_HI {
        (-BOUNCE_FLAT_MAX, BOUNCE_FLAT_MAX)
    } else if offset > BOUNCE_BAND_HI {
        (BOUNCE_STEEP_MIN, SCALE)
    } else {
        (-SCALE, -BOUNCE_STEEP_MIN)
    }
}

/// The raw serve heading drawn from two uniform samples.
fn serve_heading_vec(u_x: i64, u_y: i64, lo: i64, hi: i64) -> (v: Vector2D)
    requires
        0 <= u_x < SCALE,
        0 <= u_y < SCALE,
        lo < hi,
        -SCALE <= lo,
        hi <= SCALE,
    ensures
        v@ == serve_heading(u_x as int, u_y as int, lo as int, hi as int),
        norm_sq(v@) >= 1,
        -SCALE <= v.x <= SCALE,
        -SCALE <= v.y <= SCALE,
{
    let sx: i64 = range_map(u_x, lo, hi);
    let sy: i64 = range_map(u_y, -SERVE_Y_MAX, SERVE_Y_MAX);
    if sx == 0 && sy == 0 {
        let fx: i64 = if lo < 0 {
            -SCALE
        } else {
            SCALE
        };
        proof {
            assert(fx * fx >= 1) by (nonlinear_arith)
                requires
                    fx != 0,
            ;
        }
        Vector2D::new(fx, 0)
    } else {
        proof {
            assert(sx * sx + sy * sy >= 1) by (nonlinear_arith)
                requires
                    !(sx == 0 && sy == 0),
            ;
        }
        Vector2D::new(sx, sy)
    }
}

/// One scoring event: which paddle scored, and both totals after it.
#[derive(Clone, Copy, PartialEq, Eq, Structural, Debug)]
pub struct ScoreEvent {
    pub scorer: usize,
    pub left_points: u32,
    pub right_points: u32,
}

impl View for ScoreEvent {
    type V = ScoreModel;

    open spec fn view(&self) -> ScoreModel {
        ScoreModel {
            scorer: self.scorer as int,
            left_points: self.left_points as int,
            right_points: self.right_points as int,
        }
    }
}

/// The returned event reports exactly the modelled scoring outcome.
pub open spec fn event_matches(r: Option<ScoreEvent>, ev: Option<ScoreModel>) -> bool {
    match (r, ev) {
        (Option::None, Option::None) => true,
        (Option::Some(a), Option::Some(b)) => a@ == b,
        _ => false,
    }
}

/// The simulation controller: the play-field size, the two paddles
/// (left, then right), and the ball.
#[derive(Clone, Copy, Debug)]
pub struct Controller {
    pub size: FieldSize,
    pub players: (Player, Player),
    pub ball: Ball,
}

impl View for Controller {
    type V = GameModel;

    open spec fn view(&self) -> GameModel {
        GameModel {
            size: self.size,
            left: self.players.0@,
            right: self.players.1@,
            ball: self.ball@,
        }
    }
}

/// Apply a paddle's command for `dt` and snap it back inside the field.
fn step_paddle(p: &mut Player, dt: i64, size: &FieldSize)
    requires
        size.wf(),
        size.height_fp() >= PADDLE_HEIGHT,
        old(p).wf(*size),
        0 <= old(p).position.y <= size.height_fp() - PADDLE_HEIGHT,
        0 <= dt <= DT_MAX,
    ensures
        final(p).wf(*size),
        final(p)@ == paddle_stepped(old(p)@, dt as int, *size),
        0 <= final(p).position.y <= size.height_fp() - PADDLE_HEIGHT,
        final(p).position.x == old(p).position.x,
{
    let h_fp: i64 = size.height as i64 * SCALE;
    let x: i64 = p.position.x;
    match p.input {
        Input::Up => {
            let moved: i64 = p.position.y + PADDLE_SPEED * dt;
            let ny: i64 = if moved + PADDLE_HEIGHT > h_fp {
                h_fp - PADDLE_HEIGHT
            } else {
                moved
            };
            p.move_position(x, ny, size);
        },
        Input::Down => {
            let moved: i64 = p.position.y - PADDLE_SPEED * dt;
            let ny: i64 = if moved < 0 {
                0
            } else {
                moved
            };
            p.move_position(x, ny, size);
        },
        Input::Idle => {},
    }
}

impl Controller {
    /// The game state is well formed: the model invariant holds and
    /// every cached quad is the projection of its rectangle.
    pub open spec fn wf(self) -> bool {
        &&& game_model_wf(self@)
        &&& self.players.0.wf(self.size)
        &&& self.players.1.wf(self.size)
        &&& self.ball.wf(self.size)
    }

    /// A fresh game from two given serve samples: paddles centred on
    /// their sides, ball centred with a serve heading drawn from the
    /// full horizontal range.
    pub fn new_with(size: &FieldSize, serve_x: i64, serve_y: i64) -> (c: Self)
        requires
            size.wf(),
            size.height >= 100,
            0 <= serve_x < SCALE,
            0 <= serve_y < SCALE,
        ensures
            c.wf(),
            c@ == initial_game(*size, serve_x as int, serve_y as int),
    {
        let w_fp: i64 = size.width as i64 * SCALE;
        let h_fp: i64 = size.height as i64 * SCALE;
        let start_y: i64 = div_toward_zero(h_fp - PADDLE_HEIGHT, 2);
        let left = Player::new(0, start_y, size);
        let right = Player::new(w_fp - PADDLE_WIDTH, start_y, size);
        let heading = serve_heading_vec(serve_x, serve_y, -SCALE, SCALE);
        let bx: i64 = div_toward_zero(w_fp - BALL_SIZE, 2);
        let by: i64 = div_toward_zero(h_fp - BALL_SIZE, 2);
        let ball = Ball::new(bx, by, heading, size);
        Controller { size: *size, players: (left, right), ball }
    }

    /// A fresh game with a randomly drawn serve heading.
    pub fn new(size: &FieldSize) -> (c: Self)
        requires
            size.wf(),
            size.height >= 100,
        ensures
            c.wf(),
            c.size == *size,
            c.players.0.points == 0,
            c.players.1.points == 0,
            exists|u_x: int, u_y: int|
                0 <= u_x < SCALE && 0 <= u_y < SCALE && c@ == initial_game(*size, u_x, u_y),
    {
        let s = FrameSamples::draw();
        let c = Self::new_with(size, s.serve_x, s.serve_y);
        proof {
            assert(0 <= (s.serve_x as int) && (s.serve_x as int) < SCALE);
            assert(0 <= (s.serve_y as int) && (s.serve_y as int) < SCALE);
            assert(c@ == initial_game(*size, s.serve_x as int, s.serve_y as int));
        }
        c
    }

    /// Record a player's directional command.
    pub fn set_input(&mut self, player: usize, input: Input)
        requires
            old(self).wf(),
            player < 2,
        ensures
            final(self).wf(),
            final(self).size == old(self).size,
            final(self).ball == old(self).ball,
            player == 0 ==> final(self).players.0.input == input,
            player == 0 ==> final(self).players.1 == old(self).players.1,
            player == 0 ==> final(self).players.0.position == old(self).players.0.position,
            player == 0 ==> final(self).players.0.points == old(self).players.0.points,
            player == 0 ==> final(self).players.0.vertices == old(self).players.0.vertices,
            player == 1 ==> final(self).players.1.input == input,
            player == 1 ==> final(self).players.0 == old(self).players.0,
            player == 1 ==> final(self).players.1.position == old(self).players.1.position,
            player == 1 ==> final(self).players.1.points == old(self).players.1.points,
            player == 1 ==> final(self).players.1.vertices == old(self).players.1.vertices,
    {
        if player == 0 {
            let mut p = self.players.0;
            p.input = input;
            self.players = (p, self.players.1);
        } else {
            let mut p = self.players.1;
            p.input = input;
            self.players = (self.players.0, p);
        }
    }

    /// Apply one paddle's current command for `dt`. The new height is
    /// the requested move clamped to the legal band.
    pub fn input(&mut self, player: usize, dt: i64)
        requires
            old(self).wf(),
            player < 2,
            0 <= dt <= DT_MAX,
        ensures
            final(self).wf(),
            final(self).size == old(self).size,
            final(self).ball == old(self).ball,
            player == 0 ==> final(self)@ == (GameModel {
                size: old(self).size,
                left: paddle_stepped(old(self)@.left, dt as int, old(self).size),
                right: old(self)@.right,
                ball: old(self)@.ball,
            }),
            player == 1 ==> final(self)@ == (GameModel {
                size: old(self).size,
                left: old(self)@.left,
                right: paddle_stepped(old(self)@.right, dt as int, old(self).size),
                ball: old(self)@.ball,
            }),
            player == 0 ==> final(self)@.left.y == clamp_spec(
                old(self)@.left.y + paddle_shift(old(self)@.left.input, dt as int),
                0,
                old(self).size.height_fp() - PADDLE_HEIGHT,
            ),
            player == 1 ==> final(self)@.right.y == clamp_spec(
                old(self)@.right.y + paddle_shift(old(self)@.right.input, dt as int),
                0,
                old(self).size.height_fp() - PADDLE_HEIGHT,
            ),
    {
        let size = self.size;
        if player == 0 {
            let mut p = self.players.0;
            step_paddle(&mut p, dt, &size);
            self.players = (p, self.players.1);
            proof {
                lemma_paddle_step_is_clamp(
                    old(self)@.left.y,
                    old(self)@.left.input,
                    dt as int,
                    size,
                );
            }
        } else {
            let mut p = self.players.1;
            step_paddle(&mut p, dt, &size);
            self.players = (self.players.0, p);
            proof {
                lemma_paddle_step_is_clamp(
                    old(self)@.right.y,
                    old(self)@.right.input,
                    dt as int,
                    size,
                );
            }
        }
    }

    /// Advance the ball for `dt` using the given samples: move it,
    /// bounce it off walls and paddles, and run the scoring check.
    /// Returns the scoring event if a point was scored.
    pub fn ball_update_with(&mut self, dt: i64, s: &FrameSamples) -> (r: Option<ScoreEvent>)
        requires
            old(self).wf(),
            0 <= dt <= DT_MAX,
            s.wf(),
            old(self).players.0.points < u32::MAX,
            old(self).players.1.points < u32::MAX,
        ensures
            final(self).wf(),
            final(self).size == old(self).size,
            final(self)@ == ball_phase(old(self)@, dt as int, s@).0,
            event_matches(r, ball_phase(old(self)@, dt as int, s@).1),
    {
        let ghost g0 = old(self)@;
        proof {
            lemma_near_unit_bounds(self.ball.direction@);
        }
        let size = self.size;
        let w_fp: i64 = size.width as i64 * SCALE;
        let h_fp: i64 = size.height as i64 * SCALE;

        // Advance along the heading at ball speed.
        let vx: i64 = self.ball.direction.x * BALL_SPEED;
        let vy: i64 = self.ball.direction.y * BALL_SPEED;
        proof {
            assert(-0x8_0000_0000_0000 <= vx * dt <= 0x8_0000_0000_0000) by (nonlinear_arith)
                requires
                    -409600 <= vx <= 409600,
                    0 <= dt <= 3686400,
            ;
            assert(-0x8_0000_0000_0000 <= vy * dt <= 0x8_0000_0000_0000) by (nonlinear_arith)
                requires
                    -409600 <= vy <= 409600,
                    0 <= dt <= 3686400,
            ;
        }
        let dx: i64 = div_toward_zero(vx * dt, SCALE);
        let dy: i64 = div_toward_zero(vy * dt, SCALE);
        let nx: i64 = clamp(self.ball.position.x + dx, -POS_LIMIT, POS_LIMIT);
        let ny: i64 = clamp(self.ball.position.y + dy, -POS_LIMIT, POS_LIMIT);
        self.ball.move_position(nx, ny, &size);
        proof {
            assert(self.ball@ == ball_advanced(g0.ball, dt as int));
        }

        // Wall bounce: invert the vertical heading on overlap.
        if self.ball.position.y + BALL_SIZE > h_fp || self.ball.position.y < 0 {
            let d = self.ball.direction;
            self.ball.set_direction(Vector2D::new(d.x, -d.y));
            proof {
                assert((-(d.y as int)) * (-(d.y as int)) == (d.y as int) * (d.y as int))
                    by (nonlinear_arith);
            }
        }
        proof {
            assert(self.ball@ == wall_bounced(ball_advanced(g0.ball, dt as int), size));
            assert(near_unit(self.ball.direction@));
        }

        // Paddle collisions, left then right.
        self.ball.paddle_bounce(&self.players.0, s.bounce_first);
        self.ball.paddle_bounce(&self.players.1, s.bounce_second);
        let ghost b4 = bounce_phase(
            bounce_phase(
                wall_bounced(ball_advanced(g0.ball, dt as int), size),
                g0.left,
                s@.bounce_first,
            ),
            g0.right,
            s@.bounce_second,
        );
        proof {
            assert(self.ball@ == b4);
        }
        let ghost g4 = GameModel { size, left: g0.left, right: g0.right, ball: b4 };

        // Scoring and reset.
        if self.ball.position.x + BALL_SIZE < 0 {
            let heading = serve_heading_vec(s.serve_x, s.serve_y, 0, SCALE);
            let bx: i64 = div_toward_zero(w_fp - BALL_SIZE, 2);
            let by: i64 = div_toward_zero(h_fp - BALL_SIZE, 2);
            self.ball = Ball::new(bx, by, heading, &size);
            let mut p1 = self.players.1;
            p1.points = p1.points + 1;
            self.players = (self.players.0, p1);
            let ev = ScoreEvent {
                scorer: 1,
                left_points: self.players.0.points,
                right_points: p1.points,
            };
            proof {
                assert(self@ == score_phase(g4, s@).0);
                assert(ev@ == score_phase(g4, s@).1->0);
            }
            Some(ev)
        } else if self.ball.position.x > w_fp {
            let heading = serve_heading_vec(s.serve_x, s.serve_y, -SCALE, 0);
            let bx: i64 = div_toward_zero(w_fp - BALL_SIZE, 2);
            let by: i64 = div_toward_zero(h_fp - BALL_SIZE, 2);
            self.ball = Ball::new(bx, by, heading, &size);
            let mut p0 = self.players.0;
            p0.points = p0.points + 1;
            self.players = (p0, self.players.1);
            let ev = ScoreEvent {
                scorer: 0,
                left_points: p0.points,
                right_points: self.players.1.points,
            };
            proof {
                assert(self@ == score_phase(g4, s@).0);
                assert(ev@ == score_phase(g4, s@).1->0);
            }
            Some(ev)
        } else {
            proof {
                assert(self@ == score_phase(g4, s@).0);
            }
            None
        }
    }

    /// Advance the ball for `dt` with freshly drawn samples.
    pub fn ball_update(&mut self, dt: i64) -> (r: Option<ScoreEvent>)
        requires
            old(self).wf(),
            0 <= dt <= DT_MAX,
            old(self).players.0.points < u32::MAX,
            old(self).players.1.points < u32::MAX,
        ensures
            final(self).wf(),
            final(self).size == old(self).size,
            final(self)@.left.points >= old(self)@.left.points,
            final(self)@.right.points >= old(self)@.right.points,
            exists|sm: SampleModel|
                sample_model_wf(sm) && final(self)@ == ball_phase(old(self)@, dt as int, sm).0
                    && event_matches(r, ball_phase(old(self)@, dt as int, sm).1),
    {
        let s = FrameSamples::draw();
        let r = self.ball_update_with(dt, &s);
        proof {
            assert(sample_model_wf(s@) && self@ == ball_phase(old(self)@, dt as int, s@).0
                && event_matches(r, ball_phase(old(self)@, dt as int, s@).1));
        }
        r
    }

    /// Advance the whole game by one frame: both paddles apply their
    /// commands, then the ball steps with freshly drawn samples.
    pub fn update(&mut self, dt: i64) -> (r: Option<ScoreEvent>)
        requires
            old(self).wf(),
            0 <= dt <= DT_MAX,
            old(self).players.0.points < u32::MAX,
            old(self).players.1.points < u32::MAX,
        ensures
            final(self).wf(),
            final(self).size == old(self).size,
            final(self)@.left.points >= old(self)@.left.points,
            final(self)@.right.points >= old(self)@.right.points,
            exists|sm: SampleModel|
                sample_model_wf(sm) && final(self)@ == game_step(old(self)@, dt as int, sm).0
                    && event_matches(r, game_step(old(self)@, dt as int, sm).1),
    {
        let ghost g0 = old(self)@;
        self.input(0, dt);
        self.input(1, dt);
        let ghost g2 = self@;
        let r = self.ball_update(dt);
        proof {
            let sm = choose|sm: SampleModel|
                sample_model_wf(sm) && self@ == ball_phase(g2, dt as int, sm).0 && event_matches(
                    r,
                    ball_phase(g2, dt as int, sm).1,
                );
            assert(g2 == (GameModel {
                size: g0.size,
                left: paddle_stepped(g0.left, dt as int, g0.size),
                right: paddle_stepped(g0.right, dt as int, g0.size),
                ball: g0.ball,
            }));
            assert(sample_model_wf(sm) && self@ == game_step(g0, dt as int, sm).0
                && event_matches(r, game_step(g0, dt as int, sm).1));
        }
        r
    }
}

/// The corner of `q` at render index `i` (0 to 3).
pub open spec fn quad_corner(q: Quad, i: int) -> Point3 {
    if i == 0 {
        q.top_left
    } else if i == 1 {
        q.top_right
    } else if i == 2 {
        q.bottom_right
    } else {
        q.bottom_left
    }
}

impl Controller {
    /// The twelve vertices a frame draws: the four corners of the left
    /// paddle, the right paddle, then the ball, in render order.
    pub fn frame_vertices(&self) -> (v: Vec<Point3>)
        ensures
            v@.len() == 12,
            v@[0] == quad_corner(self.players.0.vertices, 0),
            v@[1] == quad_corner(self.players.0.vertices, 1),
            v@[2] == quad_corner(self.players.0.vertices, 2),
            v@[3] == quad_corner(self.players.0.vertices, 3),
            v@[4] == quad_corner(self.players.1.vertices, 0),
            v@[5] == quad_corner(self.players.1.vertices, 1),
            v@[6] == quad_corner(self.players.1.vertices, 2),
            v@[7] == quad_corner(self.players.1.vertices, 3),
            v@[8] == quad_corner(self.ball.vertices, 0),
            v@[9] == quad_corner(self.ball.vertices, 1),
            v@[10] == quad_corner(self.ball.vertices, 2),
            v@[11] == quad_corner(self.ball.vertices, 3),
    {
        let mut v: Vec<Point3> = Vec::new();
        v.push(self.players.0.vertices.top_left);
        v.push(self.players.0.vertices.top_right);
        v.push(self.players.0.vertices.bottom_right);
        v.push(self.players.0.vertices.bottom_left);
        v.push(self.players.1.vertices.top_left);
        v.push(self.players.1.vertices.top_right);
        v.push(self.players.1.vertices.bottom_right);
        v.push(self.players.1.vertices.bottom_left);
        v.push(self.ball.vertices.top_left);
        v.push(self.ball.vertices.top_right);
        v.push(self.ball.vertices.bottom_right);
        v.push(self.ball.vertices.bottom_left);
        v
    }
}

/// The index buffer a frame draws: two triangles for each of the three
/// rectangles, over the vertices of `frame_vertices`.
pub fn frame_indices() -> (v: Vec<u16>)
    ensures
        v@ =~= seq![0u16, 1, 2, 0, 2, 3, 4, 5, 6, 4, 6, 7, 8, 9, 10, 8, 10, 11],
{
    let mut v: Vec<u16> = Vec::new();
    v.push(0);
    v.push(1);
    v.push(2);
    v.push(0);
    v.push(2);
    v.push(3);
    v.push(4);
    v.push(5);
    v.push(6);
    v.push(4);
    v.push(6);
    v.push(7);
    v.push(8);
    v.push(9);
    v.push(10);
    v.push(8);
    v.push(10);
    v.push(11);
    v
}

/// Law: when the moved ball overlaps a wall and neither paddle nor the
/// scoring check fires, one frame flips the vertical heading and keeps
/// the horizontal one.
pub proof fn lemma_wall_bounce_flips_vertical(g: GameModel, dt: int, s: SampleModel)
    requires
        ball_advanced(g.ball, dt).pos.y < 0 || ball_advanced(g.ball, dt).pos.y + BALL_SIZE
            > g.size.height_fp(),
        !collides(
            wall_bounced(ball_advanced(g.ball, dt), g.size),
            paddle_stepped(g.left, dt, g.size),
        ),
        !collides(
            wall_bounced(ball_advanced(g.ball, dt), g.size),
            paddle_stepped(g.right, dt, g.size),
        ),
        -BALL_SIZE <= ball_advanced(g.ball, dt).pos.x <= g.size.width_fp(),
    ensures
        game_step(g, dt, s).0.ball.dir.y == -g.ball.dir.y,
        game_step(g, dt, s).0.ball.dir.x == g.ball.dir.x,
        game_step(g, dt, s).1 is None,
{
}

/// Law: a serve heading built from well-formed samples is normalized
/// to a near-unit heading.
pub proof fn lemma_serve_heading_near_unit(u_x: int, u_y: int, lo: int, hi: int)
    requires
        0 <= u_x < SCALE,
        0 <= u_y < SCALE,
        lo < hi,
        -SCALE <= lo,
        hi <= SCALE,
    ensures
        near_unit(normalized(serve_heading(u_x, u_y, lo, hi))),
{
    crate::fixed::lemma_range_map_in_range(u_x, lo, hi);
    crate::fixed::lemma_range_map_in_range(u_y, -SERVE_Y_MAX as int, SERVE_Y_MAX as int);
    let h = serve_heading(u_x, u_y, lo, hi);
    assert(h.x * h.x + h.y * h.y >= 1) by (nonlinear_arith)
        requires
            !(h.x == 0 && h.y == 0),
    ;
    lemma_normalized_near_unit(h.x, h.y);
}

/// Law: with the ball's moved position fully past the left edge, one
/// frame gives the right paddle exactly one point and serves a fresh
/// centred ball with a near-unit heading.
pub proof fn lemma_left_exit_scores_right(g: GameModel, dt: int, s: SampleModel)
    requires
        game_model_wf(g),
        sample_model_wf(s),
        ball_advanced(g.ball, dt).pos.x + BALL_SIZE < 0,
    ensures
        game_step(g, dt, s).0.right.points == g.right.points + 1,
        game_step(g, dt, s).0.left.points == g.left.points,
        game_step(g, dt, s).0.ball.pos == ball_center(g.size),
        near_unit(game_step(g, dt, s).0.ball.dir),
        game_step(g, dt, s).1 is Some,
        game_step(g, dt, s).1->0.scorer == 1,
{
    lemma_serve_heading_near_unit(s.serve_x, s.serve_y, 0, SCALE as int);
}

/// Law: with the ball's moved position past the right edge, one frame
/// gives the left paddle exactly one point and serves a fresh centred
/// ball with a near-unit heading.
pub proof fn lemma_right_exit_scores_left(g: GameModel, dt: int, s: SampleModel)
    requires
        game_model_wf(g),
        sample_model_wf(s),
        ball_advanced(g.ball, dt).pos.x > g.size.width_fp(),
    ensures
        game_step(g, dt, s).0.left.points == g.left.points + 1,
        game_step(g, dt, s).0.right.points == g.right.points,
        game_step(g, dt, s).0.ball.pos == ball_center(g.size),
        near_unit(game_step(g, dt, s).0.ball.dir),
        game_step(g, dt, s).1 is Some,
        game_step(g, dt, s).1->0.scorer == 0,
{
    lemma_serve_heading_near_unit(s.serve_x, s.serve_y, -SCALE as int, 0);
}

} // verus!

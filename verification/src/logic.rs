//! The simulation engine: the game state and the per-tick physics rules.
//!
//! One call to [`LogicState::update`] advances the game by a single discrete
//! tick: the paddle tracks the pointer, the ball integrates its velocity,
//! collisions against the playfield border, the paddle and the bricks are
//! resolved in that fixed order, and score, lives and at most one bounce
//! event come out.  Every step is specified exactly by the spec functions in
//! this module, culminating in [`tick_spec`].

use vstd::prelude::*;

pub mod game_objs;
pub mod interaction;

use crate::control::{clicked_at, ControlModel, ControlState};
use crate::units::{
    abs_val, clamp, clamp_val, max_val, min_val, mul_scale, scale_mul, MAX_SPEED, MAX_TICK, SCALE,
};
use game_objs::{
    ball_init, bricks_init, paddle_init, playfield_init, GameObject, GameObjectKind, ObjectModel,
};
use game_objs::{
    model_bounded, BALL_HEIGHT, BALL_PARK_Y, BALL_WIDTH, BRICK_HEIGHT, BRICK_WIDTH, PADDLE_HEIGHT,
    PADDLE_PUSH_SCALE, PADDLE_VERTICAL_OFFSET, PADDLE_WIDTH,
};
use interaction::Bounce;

verus! {

/// Lives a fresh game starts with (beyond the ball already in play).
pub const BALLS_INITIAL: u32 = 2;

/// Coordinates and sizes the overlap test accepts without overflowing.
pub const COORD_LIMIT: i64 = 1_000_000_000_000_000;

/// Game state.
pub struct LogicState {
    pub paddle: GameObject,
    pub playfield: GameObject,
    pub ball: GameObject,
    pub bricks: Vec<GameObject>,

    /// What the ball struck this tick, if anything.
    pub bounce: Option<Bounce>,

    pub balls_remaining: u32,
    pub score: u32,

    /// Set once the ball has slipped below the paddle's band; blocks further
    /// paddle bounces until the next respawn clears it.
    pub too_late: bool,

    /// Time the first click started the game, in `1 / SCALE` seconds.
    pub game_started: Option<u64>,
}

/// Mathematical image of a [`LogicState`].
#[verifier::ext_equal]
pub ghost struct LogicModel {
    pub paddle: ObjectModel,
    pub playfield: ObjectModel,
    pub ball: ObjectModel,
    pub bricks: Seq<ObjectModel>,
    pub bounce: Option<Bounce>,
    pub balls_remaining: int,
    pub score: int,
    pub too_late: bool,
    pub game_started: Option<int>,
}

/// An optional timestamp, widened to `int`.
pub open spec fn time_opt(o: Option<u64>) -> Option<int> {
    match o {
        Option::Some(t) => Option::Some(t as int),
        Option::None => Option::None,
    }
}

impl View for LogicState {
    type V = LogicModel;

    open spec fn view(&self) -> LogicModel {
        LogicModel {
            paddle: self.paddle@,
            playfield: self.playfield@,
            ball: self.ball@,
            bricks: self.bricks@.map_values(|g: GameObject| g@),
            bounce: self.bounce,
            balls_remaining: self.balls_remaining as int,
            score: self.score as int,
            too_late: self.too_late,
            game_started: time_opt(self.game_started),
        }
    }
}

/// The state a fresh game starts in: all entities at their template
/// positions, the full brick grid, no score, and the clock not yet running.
pub open spec fn logic_init() -> LogicModel {
    LogicModel {
        paddle: paddle_init(),
        playfield: playfield_init(),
        ball: ball_init(BALLS_INITIAL as int),
        bricks: bricks_init(),
        bounce: Option::None,
        balls_remaining: BALLS_INITIAL as int,
        score: 0,
        too_late: false,
        game_started: Option::None,
    }
}

/// Strict axis-aligned box overlap: the boxes centered at `(x, y)` with the
/// given width and height intersect on both axes with positive area.
/// Touching edges do not count.  (Stated over doubled coordinates so that
/// no halving is needed.)
pub open spec fn overlap(a: ObjectModel, b: ObjectModel) -> bool {
    &&& 2 * a.x - a.width < 2 * b.x + b.width
    &&& 2 * a.x + a.width > 2 * b.x - b.width
    &&& 2 * a.y - a.height < 2 * b.y + b.height
    &&& 2 * a.y + a.height > 2 * b.y - b.height
}

/// Coordinates and sizes small enough for the overlap test's arithmetic.
pub open spec fn obj_bounded(o: ObjectModel) -> bool {
    &&& abs_val(o.x) <= COORD_LIMIT as int
    &&& abs_val(o.y) <= COORD_LIMIT as int
    &&& abs_val(o.width) <= COORD_LIMIT as int
    &&& abs_val(o.height) <= COORD_LIMIT as int
}

/// A well-formed paddle: standard size, fixed vertical band, center inside
/// the playfield, bounded push velocity, no vertical velocity.
pub open spec fn paddle_ok(o: ObjectModel) -> bool {
    &&& o.kind == GameObjectKind::Paddle
    &&& o.width == PADDLE_WIDTH as int
    &&& o.height == PADDLE_HEIGHT as int
    &&& o.y == PADDLE_VERTICAL_OFFSET as int
    &&& -(SCALE as int) + PADDLE_WIDTH as int / 2 <= o.x <= SCALE as int - PADDLE_WIDTH as int / 2
    &&& abs_val(o.x_v) <= MAX_SPEED as int
    &&& o.y_v == 0
    &&& model_bounded(o.model)
}

/// A well-formed ball: standard size, fully inside the playfield, bounded
/// velocity.
pub open spec fn ball_ok(o: ObjectModel) -> bool {
    &&& o.kind == GameObjectKind::Ball
    &&& o.width == BALL_WIDTH as int
    &&& o.height == BALL_HEIGHT as int
    &&& -2 * SCALE as int <= 2 * o.x - o.width && 2 * o.x + o.width <= 2 * SCALE as int
    &&& -2 * SCALE as int <= 2 * o.y - o.height && 2 * o.y + o.height <= 2 * SCALE as int
    &&& abs_val(o.x_v) <= MAX_SPEED as int
    &&& abs_val(o.y_v) <= MAX_SPEED as int
    &&& model_bounded(o.model)
}

/// A well-formed brick: standard size, motionless, inside the playfield.
pub open spec fn brick_ok(o: ObjectModel) -> bool {
    &&& o.kind is Brick
    &&& o.width == BRICK_WIDTH as int
    &&& o.height == BRICK_HEIGHT as int
    &&& abs_val(o.x) <= 2 * SCALE as int
    &&& abs_val(o.y) <= 2 * SCALE as int
    &&& o.x_v == 0
    &&& o.y_v == 0
    &&& model_bounded(o.model)
}

/// Well-formedness of the whole game state: every entity is of its standard
/// shape and inside the playfield, and the score leaves room for all bricks
/// still standing at the highest multiplier.  Established by
/// [`LogicState::new`] and preserved by every tick.
pub open spec fn state_wf(m: LogicModel) -> bool {
    &&& paddle_ok(m.paddle)
    &&& m.playfield == playfield_init()
    &&& ball_ok(m.ball)
    &&& forall|k: int| 0 <= k < m.bricks.len() ==> brick_ok(#[trigger] m.bricks[k])
    &&& 0 <= m.balls_remaining <= u32::MAX
    &&& 0 <= m.score
    &&& m.score + 10 * m.bricks.len() <= 4_000_000_000
    &&& (m.game_started matches Option::Some(t) ==> 0 <= t <= u64::MAX)
}

// ---------------------------------------------------------------------------
// The tick, phase by phase.
// ---------------------------------------------------------------------------

/// Paddle tracking: the paddle's center jumps to the pointer, clamped so the
/// paddle stays inside the playfield.  Its velocity estimate for this tick
/// is the position delta scaled by the frame duration (delta times duration,
/// a quirk kept on purpose: the push the ball receives shrinks with the
/// frame time).
pub open spec fn paddle_step(m: LogicModel, mouse_x: int, dt: int) -> LogicModel {
    let target = clamp_val(
        mouse_x,
        -(SCALE as int) + m.paddle.width / 2,
        SCALE as int - m.paddle.width / 2,
    );
    LogicModel {
        paddle: ObjectModel {
            x: target,
            x_v: scale_mul(target - m.paddle.x, dt),
            ..m.paddle
        },
        ..m
    }
}

/// Ball integration: one unconstrained semi-implicit Euler step.
pub open spec fn integrate_step(m: LogicModel, dt: int) -> LogicModel {
    LogicModel {
        ball: ObjectModel {
            x: m.ball.x + scale_mul(m.ball.x_v, dt),
            y: m.ball.y + scale_mul(m.ball.y_v, dt),
            ..m.ball
        },
        ..m
    }
}

/// Right playfield edge: a purely elastic reflection that leaves the ball
/// resting exactly on the border.
pub open spec fn right_border_step(m: LogicModel) -> LogicModel {
    if 2 * m.ball.x + m.ball.width > 2 * SCALE as int {
        LogicModel {
            ball: ObjectModel {
                x: SCALE as int - m.ball.width / 2,
                x_v: -m.ball.x_v,
                ..m.ball
            },
            bounce: Option::Some(Bounce::PlayfieldBorder),
            ..m
        }
    } else {
        m
    }
}

/// Left playfield edge, symmetric to the right one.
pub open spec fn left_border_step(m: LogicModel) -> LogicModel {
    if 2 * m.ball.x - m.ball.width < -2 * SCALE as int {
        LogicModel {
            ball: ObjectModel {
                x: -(SCALE as int) + m.ball.width / 2,
                x_v: -m.ball.x_v,
                ..m.ball
            },
            bounce: Option::Some(Bounce::PlayfieldBorder),
            ..m
        }
    } else {
        m
    }
}

/// Top playfield edge, symmetric to the right one.
pub open spec fn top_border_step(m: LogicModel) -> LogicModel {
    if 2 * m.ball.y + m.ball.height > 2 * SCALE as int {
        LogicModel {
            ball: ObjectModel {
                y: SCALE as int - m.ball.height / 2,
                y_v: -m.ball.y_v,
                ..m.ball
            },
            bounce: Option::Some(Bounce::PlayfieldBorder),
            ..m
        }
    } else {
        m
    }
}

/// Bottom playfield edge: a miss, not a bounce.  With lives left the ball
/// respawns (launch angle alternating with the parity of the new counter)
/// and the too-late flag clears; with none left the game is over and the
/// ball parks motionless at `(0, -1/2)`.
pub open spec fn bottom_border_step(m: LogicModel) -> LogicModel {
    if 2 * m.ball.y - m.ball.height < -2 * SCALE as int {
        if m.balls_remaining > 0 {
            LogicModel {
                balls_remaining: m.balls_remaining - 1,
                ball: ball_init(m.balls_remaining - 1),
                too_late: false,
                ..m
            }
        } else {
            LogicModel {
                ball: ObjectModel { x: 0, y: BALL_PARK_Y as int, x_v: 0, y_v: 0, ..m.ball },
                ..m
            }
        }
    } else {
        m
    }
}

/// All four playfield edges, evaluated in the fixed order right, left, top,
/// bottom (not mutually exclusive).
pub open spec fn border_step(m: LogicModel) -> LogicModel {
    bottom_border_step(top_border_step(left_border_step(right_border_step(m))))
}

/// Paddle collision, skipped once the ball is past the paddle: the vertical
/// velocity is forced upward, the paddle's velocity estimate pushes the
/// ball sideways (saturating at `MAX_SPEED`), and the ball is set to rest
/// exactly on top of the paddle.
pub open spec fn paddle_bounce_step(m: LogicModel) -> LogicModel {
    if !m.too_late && overlap(m.paddle, m.ball) {
        LogicModel {
            ball: ObjectModel {
                y_v: abs_val(m.ball.y_v),
                x_v: clamp_val(
                    m.ball.x_v + m.paddle.x_v * PADDLE_PUSH_SCALE as int,
                    -(MAX_SPEED as int),
                    MAX_SPEED as int,
                ),
                y: m.paddle.y + m.paddle.height / 2 + m.ball.height / 2,
                ..m.ball
            },
            bounce: Option::Some(Bounce::Paddle),
            ..m
        }
    } else {
        m
    }
}

/// The too-late flag is raised whenever the ball's top-to-bottom extent has
/// dropped into or below the paddle's band; only a respawn clears it.
pub open spec fn too_late_step(m: LogicModel) -> LogicModel {
    if 2 * m.ball.y - m.ball.height < 2 * m.paddle.y + m.paddle.height {
        LogicModel { too_late: true, ..m }
    } else {
        m
    }
}

/// Index of the first brick at or after `i` that the ball overlaps.
pub open spec fn first_hit_from(bricks: Seq<ObjectModel>, ball: ObjectModel, i: int) -> Option<
    int,
>
    decreases bricks.len() - i,
    when 0 <= i
{
    if i >= bricks.len() {
        Option::None
    } else if overlap(bricks[i], ball) {
        Option::Some(i)
    } else {
        first_hit_from(bricks, ball, i + 1)
    }
}

/// Width of the intersection of two boxes that overlap on the x axis.
pub open spec fn overlap_width(a: ObjectModel, b: ObjectModel) -> int {
    abs_val(
        min_val(a.x + a.width / 2, b.x + b.width / 2) - max_val(
            a.x - a.width / 2,
            b.x - b.width / 2,
        ),
    )
}

/// Height of the intersection of two boxes that overlap on the y axis.
pub open spec fn overlap_height(a: ObjectModel, b: ObjectModel) -> int {
    abs_val(
        min_val(a.y + a.height / 2, b.y + b.height / 2) - max_val(
            a.y - a.height / 2,
            b.y - b.height / 2,
        ),
    )
}

/// Time since the game started, zero before the start or on a clock that
/// ran backward.
pub open spec fn elapsed_time(started: Option<int>, now: int) -> int {
    match started {
        Option::Some(t) => if now >= t {
            now - t
        } else {
            0
        },
        Option::None => 0,
    }
}

/// Score multiplier by time since game start: under 10 s of play a brick is
/// worth 10, under 30 s it is worth 5, under 60 s it is worth 2, then 1.
pub open spec fn score_mult(elapsed: int) -> int {
    if elapsed < 100_000 {
        10
    } else if elapsed < 300_000 {
        5
    } else if elapsed < 600_000 {
        2
    } else {
        1
    }
}

/// Brick collision: the first overlapping brick (in stored order) reflects
/// the ball on the axis of shallower penetration (both on a tie), adds the
/// time-based multiplier to the score, and is removed; at most one brick is
/// destroyed per tick.
pub open spec fn brick_step(m: LogicModel, now: int) -> LogicModel {
    match first_hit_from(m.bricks, m.ball, 0) {
        Option::None => m,
        Option::Some(i) => {
            let b = m.bricks[i];
            let ow = overlap_width(b, m.ball);
            let oh = overlap_height(b, m.ball);
            LogicModel {
                ball: ObjectModel {
                    x_v: if oh >= ow {
                        -m.ball.x_v
                    } else {
                        m.ball.x_v
                    },
                    y_v: if ow >= oh {
                        -m.ball.y_v
                    } else {
                        m.ball.y_v
                    },
                    ..m.ball
                },
                bounce: Option::Some(Bounce::Brick),
                score: m.score + score_mult(elapsed_time(m.game_started, now)),
                bricks: m.bricks.remove(i),
                ..m
            }
        },
    }
}

/// One full tick: reset the bounce event, track the paddle, integrate the
/// ball, then resolve border, paddle and brick collisions in that order.
pub open spec fn tick_spec(m: LogicModel, mouse_x: int, now: int, dt: int) -> LogicModel {
    let m0 = LogicModel { bounce: Option::None, ..m };
    brick_step(
        too_late_step(paddle_bounce_step(border_step(integrate_step(
            paddle_step(m0, mouse_x, dt),
            dt,
        )))),
        now,
    )
}

/// One update call: the first click observed before the game has started
/// starts the clock (the started flag, not the click, guards re-triggering);
/// from then on every call runs one tick.
pub open spec fn update_spec(m: LogicModel, c: ControlModel, now: int, dt: int) -> LogicModel {
    let m1 = if m.game_started is None && clicked_at(c) {
        LogicModel { game_started: Option::Some(now), ..m }
    } else {
        m
    };
    if m1.game_started is Some {
        tick_spec(m1, c.mouse_x, now, dt)
    } else {
        m1
    }
}

/// Strict axis-aligned overlap test between two game objects; a pure
/// function of the two boxes alone.
pub fn objs_overlap(a: &GameObject, b: &GameObject) -> (r: bool)
    requires
        obj_bounded(a@),
        obj_bounded(b@),
    ensures
        r == overlap(a@, b@),
{
    2 * a.x - a.width < 2 * b.x + b.width && 2 * a.x + a.width > 2 * b.x - b.width && 2 * a.y
        - a.height < 2 * b.y + b.height && 2 * a.y + a.height > 2 * b.y - b.height
}

/// Score multiplier for a brick destroyed `elapsed` fixed-point seconds
/// after the game started.
pub fn time_elapsed_to_score_mult(elapsed: u64) -> (mult: u32)
    ensures
        mult == score_mult(elapsed as int),
{
    if elapsed < 100_000 {
        10
    } else if elapsed < 300_000 {
        5
    } else if elapsed < 600_000 {
        2
    } else {
        1
    }
}

/// Every brick of the starting grid is well formed.
pub proof fn lemma_bricks_init_wf()
    ensures
        bricks_init().len() == 180,
        forall|k: int| 0 <= k < bricks_init().len() ==> brick_ok(#[trigger] bricks_init()[k]),
{
    assert forall|k: int| 0 <= k < bricks_init().len() implies brick_ok(bricks_init()[k]) by {
        let i = k / 12;
        let j = k % 12;
        assert(0 <= i <= 14);
        assert(0 <= j <= 11);
        let nx = (2 * i + 1) * (SCALE as int);
        assert(10_000 <= nx <= 290_000);
        vstd::arithmetic::div_mod::lemma_div_is_ordered(nx, 290_000, 15);
        vstd::arithmetic::div_mod::lemma_div_pos_is_pos(nx, 15);
        let ny = (2 * j + 1) * (SCALE as int);
        assert(10_000 <= ny <= 230_000);
        vstd::arithmetic::div_mod::lemma_div_is_ordered(ny, 230_000, 24);
        vstd::arithmetic::div_mod::lemma_div_pos_is_pos(ny, 24);
        game_objs::lemma_quad_model_bounded(BRICK_WIDTH as int, BRICK_HEIGHT as int, 5_000, 0, 1_000);
    }
}

/// A freshly spawned ball is well formed, whatever the life counter.
pub proof fn lemma_ball_init_ok(num: int)
    ensures
        ball_ok(ball_init(num)),
{
    game_objs::lemma_quad_model_bounded(BALL_WIDTH as int, BALL_HEIGHT as int, 2_590, 510, 6_710);
}

/// Where `first_hit_from` answers `Some(j)`, brick `j` overlaps the ball,
/// lies at or after the start of the scan, and nothing before it overlaps.
pub proof fn lemma_first_hit_some(bricks: Seq<ObjectModel>, ball: ObjectModel, i: int, j: int)
    requires
        0 <= i,
        first_hit_from(bricks, ball, i) == Option::Some(j),
    ensures
        i <= j < bricks.len(),
        overlap(bricks[j], ball),
        forall|k: int| i <= k < j ==> !overlap(#[trigger] bricks[k], ball),
    decreases bricks.len() - i,
{
    if i >= bricks.len() {
        assert(false);
    } else if overlap(bricks[i], ball) {
    } else {
        lemma_first_hit_some(bricks, ball, i + 1, j);
    }
}

/// A scan may skip over any prefix free of overlaps: the first hit from the
/// start equals the first hit from past that prefix.
pub proof fn lemma_first_hit_prefix(bricks: Seq<ObjectModel>, ball: ObjectModel, i: int)
    requires
        0 <= i <= bricks.len(),
        forall|k: int| 0 <= k < i ==> !overlap(#[trigger] bricks[k], ball),
    ensures
        first_hit_from(bricks, ball, 0) == first_hit_from(bricks, ball, i),
    decreases i,
{
    if i > 0 {
        lemma_first_hit_prefix(bricks, ball, i - 1);
        assert(first_hit_from(bricks, ball, i - 1) == first_hit_from(bricks, ball, i));
    }
}

/// The starting state is well formed.
pub proof fn lemma_init_wf()
    ensures
        state_wf(logic_init()),
{
    game_objs::lemma_tri_model_bounded(PADDLE_WIDTH as int, PADDLE_HEIGHT as int, 0, 10_000, 5_000);
    game_objs::lemma_quad_model_bounded(BALL_WIDTH as int, BALL_HEIGHT as int, 2_590, 510, 6_710);
    lemma_bricks_init_wf();
}

impl LogicState {
    /// Whole-state well-formedness; see [`state_wf`].
    pub open spec fn wf(&self) -> bool {
        state_wf(self@)
    }

    /// A fresh game, clock not yet running.
    pub fn new() -> (s: LogicState)
        ensures
            s@ == logic_init(),
            s.wf(),
    {
        let s = LogicState {
            paddle: GameObject::paddle(),
            playfield: GameObject::playfield(),
            ball: GameObject::ball(BALLS_INITIAL),
            bricks: GameObject::bricks(),

            balls_remaining: BALLS_INITIAL,
            score: 0,

            too_late: false,
            bounce: Option::None,

            game_started: Option::None,
        };
        proof {
            assert(s@ =~= logic_init());
            lemma_init_wf();
        }
        s
    }

    /// All live drawable entities, in draw order: playfield, ball, paddle,
    /// then the remaining bricks.  Regenerated freshly on every call.
    pub fn game_objs(&self) -> (objs: Vec<&GameObject>)
        ensures
            objs@.len() == 3 + self@.bricks.len(),
            objs@[0]@ == self@.playfield,
            objs@[1]@ == self@.ball,
            objs@[2]@ == self@.paddle,
            forall|k: int| 0 <= k < self@.bricks.len() ==> objs@[3 + k]@ == self@.bricks[k],
    {
        let mut objs: Vec<&GameObject> = Vec::new();
        objs.push(&self.playfield);
        objs.push(&self.ball);
        objs.push(&self.paddle);
        let mut i: usize = 0;
        while i < self.bricks.len()
            invariant
                i <= self.bricks.len(),
                objs@.len() == 3 + i,
                objs@[0] == &self.playfield,
                objs@[1] == &self.ball,
                objs@[2] == &self.paddle,
                forall|k: int| 0 <= k < i ==> objs@[3 + k] == &self.bricks@[k],
            decreases self.bricks.len() - i,
        {
            objs.push(&self.bricks[i]);
            i = i + 1;
        }
        objs
    }

    /// Live bounce event of the current tick.
    pub fn bounce(&self) -> (b: Option<Bounce>)
        ensures
            b == self@.bounce,
    {
        self.bounce
    }

    /// Advance the game by one frame: the first click observed starts the
    /// clock; from then on every call runs one physics tick.
    pub fn update(&mut self, control_state: &ControlState, now: u64, delta_t: u64)
        requires
            old(self).wf(),
            delta_t <= MAX_TICK,
        ensures
            final(self)@ == update_spec(
                old(self)@,
                control_state@,
                now as int,
                delta_t as int,
            ),
            final(self).wf(),
    {
        if self.game_started.is_none() && control_state.clicked() {
            self.game_started = Option::Some(now);
            proof {
                assert(self@ =~~= (LogicModel {
                    game_started: Option::Some(now as int),
                    ..old(self)@
                }));
            }
        }
        if self.game_started.is_some() {
            self.game_tick(control_state, now, delta_t);
        }
    }

    /// Paddle-tracking phase; see [`paddle_step`].
    fn tick_paddle(&mut self, mouse_x: i64, dt: i64)
        requires
            state_wf(old(self)@),
            0 <= dt <= MAX_TICK,
        ensures
            final(self)@ == paddle_step(old(self)@, mouse_x as int, dt as int),
            state_wf(final(self)@),
    {
        let half_pw: i64 = self.paddle.width / 2;
        let target: i64 = clamp(mouse_x, -SCALE + half_pw, SCALE - half_pw);
        let delta_x: i64 = target - self.paddle.x;
        proof {
            crate::units::lemma_mul_abs_bound(
                delta_x as int,
                dt as int,
                2 * SCALE as int,
                MAX_TICK as int,
            );
            crate::units::lemma_scale_mul_bound(
                delta_x as int,
                dt as int,
                2 * SCALE as int,
                MAX_TICK as int,
            );
        }
        let push: i64 = mul_scale(delta_x, dt);
        self.paddle.x_v = push;
        self.paddle.x = target;
        proof {
            assert(self@ =~~= paddle_step(old(self)@, mouse_x as int, dt as int));
        }
    }

    /// Ball-integration phase; see [`integrate_step`].
    fn tick_move_ball(&mut self, dt: i64)
        requires
            state_wf(old(self)@),
            0 <= dt <= MAX_TICK,
        ensures
            final(self)@ == integrate_step(old(self)@, dt as int),
            state_wf_loose(final(self)@),
    {
        proof {
            crate::units::lemma_mul_abs_bound(
                self.ball.x_v as int,
                dt as int,
                MAX_SPEED as int,
                MAX_TICK as int,
            );
            crate::units::lemma_mul_abs_bound(
                self.ball.y_v as int,
                dt as int,
                MAX_SPEED as int,
                MAX_TICK as int,
            );
            crate::units::lemma_scale_mul_bound(
                self.ball.x_v as int,
                dt as int,
                MAX_SPEED as int,
                MAX_TICK as int,
            );
            crate::units::lemma_scale_mul_bound(
                self.ball.y_v as int,
                dt as int,
                MAX_SPEED as int,
                MAX_TICK as int,
            );
        }
        let dx: i64 = mul_scale(self.ball.x_v, dt);
        let dy: i64 = mul_scale(self.ball.y_v, dt);
        self.ball.x = self.ball.x + dx;
        self.ball.y = self.ball.y + dy;
        proof {
            assert(self@ =~~= integrate_step(old(self)@, dt as int));
        }
    }

    /// Playfield-border phase; see [`border_step`].
    fn tick_borders(&mut self)
        requires
            state_wf_loose(old(self)@),
        ensures
            final(self)@ == border_step(old(self)@),
            state_wf(final(self)@),
            final(self)@.balls_remaining <= old(self)@.balls_remaining,
    {
        let ghost m2 = old(self)@;
        if 2 * self.ball.x + self.ball.width > 2 * SCALE {
            // right border
            self.ball.x_v = -self.ball.x_v;
            self.ball.x = SCALE - self.ball.width / 2;
            self.bounce = Option::Some(Bounce::PlayfieldBorder);
        }
        let ghost mr = right_border_step(m2);
        proof {
            assert(self@ =~~= mr);
            assert(abs_val(mr.ball.x) <= LOOSE_LIMIT as int);
        }
        if 2 * self.ball.x - self.ball.width < -2 * SCALE {
            // left border
            self.ball.x_v = -self.ball.x_v;
            self.ball.x = -SCALE + self.ball.width / 2;
            self.bounce = Option::Some(Bounce::PlayfieldBorder);
        }
        let ghost ml = left_border_step(mr);
        proof {
            assert(self@ =~~= ml);
            assert(-2 * SCALE as int <= 2 * ml.ball.x - ml.ball.width);
            assert(2 * ml.ball.x + ml.ball.width <= 2 * SCALE as int);
        }
        if 2 * self.ball.y + self.ball.height > 2 * SCALE {
            // top border
            self.ball.y_v = -self.ball.y_v;
            self.ball.y = SCALE - self.ball.height / 2;
            self.bounce = Option::Some(Bounce::PlayfieldBorder);
        }
        let ghost mt = top_border_step(ml);
        proof {
            assert(self@ =~~= mt);
        }
        if 2 * self.ball.y - self.ball.height < -2 * SCALE {
            // bottom border: a miss, not a bounce
            if self.balls_remaining > 0 {
                self.balls_remaining = self.balls_remaining - 1;
                self.ball = GameObject::ball(self.balls_remaining);
                self.too_late = false;
            } else {
                // game over: park the ball
                self.ball.x = 0;
                self.ball.y = BALL_PARK_Y;
                self.ball.x_v = 0;
                self.ball.y_v = 0;
            }
        }
        proof {
            lemma_ball_init_ok(m2.balls_remaining - 1);
            assert(self@ =~~= bottom_border_step(mt));
            assert(ball_ok(self@.ball));
        }
    }

    /// Paddle-collision phase; see [`paddle_bounce_step`].
    fn tick_paddle_bounce(&mut self)
        requires
            state_wf(old(self)@),
        ensures
            final(self)@ == paddle_bounce_step(old(self)@),
            state_wf(final(self)@),
    {
        if !self.too_late && objs_overlap(&self.paddle, &self.ball) {
            if self.ball.y_v < 0 {
                self.ball.y_v = -self.ball.y_v;
            }
            let push_v: i64 = self.paddle.x_v * PADDLE_PUSH_SCALE;
            self.ball.x_v = clamp(self.ball.x_v + push_v, -MAX_SPEED, MAX_SPEED);
            self.ball.y = self.paddle.y + self.paddle.height / 2 + self.ball.height / 2;
            self.bounce = Option::Some(Bounce::Paddle);
        }
        proof {
            assert(self@ =~~= paddle_bounce_step(old(self)@));
            assert(ball_ok(self@.ball));
        }
    }

    /// Too-late bookkeeping; see [`too_late_step`].
    fn tick_too_late(&mut self)
        requires
            state_wf(old(self)@),
        ensures
            final(self)@ == too_late_step(old(self)@),
            state_wf(final(self)@),
    {
        if 2 * self.ball.y - self.ball.height < 2 * self.paddle.y + self.paddle.height {
            self.too_late = true;
        }
        proof {
            assert(self@ =~~= too_late_step(old(self)@));
        }
    }

    /// Brick-collision phase; see [`brick_step`].
    #[verifier::loop_isolation(false)]
    fn tick_bricks(&mut self, now: u64)
        requires
            state_wf(old(self)@),
        ensures
            final(self)@ == brick_step(old(self)@, now as int),
            state_wf(final(self)@),
    {
        let ghost m5 = old(self)@;
        proof {
            assert forall|k: int| 0 <= k < self.bricks@.len() implies obj_bounded(
                #[trigger] self.bricks@[k]@,
            ) && self.bricks@[k]@ == m5.bricks[k] by {
                assert(self@.bricks[k] == self.bricks@[k]@);
                assert(brick_ok(m5.bricks[k]));
            }
            assert(obj_bounded(self.ball@));
        }
        let mut index: usize = 0;
        while index < self.bricks.len() && !objs_overlap(&self.bricks[index], &self.ball)
            invariant
                index <= self.bricks.len(),
                forall|k: int| 0 <= k < index ==> !overlap(#[trigger] m5.bricks[k], m5.ball),
            decreases self.bricks.len() - index,
        {
            index = index + 1;
        }
        if index < self.bricks.len() {
            proof {
                assert(self.bricks@[index as int]@ == m5.bricks[index as int]);
                assert(brick_ok(m5.bricks[index as int]));
            }
            // bounce the ball
            let b_right: i64 = self.bricks[index].x + self.bricks[index].width / 2;
            let b_left: i64 = self.bricks[index].x - self.bricks[index].width / 2;
            let b_top: i64 = self.bricks[index].y + self.bricks[index].height / 2;
            let b_bottom: i64 = self.bricks[index].y - self.bricks[index].height / 2;
            let a_right: i64 = self.ball.x + self.ball.width / 2;
            let a_left: i64 = self.ball.x - self.ball.width / 2;
            let a_top: i64 = self.ball.y + self.ball.height / 2;
            let a_bottom: i64 = self.ball.y - self.ball.height / 2;
            let lo_right: i64 = if b_right < a_right {
                b_right
            } else {
                a_right
            };
            let hi_left: i64 = if b_left > a_left {
                b_left
            } else {
                a_left
            };
            let mut overlap_w: i64 = lo_right - hi_left;
            if overlap_w < 0 {
                overlap_w = -overlap_w;
            }
            let lo_top: i64 = if b_top < a_top {
                b_top
            } else {
                a_top
            };
            let hi_bottom: i64 = if b_bottom > a_bottom {
                b_bottom
            } else {
                a_bottom
            };
            let mut overlap_h: i64 = lo_top - hi_bottom;
            if overlap_h < 0 {
                overlap_h = -overlap_h;
            }
            proof {
                assert(overlap_w as int == overlap_width(m5.bricks[index as int], m5.ball));
                assert(overlap_h as int == overlap_height(m5.bricks[index as int], m5.ball));
            }

            if overlap_w >= overlap_h {
                self.ball.y_v = -self.ball.y_v;
            }
            if overlap_h >= overlap_w {
                self.ball.x_v = -self.ball.x_v;
            }

            self.bounce = Option::Some(Bounce::Brick);

            // update score
            let elapsed: u64 = match self.game_started {
                Option::Some(t) => if now >= t {
                    now - t
                } else {
                    0
                },
                Option::None => 0,
            };
            let mult: u32 = time_elapsed_to_score_mult(elapsed);
            self.score = self.score + mult;

            // destroy the brick
            self.bricks.remove(index);
            proof {
                lemma_first_hit_prefix(m5.bricks, m5.ball, index as int);
                assert(first_hit_from(m5.bricks, m5.ball, 0) == Option::Some(index as int));
                assert(self@ =~~= brick_step(m5, now as int));
                m5.bricks.remove_ensures(index as int);
                assert(forall|k: int|
                    0 <= k < self@.bricks.len() ==> brick_ok(#[trigger] self@.bricks[k]));
            }
        } else {
            proof {
                lemma_first_hit_prefix(m5.bricks, m5.ball, m5.bricks.len() as int);
                assert(first_hit_from(m5.bricks, m5.ball, 0) is None);
                assert(self@ =~~= brick_step(m5, now as int));
            }
        }
    }

    /// One physics tick of the running game; see [`tick_spec`].
    fn game_tick(&mut self, control_state: &ControlState, now: u64, delta_t: u64)
        requires
            old(self).wf(),
            old(self)@.game_started is Some,
            delta_t <= MAX_TICK,
        ensures
            final(self)@ == tick_spec(
                old(self)@,
                control_state@.mouse_x,
                now as int,
                delta_t as int,
            ),
            final(self).wf(),
    {
        let dt: i64 = delta_t as i64;

        // upkeep
        self.bounce = Option::None;
        proof {
            assert(self@ =~~= (LogicModel { bounce: Option::None, ..old(self)@ }));
        }

        // move paddle to mouse
        let coords: (i64, i64) = control_state.mouse_coords();
        self.tick_paddle(coords.0, dt);

        // move ball
        self.tick_move_ball(dt);

        // check ball collisions with playfield border, paddle and bricks
        self.tick_borders();
        self.tick_paddle_bounce();
        self.tick_too_late();
        self.tick_bricks(now);
    }
}

// ---------------------------------------------------------------------------
// Laws of the simulation.
// ---------------------------------------------------------------------------

/// The overlap test is symmetric in its two boxes.
pub proof fn lemma_overlap_symmetric(a: ObjectModel, b: ObjectModel)
    ensures
        overlap(a, b) == overlap(b, a),
{
}

/// Boxes whose centers are at least the half-extent sum apart along either
/// axis do not overlap.
pub proof fn lemma_overlap_separated(a: ObjectModel, b: ObjectModel)
    requires
        2 * abs_val(a.x - b.x) >= a.width + b.width || 2 * abs_val(a.y - b.y) >= a.height
            + b.height,
    ensures
        !overlap(a, b),
{
}

/// Boxes that merely touch along an edge do not overlap: the test is strict.
pub proof fn lemma_overlap_touching(a: ObjectModel, b: ObjectModel)
    requires
        ({
            ||| 2 * a.x + a.width == 2 * b.x - b.width
            ||| 2 * b.x + b.width == 2 * a.x - a.width
            ||| 2 * a.y + a.height == 2 * b.y - b.height
            ||| 2 * b.y + b.height == 2 * a.y - a.height
        }),
    ensures
        !overlap(a, b),
{
}

/// Elastic reflection at the right playfield edge: where the integrated ball
/// has crossed it (and has not also dropped out at the bottom), the border
/// phase flips the sign of its horizontal velocity, leaves it resting
/// exactly on the border with zero residual penetration, and reports a
/// border bounce.
pub proof fn lemma_right_edge_reflects(m: LogicModel)
    requires
        state_wf_loose(m),
        2 * m.ball.x + m.ball.width > 2 * SCALE as int,
        -2 * SCALE as int <= 2 * m.ball.y - m.ball.height,
    ensures
        border_step(m).ball.x_v == -m.ball.x_v,
        2 * border_step(m).ball.x + border_step(m).ball.width == 2 * SCALE as int,
        border_step(m).bounce == Option::Some(Bounce::PlayfieldBorder),
{
}

/// Respawn: a bottom-boundary miss with lives remaining consumes exactly one
/// life, replaces the ball with the fresh-ball template for the new
/// counter's parity, and clears the too-late flag.
pub proof fn lemma_bottom_miss_respawns(m: LogicModel)
    requires
        state_wf_loose(m),
        2 * m.ball.y - m.ball.height < -2 * SCALE as int,
        2 * m.ball.y + m.ball.height <= 2 * SCALE as int,
        m.balls_remaining > 0,
    ensures
        border_step(m).balls_remaining == m.balls_remaining - 1,
        border_step(m).ball == ball_init(m.balls_remaining - 1),
        !border_step(m).too_late,
{
}

/// Game over: a bottom-boundary miss with no lives left parks the ball
/// motionless at `(0, -1/2)`, and the life counter stays at zero (no
/// underflow).
pub proof fn lemma_bottom_miss_game_over(m: LogicModel)
    requires
        state_wf_loose(m),
        2 * m.ball.y - m.ball.height < -2 * SCALE as int,
        2 * m.ball.y + m.ball.height <= 2 * SCALE as int,
        m.balls_remaining == 0,
    ensures
        border_step(m).balls_remaining == 0,
        border_step(m).ball.x == 0,
        border_step(m).ball.y == BALL_PARK_Y as int,
        border_step(m).ball.x_v == 0,
        border_step(m).ball.y_v == 0,
{
}

/// Where some brick at or after `i` overlaps the ball, the scan from `i`
/// finds one.
proof fn lemma_first_hit_finds_from(bricks: Seq<ObjectModel>, ball: ObjectModel, i: int, k: int)
    requires
        0 <= i <= k < bricks.len(),
        overlap(bricks[k], ball),
    ensures
        first_hit_from(bricks, ball, i) is Some,
    decreases k - i,
{
    if !overlap(bricks[i], ball) {
        lemma_first_hit_finds_from(bricks, ball, i + 1, k);
    }
}

/// Exactly one brick is destroyed on a tick whose ball overlaps any brick at
/// all — the first overlapping one in stored order, the rest keeping their
/// relative order — and the time-based multiplier is added to the score.
pub proof fn lemma_brick_step_one(m: LogicModel, now: int, k: int)
    requires
        0 <= k < m.bricks.len(),
        overlap(m.bricks[k], m.ball),
    ensures
        brick_step(m, now).bricks.len() == m.bricks.len() - 1,
        brick_step(m, now).score == m.score + score_mult(elapsed_time(m.game_started, now)),
        first_hit_from(m.bricks, m.ball, 0) matches Option::Some(i) && brick_step(m, now).bricks
            == m.bricks.remove(i),
{
    lemma_first_hit_finds_from(m.bricks, m.ball, 0, k);
    match first_hit_from(m.bricks, m.ball, 0) {
        Option::Some(i) => {
            lemma_first_hit_some(m.bricks, m.ball, 0, i);
        },
        Option::None => {
            assert(false);
        },
    }
}

/// A tick never grows the brick grid, removes at most one brick, never
/// lowers the score and never raises the life counter.
pub proof fn lemma_tick_monotone(m: LogicModel, mouse_x: int, now: int, dt: int)
    ensures
        m.bricks.len() - 1 <= tick_spec(m, mouse_x, now, dt).bricks.len() <= m.bricks.len(),
        tick_spec(m, mouse_x, now, dt).score >= m.score,
        m.balls_remaining >= 0 ==> 0 <= tick_spec(m, mouse_x, now, dt).balls_remaining
            <= m.balls_remaining,
{
    let m5 = too_late_step(
        paddle_bounce_step(
            border_step(
                integrate_step(
                    paddle_step(LogicModel { bounce: Option::None, ..m }, mouse_x, dt),
                    dt,
                ),
            ),
        ),
    );
    assert(m5.bricks == m.bricks);
    assert(m5.score == m.score);
    match first_hit_from(m5.bricks, m5.ball, 0) {
        Option::Some(i) => {
            lemma_first_hit_some(m5.bricks, m5.ball, 0, i);
        },
        Option::None => {},
    }
}

/// Over a whole update call the same monotonicity holds: the score never
/// drops, the life counter never rises, and the brick grid loses at most one
/// brick and never grows.
pub proof fn lemma_update_monotone(m: LogicModel, c: ControlModel, now: int, dt: int)
    ensures
        m.bricks.len() - 1 <= update_spec(m, c, now, dt).bricks.len() <= m.bricks.len(),
        update_spec(m, c, now, dt).score >= m.score,
        m.balls_remaining >= 0 ==> 0 <= update_spec(m, c, now, dt).balls_remaining
            <= m.balls_remaining,
{
    let m1 = if m.game_started is None && clicked_at(c) {
        LogicModel { game_started: Option::Some(now), ..m }
    } else {
        m
    };
    if m1.game_started is Some {
        lemma_tick_monotone(m1, c.mouse_x, now, dt);
    }
}

/// Integration bound: where one unconstrained Euler step can put the ball
/// before the border phase pulls it back into the playfield.
pub const LOOSE_LIMIT: i64 = 200_000_000_000_000;

/// A ball mid-tick: as [`ball_ok`], except that its center may sit up to one
/// integration step outside the playfield.
pub open spec fn ball_loose(o: ObjectModel) -> bool {
    &&& o.kind == GameObjectKind::Ball
    &&& o.width == BALL_WIDTH as int
    &&& o.height == BALL_HEIGHT as int
    &&& abs_val(o.x) <= LOOSE_LIMIT as int
    &&& abs_val(o.y) <= LOOSE_LIMIT as int
    &&& abs_val(o.x_v) <= MAX_SPEED as int
    &&& abs_val(o.y_v) <= MAX_SPEED as int
    &&& model_bounded(o.model)
}

/// Well-formedness between integration and border resolution: as
/// [`state_wf`], with the ball only loosely bounded.
pub open spec fn state_wf_loose(m: LogicModel) -> bool {
    &&& paddle_ok(m.paddle)
    &&& m.playfield == playfield_init()
    &&& ball_loose(m.ball)
    &&& forall|k: int| 0 <= k < m.bricks.len() ==> brick_ok(#[trigger] m.bricks[k])
    &&& 0 <= m.balls_remaining <= u32::MAX
    &&& 0 <= m.score
    &&& m.score + 10 * m.bricks.len() <= 4_000_000_000
    &&& (m.game_started matches Option::Some(t) ==> 0 <= t <= u64::MAX)
}

} // verus!

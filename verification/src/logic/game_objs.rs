//! The game entities: one generic rectangular (or triangular) object type
//! with a position, size, velocity, visual model and kind tag.

use vstd::prelude::*;

use crate::units::{abs_val, trunc_div, SCALE};
use crate::view::{
    iso_tri_down, iso_tri_down_model, quad, quad_model, Drawable, Vertex, VertexModel,
};

verus! {

/// Paddle width: a quarter of a logical unit.
pub const PADDLE_WIDTH: i64 = 2_500;

/// Paddle height.
pub const PADDLE_HEIGHT: i64 = 250;

/// Vertical position of the paddle's center.
pub const PADDLE_VERTICAL_OFFSET: i64 = -8_000;

/// Factor by which the paddle's per-tick velocity estimate pushes the ball.
pub const PADDLE_PUSH_SCALE: i64 = 600;

/// Ball width.
pub const BALL_WIDTH: i64 = 250;

/// Ball height.
pub const BALL_HEIGHT: i64 = 250;

/// Horizontal launch speed of a fresh ball: cos of the launch angle (290
/// degrees for an even life counter, 250 degrees for an odd one), on the
/// fixed-point grid.
pub const BALL_LAUNCH_X: i64 = 3_420;

/// Vertical launch speed of a fresh ball: sin of either launch angle.
pub const BALL_LAUNCH_Y: i64 = -9_397;

/// Vertical position a fresh ball starts from.
pub const BALL_START_Y: i64 = -2_500;

/// Where the ball comes to rest once the game is over.
pub const BALL_PARK_Y: i64 = -5_000;

/// Brick width: a tenth of a logical unit.
pub const BRICK_WIDTH: i64 = 1_000;

/// Brick height.
pub const BRICK_HEIGHT: i64 = 600;

/// Rows of the brick grid.
pub const BRICK_ROWS: usize = 12;

/// Columns of the brick grid.
pub const BRICK_COLUMNS: usize = 15;

/// What type of game object are we?
#[derive(Clone, Copy, Debug, PartialEq, Eq, Structural)]
pub enum GameObjectKind {
    Paddle,
    Brick(u32),
    Playfield,
    Ball,
}

/// Generic game object: an axis-aligned entity on the fixed-point grid.
#[derive(Debug, PartialEq)]
pub struct GameObject {
    /// Position of the object's center.
    pub x: i64,
    pub y: i64,
    /// Dimensions (fixed after creation).
    pub width: i64,
    pub height: i64,
    /// Velocity in units per second.
    pub x_v: i64,
    pub y_v: i64,
    /// Local-space visual model.
    pub model: Vec<Vertex>,
    /// Kind tag.
    pub kind: GameObjectKind,
}

/// Mathematical image of a [`GameObject`].
#[verifier::ext_equal]
pub ghost struct ObjectModel {
    pub x: int,
    pub y: int,
    pub width: int,
    pub height: int,
    pub x_v: int,
    pub y_v: int,
    pub model: Seq<VertexModel>,
    pub kind: GameObjectKind,
}

impl View for GameObject {
    type V = ObjectModel;

    open spec fn view(&self) -> ObjectModel {
        ObjectModel {
            x: self.x as int,
            y: self.y as int,
            width: self.width as int,
            height: self.height as int,
            x_v: self.x_v as int,
            y_v: self.y_v as int,
            model: self.model@.map_values(|v: Vertex| v@),
            kind: self.kind,
        }
    }
}

/// The paddle at rest in the middle of the lower playfield edge.
pub open spec fn paddle_init() -> ObjectModel {
    ObjectModel {
        x: 0,
        y: PADDLE_VERTICAL_OFFSET as int,
        width: PADDLE_WIDTH as int,
        height: PADDLE_HEIGHT as int,
        x_v: 0,
        y_v: 0,
        model: iso_tri_down_model(PADDLE_WIDTH as int, PADDLE_HEIGHT as int, 0, 10_000, 5_000),
        kind: GameObjectKind::Paddle,
    }
}

/// The playfield: a static two-by-two-unit backdrop centered on the origin.
pub open spec fn playfield_init() -> ObjectModel {
    ObjectModel {
        x: 0,
        y: 0,
        width: 2 * SCALE as int,
        height: 2 * SCALE as int,
        x_v: 0,
        y_v: 0,
        model: quad_model(2 * SCALE as int, 2 * SCALE as int, 10_000, 10_000, 10_000),
        kind: GameObjectKind::Playfield,
    }
}

/// A fresh ball: centered horizontally, launched downward at 290 degrees
/// when `num` is even and 250 degrees when it is odd.
pub open spec fn ball_init(num: int) -> ObjectModel {
    ObjectModel {
        x: 0,
        y: BALL_START_Y as int,
        width: BALL_WIDTH as int,
        height: BALL_HEIGHT as int,
        x_v: if num % 2 == 0 {
            BALL_LAUNCH_X as int
        } else {
            -BALL_LAUNCH_X as int
        },
        y_v: BALL_LAUNCH_Y as int,
        model: quad_model(BALL_WIDTH as int, BALL_HEIGHT as int, 2_590, 510, 6_710),
        kind: GameObjectKind::Ball,
    }
}

/// A brick of the standard size at the given center, with the given color.
pub open spec fn brick_init(x: int, y: int, cr: int, cg: int, cb: int) -> ObjectModel {
    ObjectModel {
        x: x,
        y: y,
        width: BRICK_WIDTH as int,
        height: BRICK_HEIGHT as int,
        x_v: 0,
        y_v: 0,
        model: quad_model(BRICK_WIDTH as int, BRICK_HEIGHT as int, cr, cg, cb),
        kind: GameObjectKind::Brick(1),
    }
}

/// Horizontal center of grid column `i`: `(i + 1/2) * 2/BRICK_COLUMNS - 1`
/// on the fixed-point grid, rounded toward zero.
pub open spec fn brick_grid_x(i: int) -> int {
    trunc_div((2 * i + 1) * SCALE as int, BRICK_COLUMNS as int) - SCALE as int
}

/// Vertical center of grid row `j`: `(j + 1/2) / BRICK_ROWS` (top half of
/// the playfield only), rounded toward zero.
pub open spec fn brick_grid_y(j: int) -> int {
    trunc_div((2 * j + 1) * SCALE as int, 2 * BRICK_ROWS as int)
}

/// The full starting grid, column by column, each column top to bottom.
pub open spec fn bricks_init() -> Seq<ObjectModel> {
    Seq::new(
        (BRICK_COLUMNS * BRICK_ROWS) as nat,
        |k: int|
            brick_init(
                brick_grid_x(k / BRICK_ROWS as int),
                brick_grid_y(k % BRICK_ROWS as int),
                5_000,
                0,
                1_000,
            ),
    )
}

impl GameObject {
    pub fn new(
        x: i64,
        y: i64,
        width: i64,
        height: i64,
        x_v: i64,
        y_v: i64,
        model: Vec<Vertex>,
        kind: GameObjectKind,
    ) -> (g: GameObject)
        ensures
            g == (GameObject { x, y, width, height, x_v, y_v, model, kind }),
    {
        GameObject { x, y, width, height, x_v, y_v, model, kind }
    }

    /// The paddle at its starting position.
    pub fn paddle() -> (g: GameObject)
        ensures
            g@ == paddle_init(),
    {
        let g = Self::new(
            0,
            PADDLE_VERTICAL_OFFSET,
            PADDLE_WIDTH,
            PADDLE_HEIGHT,
            0,
            0,
            vec_of_tri(iso_tri_down(PADDLE_WIDTH, PADDLE_HEIGHT, [0, 10_000, 5_000])),
            GameObjectKind::Paddle,
        );
        proof {
            assert(g@ =~= paddle_init());
        }
        g
    }

    /// The static playfield backdrop.
    pub fn playfield() -> (g: GameObject)
        ensures
            g@ == playfield_init(),
    {
        let g = Self::new(
            0,
            0,
            2 * SCALE,
            2 * SCALE,
            0,
            0,
            vec_of_quad(quad(2 * SCALE, 2 * SCALE, [10_000, 10_000, 10_000])),
            GameObjectKind::Playfield,
        );
        proof {
            assert(g@ =~= playfield_init());
        }
        g
    }

    /// A fresh ball, its launch angle picked by the parity of `num`.
    pub fn ball(num: u32) -> (g: GameObject)
        ensures
            g@ == ball_init(num as int),
    {
        let x_v: i64 = if num % 2 == 0 {
            BALL_LAUNCH_X
        } else {
            -BALL_LAUNCH_X
        };
        let g = Self::new(
            0,
            BALL_START_Y,
            BALL_WIDTH,
            BALL_HEIGHT,
            x_v,
            BALL_LAUNCH_Y,
            vec_of_quad(quad(BALL_WIDTH, BALL_HEIGHT, [2_590, 510, 6_710])),
            GameObjectKind::Ball,
        );
        proof {
            assert(g@ =~= ball_init(num as int));
        }
        g
    }

    /// A brick of the standard size at the given center.
    pub fn brick(x: i64, y: i64, color: [i64; 3]) -> (g: GameObject)
        ensures
            g@ == brick_init(
                x as int,
                y as int,
                color@[0] as int,
                color@[1] as int,
                color@[2] as int,
            ),
    {
        let g = Self::new(
            x,
            y,
            BRICK_WIDTH,
            BRICK_HEIGHT,
            0,
            0,
            vec_of_quad(quad(BRICK_WIDTH, BRICK_HEIGHT, color)),
            GameObjectKind::Brick(1),
        );
        proof {
            assert(g@ =~= brick_init(
                x as int,
                y as int,
                color@[0] as int,
                color@[1] as int,
                color@[2] as int,
            ));
        }
        g
    }

    /// The full starting grid of bricks.
    pub fn bricks() -> (bricks: Vec<GameObject>)
        ensures
            bricks@.map_values(|g: GameObject| g@) == bricks_init(),
    {
        let mut bricks: Vec<GameObject> = Vec::new();
        let mut i: usize = 0;
        while i < BRICK_COLUMNS
            invariant
                i <= BRICK_COLUMNS,
                bricks@.len() == i * BRICK_ROWS,
                forall|k: int|
                    0 <= k < bricks@.len() ==> bricks@.map_values(|g: GameObject| g@)[k]
                        == bricks_init()[k],
            decreases BRICK_COLUMNS - i,
        {
            let x: i64 = ((2 * (i as i64) + 1) * SCALE) / (BRICK_COLUMNS as i64) - SCALE;
            let mut j: usize = 0;
            while j < BRICK_ROWS
                invariant
                    i < BRICK_COLUMNS,
                    j <= BRICK_ROWS,
                    x == brick_grid_x(i as int),
                    bricks@.len() == i * BRICK_ROWS + j,
                    forall|k: int|
                        0 <= k < bricks@.len() ==> bricks@.map_values(|g: GameObject| g@)[k]
                            == bricks_init()[k],
                decreases BRICK_ROWS - j,
            {
                let y: i64 = ((2 * (j as i64) + 1) * SCALE) / (2 * (BRICK_ROWS as i64));
                let b = Self::brick(x, y, [5_000, 0, 1_000]);
                proof {
                    let k = bricks@.len() as int;
                    assert(k == i * BRICK_ROWS + j);
                    assert(k / BRICK_ROWS as int == i as int && k % BRICK_ROWS as int == j as int)
                        by (nonlinear_arith)
                        requires
                            k == i * BRICK_ROWS + j,
                            0 <= j < BRICK_ROWS,
                            BRICK_ROWS == 12,
                            0 <= i,
                    ;
                    assert(y == brick_grid_y(j as int));
                }
                bricks.push(b);
                proof {
                    assert(forall|k: int|
                        0 <= k < bricks@.len() ==> bricks@.map_values(|g: GameObject| g@)[k]
                            == bricks_init()[k]);
                }
                j = j + 1;
            }
            i = i + 1;
        }
        proof {
            assert(bricks@.map_values(|g: GameObject| g@) =~= bricks_init());
        }
        bricks
    }
}

/// All coordinates of a visual model stay within two logical units of its
/// origin, so translating it by an in-playfield position cannot overflow.
pub open spec fn model_bounded(s: Seq<VertexModel>) -> bool {
    forall|i: int|
        0 <= i < s.len() ==> abs_val(#[trigger] s[i].px) <= 2 * SCALE as int && abs_val(s[i].py)
            <= 2 * SCALE as int && abs_val(s[i].pz) <= 2 * SCALE as int
}

/// A quad template of at most playfield size stays within model bounds.
pub proof fn lemma_quad_model_bounded(w: int, h: int, cr: int, cg: int, cb: int)
    requires
        0 <= w <= 4 * SCALE as int,
        0 <= h <= 4 * SCALE as int,
    ensures
        model_bounded(quad_model(w, h, cr, cg, cb)),
{
    let s = quad_model(w, h, cr, cg, cb);
    assert forall|i: int| 0 <= i < s.len() implies abs_val(#[trigger] s[i].px) <= 2 * SCALE as int
        && abs_val(s[i].py) <= 2 * SCALE as int && abs_val(s[i].pz) <= 2 * SCALE as int by {
        assert(0 <= w / 2 <= 2 * SCALE as int);
        assert(0 <= h / 2 <= 2 * SCALE as int);
    }
}

/// A triangle template of at most playfield size stays within model bounds.
pub proof fn lemma_tri_model_bounded(w: int, h: int, cr: int, cg: int, cb: int)
    requires
        0 <= w <= 4 * SCALE as int,
        0 <= h <= 4 * SCALE as int,
    ensures
        model_bounded(iso_tri_down_model(w, h, cr, cg, cb)),
{
    let s = iso_tri_down_model(w, h, cr, cg, cb);
    assert forall|i: int| 0 <= i < s.len() implies abs_val(#[trigger] s[i].px) <= 2 * SCALE as int
        && abs_val(s[i].py) <= 2 * SCALE as int && abs_val(s[i].pz) <= 2 * SCALE as int by {
        assert(0 <= w / 2 <= 2 * SCALE as int);
        assert(0 <= h / 2 <= 2 * SCALE as int);
    }
}

/// `s` moved by `(dx, dy)`: the world-space image of a local-space model.
pub open spec fn translate_model(s: Seq<VertexModel>, dx: int, dy: int) -> Seq<VertexModel> {
    s.map_values(|v: VertexModel| VertexModel { px: v.px + dx, py: v.py + dy, ..v })
}

impl Drawable for GameObject {
    open spec fn vertices_ok(&self) -> bool {
        &&& abs_val(self@.x) <= 2 * SCALE as int
        &&& abs_val(self@.y) <= 2 * SCALE as int
        &&& model_bounded(self@.model)
    }

    open spec fn vertices_model(&self) -> Seq<VertexModel> {
        translate_model(self@.model, self@.x, self@.y)
    }

    fn get_vertices(&self) -> (v: Vec<Vertex>) {
        let mut out: Vec<Vertex> = Vec::new();
        let mut i: usize = 0;
        while i < self.model.len()
            invariant
                self.vertices_ok(),
                i <= self.model.len(),
                out@.len() == i,
                forall|k: int| 0 <= k < i ==> out@[k]@ == self.vertices_model()[k],
            decreases self.model.len() - i,
        {
            let m = &self.model[i];
            proof {
                assert(self@.model[i as int] == self.model@[i as int]@);
                assert(abs_val(self@.model[i as int].px) <= 2 * SCALE as int);
                assert(abs_val(self@.model[i as int].py) <= 2 * SCALE as int);
            }
            out.push(
                Vertex {
                    position: [m.position[0] + self.x, m.position[1] + self.y, m.position[2]],
                    color: m.color,
                },
            );
            i = i + 1;
        }
        proof {
            assert(out@.map_values(|x: Vertex| x@) =~= self.vertices_model());
        }
        out
    }
}

/// The static backdrop: a white quad covering the whole playfield.  It never
/// moves and never collides; it only draws.
pub struct Playfield {}

impl Playfield {
    pub fn new() -> (p: Playfield)
        ensures
            p.vertices_ok(),
    {
        Playfield {  }
    }
}

impl Drawable for Playfield {
    open spec fn vertices_ok(&self) -> bool {
        true
    }

    open spec fn vertices_model(&self) -> Seq<VertexModel> {
        quad_model(2 * SCALE as int, 2 * SCALE as int, 10_000, 10_000, 10_000)
    }

    fn get_vertices(&self) -> (v: Vec<Vertex>) {
        let v = vec_of_quad(quad(2 * SCALE, 2 * SCALE, [10_000, 10_000, 10_000]));
        proof {
            assert(v@.map_values(|x: Vertex| x@) =~= self.vertices_model());
        }
        v
    }
}

/// The vertices of a triangle template, as a growable vector.
pub fn vec_of_tri(a: [Vertex; 3]) -> (v: Vec<Vertex>)
    ensures
        v@ == a@,
{
    let v = vec![a[0], a[1], a[2]];
    proof {
        assert(v@ =~= a@);
    }
    v
}

/// The vertices of a quad template, as a growable vector.
pub fn vec_of_quad(a: [Vertex; 6]) -> (v: Vec<Vertex>)
    ensures
        v@ == a@,
{
    let v = vec![a[0], a[1], a[2], a[3], a[4], a[5]];
    proof {
        assert(v@ =~= a@);
    }
    v
}

} // verus!

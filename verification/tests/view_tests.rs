use breakout::logic::game_objs::{GameObject, GameObjectKind, Playfield};
use breakout::view::{iso_tri_down, quad, Drawable, Vertex};

#[test]
fn quad_scaling() {
    let q = quad(20_000, 20_000, [0, 0, 0]);
    assert_eq!(
        q,
        [
            Vertex {
                position: [10_000, 10_000, 0],
                color: [0, 0, 0],
            },
            Vertex {
                position: [-10_000, 10_000, 0],
                color: [0, 0, 0],
            },
            Vertex {
                position: [-10_000, -10_000, 0],
                color: [0, 0, 0],
            },
            Vertex {
                position: [10_000, 10_000, 0],
                color: [0, 0, 0],
            },
            Vertex {
                position: [-10_000, -10_000, 0],
                color: [0, 0, 0],
            },
            Vertex {
                position: [10_000, -10_000, 0],
                color: [0, 0, 0],
            },
        ]
    );
}

#[test]
fn iso_tri_down_shape() {
    let t = iso_tri_down(2_500, 250, [0, 10_000, 5_000]);
    assert_eq!(t[0].position, [-1_250, 125, 0]);
    assert_eq!(t[1].position, [0, -125, 0]);
    assert_eq!(t[2].position, [1_250, 125, 0]);
    assert_eq!(t[0].color, [0, 10_000, 5_000]);
}

#[test]
fn get_vertices_translates_model() {
    let b = GameObject::brick(100, 200, [5_000, 0, 1_000]);
    let v = b.get_vertices();
    assert_eq!(v.len(), 6);
    // first vertex of the quad template is (width/2, height/2)
    assert_eq!(v[0].position, [600, 500, 0]);
    assert_eq!(v[2].position, [-400, -100, 0]);
    assert_eq!(v[0].color, [5_000, 0, 1_000]);
}

#[test]
fn playfield_backdrop_covers_playfield() {
    let p = Playfield::new();
    let v = p.get_vertices();
    assert_eq!(v.len(), 6);
    assert_eq!(v[0].position, [10_000, 10_000, 0]);
    assert_eq!(v[4].position, [-10_000, -10_000, 0]);
    assert_eq!(v[0].color, [10_000, 10_000, 10_000]);
}

#[test]
fn ball_template_alternates_launch_angle() {
    let even = GameObject::ball(2);
    assert_eq!(even.kind, GameObjectKind::Ball);
    assert_eq!((even.x, even.y), (0, -2_500));
    assert_eq!((even.x_v, even.y_v), (3_420, -9_397));

    let odd = GameObject::ball(1);
    assert_eq!((odd.x_v, odd.y_v), (-3_420, -9_397));
}

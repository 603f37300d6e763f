use breakout::control::{ControlState, ElementState, MouseButton};
use breakout::logic::game_objs::{GameObject, GameObjectKind};
use breakout::logic::interaction::Bounce;
use breakout::logic::{objs_overlap, time_elapsed_to_score_mult, LogicState};

fn plain_box(x: i64, y: i64, width: i64, height: i64) -> GameObject {
    GameObject::new(x, y, width, height, 0, 0, Vec::new(), GameObjectKind::Brick(1))
}

/// A game that has started, with the pointer resting at the center.
fn running_game() -> (LogicState, ControlState) {
    let mut state = LogicState::new();
    state.game_started = Some(0);
    (state, ControlState::new())
}

#[test]
fn overlap_is_symmetric() {
    let a = plain_box(0, 0, 1_000, 600);
    let b = plain_box(900, 100, 1_000, 600);
    assert!(objs_overlap(&a, &b));
    assert!(objs_overlap(&b, &a));

    let c = plain_box(5_000, 0, 1_000, 600);
    assert!(!objs_overlap(&a, &c));
    assert!(!objs_overlap(&c, &a));
}

#[test]
fn overlap_false_when_separated_on_either_axis() {
    let a = plain_box(0, 0, 1_000, 600);
    // centers a full half-extent sum apart on x
    assert!(!objs_overlap(&a, &plain_box(2_000, 0, 1_000, 600)));
    // and on y
    assert!(!objs_overlap(&a, &plain_box(0, 1_500, 1_000, 600)));
}

#[test]
fn overlap_false_on_touching_edges() {
    let a = plain_box(0, 0, 1_000, 600);
    // b's left edge exactly on a's right edge
    let b = plain_box(1_000, 0, 1_000, 600);
    assert!(!objs_overlap(&a, &b));
    // touching along y
    let c = plain_box(0, 600, 1_000, 600);
    assert!(!objs_overlap(&a, &c));
}

#[test]
fn overlap_is_a_pure_function() {
    let a = plain_box(0, 0, 1_000, 600);
    let b = plain_box(900, 100, 1_000, 600);
    let first = objs_overlap(&a, &b);
    let second = objs_overlap(&a, &b);
    assert_eq!(first, second);
}

#[test]
fn right_edge_reflects_elastically() {
    let (mut state, control) = running_game();
    state.bricks = Vec::new();
    state.ball.x = 9_875;
    state.ball.y = -2_000;
    state.ball.x_v = 10_000;
    state.ball.y_v = 0;

    // 0.02 s: the ball integrates to x = 10_075, crossing the right edge
    state.update(&control, 0, 200);

    assert_eq!(state.ball.x_v, -10_000);
    assert_eq!(state.ball.x + state.ball.width / 2, 10_000);
    assert_eq!(state.bounce(), Some(Bounce::PlayfieldBorder));
}

#[test]
fn bottom_miss_respawns_with_one_life_less() {
    let (mut state, control) = running_game();
    state.bricks = Vec::new();
    state.balls_remaining = 2;
    state.too_late = true;
    state.ball.x = 0;
    state.ball.y = -9_875;
    state.ball.x_v = 0;
    state.ball.y_v = -10_000;

    state.update(&control, 0, 200);

    assert_eq!(state.balls_remaining, 1);
    // respawn template for an odd counter: launch angle 250 degrees
    assert_eq!((state.ball.x, state.ball.y), (0, -2_500));
    assert_eq!((state.ball.x_v, state.ball.y_v), (-3_420, -9_397));
    assert!(!state.too_late);
    // a miss is not a bounce
    assert_eq!(state.bounce(), None);
}

#[test]
fn bottom_miss_with_no_lives_parks_the_ball() {
    let (mut state, control) = running_game();
    state.bricks = Vec::new();
    state.balls_remaining = 0;
    state.ball.x = 300;
    state.ball.y = -9_875;
    state.ball.x_v = 0;
    state.ball.y_v = -10_000;

    state.update(&control, 0, 200);

    assert_eq!(state.balls_remaining, 0);
    assert_eq!((state.ball.x, state.ball.y), (0, -5_000));
    assert_eq!((state.ball.x_v, state.ball.y_v), (0, 0));
    assert_eq!(state.bounce(), None);
}

#[test]
fn one_brick_destroyed_even_when_two_overlap() {
    let (mut state, control) = running_game();
    state.bricks = vec![
        GameObject::brick(-400, 0, [5_000, 0, 1_000]),
        GameObject::brick(400, 0, [5_000, 0, 1_000]),
    ];
    state.ball.x = 0;
    state.ball.y = 0;
    state.ball.x_v = 0;
    state.ball.y_v = 0;

    // a zero-length tick still resolves collisions
    state.update(&control, 0, 0);

    assert_eq!(state.bricks.len(), 1);
    // the first overlapping brick in stored order is the one removed
    assert_eq!(state.bricks[0].x, 400);
    assert_eq!(state.bounce(), Some(Bounce::Brick));
    assert_eq!(state.score, 10);
}

#[test]
fn brick_at_five_seconds_scores_ten() {
    let (mut state, control) = running_game();
    state.bricks = vec![GameObject::brick(0, 0, [5_000, 0, 1_000])];
    state.ball.x = 0;
    state.ball.y = 0;
    state.ball.x_v = 0;
    state.ball.y_v = 0;

    state.update(&control, 50_000, 0);

    assert_eq!(state.bricks.len(), 0);
    assert_eq!(state.score, 10);
}

#[test]
fn brick_at_forty_five_seconds_scores_two() {
    let (mut state, control) = running_game();
    state.bricks = vec![GameObject::brick(0, 0, [5_000, 0, 1_000])];
    state.ball.x = 0;
    state.ball.y = 0;
    state.ball.x_v = 0;
    state.ball.y_v = 0;

    state.update(&control, 450_000, 0);

    assert_eq!(state.bricks.len(), 0);
    assert_eq!(state.score, 2);
}

#[test]
fn paddle_bounces_straight_falling_ball() {
    let (mut state, control) = running_game();
    state.bricks = Vec::new();
    // paddle at x = 0 (width 0.25, vertical offset -0.8), ball straight down
    state.ball.x = 0;
    state.ball.y = -7_900;
    state.ball.x_v = 0;
    state.ball.y_v = -10_000;

    state.update(&control, 0, 200);

    assert!(state.ball.y_v > 0);
    assert_eq!(state.ball.y_v, 10_000);
    // the ball rests exactly on top of the paddle
    assert_eq!(state.ball.y, -7_750);
    assert_eq!(state.bounce(), Some(Bounce::Paddle));
}

#[test]
fn full_grid_loses_exactly_one_brick() {
    let (mut state, control) = running_game();
    assert_eq!(state.bricks.len(), 180);
    // fly straight up into the center column's bottom brick
    state.ball.x = 0;
    state.ball.y = -100;
    state.ball.x_v = 0;
    state.ball.y_v = 10_000;

    state.update(&control, 0, 100);

    assert_eq!(state.bricks.len(), 179);
    assert_eq!(state.score, 10);
    assert_eq!(state.bounce(), Some(Bounce::Brick));
}

#[test]
fn paddle_push_imparts_sideways_velocity() {
    let (mut state, mut control) = running_game();
    state.bricks = Vec::new();
    // ball falls straight onto the paddle while the pointer jumps sideways
    state.ball.x = 5_000;
    state.ball.y = -7_900;
    state.ball.x_v = 0;
    state.ball.y_v = -10_000;
    control.on_cursor_moved(1_000, 1_000, 750, 500);

    state.update(&control, 0, 200);

    // the paddle moved 0.5 units in 0.02 s; its velocity estimate is the
    // delta scaled by the duration (5000 * 200 / 10000 = 100), and the push
    // is 600 times that
    assert_eq!(state.paddle.x, 5_000);
    assert_eq!(state.paddle.x_v, 100);
    assert_eq!(state.ball.x_v, 60_000);
    assert_eq!(state.bounce(), Some(Bounce::Paddle));
}

#[test]
fn extreme_frame_duration_is_survived() {
    let (mut state, control) = running_game();
    // 100 s in one tick: the ball tunnels to the right and out the bottom,
    // costing a life and respawning
    state.update(&control, 1_000_000, 1_000_000);
    assert_eq!(state.balls_remaining, 1);
    assert_eq!((state.ball.x, state.ball.y), (0, -2_500));
    assert_eq!((state.ball.x_v, state.ball.y_v), (-3_420, -9_397));
    // the border bounce on the way out is the tick's reported event
    assert_eq!(state.bounce(), Some(Bounce::PlayfieldBorder));
}

#[test]
fn fresh_game_state() {
    let state = LogicState::new();
    assert_eq!(state.balls_remaining, 2);
    assert_eq!(state.score, 0);
    assert_eq!(state.bricks.len(), 180);
    assert_eq!(state.bounce(), None);
    assert!(!state.too_late);
    assert_eq!(state.game_started, None);
    assert_eq!((state.ball.x, state.ball.y), (0, -2_500));
    assert_eq!((state.ball.x_v, state.ball.y_v), (3_420, -9_397));
    assert_eq!(state.paddle.x, 0);
}

#[test]
fn nothing_moves_before_the_first_click() {
    let mut state = LogicState::new();
    let control = ControlState::new();
    state.update(&control, 5, 200);
    assert_eq!(state.game_started, None);
    assert_eq!((state.ball.x, state.ball.y), (0, -2_500));
    assert_eq!(state.score, 0);
}

#[test]
fn first_click_starts_the_clock_and_the_ball() {
    let mut state = LogicState::new();
    let mut control = ControlState::new();
    control.on_mouse_input(1, ElementState::Pressed, MouseButton::Left);
    control.on_mouse_input(2, ElementState::Released, MouseButton::Left);

    state.update(&control, 7, 200);

    assert_eq!(state.game_started, Some(7));
    // the ball has integrated one step: v * 0.02 s
    assert_eq!(state.ball.x, 68);
    assert_eq!(state.ball.y, -2_500 - 187);
}

#[test]
fn started_flag_guards_against_restart() {
    let mut state = LogicState::new();
    let mut control = ControlState::new();
    control.on_mouse_input(1, ElementState::Pressed, MouseButton::Left);
    control.on_mouse_input(2, ElementState::Released, MouseButton::Left);

    state.update(&control, 7, 0);
    assert_eq!(state.game_started, Some(7));

    // clicked() stays true (it is a level query), but the started flag keeps
    // the start time from being stamped again
    assert!(control.clicked());
    state.update(&control, 99, 0);
    assert_eq!(state.game_started, Some(7));
}

#[test]
fn game_over_state_is_stable() {
    let (mut state, control) = running_game();
    state.bricks = Vec::new();
    state.balls_remaining = 0;
    state.ball.x = 0;
    state.ball.y = -9_875;
    state.ball.x_v = 0;
    state.ball.y_v = -10_000;

    state.update(&control, 0, 200);
    assert_eq!((state.ball.x, state.ball.y), (0, -5_000));

    // subsequent ticks leave the parked ball and the score untouched
    state.update(&control, 200, 200);
    state.update(&control, 400, 200);
    assert_eq!((state.ball.x, state.ball.y), (0, -5_000));
    assert_eq!((state.ball.x_v, state.ball.y_v), (0, 0));
    assert_eq!(state.balls_remaining, 0);
    assert_eq!(state.score, 0);
    assert_eq!(state.bounce(), None);
}

#[test]
fn game_objs_lists_playfield_ball_paddle_then_bricks() {
    let state = LogicState::new();
    let objs = state.game_objs();
    assert_eq!(objs.len(), 183);
    assert_eq!(objs[0].kind, GameObjectKind::Playfield);
    assert_eq!(objs[1].kind, GameObjectKind::Ball);
    assert_eq!(objs[2].kind, GameObjectKind::Paddle);
    assert_eq!(objs[3].kind, GameObjectKind::Brick(1));
}

#[test]
fn score_multiplier_thresholds() {
    assert_eq!(time_elapsed_to_score_mult(0), 10);
    assert_eq!(time_elapsed_to_score_mult(99_999), 10);
    assert_eq!(time_elapsed_to_score_mult(100_000), 5);
    assert_eq!(time_elapsed_to_score_mult(299_999), 5);
    assert_eq!(time_elapsed_to_score_mult(300_000), 2);
    assert_eq!(time_elapsed_to_score_mult(599_999), 2);
    assert_eq!(time_elapsed_to_score_mult(600_000), 1);
}

#[test]
fn paddle_follows_the_pointer_within_bounds() {
    let (mut state, mut control) = running_game();
    state.bricks = Vec::new();
    control.on_cursor_moved(1_000, 1_000, 750, 500);
    assert_eq!(control.mouse_coords().0, 5_000);

    state.update(&control, 0, 200);
    assert_eq!(state.paddle.x, 5_000);

    // pointer beyond the edge: the paddle stops at the playfield border
    control.on_cursor_moved(1_000, 1_000, 1_000, 500);
    state.update(&control, 0, 200);
    assert_eq!(state.paddle.x, 10_000 - 1_250);
}

//! Control input adapter: normalizes pointer coordinates into the
//! playfield's coordinate space and records click edges.
//!
//! A front end feeds raw window events in as plain values (window size and
//! cursor position in pixels, button edges with a frame stamp); the
//! simulation reads back a normalized pointer position and a click query.

use vstd::prelude::*;

use crate::units::{abs_val, trunc_div, SCALE};

verus! {

/// Largest window size and cursor magnitude accepted, in pixels; keeps the
/// normalization arithmetic inside `i64` range.
pub const PIXEL_LIMIT: i64 = 1_000_000;

/// A pointer button, as far as the simulation cares: only the left (primary)
/// button is tracked.
#[derive(Clone, Copy, Debug, PartialEq, Eq, Structural)]
pub enum MouseButton {
    Left,
    Right,
    Middle,
    Other,
}

/// Whether a button went down or up.
#[derive(Clone, Copy, Debug, PartialEq, Eq, Structural)]
pub enum ElementState {
    Pressed,
    Released,
}

/// Pointer state in the simulation's coordinate space.
pub struct ControlState {
    /// Pointer position normalized to the playfield: `[-SCALE, SCALE]`
    /// spans the window's smaller axis, the larger axis extending beyond.
    pub mouse_x_relative: i64,
    pub mouse_y_relative: i64,
    /// Frame stamps of the most recent left-button release and press.
    pub lmb_up_frame: Option<u64>,
    pub lmb_down_frame: Option<u64>,
}

/// Mathematical image of a [`ControlState`].
#[verifier::ext_equal]
pub ghost struct ControlModel {
    pub mouse_x: int,
    pub mouse_y: int,
    pub lmb_up_frame: Option<int>,
    pub lmb_down_frame: Option<int>,
}

/// An optional frame stamp, widened to `int`.
pub open spec fn frame_opt(o: Option<u64>) -> Option<int> {
    match o {
        Option::Some(v) => Option::Some(v as int),
        Option::None => Option::None,
    }
}

impl View for ControlState {
    type V = ControlModel;

    open spec fn view(&self) -> ControlModel {
        ControlModel {
            mouse_x: self.mouse_x_relative as int,
            mouse_y: self.mouse_y_relative as int,
            lmb_up_frame: frame_opt(self.lmb_up_frame),
            lmb_down_frame: frame_opt(self.lmb_down_frame),
        }
    }
}

/// The initial control state: pointer at the center, no edges recorded.
pub open spec fn control_init() -> ControlModel {
    ControlModel {
        mouse_x: 0,
        mouse_y: 0,
        lmb_up_frame: Option::None,
        lmb_down_frame: Option::None,
    }
}

/// A click has happened iff a press and a release are both recorded and the
/// release came on the same frame as the press or later.  This is a level
/// query recomputed from the stored edges, not a consumed one-shot signal.
pub open spec fn clicked_at(c: ControlModel) -> bool {
    &&& c.lmb_up_frame matches Option::Some(up)
    &&& c.lmb_down_frame matches Option::Some(down)
    &&& up >= down
}

/// The control state after a button edge: a left press or release stamps
/// the matching frame field, any other button changes nothing.
pub open spec fn input_step(
    c: ControlModel,
    frame: int,
    state: ElementState,
    button: MouseButton,
) -> ControlModel {
    if button == MouseButton::Left {
        match state {
            ElementState::Pressed => ControlModel { lmb_down_frame: Option::Some(frame), ..c },
            ElementState::Released => ControlModel { lmb_up_frame: Option::Some(frame), ..c },
        }
    } else {
        c
    }
}

/// The pointer position after a cursor move: each pixel coordinate is
/// mapped to `[-SCALE, SCALE]` across its window axis, then the longer
/// axis is stretched by the aspect ratio so a square in logical space stays
/// square on screen.
pub open spec fn cursor_step(c: ControlModel, w: int, h: int, px: int, py: int) -> ControlModel {
    let mx = trunc_div(px * 2 * SCALE as int, w) - SCALE as int;
    let my = trunc_div(py * 2 * SCALE as int, h) - SCALE as int;
    if w > h {
        ControlModel { mouse_x: trunc_div(mx * w, h), mouse_y: my, ..c }
    } else {
        ControlModel { mouse_x: mx, mouse_y: trunc_div(my * h, w), ..c }
    }
}

impl ControlState {
    pub fn new() -> (c: ControlState)
        ensures
            c@ == control_init(),
    {
        let c = ControlState {
            mouse_x_relative: 0,
            mouse_y_relative: 0,
            lmb_up_frame: Option::None,
            lmb_down_frame: Option::None,
        };
        proof {
            assert(c@ =~= control_init());
        }
        c
    }

    /// Has the user clicked?
    pub fn clicked(&self) -> (r: bool)
        ensures
            r == clicked_at(self@),
    {
        match (self.lmb_up_frame, self.lmb_down_frame) {
            (Option::Some(up_frame), Option::Some(down_frame)) => up_frame >= down_frame,
            _ => false,
        }
    }

    /// Return the current position of the mouse, relative to the playfield.
    pub fn mouse_coords(&self) -> (r: (i64, i64))
        ensures
            r.0 == self@.mouse_x,
            r.1 == self@.mouse_y,
    {
        (self.mouse_x_relative, self.mouse_y_relative)
    }

    /// Record a button edge seen on frame `frame_count`.
    pub fn on_mouse_input(
        &mut self,
        frame_count: u64,
        button_state: ElementState,
        button: MouseButton,
    )
        ensures
            final(self)@ == input_step(old(self)@, frame_count as int, button_state, button),
    {
        match button {
            MouseButton::Left => match button_state {
                ElementState::Pressed => self.lmb_down_frame = Option::Some(frame_count),
                ElementState::Released => self.lmb_up_frame = Option::Some(frame_count),
            },
            _ => (),
        }
        proof {
            assert(self@ =~= input_step(old(self)@, frame_count as int, button_state, button));
        }
    }

    /// Normalize a cursor position given the current window size in pixels.
    pub fn on_cursor_moved(
        &mut self,
        window_width: i64,
        window_height: i64,
        pixel_x: i64,
        pixel_y: i64,
    )
        requires
            1 <= window_width <= PIXEL_LIMIT,
            1 <= window_height <= PIXEL_LIMIT,
            abs_val(pixel_x as int) <= PIXEL_LIMIT as int,
            abs_val(pixel_y as int) <= PIXEL_LIMIT as int,
        ensures
            final(self)@ == cursor_step(
                old(self)@,
                window_width as int,
                window_height as int,
                pixel_x as int,
                pixel_y as int,
            ),
    {
        let mx: i64 = (pixel_x * 2 * SCALE) / window_width - SCALE;
        let my: i64 = (pixel_y * 2 * SCALE) / window_height - SCALE;
        proof {
            let bound: int = 2 * PIXEL_LIMIT as int * SCALE as int + SCALE as int;
            crate::units::lemma_trunc_div_abs(
                pixel_x as int * 2 * SCALE as int,
                window_width as int,
            );
            vstd::arithmetic::div_mod::lemma_div_nonincreasing(
                abs_val(pixel_x as int * 2 * SCALE as int),
                window_width as int,
            );
            crate::units::lemma_trunc_div_abs(
                pixel_y as int * 2 * SCALE as int,
                window_height as int,
            );
            vstd::arithmetic::div_mod::lemma_div_nonincreasing(
                abs_val(pixel_y as int * 2 * SCALE as int),
                window_height as int,
            );
            assert(abs_val(mx as int) <= bound);
            assert(abs_val(my as int) <= bound);
            assert(i64::MIN <= mx as int * window_width as int <= i64::MAX) by (nonlinear_arith)
                requires
                    abs_val(mx as int) <= bound,
                    bound == 20_000_010_000,
                    1 <= window_width <= 1_000_000,
            ;
            assert(i64::MIN <= my as int * window_height as int <= i64::MAX) by (nonlinear_arith)
                requires
                    abs_val(my as int) <= bound,
                    bound == 20_000_010_000,
                    1 <= window_height <= 1_000_000,
            ;
        }

        // correct for aspect ratio
        if window_width > window_height {
            self.mouse_x_relative = (mx * window_width) / window_height;
            self.mouse_y_relative = my;
        } else {
            self.mouse_x_relative = mx;
            self.mouse_y_relative = (my * window_height) / window_width;
        }
        proof {
            assert(self@ =~= cursor_step(
                old(self)@,
                window_width as int,
                window_height as int,
                pixel_x as int,
                pixel_y as int,
            ));
        }
    }
}

} // verus!

use vstd::prelude::*;

verus! {

/// Physical size of the window's drawing surface, in pixels.
#[derive(Clone, Copy, Debug, PartialEq, Eq, Structural)]
pub struct SurfaceSize {
    pub width: u32,
    pub height: u32,
}

/// What the input helper reported after one batch of window events.
#[derive(Clone, Copy, Debug, PartialEq, Eq, Structural)]
pub struct InputState {
    /// The escape key went down.
    pub escape_pressed: bool,
    /// The window was asked to close.
    pub close_requested: bool,
    /// The key that raises the camera is held.
    pub raise_held: bool,
    /// The key that lowers the camera is held.
    pub lower_held: bool,
    /// New physical size of the window, if it was resized.
    pub resized: Option<SurfaceSize>,
}

/// What the event loop does in answer to an [`InputState`], in this order:
/// leave, or move the camera origin up, then down, by one step each, resize
/// the surface, and ask for a redraw.
#[derive(Clone, Copy, Debug, PartialEq, Eq, Structural)]
pub struct InputResponse {
    pub exit: bool,
    pub raise_origin: bool,
    pub lower_origin: bool,
    pub resize_to: Option<SurfaceSize>,
    pub redraw: bool,
}

/// The response the loop owes to `s`: leaving ends everything else; otherwise
/// each held key moves the camera, a resize is passed on, and a new frame is
/// asked for.
pub open spec fn response_to(s: InputState) -> InputResponse {
    if s.escape_pressed || s.close_requested {
        InputResponse { exit: true, raise_origin: false, lower_origin: false, resize_to: None, redraw: false }
    } else {
        InputResponse {
            exit: false,
            raise_origin: s.raise_held,
            lower_origin: s.lower_held,
            resize_to: s.resized,
            redraw: true,
        }
    }
}

/// Decides what the event loop does after the input helper has taken in a
/// batch of events.
pub fn respond_to_input(s: &InputState) -> (r: InputResponse)
    ensures
        r == response_to(*s),
{
    if s.escape_pressed || s.close_requested {
        InputResponse { exit: true, raise_origin: false, lower_origin: false, resize_to: None, redraw: false }
    } else {
        InputResponse {
            exit: false,
            raise_origin: s.raise_held,
            lower_origin: s.lower_held,
            resize_to: s.resized,
            redraw: true,
        }
    }
}

} // verus!

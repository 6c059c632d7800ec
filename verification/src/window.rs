//! Window placement, sizing and the decisions of the event loop.

use vstd::prelude::*;

verus! {

/// Width of the screen that a new window is centred on.
pub const SCREEN_WIDTH: i32 = 1920;

/// Height of the screen that a new window is centred on.
pub const SCREEN_HEIGHT: i32 = 1080;

/// Integer division by two that rounds toward zero, as Rust's `/` on signed integers does.
pub open spec fn half_toward_zero(x: int) -> int {
    if x >= 0 {
        x / 2
    } else {
        -((-x) / 2)
    }
}

/// Halving toward zero: twice the result differs from `x` by at most one, on the side of zero,
/// and the result has the sign of `x`.
pub proof fn lemma_half_toward_zero(x: int)
    ensures
        x >= 0 ==> 0 <= x - 2 * half_toward_zero(x) <= 1,
        x < 0 ==> -1 <= x - 2 * half_toward_zero(x) <= 0,
{
}

/// Persisted window state.
pub struct SaveState {
    pub window_position: (i32, i32),
}

impl SaveState {
    /// The state used when nothing was saved: the window at (110, 110).
    pub fn new() -> (s: Self)
        ensures
            s.window_position == (110i32, 110i32),
    {
        SaveState { window_position: (110, 110) }
    }
}

/// Top-left corner that centres a window of the given inner size on the screen.
pub fn centered_position(width: u32, height: u32) -> (pos: (i32, i32))
    requires
        SCREEN_WIDTH - (width as i32) <= i32::MAX,
        SCREEN_HEIGHT - (height as i32) <= i32::MAX,
    ensures
        pos.0 == half_toward_zero(SCREEN_WIDTH - (width as i32)),
        pos.1 == half_toward_zero(SCREEN_HEIGHT - (height as i32)),
{
    let w = width as i32;
    let h = height as i32;
    ((SCREEN_WIDTH - w) / 2, (SCREEN_HEIGHT - h) / 2)
}

/// The kinds of window-system event that the event loop tells apart.
#[derive(Clone, Copy, PartialEq, Eq, Structural, Debug)]
pub enum LoopEvent {
    /// An event of an input device, not of the window.
    Device,
    /// The window was resized.
    Resized,
    /// The user asked to close the window.
    CloseRequested,
    /// All pending events were delivered.
    MainEventsCleared,
    /// Any other event.
    Other,
}

/// What the event loop does for one event.
#[derive(Clone, Copy, PartialEq, Eq, Structural, Debug)]
pub struct EventResponse {
    /// The event is handed to the user interface, and a frame may be drawn after it.
    pub handle: bool,
    /// The window is moved to its position and shown.
    pub show_window: bool,
    /// The drawing surface is made anew for the new size.
    pub recreate_surface: bool,
    /// A frame is drawn whatever time has passed.
    pub redraw: bool,
    /// The current run of the event loop ends.
    pub exit_run: bool,
}

/// What the event loop keeps between events: whether the window is still to be shown, and
/// whether the editor is to quit.
#[derive(Clone, Copy, PartialEq, Eq, Structural, Debug)]
pub struct EventLoopState {
    pub first: bool,
    pub quit: bool,
}

impl EventLoopState {
    /// A loop whose window is not shown yet and that does not quit.
    pub fn new() -> (s: Self)
        ensures
            s.first,
            !s.quit,
    {
        EventLoopState { first: true, quit: false }
    }

    /// Decides what one event does: device events are passed over; the first other event
    /// shows the window; a resize makes the surface anew and forces a frame; a close request
    /// makes the editor quit; the end of the pending events ends the current run.
    pub fn handle_event(&mut self, event: LoopEvent) -> (r: EventResponse)
        ensures
            event == LoopEvent::Device ==> *final(self) == *old(self) && r == (EventResponse {
                handle: false,
                show_window: false,
                recreate_surface: false,
                redraw: false,
                exit_run: false,
            }),
            event != LoopEvent::Device ==> {
                &&& r.handle
                &&& r.show_window == old(self).first
                &&& !final(self).first
                &&& r.recreate_surface == (event == LoopEvent::Resized)
                &&& r.redraw == (event == LoopEvent::Resized)
                &&& r.exit_run == (event == LoopEvent::MainEventsCleared)
                &&& final(self).quit == (old(self).quit || event == LoopEvent::CloseRequested)
            },
    {
        let none = EventResponse {
            handle: false,
            show_window: false,
            recreate_surface: false,
            redraw: false,
            exit_run: false,
        };
        match event {
            LoopEvent::Device => none,
            _ => {
                let show_window = self.first;
                self.first = false;
                let mut r = EventResponse { handle: true, show_window, ..none };
                match event {
                    LoopEvent::Resized => {
                        r.recreate_surface = true;
                        r.redraw = true;
                    },
                    LoopEvent::CloseRequested => {
                        self.quit = true;
                    },
                    LoopEvent::MainEventsCleared => {
                        r.exit_run = true;
                    },
                    _ => {},
                }
                r
            },
        }
    }

    /// After a frame was drawn: when the frame asks to close, the editor quits and the current
    /// run ends.
    pub fn frame_done(&mut self, frame_asks_close: bool) -> (exit_run: bool)
        ensures
            exit_run == frame_asks_close,
            final(self).quit == (old(self).quit || frame_asks_close),
            final(self).first == old(self).first,
    {
        if frame_asks_close {
            self.quit = true;
        }
        frame_asks_close
    }
}

/// Ctrl+W closes the editor: W released while either Ctrl key is down.
pub fn close_shortcut(w_released: bool, left_ctrl_down: bool, right_ctrl_down: bool) -> (close: bool)
    ensures
        close == (w_released && (left_ctrl_down || right_ctrl_down)),
{
    w_released && (left_ctrl_down || right_ctrl_down)
}

} // verus!

use git_editor::text::{chars_end_with, chars_of, find_space, string_from_range};
use git_editor::window::{
    centered_position, close_shortcut, EventLoopState, EventResponse, LoopEvent, SaveState,
};

#[test]
fn save_state_default_position() {
    assert_eq!(SaveState::new().window_position, (110, 110));
}

#[test]
fn window_is_centred() {
    assert_eq!(centered_position(700, 120), (610, 480));
    assert_eq!(centered_position(700, 980), (610, 50));
    assert_eq!(centered_position(1920, 1080), (0, 0));
    assert_eq!(centered_position(2000, 1081), (-40, 0));
    assert_eq!(centered_position(2001, 1083), (-40, -1));
    assert_eq!(centered_position(701, 121), (609, 479));
}

#[test]
fn event_loop_decisions() {
    let mut s = EventLoopState::new();
    assert!(s.first && !s.quit);
    let r = s.handle_event(LoopEvent::Device);
    assert_eq!(
        r,
        EventResponse { handle: false, show_window: false, recreate_surface: false, redraw: false, exit_run: false }
    );
    assert!(s.first);
    let r = s.handle_event(LoopEvent::Other);
    assert!(r.handle && r.show_window && !r.redraw && !r.exit_run);
    assert!(!s.first);
    let r = s.handle_event(LoopEvent::Resized);
    assert!(r.handle && !r.show_window && r.recreate_surface && r.redraw && !r.exit_run);
    let r = s.handle_event(LoopEvent::MainEventsCleared);
    assert!(r.exit_run && !r.redraw);
    assert!(!s.quit);
    let r = s.handle_event(LoopEvent::CloseRequested);
    assert!(r.handle && !r.exit_run);
    assert!(s.quit);
}

#[test]
fn frame_asking_to_close_quits() {
    let mut s = EventLoopState::new();
    assert!(!s.frame_done(false));
    assert!(!s.quit);
    assert!(s.frame_done(true));
    assert!(s.quit);
}

#[test]
fn ctrl_w_closes() {
    assert!(close_shortcut(true, true, false));
    assert!(close_shortcut(true, false, true));
    assert!(!close_shortcut(true, false, false));
    assert!(!close_shortcut(false, true, true));
}

#[test]
fn text_helpers() {
    let v = chars_of("ab cdé f");
    assert_eq!(v, vec!['a', 'b', ' ', 'c', 'd', 'é', ' ', 'f']);
    assert_eq!(find_space(&v, 0), 2);
    assert_eq!(find_space(&v, 3), 6);
    assert_eq!(find_space(&v, 7), 8);
    assert_eq!(string_from_range(&v, 3, 6), "cdé");
    assert_eq!(string_from_range(&v, 2, 2), "");
    assert!(chars_end_with(&v, &chars_of("é f")));
    assert!(chars_end_with(&v, &chars_of("")));
    assert!(!chars_end_with(&v, &chars_of("x f")));
    assert!(!chars_end_with(&chars_of("f"), &chars_of("é f")));
}

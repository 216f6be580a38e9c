use neovibe::clock::FrameClock;
use neovibe::keys::{key_pressed, key_text, KeyOutcome, KeyPress};
use neovibe::live::{LiveSession, LiveState, RenderStep, ResizeNote};

const ESCAPE: u32 = 0xff1b;
const CONTROL: u32 = 4;

fn ready(now: u64) -> LiveState {
    let mut state = LiveState::NotStarted;
    state.render();
    state.launched(Ok(now));
    state
}

fn session(state: &mut LiveState) -> &mut LiveSession {
    match state {
        LiveState::Ready(session) => session,
        _ => panic!("no session"),
    }
}

/// A session that drew a frame at which nothing was left to animate.
fn idle(batches: u64) -> LiveState {
    let mut state = ready(0);
    session(&mut state).tick(10);
    session(&mut state).frame_drawn(false, batches);
    state
}

fn press(modifiers: u32, key: u32, unicode: Option<char>) -> KeyPress {
    KeyPress { modifiers, key, unicode }
}

#[test]
fn placeholder_then_launch_then_frames() {
    let mut state = LiveState::NotStarted;
    assert_eq!(state.tag(), "not_started");
    assert_eq!(state.render(), RenderStep::Placeholder);
    assert_eq!(state.tag(), "starting");
    assert_eq!(state.render(), RenderStep::Launch);
    state.launched(Ok(5));
    assert_eq!(state.tag(), "ready");
    assert_eq!(state.render(), RenderStep::Frame);
    assert_eq!(state.render(), RenderStep::Frame);
}

#[test]
fn events_before_launch_do_not_skip_it() {
    let mut state = LiveState::NotStarted;
    state.render();
    state.tick(3);
    state.resize(1);
    state.input(false);
    assert_eq!(state.render(), RenderStep::Launch);
}

#[test]
fn failed_launch_is_final() {
    let mut state = LiveState::NotStarted;
    state.render();
    state.launched(Err("no nvim".to_string()));
    assert_eq!(state.tag(), "failed");
    for _ in 0..3 {
        assert!(state.tick(0));
        assert_eq!(state.resize(9), None);
        assert!(!state.input(false));
        assert_eq!(state.render(), RenderStep::Failure);
    }
    assert!(!state.needs_shutdown());
    match state {
        LiveState::Failed(message) => assert_eq!(message, "no nvim"),
        _ => panic!("not failed"),
    }
}

#[test]
fn ticks_draw_until_a_session_runs() {
    let mut state = LiveState::NotStarted;
    assert!(state.tick(0));
    state.render();
    assert!(state.tick(0));
}

#[test]
fn fresh_session_keeps_drawing() {
    let mut state = ready(0);
    assert!(state.tick(0));
    assert!(state.tick(0));
    session(&mut state).frame_drawn(false, 0);
    assert!(!state.tick(0));
}

#[test]
fn idle_session_skips() {
    let mut state = idle(4);
    for _ in 0..100 {
        assert!(!state.tick(4));
    }
}

#[test]
fn animating_session_draws() {
    let mut state = idle(4);
    session(&mut state).frame_drawn(true, 4);
    assert!(state.tick(4));
    assert!(state.tick(4));
}

#[test]
fn new_batches_force_one_frame() {
    let mut state = idle(4);
    assert!(state.tick(5));
    assert!(!state.tick(5));
    assert!(state.tick(9));
}

#[test]
fn resize_forces_one_frame() {
    let mut state = idle(4);
    assert_eq!(state.resize(25), Some(ResizeNote { since_last_frame: 15, frame_count: 1 }));
    assert!(state.tick(4));
    assert!(!state.tick(4));
}

#[test]
fn input_forces_one_frame() {
    let mut state = idle(4);
    assert!(state.input(false));
    assert!(state.tick(4));
    assert!(!state.tick(4));
}

#[test]
fn input_after_exit_is_ignored() {
    let mut state = idle(4);
    assert!(!state.input(true));
    assert!(!state.tick(4));
}

#[test]
fn only_a_running_session_is_shut_down() {
    assert!(!LiveState::NotStarted.needs_shutdown());
    assert!(!LiveState::Starting.needs_shutdown());
    assert!(ready(0).needs_shutdown());
}

#[test]
fn content_is_announced_once() {
    let mut s = LiveSession::new(0);
    assert!(!s.announce_ready(false));
    assert!(s.announce_ready(true));
    assert!(!s.announce_ready(true));
    assert!(!s.announce_ready(false));
}

#[test]
fn frame_times() {
    let mut s = LiveSession::new(100);
    assert_eq!(s.tick(130), 30);
    assert_eq!(s.tick(130), 0);
    assert_eq!(s.tick(120), 0);
    assert_eq!(s.tick(125), 5);
    assert_eq!(s.clock.frame_count, 4);
    assert_eq!(s.clock.start, 100);
}

#[test]
fn frame_times_add_up() {
    let mut clock = FrameClock::new(7);
    let mut total = 0;
    for now in [9, 9, 20, 31] {
        total += clock.tick(now);
    }
    assert_eq!(total, 24);
    assert_eq!(clock.since_start(40), 33);
    assert_eq!(clock.since_last_frame(40), 9);
    assert_eq!(clock.since_last_frame(1), 0);
}

#[test]
fn clock_reset_forgets_the_gap() {
    let mut clock = FrameClock::new(0);
    clock.tick(10);
    clock.reset(1000);
    assert_eq!(clock.frame_count, 1);
    assert_eq!(clock.tick(1003), 3);
}

#[test]
fn pacing_line_every_sixty_frames() {
    let mut clock = FrameClock::new(0);
    let mut due = Vec::new();
    for now in 1..=120u64 {
        clock.tick(now);
        if clock.log_due(60) {
            due.push(clock.frame_count);
        }
    }
    assert_eq!(due, vec![60, 120]);
}

#[test]
fn named_keys() {
    for (key, name) in [
        (0xff1b, "<Esc>"),
        (0xff0d, "<CR>"),
        (0xff8d, "<CR>"),
        (0xff08, "<BS>"),
        (0xff09, "<Tab>"),
    ] {
        assert_eq!(key_text(key, Some('\u{1}')), Some(name.to_string()));
    }
}

#[test]
fn printable_keys() {
    assert_eq!(key_text(0x61, Some('a')), Some("a".to_string()));
    assert_eq!(key_text(0x20, Some(' ')), Some(" ".to_string()));
    assert_eq!(key_text(0x3c, Some('<')), Some("<".to_string()));
    assert_eq!(key_text(0x10004e2d, Some('中')), Some("中".to_string()));
    assert_eq!(key_text(0xa0, Some('\u{a0}')), Some("\u{a0}".to_string()));
}

#[test]
fn keys_without_text() {
    assert_eq!(key_text(0xffe1, None), None);
    for c in (0..0x3000).filter_map(char::from_u32) {
        assert_eq!(key_text(0, Some(c)).is_none(), c.is_control());
    }
}

#[test]
fn modified_keys_are_left_alone() {
    let mut state = idle(4);
    for modifiers in [CONTROL, 8, 0x400_0000, CONTROL | 1] {
        let outcome = key_pressed(&mut state, press(modifiers, 0x63, Some('c')), false);
        assert!(matches!(outcome, KeyOutcome::Proceed));
    }
    assert!(!state.tick(4));
    let outcome = key_pressed(&mut state, press(1, 0x43, Some('C')), false);
    assert!(matches!(outcome, KeyOutcome::Send(text) if text == "C"));
}

#[test]
fn sent_key_draws() {
    let mut state = idle(4);
    let outcome = key_pressed(&mut state, press(0, ESCAPE, None), false);
    assert!(matches!(outcome, KeyOutcome::Send(text) if text == "<Esc>"));
    assert!(state.tick(4));
    assert!(!state.tick(4));
}

#[test]
fn keys_without_a_session_are_swallowed() {
    let mut state = LiveState::NotStarted;
    let outcome = key_pressed(&mut state, press(0, 0x61, Some('a')), false);
    assert!(matches!(outcome, KeyOutcome::Swallow));
    let mut state = idle(4);
    let outcome = key_pressed(&mut state, press(0, 0x61, Some('a')), true);
    assert!(matches!(outcome, KeyOutcome::Swallow));
    let outcome = key_pressed(&mut state, press(0, 0xffe1, None), false);
    assert!(matches!(outcome, KeyOutcome::Proceed));
    assert!(!state.tick(4));
}

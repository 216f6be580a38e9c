use neovibe::geometry::{compute_content_region, PixelRect};
use neovibe::glproc::{candidates, resolve_gl_proc, SymbolKind};
use neovibe::pump::{
    keeps_pumping, pick_config, slide, FpsReport, GlAction, GlApp, GlEvent, Slide,
};
use neovibe::report;
use neovibe::report::{Pacing, ResizeEvent, SessionReport};
use neovibe::shell;
use neovibe::shell::WindowAction;
use neovibe::surface::{note_resize, SkiaState};
use neovibe::sweep::{bounce, Direction, Sweep, SweepMove, SweepSettings, TrackEnd};
use neovibe::ticks::TickStats;

fn rect(min_x: i64, min_y: i64, max_x: i64, max_y: i64) -> PixelRect {
    PixelRect { min_x, min_y, max_x, max_y }
}

#[test]
fn region_leaves_a_margin() {
    assert_eq!(compute_content_region(1000, 700), rect(40, 40, 960, 660));
    assert_eq!(compute_content_region(101, 101), rect(40, 40, 61, 61));
}

#[test]
fn small_framebuffer_has_no_margin() {
    assert_eq!(compute_content_region(100, 700), rect(0, 0, 100, 700));
    assert_eq!(compute_content_region(700, 100), rect(0, 0, 700, 100));
    assert_eq!(compute_content_region(0, 0), rect(0, 0, 1, 1));
    assert_eq!(compute_content_region(-5, 30), rect(0, 0, 1, 30));
}

/// The region is the one that single-precision arithmetic gives.
#[test]
fn region_rounds_as_floats_do() {
    let mut sizes: Vec<i32> = vec![
        i32::MIN, -16777217, -1, 0, 1, 99, 100, 101, 16777215, 16777216, 16777217, 16777219,
        16777255, 16777257, 33554433, 33554434, 123456789, 1073741823, 2147483583, 2147483584,
        2147483646, i32::MAX,
    ];
    let mut x: u32 = 12345;
    for _ in 0..2000 {
        x = x.wrapping_mul(1664525).wrapping_add(1013904223);
        sizes.push(x as i32);
    }
    for &size in &sizes {
        let r = compute_content_region(size, 700);
        let w = size as f32;
        let (min, max) = if w > 100.0 { (40.0, w - 40.0) } else { (0.0, w.max(1.0)) };
        assert_eq!(r.min_x as f32, min);
        assert_eq!(r.max_x as f64, max as f64);
        assert_eq!(r.width(), (max - min) as i32);
        assert_eq!(r.left(), min as i32);
        let r = compute_content_region(700, size);
        assert_eq!(r.max_y as f64, max as f64);
        assert_eq!(r.height(), (max - min) as i32);
        assert_eq!(r.top(), min as i32);
    }
}

#[test]
fn surface_is_built_once_per_size() {
    let mut state = SkiaState::new(500, 350, 2);
    assert_eq!(state, SkiaState { fb_width: 1000, fb_height: 700, has_surface: false });
    assert!(state.ensure_surface());
    assert!(!state.ensure_surface());
    let mut slot = Some(state);
    note_resize(&mut slot, 1200, 700);
    let mut state = slot.unwrap();
    assert!(!state.has_surface);
    assert!(state.ensure_surface());
    assert!(state.has_surface);
}

#[test]
fn empty_framebuffer_gets_no_surface() {
    for (w, h) in [(0, 10), (10, 0), (-1, 10), (10, -1)] {
        let mut slot = Some(SkiaState::new(1, 1, 1));
        note_resize(&mut slot, w, h);
        let mut state = slot.unwrap();
        assert!(!state.ensure_surface());
        assert!(!state.has_surface);
    }
}

#[test]
fn resize_before_the_context_is_not_noted() {
    let mut slot = None;
    note_resize(&mut slot, 10, 10);
    assert_eq!(slot, None);
}

#[test]
fn tick_windows() {
    let mut stats = TickStats::new();
    for i in 0..299u64 {
        assert!(stats.record(i % 3 == 0).is_none());
    }
    let summary = stats.record(false).unwrap();
    assert_eq!(
        summary.line(),
        "[tick] last 300 ticks: issued=100 skipped=200 skip_ratio=66.7% \
         (cumulative issued=100 skipped=200)"
    );
    for _ in 0..299 {
        assert!(stats.record(true).is_none());
    }
    let summary = stats.record(true).unwrap();
    assert_eq!(
        summary.line(),
        "[tick] last 300 ticks: issued=300 skipped=0 skip_ratio=0.0% \
         (cumulative issued=400 skipped=200)"
    );
    assert_eq!((stats.issued_total(), stats.skipped_total()), (400, 200));
}

/// The share is the one that floating-point arithmetic shows.
#[test]
fn skip_ratio_of_every_window() {
    for skipped in 0..=300u64 {
        let mut stats = TickStats::new();
        let mut line = String::new();
        for i in 0..300u64 {
            if let Some(summary) = stats.record(i >= skipped) {
                line = summary.line();
            }
        }
        let expected = format!("skip_ratio={:.1}% ", (skipped as f64 / 300.0) * 100.0);
        assert!(line.contains(&expected), "{} {}", line, expected);
    }
}

#[test]
fn sweep_settings() {
    let read = SweepSettings::from_variables;
    assert_eq!(read(None, None, None), None);
    assert_eq!(read(Some("0"), Some("5"), Some("5")), None);
    assert_eq!(read(Some("true"), None, None), None);
    assert_eq!(read(Some("1 "), None, None), None);
    let default = SweepSettings { interval_ms: 16, step_px: 6 };
    assert_eq!(read(Some("1"), None, None), Some(default));
    assert_eq!(read(Some("1"), Some("x"), Some("")), Some(default));
    assert_eq!(
        read(Some("1"), Some("+33"), Some("-4")),
        Some(SweepSettings { interval_ms: 33, step_px: -4 })
    );
    assert_eq!(
        default.line(),
        "[resize-sweep] enabled: interval=16ms step=6px \
         (bouncing paned.position() between 15%-85% of current width)"
    );
}

/// Variables are read as the standard library parses them.
#[test]
fn integers_read_as_parsed() {
    let cases = [
        "", "+", "-", "0", "00", "7", "+7", "-7", "--7", "+-7", " 7", "7 ", "7_0", "0x7", "1e3",
        "18446744073709551615", "18446744073709551616", "99999999999999999999999999",
        "00000000000000000000000000000001", "2147483647", "2147483648", "-2147483648",
        "-2147483649", "-0", "٣", "1.5",
    ];
    for s in cases {
        let settings = SweepSettings::from_variables(Some("1"), Some(s), Some(s)).unwrap();
        assert_eq!(settings.interval_ms, s.parse::<u64>().unwrap_or(16), "{:?}", s);
        assert_eq!(settings.step_px, s.parse::<i32>().unwrap_or(6), "{:?}", s);
    }
}

#[test]
fn sweep_needs_a_width() {
    let mut sweep = Sweep::new();
    assert_eq!(sweep.advance(0, 100, 6), None);
    assert_eq!(sweep.advance(-3, 100, 6), None);
    assert_eq!(sweep, Sweep::new());
}

#[test]
fn sweep_bounces_between_the_bounds() {
    let mut sweep = Sweep::new();
    let mut position = 500;
    let mut turns = Vec::new();
    for _ in 0..400 {
        let before = sweep.direction;
        let moved = sweep.advance(1000, position, 7).unwrap();
        assert_eq!((moved.min_pos, moved.max_pos), (150, 850));
        assert!(150 <= moved.position && moved.position <= 850);
        if sweep.direction != before {
            turns.push(moved.position);
        }
        position = moved.position;
    }
    assert_eq!(turns, vec![850, 150, 850, 150]);
    assert_eq!(sweep.moves, 400);
}

/// A way of 349 pixels takes 50 steps of seven.
#[test]
fn sweep_reaches_the_bound_in_time() {
    let mut sweep = Sweep::new();
    let mut position = 501;
    for _ in 0..49 {
        position = sweep.advance(1000, position, 7).unwrap().position;
        assert_eq!(sweep.direction, Direction::Forward);
    }
    assert_eq!(position, 844);
    assert_eq!(sweep.advance(1000, position, 7).unwrap().position, 850);
    assert_eq!(sweep.direction, Direction::Backward);
}

#[test]
fn sweep_takes_a_stray_position_back() {
    let mut sweep = Sweep::new();
    assert_eq!(sweep.advance(1000, 0, 6).unwrap().position, 150);
    assert_eq!(sweep.direction, Direction::Forward);
    assert_eq!(sweep.advance(1000, 999, 6).unwrap().position, 850);
    assert_eq!(sweep.direction, Direction::Backward);
}

/// The bounds are those that floating-point arithmetic gives.
#[test]
fn sweep_bounds_of_many_widths() {
    let mut width: i32 = 1;
    while width < 2_000_000_000 {
        let moved = Sweep::new().advance(width, 0, 1).unwrap();
        assert_eq!(moved.min_pos, (width as f64 * 0.15) as i32);
        assert_eq!(moved.max_pos, (width as f64 * 0.85) as i32);
        width += 1 + width / 97;
    }
}

#[test]
fn sweep_lines() {
    let moved = SweepMove { position: 344, min_pos: 150, max_pos: 850, width: 1000, number: 30 };
    assert!(moved.log_due());
    assert_eq!(
        moved.line(),
        "[resize-sweep] tick 30: paned.position()=344 bounds=[150,850] width=1000"
    );
    assert!(!SweepMove { number: 31, ..moved }.log_due());
}

#[test]
fn bounce_turns_at_the_ends() {
    let forward = Direction::Forward;
    let backward = Direction::Backward;
    assert_eq!(bounce(true, false, forward), (Some(TrackEnd::End), backward));
    assert_eq!(bounce(false, true, backward), (Some(TrackEnd::Start), forward));
    assert_eq!(bounce(false, false, backward), (None, backward));
    assert_eq!(bounce(true, true, forward), (Some(TrackEnd::End), backward));
}

#[test]
fn most_samples_first() {
    assert_eq!(pick_config(&vec![]), None);
    assert_eq!(pick_config(&vec![0, 4, 2, 4]), Some(1));
    assert_eq!(pick_config(&vec![0, 0]), Some(0));
    assert_eq!(pick_config(&vec![1, 2, 8]), Some(2));
}

#[test]
fn slide_enters_and_leaves() {
    assert_eq!(slide(480, 360, 0), None);
    assert_eq!(slide(480, 360, 10), Some(Slide { x: 0, width: 10 }));
    assert_eq!(slide(480, 360, 60), Some(Slide { x: 0, width: 60 }));
    assert_eq!(slide(480, 360, 200), Some(Slide { x: 140, width: 60 }));
    assert_eq!(slide(480, 360, 530), Some(Slide { x: 470, width: 10 }));
    assert_eq!(slide(480, 360, 540), None);
    assert_eq!(slide(480, 360, 550), slide(480, 360, 10));
    assert_eq!(slide(480, 360, -10), Some(Slide { x: 470, width: 10 }));
    assert_eq!(slide(0, 360, 10), None);
    assert_eq!(slide(480, 0, 10), None);
    assert_eq!(slide(16, 10, 18), Some(Slide { x: 0, width: 16 }));
}

#[test]
fn window_is_created_once() {
    let mut app = GlApp::new(0);
    assert!(!app.about_to_wait());
    assert!(app.resumed());
    assert!(!app.resumed());
    assert!(app.about_to_wait());
}

#[test]
fn window_events() {
    let mut app = GlApp::new(0);
    let resized = GlEvent::Resized { width: 3, height: 4 };
    assert_eq!(app.window_event(GlEvent::CloseRequested), GlAction::Exit);
    assert_eq!(app.window_event(resized), GlAction::Nothing);
    assert_eq!(app.window_event(GlEvent::RedrawRequested), GlAction::Nothing);
    app.resumed();
    assert_eq!(app.window_event(resized), GlAction::ResizeAndDraw { width: 3, height: 4 });
    let flat = GlEvent::Resized { width: 3, height: 0 };
    assert_eq!(app.window_event(flat), GlAction::Nothing);
    assert_eq!(app.window_event(GlEvent::RedrawRequested), GlAction::Draw);
    assert_eq!(app.window_event(GlEvent::Other), GlAction::Nothing);
}

#[test]
fn frames_per_second() {
    let mut app = GlApp::new(5);
    for i in 1..60u64 {
        assert_eq!(app.frame_drawn(5 + i * 16_000_000), None);
    }
    let report = app.frame_drawn(1_000_000_005);
    assert_eq!(report, Some(FpsReport { frames: 60, elapsed: 1_000_000_000 }));
    assert_eq!(app.frame_count, 0);
    assert_eq!(app.frame_drawn(1_000_000_006), None);
    assert_eq!(
        report::fps_line(60, "1.00"),
        "[winit/gl] ~60 fps over last 1.00s (frame 60)"
    );
}

#[test]
fn pumping_stops_with_the_loop() {
    assert!(keeps_pumping(None));
    assert!(!keeps_pumping(Some(0)));
}

#[test]
fn gl_symbols() {
    let symbols = candidates("glClear");
    assert_eq!(symbols.len(), 2);
    assert_eq!(symbols[0].symbol, "epoxy_glClear");
    assert_eq!(symbols[0].kind, SymbolKind::Variable);
    assert_eq!(symbols[1].symbol, "glClear");
    assert_eq!(symbols[1].kind, SymbolKind::Function);
    assert!(candidates("gl\0Clear").is_empty());
}

#[test]
fn gl_addresses() {
    assert_eq!(resolve_gl_proc(Some(7), Some(9)), 7);
    assert_eq!(resolve_gl_proc(Some(0), Some(9)), 9);
    assert_eq!(resolve_gl_proc(None, Some(9)), 9);
    assert_eq!(resolve_gl_proc(None, None), 0);
    assert_eq!(resolve_gl_proc(Some(0), None), 0);
}

#[test]
fn clean_start() {
    let args = |list: &[&str]| list.iter().map(|s| s.to_string()).collect::<Vec<String>>();
    assert!(shell::want_clean(&args(&["shell", "--clean"])));
    assert!(!shell::want_clean(&args(&["shell", "--cleaner", "clean"])));
    assert!(!shell::want_clean(&args(&[])));
    assert_eq!(shell::extra_nvim_args(true), vec!["--clean".to_string()]);
    assert!(shell::extra_nvim_args(false).is_empty());
}

#[test]
fn frames_between_pacing_lines() {
    assert_eq!(shell::log_every_n_frames(None), 60);
    assert_eq!(shell::log_every_n_frames(Some("1")), 1);
    assert_eq!(shell::log_every_n_frames(Some("0")), 60);
    assert_eq!(shell::log_every_n_frames(Some("-1")), 60);
    assert_eq!(shell::log_every_n_frames(Some("many")), 60);
}

#[test]
fn maximize_button() {
    assert_eq!(shell::toggle_maximize(true), WindowAction::Unmaximize);
    assert_eq!(shell::toggle_maximize(false), WindowAction::Maximize);
}

#[test]
fn shutdown_lines() {
    assert_eq!(
        shell::shutdown_line(true),
        "[live] LiveHarness::shutdown() returned true (real NeovimExited observed)"
    );
    assert_eq!(
        shell::shutdown_line(false),
        "[live] LiveHarness::shutdown() returned false (timed out waiting for NeovimExited \
         -- nvim child may be orphaned, see LiveHarness::shutdown's own doc)"
    );
}

fn event() -> ResizeEvent {
    ResizeEvent {
        fb_width: 1000,
        fb_height: 700,
        scale_factor: 2,
        logical_width: 500,
        logical_height: 350,
    }
}

#[test]
fn resize_lines() {
    let sizes = "fb=1000x700px scale_factor=2 logical=500x350";
    assert_eq!(report::plain_resize_line(event()), format!("[resize] {}", sizes));
    assert_eq!(
        report::session_resize_line(event(), true),
        format!("[resize] {} forced_next_frame=true", sizes)
    );
    let region = compute_content_region(1000, 700);
    assert_eq!(
        report::numbered_resize_line(3, event(), region, "ready", Some("1.25ms"), Some(9)),
        format!(
            "[resize #3] {} content_region=920x620@(40,40) live_state=ready \
             since_last_frame=1.25ms frame_count=9 forced_next_frame=true",
            sizes
        )
    );
    assert_eq!(
        report::numbered_resize_line(1, event(), region, "starting", None, None),
        format!(
            "[resize #1] {} content_region=920x620@(40,40) live_state=starting \
             since_last_frame=n/a frame_count=n/a forced_next_frame=false",
            sizes
        )
    );
}

#[test]
fn pacing_lines() {
    let pacing = Pacing {
        t: "   1.00".to_string(),
        dt: " 16.67".to_string(),
        instant_fps: "  60.0".to_string(),
        avg_fps: "  59.9".to_string(),
    };
    let start = "[frame     60] t=   1.00s dt= 16.67ms instant_fps=  60.0 avg_fps=  59.9";
    assert_eq!(report::pacing_line(60, &pacing), start);
    assert!(report::pacing_line(12345678, &pacing).starts_with("[frame 12345678] t="));
    let region = compute_content_region(1000, 700);
    let line = report::region_pacing_line(60, &pacing, 1000, 700, region, false);
    assert_eq!(
        line,
        format!("{} fb=1000x700 region=920x620@(40,40) animating=false", start)
    );
    let session = SessionReport { ready: true, batches: 12, exited: false };
    assert_eq!(
        report::session_pacing_line(line.clone(), session),
        format!("{} ready=true batches=12 nvim_exited=false", line)
    );
}

#[test]
fn poll_lines() {
    assert_eq!(
        report::poll_line("2.10", Ok("{}")),
        "[webview-poll] round_trip=2.10ms result={}"
    );
    assert_eq!(
        report::poll_line("2.10", Err("gone")),
        "[webview-poll] round_trip=2.10ms evaluate_javascript failed: gone"
    );
}

#[test]
fn sweep_follows_a_changing_pane() {
    let mut sweep = Sweep::new();
    let ticks = [(0, 500), (1000, 500), (200, 506), (-3, 170), (1000, -400), (1000, 5000)];
    let moves: Vec<Option<i32>> = ticks
        .iter()
        .map(|&(width, position)| sweep.advance(width, position, 6).map(|m| m.position))
        .collect();
    assert_eq!(moves, vec![None, Some(506), Some(170), None, Some(150), Some(850)]);
    assert_eq!(sweep.moves, 4);
    assert_eq!(sweep.direction, Direction::Backward);
}

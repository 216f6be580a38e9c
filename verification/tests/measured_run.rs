use neovibe::frames::{
    digest, p95_index, phase_figures, stats_json, FrameFigures, FrameStats, Phase,
};
use neovibe::live::LiveState;
use neovibe::perf::{results_json, Ctrl, CtrlAction, FrameReport, PerfRun};
use neovibe::workload::{
    phase_marker, scroll_keys, workload_script, Command, ScriptRun, Step, TYPED_TEXT,
};

fn figures() -> FrameFigures {
    FrameFigures {
        n: 100,
        wall_seconds: "1.000".to_string(),
        avg_ms: "10.000".to_string(),
        min_ms: "9.000".to_string(),
        max_ms: "20.000".to_string(),
        p50_ms: "10.500".to_string(),
        p95_ms: "19.000".to_string(),
        effective_fps: "100.00".to_string(),
    }
}

#[test]
fn no_frames_no_digest() {
    assert!(digest(&vec![]).is_none());
}

#[test]
fn digest_orders_the_frames() {
    let d = digest(&vec![5, 1, 4, 1, 3]).unwrap();
    assert_eq!(d.sorted, vec![1, 1, 3, 4, 5]);
    assert_eq!((d.min, d.p50, d.p95, d.max), (1, 3, 5, 5));
}

#[test]
fn digest_of_one_frame() {
    let d = digest(&vec![8]).unwrap();
    assert_eq!((d.min, d.p50, d.p95, d.max), (8, 8, 8, 8));
}

#[test]
fn digest_of_many_frames() {
    let mut x: u64 = 1;
    let mut dts = Vec::new();
    for _ in 0..1000 {
        x = x.wrapping_mul(6364136223846793005).wrapping_add(1442695040888963407);
        dts.push(x >> 40);
    }
    let d = digest(&dts).unwrap();
    dts.sort();
    assert_eq!(d.sorted, dts);
    assert_eq!(d.p50, dts[500]);
    assert_eq!(d.p95, dts[950]);
    assert!(d.min <= d.p50 && d.p50 <= d.p95 && d.p95 <= d.max);
}

/// The position is the one that single-precision arithmetic gives.
#[test]
fn p95_rounds_as_floats_do() {
    let expected = |n: usize| (((n as f32) * 0.95) as usize).min(n - 1);
    for n in 1..5000 {
        assert_eq!(p95_index(n), expected(n));
        assert_eq!(p95_index(n), n * 95 / 100);
    }
    let mut n: usize = 5000;
    while n < usize::MAX / 3 {
        for k in n..n + 50 {
            assert_eq!(p95_index(k), expected(k), "{}", k);
        }
        n += n / 7;
    }
    assert_eq!(p95_index(usize::MAX), expected(usize::MAX));
}

#[test]
fn figures_as_json() {
    assert_eq!(stats_json(None), "{\"n\":0}");
    assert_eq!(
        stats_json(Some(&figures())),
        "{\"n\":100,\"wall_seconds\":1.000,\"avg_ms\":10.000,\"min_ms\":9.000,\
         \"max_ms\":20.000,\"p50_ms\":10.500,\"p95_ms\":19.000,\"effective_fps\":100.00}"
    );
}

#[test]
fn figures_are_picked_from_the_ordered_times() {
    let dts: Vec<u64> = (1..=100).rev().collect();
    let d = digest(&dts).unwrap();
    let millis: Vec<String> = d.sorted.iter().map(|dt| format!("{}.000", dt)).collect();
    let text = |s: &str| s.to_string();
    let f = phase_figures(&d, &millis, text("5.050"), text("50.500"), text("19.80"));
    assert_eq!(f.n, 100);
    assert_eq!((f.min_ms.as_str(), f.max_ms.as_str()), ("1.000", "100.000"));
    assert_eq!((f.p50_ms.as_str(), f.p95_ms.as_str()), ("51.000", "96.000"));
    assert_eq!(
        stats_json(Some(&f)),
        "{\"n\":100,\"wall_seconds\":5.050,\"avg_ms\":50.500,\"min_ms\":1.000,\
         \"max_ms\":100.000,\"p50_ms\":51.000,\"p95_ms\":96.000,\"effective_fps\":19.80}"
    );
}

#[test]
fn frames_count_for_their_phase() {
    let mut stats = FrameStats::new();
    stats.push(Phase::PreMeasurement, 1);
    stats.push(Phase::Idle, 2);
    stats.push(Phase::Typing, 3);
    stats.push(Phase::Scroll, 4);
    stats.push(Phase::Typing, 5);
    assert_eq!(stats.idle, vec![2]);
    assert_eq!(stats.typing, vec![3, 5]);
    assert_eq!(stats.scroll, vec![4]);
}

#[test]
fn scroll_key_sequence() {
    let keys = scroll_keys();
    assert_eq!(keys.len(), 184);
    let round = [
        "gg", "<C-d>", "<C-d>", "<C-d>", "<C-d>", "<C-d>", "<C-f>", "<C-f>", "<C-f>", "<C-u>",
        "<C-u>", "<C-b>",
    ];
    for (i, key) in keys[..180].iter().enumerate() {
        assert_eq!(*key, round[i % 12]);
    }
    assert_eq!(keys[180..], ["G", "gg", "G", "gg"]);
}

#[test]
fn marker_line() {
    assert_eq!(phase_marker("IDLE_START"), "NEOVIBE_PHASE:IDLE_START");
}

/// A run's commands, with Neovim gone from the answer numbered `dies` on.
fn run(dies: usize) -> Vec<String> {
    let mut run = ScriptRun::new(workload_script("/tmp/w.rs", "/tmp/s.txt"));
    let mut commands = Vec::new();
    let mut alive = true;
    loop {
        let command = run.next(alive);
        let over = matches!(command, Command::Done);
        commands.push(match command {
            Command::Announce(name) => format!("marker {}", name),
            Command::Send { keys, delay_ms } => format!("send {} {}", keys, delay_ms),
            Command::Rest { ms } => format!("rest {}", ms),
            Command::Enter(phase) => format!("enter {:?}", phase),
            Command::CheckAlive => "check".to_string(),
            Command::Finish => "finish".to_string(),
            Command::Done => "done".to_string(),
        });
        alive = commands.len() <= dies;
        if over {
            return commands;
        }
    }
}

fn expected_run() -> Vec<String> {
    let mut v: Vec<String> = Vec::new();
    let mut add = |items: &[&str]| v.extend(items.iter().map(|s| s.to_string()));
    let typing: Vec<String> =
        TYPED_TEXT.chars().map(|c| format!("send {} 20", c)).collect();
    let typing: Vec<&str> = typing.iter().map(|s| s.as_str()).collect();
    let scrolling: Vec<String> =
        scroll_keys().iter().map(|k| format!("send {} 20", k)).collect();
    let scrolling: Vec<&str> = scrolling.iter().map(|s| s.as_str()).collect();
    add(&["marker FILE_OPEN_START", "send :e /tmp/w.rs<CR> 300", "marker FILE_OPENED", "check"]);
    add(&["marker WARMUP_START", "rest 13000", "send gg 30", "send i 30"]);
    add(&typing);
    add(&["send <Esc> 30", "send :undo<CR> 30", "marker WARMUP_DONE", "check"]);
    add(&["marker SETTLE_START", "rest 2000", "marker IDLE_START", "enter Idle"]);
    add(&["rest 13000", "marker IDLE_END", "check", "marker TYPING_START", "enter Typing"]);
    add(&["send gg 30", "send i 30"]);
    add(&typing);
    add(&["send <Esc> 30", "marker TYPING_END", "check", "enter Scroll"]);
    add(&scrolling);
    add(&["send  30", "marker SCROLL_END"]);
    add(&[
        "send :call writefile([string(line('$')), string(line('.'))], '/tmp/s.txt')<CR> 200",
        "marker SANITY_DONE",
        "marker SHUTDOWN_START",
    ]);
    v
}

#[test]
fn unbroken_workload() {
    let mut expected = expected_run();
    expected.push("finish".to_string());
    expected.push("done".to_string());
    assert_eq!(run(usize::MAX), expected);
}

#[test]
fn broken_workload() {
    let all = expected_run();
    let deciding = |s: &str| {
        s == "check" || s.ends_with(" 300") || s.starts_with("send ") && s.ends_with(" 20")
    };
    for dies in [0, 2, 3, 6, 20, 300, 700] {
        let at = (dies..all.len()).find(|&i| deciding(&all[i])).unwrap();
        let mut expected = all[..=at].to_vec();
        expected.push("marker NVIM_DIED_UNEXPECTEDLY".to_string());
        expected.push("finish".to_string());
        expected.push("done".to_string());
        assert_eq!(run(dies), expected, "{}", dies);
    }
}

#[test]
fn every_workload_finishes_once() {
    for dies in 0..all_steps() + 3 {
        let commands = run(dies);
        assert_eq!(commands.iter().filter(|c| *c == "finish").count(), 1);
        assert_eq!(commands[commands.len() - 2], "finish");
        assert!(commands.len() <= all_steps() + 3);
    }
}

fn all_steps() -> usize {
    workload_script("", "").len()
}

#[test]
fn phases_are_entered_in_order() {
    let steps = workload_script("a", "b");
    let mut phases = Vec::new();
    let mut sent_while_idle = 0;
    for step in &steps {
        match step {
            Step::Enter(phase) => phases.push(*phase),
            Step::Send { .. } if phases.last() == Some(&Phase::Idle) => sent_while_idle += 1,
            _ => {}
        }
    }
    assert_eq!(phases, vec![Phase::Idle, Phase::Typing, Phase::Scroll]);
    assert_eq!(sent_while_idle, 0);
}

fn ready_run(now: u64) -> PerfRun {
    let mut run = PerfRun::new();
    run.live.render();
    run.live.launched(Ok(now));
    run
}

fn report(ready: bool) -> FrameReport {
    FrameReport { animating: false, batches: 3, exited: false, ready }
}

#[test]
fn workload_starts_with_the_first_content() {
    let mut run = ready_run(0);
    let dt = run.begin_frame(4);
    assert_eq!(dt, 4);
    let follow = run.end_frame(report(false));
    assert!(!follow.announce && !follow.start_workload);
    run.begin_frame(5);
    let follow = run.end_frame(report(true));
    assert!(follow.announce && follow.start_workload);
    run.begin_frame(5);
    let follow = run.end_frame(report(true));
    assert!(!follow.announce && !follow.start_workload);
    assert!(run.workload_started);
    assert_eq!((run.redraws, run.nvim_exited), (3, false));
}

#[test]
fn nothing_is_measured_before_a_phase() {
    let mut run = ready_run(0);
    run.begin_frame(4);
    run.end_frame(report(true));
    assert!(run.stats.idle.is_empty() && run.stats.typing.is_empty());
    assert!(run.stats.scroll.is_empty());
}

#[test]
fn phase_begins_with_a_fresh_clock() {
    let mut run = ready_run(0);
    run.begin_frame(4);
    run.end_frame(report(true));
    run.handle(Ctrl::SetPhase(Phase::Idle), false, 10);
    run.handle(Ctrl::SetPhase(Phase::Typing), false, 13_000_000_010);
    run.begin_frame(13_000_000_016);
    run.end_frame(report(true));
    assert_eq!(run.stats.typing, vec![6]);
    assert!(run.stats.idle.is_empty());
}

#[test]
fn input_message() {
    let mut run = PerfRun::new();
    let action = run.handle(Ctrl::Input("gg".to_string()), false, 0);
    assert!(matches!(action, CtrlAction::Nothing));
    let mut run = ready_run(0);
    run.begin_frame(1);
    run.end_frame(report(true));
    assert!(!run.live.tick(3));
    let action = run.handle(Ctrl::Input("gg".to_string()), true, 0);
    assert!(matches!(action, CtrlAction::Nothing));
    assert!(!run.live.tick(3));
    let action = run.handle(Ctrl::Input("gg".to_string()), false, 0);
    assert!(matches!(action, CtrlAction::Send(keys) if keys == "gg"));
    assert!(run.live.tick(3));
}

#[test]
fn finish_message() {
    let mut run = PerfRun::new();
    let action = run.handle(Ctrl::Finish, false, 0);
    assert!(matches!(action, CtrlAction::Finish { shutdown: false }));
    let mut run = ready_run(0);
    let action = run.handle(Ctrl::Finish, false, 0);
    assert!(matches!(action, CtrlAction::Finish { shutdown: true }));
    assert!(matches!(run.live, LiveState::Ready(_)));
}

#[test]
fn phase_message_without_a_session() {
    let mut run = PerfRun::new();
    run.handle(Ctrl::SetPhase(Phase::Scroll), false, 7);
    assert_eq!(run.phase, Phase::Scroll);
    assert!(matches!(run.live, LiveState::NotStarted));
}

#[test]
fn results_as_json() {
    assert_eq!(
        results_json(true, 42, "{\"n\":0}", "{\"n\":1}", "{\"n\":2}"),
        "{\"shutdown_ok\":true,\"total_redraw_batches_seen\":42,\
         \"idle_frame_stats\":{\"n\":0},\"typing_frame_stats\":{\"n\":1},\
         \"scroll_frame_stats\":{\"n\":2}}"
    );
}

#[test]
fn frame_times_lie_within_their_phase() {
    let mut run = ready_run(100);
    let frame = |run: &mut PerfRun, now: u64| {
        run.begin_frame(now);
        run.end_frame(report(true));
    };
    frame(&mut run, 107);
    run.handle(Ctrl::SetPhase(Phase::Idle), false, 110);
    frame(&mut run, 113);
    run.live.tick(4);
    run.handle(Ctrl::SetPhase(Phase::Typing), false, 13_000_000_110);
    run.handle(Ctrl::Input("i".to_string()), false, 13_000_000_112);
    frame(&mut run, 13_000_000_115);
    frame(&mut run, 13_000_000_125);
    run.handle(Ctrl::SetPhase(Phase::Scroll), false, 13_000_000_130);
    frame(&mut run, 13_000_000_131);
    assert_eq!(run.stats.idle, vec![3]);
    assert_eq!(run.stats.typing, vec![5, 10]);
    assert_eq!(run.stats.scroll, vec![1]);
}

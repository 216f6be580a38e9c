//! A measured run: what its frames add to the figures, what the workload's
//! messages do, and what it reports at the end.

use crate::clock;
use crate::frames;
use crate::frames::{FrameModel, FrameStats, Phase};
use crate::live;
use crate::live::{LiveModel, LiveSession, LiveState};
use crate::text;
use vstd::prelude::*;

verus! {

/// A message of the thread that runs the workload.
#[derive(Debug)]
pub enum Ctrl {
    /// Hand these keys to Neovim.
    Input(String),
    /// Begin this phase.
    SetPhase(Phase),
    /// End the measurement.
    Finish,
}

/// A message as a mathematical value.
pub enum CtrlModel {
    Input(Seq<char>),
    SetPhase(Phase),
    Finish,
}

/// What a message asks for.
#[derive(Debug)]
pub enum CtrlAction {
    /// Nothing.
    Nothing,
    /// Hand these keys to Neovim.
    Send(String),
    /// Report the figures and quit; shut Neovim down first where there is one.
    Finish { shutdown: bool },
}

/// What a message asks for as a mathematical value.
pub enum ActionModel {
    Nothing,
    Send(Seq<char>),
    Finish { shutdown: bool },
}

/// A measured run.
#[derive(Debug)]
pub struct PerfRun {
    pub live: LiveState,
    pub phase: Phase,
    pub stats: FrameStats,
    /// The time of the frame that is begun and not yet drawn: the time since the
    /// frame before.
    pub frame_time: Option<u64>,
    /// How many redraw batches had arrived by the last frame.
    pub redraws: u64,
    /// Whether Neovim had exited by the last frame.
    pub nvim_exited: bool,
    /// Whether the workload was started.
    pub workload_started: bool,
}

/// A measured run as a mathematical value.
pub struct PerfModel {
    pub live: LiveModel,
    pub phase: Phase,
    pub stats: FrameModel,
    pub frame_time: Option<u64>,
    pub redraws: u64,
    pub nvim_exited: bool,
    pub workload_started: bool,
}

/// What the session reports with a drawn frame.
#[derive(Clone, Copy, Debug, PartialEq, Eq, Structural)]
pub struct FrameReport {
    /// Whether the animation goes on.
    pub animating: bool,
    /// How many redraw batches have arrived.
    pub batches: u64,
    /// Whether Neovim has exited.
    pub exited: bool,
    /// Whether the first real content is there.
    pub ready: bool,
}

/// What is to be done once a frame was drawn.
#[derive(Clone, Copy, Debug, PartialEq, Eq, Structural)]
pub struct FrameFollowUp {
    /// Announce that the first real content is there.
    pub announce: bool,
    /// Start the workload.
    pub start_workload: bool,
}

impl View for Ctrl {
    type V = CtrlModel;

    open spec fn view(&self) -> CtrlModel {
        match *self {
            Ctrl::Input(keys) => CtrlModel::Input(keys@),
            Ctrl::SetPhase(phase) => CtrlModel::SetPhase(phase),
            Ctrl::Finish => CtrlModel::Finish,
        }
    }
}

impl View for CtrlAction {
    type V = ActionModel;

    open spec fn view(&self) -> ActionModel {
        match *self {
            CtrlAction::Nothing => ActionModel::Nothing,
            CtrlAction::Send(keys) => ActionModel::Send(keys@),
            CtrlAction::Finish { shutdown } => ActionModel::Finish { shutdown },
        }
    }
}

impl View for PerfRun {
    type V = PerfModel;

    open spec fn view(&self) -> PerfModel {
        PerfModel {
            live: self.live@,
            phase: self.phase,
            stats: self.stats@,
            frame_time: self.frame_time,
            redraws: self.redraws,
            nvim_exited: self.nvim_exited,
            workload_started: self.workload_started,
        }
    }
}

/// A run before anything happened.
pub open spec fn fresh_run() -> PerfModel {
    PerfModel {
        live: LiveModel::NotStarted,
        phase: Phase::PreMeasurement,
        stats: FrameModel { idle: Seq::empty(), typing: Seq::empty(), scroll: Seq::empty() },
        frame_time: None,
        redraws: 0,
        nvim_exited: false,
        workload_started: false,
    }
}

/// The time of a frame of the session that is begun at `now`.
pub open spec fn frame_time(m: PerfModel, now: u64) -> u64 {
    clock::elapsed(m.live->Ready_0.clock.last_frame, now)
}

/// The run once a frame of its session was begun at `now`. It keeps the time of
/// the frame.
pub open spec fn frame_begun(m: PerfModel, now: u64) -> PerfModel {
    PerfModel {
        live: LiveModel::Ready(live::ticked(m.live->Ready_0, now)),
        frame_time: Some(frame_time(m, now)),
        ..m
    }
}

/// The session once a frame was drawn.
pub open spec fn session_drawn(session: LiveSession, report: FrameReport) -> LiveSession {
    live::told_ready(live::drawn(session, report.animating, report.batches), report.ready)
}

/// What is to be done once a frame was drawn: the workload starts with the first
/// real content, and only once.
pub open spec fn follow_up(m: PerfModel, report: FrameReport) -> FrameFollowUp {
    let announce = live::announces(m.live->Ready_0, report.ready);
    FrameFollowUp { announce, start_workload: announce && !m.workload_started }
}

/// The run once the frame that was begun is drawn: its time counts for the phase
/// of the run.
pub open spec fn frame_drawn(m: PerfModel, report: FrameReport) -> PerfModel {
    PerfModel {
        live: LiveModel::Ready(session_drawn(m.live->Ready_0, report)),
        stats: frames::with_frame(m.stats, m.phase, m.frame_time->0),
        frame_time: None,
        redraws: report.batches,
        nvim_exited: report.exited,
        workload_started: m.workload_started || follow_up(m, report).start_workload,
        ..m
    }
}

/// What a message asks for, `exited` being whether Neovim has exited.
pub open spec fn message_action(m: PerfModel, msg: CtrlModel, exited: bool) -> ActionModel {
    match msg {
        CtrlModel::Input(keys) => if live::takes_input(m.live, exited) {
            ActionModel::Send(keys)
        } else {
            ActionModel::Nothing
        },
        CtrlModel::SetPhase(_) => ActionModel::Nothing,
        CtrlModel::Finish => ActionModel::Finish { shutdown: m.live is Ready },
    }
}

/// The run after a message at `now`. A phase begins with a frame clock that
/// counts from there: the time since the last frame of the phase before counts
/// for none.
pub open spec fn after_message(
    m: PerfModel,
    msg: CtrlModel,
    exited: bool,
    now: u64,
) -> PerfModel {
    match msg {
        CtrlModel::Input(_) => PerfModel { live: live::after_input(m.live, exited), ..m },
        CtrlModel::SetPhase(phase) => PerfModel {
            phase,
            live: match m.live {
                LiveModel::Ready(session) => LiveModel::Ready(
                    LiveSession {
                        clock: clock::FrameClock { last_frame: now, ..session.clock },
                        ..session
                    },
                ),
                _ => m.live,
            },
            ..m
        },
        CtrlModel::Finish => m,
    }
}

/// The word for a truth value.
pub open spec fn bool_text(b: bool) -> Seq<char> {
    if b {
        "true"@
    } else {
        "false"@
    }
}

/// The report of a run as JSON.
pub open spec fn results(
    shutdown_ok: bool,
    redraws: nat,
    idle: Seq<char>,
    typing: Seq<char>,
    scroll: Seq<char>,
) -> Seq<char> {
    "{\"shutdown_ok\":"@ + bool_text(shutdown_ok) + ",\"total_redraw_batches_seen\":"@
        + text::decimal(redraws) + ",\"idle_frame_stats\":"@ + idle + ",\"typing_frame_stats\":"@
        + typing + ",\"scroll_frame_stats\":"@ + scroll + "}"@
}

/// The word for a truth value.
pub fn bool_word(b: bool) -> (word: &'static str)
    ensures
        word@ == bool_text(b),
{
    if b {
        "true"
    } else {
        "false"
    }
}

impl PerfRun {
    /// A run before anything happened.
    pub fn new() -> (run: Self)
        ensures
            run@ == fresh_run(),
    {
        PerfRun {
            live: LiveState::NotStarted,
            phase: Phase::PreMeasurement,
            stats: FrameStats::new(),
            frame_time: None,
            redraws: 0,
            nvim_exited: false,
            workload_started: false,
        }
    }

    /// Begins a frame of the session at `now` and returns the time since the
    /// frame before.
    pub fn begin_frame(&mut self, now: u64) -> (dt: u64)
        requires
            old(self)@.live is Ready,
            old(self)@.live->Ready_0.clock.frame_count < u64::MAX,
        ensures
            final(self)@ == frame_begun(old(self)@, now),
            dt == frame_time(old(self)@, now),
    {
        let dt: u64 = match &mut self.live {
            LiveState::Ready(session) => session.tick(now),
            _ => 0,
        };
        self.frame_time = Some(dt);
        dt
    }

    /// Takes what the frame that was begun reported once it was drawn, collects
    /// its time, and says what is to be done now.
    pub fn end_frame(&mut self, report: FrameReport) -> (follow: FrameFollowUp)
        requires
            old(self)@.live is Ready,
            old(self)@.frame_time is Some,
        ensures
            final(self)@ == frame_drawn(old(self)@, report),
            follow == follow_up(old(self)@, report),
    {
        let announce: bool = match &mut self.live {
            LiveState::Ready(session) => {
                session.frame_drawn(report.animating, report.batches);
                session.announce_ready(report.ready)
            },
            _ => false,
        };
        self.redraws = report.batches;
        self.nvim_exited = report.exited;
        match self.frame_time {
            Some(dt) => self.stats.push(self.phase, dt),
            None => {},
        }
        self.frame_time = None;
        let start_workload: bool = announce && !self.workload_started;
        if start_workload {
            self.workload_started = true;
        }
        FrameFollowUp { announce, start_workload }
    }

    /// Handles a message at `now` and says what it asks for. `exited` says
    /// whether Neovim has exited.
    pub fn handle(&mut self, msg: Ctrl, exited: bool, now: u64) -> (action: CtrlAction)
        ensures
            final(self)@ == after_message(old(self)@, msg@, exited, now),
            action@ == message_action(old(self)@, msg@, exited),
    {
        match msg {
            Ctrl::Input(keys) => {
                if self.live.input(exited) {
                    CtrlAction::Send(keys)
                } else {
                    CtrlAction::Nothing
                }
            },
            Ctrl::SetPhase(phase) => {
                self.phase = phase;
                match &mut self.live {
                    LiveState::Ready(session) => {
                        session.clock.reset(now);
                    },
                    _ => {},
                }
                CtrlAction::Nothing
            },
            Ctrl::Finish => CtrlAction::Finish { shutdown: self.live.needs_shutdown() },
        }
    }
}

/// The report of a run as JSON: how it was shut down, how many redraw batches
/// arrived, and the figures of each phase, which are JSON already.
pub fn results_json(
    shutdown_ok: bool,
    redraws: u64,
    idle: &str,
    typing: &str,
    scroll: &str,
) -> (json: String)
    ensures
        json@ == results(shutdown_ok, redraws as nat, idle@, typing@, scroll@),
{
    let mut json: String = "{\"shutdown_ok\":".to_owned();
    json.append(bool_word(shutdown_ok));
    json.append(",\"total_redraw_batches_seen\":");
    text::push_decimal(&mut json, redraws as u128);
    json.append(",\"idle_frame_stats\":");
    json.append(idle);
    json.append(",\"typing_frame_stats\":");
    json.append(typing);
    json.append(",\"scroll_frame_stats\":");
    json.append(scroll);
    json.append("}");
    json
}

/// The first frame of a phase counts from the beginning of the phase: whatever
/// gap lies before it, such as a whole idle window without frames, does not show
/// in the figures of the phase.
pub proof fn law_phase_begins_with_a_fresh_clock(
    m: PerfModel,
    phase: Phase,
    exited: bool,
    begun: u64,
    drawn: u64,
    report: FrameReport,
)
    requires
        m.live is Ready,
        !(phase is PreMeasurement),
    ensures
        ({
            let entered = after_message(m, CtrlModel::SetPhase(phase), exited, begun);
            let after = frame_drawn(frame_begun(entered, drawn), report);
            frames::of_phase(after.stats, phase) == frames::of_phase(m.stats, phase).push(
                clock::elapsed(begun, drawn),
            )
        }),
{
}

/// What can happen to a run.
pub enum PerfEvent {
    /// A render callback that finds no running session.
    Render,
    /// Starting Neovim ended: it came up at a time, or failed for a reason.
    Launched { outcome: Result<u64, Seq<char>> },
    /// A render callback that draws a frame of the session at `now`.
    Frame { now: u64, report: FrameReport },
    /// A display tick, with this many redraw batches arrived.
    Tick { batches: u64 },
    /// The pane changed its size.
    Resize,
    /// A message came in at `now`.
    Message { msg: CtrlModel, exited: bool, now: u64 },
}

/// The run after an event. Only a running session draws frames, and only a pane
/// that is starting takes the outcome of the start.
pub open spec fn after_event(m: PerfModel, event: PerfEvent) -> PerfModel {
    match event {
        PerfEvent::Render => PerfModel { live: live::after_render(m.live), ..m },
        PerfEvent::Launched { outcome } => if m.live is Starting {
            PerfModel { live: live::after_launch(outcome), ..m }
        } else {
            m
        },
        PerfEvent::Frame { now, report } => if m.live is Ready {
            frame_drawn(frame_begun(m, now), report)
        } else {
            m
        },
        PerfEvent::Tick { batches } => PerfModel { live: live::after_tick(m.live, batches), ..m },
        PerfEvent::Resize => PerfModel { live: live::after_request(m.live), ..m },
        PerfEvent::Message { msg, exited, now } => after_message(m, msg, exited, now),
    }
}

/// The run after all of `events`.
pub open spec fn after_events(m: PerfModel, events: Seq<PerfEvent>) -> PerfModel
    decreases events.len(),
{
    if events.len() == 0 {
        m
    } else {
        after_event(after_events(m, events.drop_last()), events.last())
    }
}

/// When an event happened, where it has a time.
pub open spec fn moment(event: PerfEvent) -> Option<u64> {
    match event {
        PerfEvent::Launched { outcome: Ok(now) } => Some(now),
        PerfEvent::Frame { now, .. } => Some(now),
        PerfEvent::Message { now, .. } => Some(now),
        _ => None,
    }
}

/// Whether the times of `events` do not go back.
pub open spec fn never_back(events: Seq<PerfEvent>) -> bool {
    forall|i: int, j: int|
        #![trigger moment(events[i]), moment(events[j])]
        0 <= i <= j < events.len() && moment(events[i]) is Some && moment(events[j]) is Some
            ==> moment(events[i])->0 <= moment(events[j])->0
}

/// Whether all `events` happened from `begun` to `now`.
pub open spec fn happen_between(begun: u64, now: u64, events: Seq<PerfEvent>) -> bool {
    begun <= now && forall|i: int|
        0 <= i < events.len() && #[trigger] moment(events[i]) is Some ==> begun <= moment(
            events[i],
        )->0 <= now
}

/// Whether the event at position `i` draws a frame, `m` being the run before all
/// of them.
pub open spec fn draws_at(m: PerfModel, events: Seq<PerfEvent>, i: int) -> bool {
    &&& 0 <= i < events.len()
    &&& events[i] is Frame
    &&& after_events(m, events.take(i)).live is Ready
}

/// Whether an event begins a phase.
pub open spec fn sets_phase(event: PerfEvent) -> bool {
    event is Message && event->msg is SetPhase
}

/// The times of the frames drawn during `events`, in their order.
pub open spec fn frame_times(m: PerfModel, events: Seq<PerfEvent>) -> Seq<u64>
    decreases events.len(),
{
    if events.len() == 0 {
        Seq::empty()
    } else {
        let before = events.drop_last();
        match events.last() {
            PerfEvent::Frame { now, .. } if after_events(m, before).live is Ready => frame_times(
                m,
                before,
            ).push(frame_time(after_events(m, before), now)),
            _ => frame_times(m, before),
        }
    }
}

/// The sum of `times`.
pub open spec fn total(times: Seq<u64>) -> nat
    decreases times.len(),
{
    if times.len() == 0 {
        0
    } else {
        total(times.drop_last()) + times.last() as nat
    }
}

/// The times of a run without its last event do not go back either.
proof fn lemma_shorter_run(events: Seq<PerfEvent>)
    requires
        events.len() > 0,
        never_back(events),
    ensures
        never_back(events.drop_last()),
{
    let before = events.drop_last();
    assert forall|i: int, j: int|
        #![trigger moment(before[i]), moment(before[j])]
        0 <= i <= j < before.len() && moment(before[i]) is Some && moment(before[j])
            is Some implies moment(before[i])->0 <= moment(before[j])->0 by {
        assert(before[i] == events[i] && before[j] == events[j]);
    }
}

/// Since a phase began at `begun`, the clock of a running session stands between
/// the frame times added up and `now`; without a session there were no frames.
proof fn lemma_clock_since(m: PerfModel, begun: u64, now: u64, events: Seq<PerfEvent>)
    requires
        m.live is Ready ==> m.live->Ready_0.clock.last_frame == begun,
        never_back(events),
        happen_between(begun, now, events),
        forall|i: int| 0 <= i < events.len() ==> !sets_phase(#[trigger] events[i]),
    ensures
        ({
            let after = after_events(m, events);
            &&& after.phase == m.phase
            &&& after.live is Ready ==> begun + total(frame_times(m, events))
                <= after.live->Ready_0.clock.last_frame <= now
            &&& !(after.live is Ready) ==> frame_times(m, events).len() == 0
        }),
    decreases events.len(),
{
    if events.len() > 0 {
        let before = events.drop_last();
        let last = events[events.len() - 1];
        lemma_shorter_run(events);
        assert forall|i: int| 0 <= i < before.len() implies !sets_phase(#[trigger] before[i]) by {
            assert(before[i] == events[i]);
        }
        assert(!sets_phase(last));
        let until = match moment(last) {
            Some(t) => t,
            None => now,
        };
        assert(happen_between(begun, until, before)) by {
            assert(begun <= until <= now);
            assert forall|i: int|
                0 <= i < before.len() && #[trigger] moment(before[i]) is Some implies begun
                <= moment(before[i])->0 <= until by {
                assert(before[i] == events[i]);
            }
        }
        lemma_clock_since(m, begun, until, before);
        let found = after_events(m, before);
        if last is Frame && found.live is Ready {
            let times = frame_times(m, before);
            assert(times.push(frame_time(found, last->Frame_now)).drop_last() =~= times);
        }
    }
}

/// No time is longer than all of them together.
proof fn lemma_part_of_total(times: Seq<u64>, i: int)
    requires
        0 <= i < times.len(),
    ensures
        times[i] <= total(times),
    decreases times.len(),
{
    if i < times.len() - 1 {
        lemma_part_of_total(times.drop_last(), i);
    }
}

/// As long as no phase is begun, the frames drawn all count for the phase of the
/// run.
proof fn lemma_frames_count(m: PerfModel, events: Seq<PerfEvent>, phase: Phase)
    requires
        forall|i: int| 0 <= i < events.len() ==> !sets_phase(#[trigger] events[i]),
    ensures
        after_events(m, events).phase == m.phase,
        frames::of_phase(after_events(m, events).stats, phase) == if phase == m.phase && !(phase
            is PreMeasurement) {
            frames::of_phase(m.stats, phase) + frame_times(m, events)
        } else {
            frames::of_phase(m.stats, phase)
        },
    decreases events.len(),
{
    let own = frames::of_phase(m.stats, phase);
    if events.len() == 0 {
        assert(own + frame_times(m, events) =~= own);
    } else {
        let before = events.drop_last();
        let last = events[events.len() - 1];
        assert forall|i: int| 0 <= i < before.len() implies !sets_phase(#[trigger] before[i]) by {
            assert(before[i] == events[i]);
        }
        assert(!sets_phase(last));
        lemma_frames_count(m, before, phase);
        let found = after_events(m, before);
        if last is Frame && found.live is Ready {
            let times = frame_times(m, before);
            let dt = frame_time(found, last->Frame_now);
            assert(own + times.push(dt) =~= (own + times).push(dt));
        }
    }
}

/// What is collected since a phase was begun lies within the phase. Let a phase
/// be begun at `begun`, whatever happened before, and let none be begun until
/// `now`. Then every frame drawn in between has its time collected for that
/// phase and for no other, or for none before the measurement; no frame time
/// covers anything before `begun`, and together they cover no more than the time
/// since. So a gap before the phase, such as an idle window without frames, never
/// shows in its figures.
pub proof fn law_frame_times_lie_within_their_phase(
    m: PerfModel,
    phase: Phase,
    exited: bool,
    begun: u64,
    now: u64,
    events: Seq<PerfEvent>,
    other: Phase,
)
    requires
        never_back(events),
        happen_between(begun, now, events),
        forall|i: int| 0 <= i < events.len() ==> !sets_phase(#[trigger] events[i]),
    ensures
        ({
            let entered = after_message(m, CtrlModel::SetPhase(phase), exited, begun);
            let after = after_events(entered, events);
            let times = frame_times(entered, events);
            &&& after.phase == phase
            &&& frames::of_phase(after.stats, other) == if other == phase && !(phase
                is PreMeasurement) {
                frames::of_phase(m.stats, other) + times
            } else {
                frames::of_phase(m.stats, other)
            }
            &&& total(times) <= now - begun
            &&& forall|i: int| 0 <= i < times.len() ==> #[trigger] times[i] <= now - begun
        }),
{
    let entered = after_message(m, CtrlModel::SetPhase(phase), exited, begun);
    let times = frame_times(entered, events);
    lemma_clock_since(entered, begun, now, events);
    lemma_frames_count(entered, events, other);
    assert forall|i: int| 0 <= i < times.len() implies #[trigger] times[i] <= now - begun by {
        lemma_part_of_total(times, i);
    }
}

/// From the event that begins a phase on, the clock of a running session stands
/// at no time before it.
proof fn lemma_clock_not_before(events: Seq<PerfEvent>, k: int, i: int)
    requires
        never_back(events),
        0 <= k < i <= events.len(),
        sets_phase(events[k]),
        forall|j: int| k < j < i ==> !sets_phase(#[trigger] events[j]),
    ensures
        ({
            let found = after_events(fresh_run(), events.take(i));
            &&& found.phase == events[k]->msg->SetPhase_0
            &&& found.live is Ready ==> events[k]->Message_now
                <= found.live->Ready_0.clock.last_frame
        }),
    decreases i,
{
    let last = events[i - 1];
    assert(events.take(i).drop_last() =~= events.take(i - 1));
    assert(events.take(i).last() == last);
    if k < i - 1 {
        lemma_clock_not_before(events, k, i - 1);
        assert(!sets_phase(last));
        assert(moment(events[k]) is Some);
        assert(moment(last) is Some ==> moment(events[k])->0 <= moment(last)->0);
    }
}

/// In a whole run, whatever frames and messages it is made of, a frame drawn
/// after a phase was begun, and before the next one was, counts once, for that
/// phase, or for none before the measurement; and its time covers nothing before
/// the phase was begun.
pub proof fn law_no_frame_time_reaches_before_its_phase(events: Seq<PerfEvent>, k: int, i: int)
    requires
        never_back(events),
        0 <= k < i,
        sets_phase(events[k]),
        forall|j: int| k < j < i ==> !sets_phase(#[trigger] events[j]),
        draws_at(fresh_run(), events, i),
    ensures
        ({
            let found = after_events(fresh_run(), events.take(i));
            let after = after_events(fresh_run(), events.take(i + 1));
            let dt = frame_time(found, events[i]->Frame_now);
            &&& found.phase == events[k]->msg->SetPhase_0
            &&& after.stats == frames::with_frame(found.stats, found.phase, dt)
            &&& dt <= events[i]->Frame_now - events[k]->Message_now
        }),
{
    lemma_clock_not_before(events, k, i);
    assert(events.take(i + 1).drop_last() =~= events.take(i));
    assert(moment(events[k]) is Some && moment(events[i]) is Some);
}

/// The workload is started at most once: after a frame that started it, no later
/// one does, whatever happens in between.
pub proof fn law_workload_starts_once(
    m: PerfModel,
    first: FrameReport,
    events: Seq<PerfEvent>,
    later: FrameReport,
)
    requires
        m.live is Ready,
        follow_up(m, first).start_workload,
    ensures
        after_events(frame_drawn(m, first), events).workload_started,
        !follow_up(after_events(frame_drawn(m, first), events), later).start_workload,
    decreases events.len(),
{
    if events.len() > 0 {
        law_workload_starts_once(m, first, events.drop_last(), later);
    }
}

/// Frames count for no phase before the first phase is entered: until a message
/// begins one, nothing is collected.
pub proof fn law_nothing_is_collected_before_measurement(events: Seq<PerfEvent>)
    requires
        forall|i: int|
            0 <= i < events.len() ==> !(#[trigger] events[i] is Message && events[i]->msg
                is SetPhase),
    ensures
        after_events(fresh_run(), events).stats == fresh_run().stats,
        after_events(fresh_run(), events).phase is PreMeasurement,
    decreases events.len(),
{
    if events.len() > 0 {
        let before = events.drop_last();
        assert forall|i: int| 0 <= i < before.len() implies !(#[trigger] before[i] is Message
            && before[i]->msg is SetPhase) by {
            assert(before[i] == events[i]);
        }
        law_nothing_is_collected_before_measurement(before);
        let last = events[events.len() - 1];
        assert(!(last is Message && last->msg is SetPhase));
    }
}

/// Keys go to a running session whose Neovim has not exited, just as they are,
/// and to nobody else. A phase that is begun asks for nothing. The end always
/// comes, and shuts down Neovim where a session runs.
pub proof fn law_messages_ask_for_their_actions(
    m: PerfModel,
    keys: Seq<char>,
    phase: Phase,
    exited: bool,
)
    ensures
        m.live is Ready && !exited ==> message_action(m, CtrlModel::Input(keys), exited)
            == ActionModel::Send(keys),
        exited || !(m.live is Ready) ==> message_action(m, CtrlModel::Input(keys), exited)
            == ActionModel::Nothing,
        message_action(m, CtrlModel::SetPhase(phase), exited) == ActionModel::Nothing,
        message_action(m, CtrlModel::Finish, exited) == (ActionModel::Finish {
            shutdown: m.live is Ready,
        }),
{
}

/// A message changes what it is about: keys ask for a frame of the session that
/// takes them, a phase that is begun is the one in force and begins its clock,
/// and the end changes nothing. What was collected stays.
pub proof fn law_messages_change_their_part(
    m: PerfModel,
    keys: Seq<char>,
    phase: Phase,
    exited: bool,
    now: u64,
)
    ensures
        after_message(m, CtrlModel::Input(keys), exited, now) == (PerfModel {
            live: live::after_input(m.live, exited),
            ..m
        }),
        after_message(m, CtrlModel::Finish, exited, now) == m,
        ({
            let after = after_message(m, CtrlModel::SetPhase(phase), exited, now);
            &&& after.phase == phase
            &&& after.stats == m.stats
            &&& after.frame_time == m.frame_time
            &&& after.redraws == m.redraws
            &&& after.nvim_exited == m.nvim_exited
            &&& after.workload_started == m.workload_started
            &&& !(m.live is Ready) ==> after.live == m.live
            &&& m.live is Ready ==> after.live is Ready && ({
                let (s, t) = (m.live->Ready_0, after.live->Ready_0);
                &&& t.clock.last_frame == now
                &&& t.clock.start == s.clock.start
                &&& t.clock.frame_count == s.clock.frame_count
                &&& t.logged_ready == s.logged_ready
                &&& t.last_animating == s.last_animating
                &&& t.last_seen_batches == s.last_seen_batches
                &&& t.wants_frame == s.wants_frame
            })
        }),
{
}

/// A frame that is begun and drawn at `now` counts the time since the frame before
/// for the phase in force, and leaves what it reported: whether its animation goes
/// on, how many batches there were, and whether Neovim has exited. The phase does
/// not change.
pub proof fn law_frame_leaves_its_report(m: PerfModel, now: u64, report: FrameReport)
    requires
        m.live is Ready,
        m.live->Ready_0.clock.last_frame <= now,
        m.live->Ready_0.clock.frame_count < u64::MAX,
    ensures
        ({
            let after = frame_drawn(frame_begun(m, now), report);
            let (s, t) = (m.live->Ready_0, after.live->Ready_0);
            let dt = (now - s.clock.last_frame) as u64;
            &&& after.live is Ready
            &&& after.stats == frames::with_frame(m.stats, m.phase, dt)
            &&& frame_time(m, now) == dt
            &&& frame_begun(m, now).frame_time == Some(dt)
            &&& after.frame_time is None
            &&& after.phase == m.phase
            &&& after.redraws == report.batches
            &&& after.nvim_exited == report.exited
            &&& t.clock.last_frame == now
            &&& t.clock.frame_count == s.clock.frame_count + 1
            &&& t.clock.start == s.clock.start
            &&& t.last_animating == report.animating
            &&& t.last_seen_batches == report.batches
            &&& t.wants_frame == s.wants_frame
            &&& t.logged_ready == (s.logged_ready || report.ready)
        }),
{
}

/// The frame that first reports content announces it and starts the workload,
/// unless that was started before; no other frame does either.
pub proof fn law_first_content_starts_the_workload(m: PerfModel, report: FrameReport)
    requires
        m.live is Ready,
    ensures
        follow_up(m, report).announce <==> report.ready && !m.live->Ready_0.logged_ready,
        follow_up(m, report).start_workload <==> report.ready && !m.live->Ready_0.logged_ready
            && !m.workload_started,
        frame_drawn(m, report).workload_started <==> m.workload_started || report.ready
            && !m.live->Ready_0.logged_ready,
{
}

/// A run begins outside every phase, with nothing collected, nothing begun and
/// nothing started.
pub proof fn law_fresh_run_has_nothing()
    ensures
        fresh_run().live is NotStarted,
        fresh_run().phase is PreMeasurement,
        fresh_run().stats.idle.len() == 0,
        fresh_run().stats.typing.len() == 0,
        fresh_run().stats.scroll.len() == 0,
        fresh_run().frame_time is None,
        fresh_run().redraws == 0,
        !fresh_run().nvim_exited,
        !fresh_run().workload_started,
{
}

/// The report of a run holds how it was shut down, how many batches arrived, and
/// the figures of the three phases, each behind its own key and as they are.
pub proof fn law_results_hold_every_part(
    shutdown_ok: bool,
    redraws: nat,
    idle: Seq<char>,
    typing: Seq<char>,
    scroll: Seq<char>,
)
    ensures
        results(shutdown_ok, redraws, idle, typing, scroll) == "{\"shutdown_ok\":"@ + ((
        if shutdown_ok {
            "true"@
        } else {
            "false"@
        }) + (",\"total_redraw_batches_seen\":"@ + (text::decimal(redraws) + (
        ",\"idle_frame_stats\":"@ + (idle + (",\"typing_frame_stats\":"@ + (typing + (
        ",\"scroll_frame_stats\":"@ + (scroll + "}"@))))))))),
{
    let word = if shutdown_ok {
        "true"@
    } else {
        "false"@
    };
    assert(results(shutdown_ok, redraws, idle, typing, scroll) =~= "{\"shutdown_ok\":"@ + (word + (
    ",\"total_redraw_batches_seen\":"@ + (text::decimal(redraws) + (",\"idle_frame_stats\":"@ + (
    idle + (",\"typing_frame_stats\":"@ + (typing + (",\"scroll_frame_stats\":"@ + (scroll
        + "}"@))))))))));
}

} // verus!

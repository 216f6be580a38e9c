//! The editor pane's life: from an empty window to a running Neovim session,
//! and which display ticks need another frame once it runs.
//!
//! Starting Neovim blocks, so a pane first presents a placeholder frame and
//! starts Neovim in the render callback after it. Once the session runs, a
//! display tick asks for a frame only when the last frame was still animating,
//! when Neovim has sent something new, or when a resize or a keypress since the
//! last tick asked for one.
//!
//! Times are nanoseconds on one monotonic clock.

use crate::clock;
use crate::clock::FrameClock;
use vstd::prelude::*;

verus! {

/// A running session's bookkeeping.
#[derive(Clone, Copy, Debug)]
pub struct LiveSession {
    /// The clock of the drawn frames, started when the session came up.
    pub clock: FrameClock,
    /// Whether the first real content was announced.
    pub logged_ready: bool,
    /// What the last drawn frame reported: does its animation go on. It starts
    /// `true`, so that frames are drawn until one has reported.
    pub last_animating: bool,
    /// How many redraw batches had arrived when they were last looked at.
    pub last_seen_batches: u64,
    /// Whether a resize or a keypress asked for a frame since the last tick.
    pub wants_frame: bool,
}

/// Where the pane stands.
#[derive(Debug)]
pub enum LiveState {
    /// No frame was drawn yet.
    NotStarted,
    /// The placeholder was drawn; the next render callback starts Neovim.
    Starting,
    /// Neovim runs.
    Ready(LiveSession),
    /// Neovim could not be started, for the given reason.
    Failed(String),
}

/// What a render callback has to do.
#[derive(Clone, Copy, Debug, PartialEq, Eq, Structural)]
pub enum RenderStep {
    /// Paint the placeholder.
    Placeholder,
    /// Paint the placeholder, then start Neovim and report the outcome.
    Launch,
    /// Draw a frame of the session.
    Frame,
    /// Paint the failure color.
    Failure,
}

/// How the frames of a running session stand when the pane is resized.
#[derive(Clone, Copy, Debug, PartialEq, Eq, Structural)]
pub struct ResizeNote {
    /// The time since the frame clock last advanced.
    pub since_last_frame: u64,
    /// How many frames were drawn.
    pub frame_count: u64,
}

/// A `LiveState` as a mathematical value.
pub enum LiveModel {
    NotStarted,
    Starting,
    Ready(LiveSession),
    Failed(Seq<char>),
}

impl View for LiveState {
    type V = LiveModel;

    open spec fn view(&self) -> LiveModel {
        match *self {
            LiveState::NotStarted => LiveModel::NotStarted,
            LiveState::Starting => LiveModel::Starting,
            LiveState::Ready(session) => LiveModel::Ready(session),
            LiveState::Failed(message) => LiveModel::Failed(message@),
        }
    }
}

/// A session that came up at `now` and has drawn nothing.
pub open spec fn fresh_session(now: u64) -> LiveSession {
    LiveSession {
        clock: clock::started(now),
        logged_ready: false,
        last_animating: true,
        last_seen_batches: 0,
        wants_frame: false,
    }
}

/// The session with its frame clock advanced to `now` and one more frame.
pub open spec fn ticked(session: LiveSession, now: u64) -> LiveSession {
    LiveSession { clock: clock::advanced(session.clock, now), ..session }
}

/// The session after a frame that reported `animating`, with `batches` redraw
/// batches arrived so far.
pub open spec fn drawn(session: LiveSession, animating: bool, batches: u64) -> LiveSession {
    LiveSession { last_animating: animating, last_seen_batches: batches, ..session }
}

/// Whether content is announced now: it is there, and was not announced before.
pub open spec fn announces(session: LiveSession, ready: bool) -> bool {
    ready && !session.logged_ready
}

/// The session after it was told whether content is there.
pub open spec fn told_ready(session: LiveSession, ready: bool) -> LiveSession {
    LiveSession { logged_ready: session.logged_ready || ready, ..session }
}

/// What a render callback has to do in state `m`.
pub open spec fn render_step(m: LiveModel) -> RenderStep {
    match m {
        LiveModel::NotStarted => RenderStep::Placeholder,
        LiveModel::Starting => RenderStep::Launch,
        LiveModel::Ready(_) => RenderStep::Frame,
        LiveModel::Failed(_) => RenderStep::Failure,
    }
}

/// The state once a render callback has begun: the first one leaves
/// `NotStarted`, and no other changes anything.
pub open spec fn after_render(m: LiveModel) -> LiveModel {
    match m {
        LiveModel::NotStarted => LiveModel::Starting,
        _ => m,
    }
}

/// The state once Neovim came up at a time, or failed to for a reason.
pub open spec fn after_launch(outcome: Result<u64, Seq<char>>) -> LiveModel {
    match outcome {
        Ok(now) => LiveModel::Ready(fresh_session(now)),
        Err(message) => LiveModel::Failed(message),
    }
}

/// Whether a display tick asks for a frame, `batches` redraw batches having
/// arrived. Outside a running session every tick does.
pub open spec fn tick_needs_frame(m: LiveModel, batches: u64) -> bool {
    match m {
        LiveModel::Ready(session) => {
            ||| session.last_animating
            ||| batches != session.last_seen_batches
            ||| session.wants_frame
        },
        _ => true,
    }
}

/// The state after a display tick: the batches are seen and the request for a
/// frame is used up.
pub open spec fn after_tick(m: LiveModel, batches: u64) -> LiveModel {
    match m {
        LiveModel::Ready(session) => LiveModel::Ready(
            LiveSession { last_seen_batches: batches, wants_frame: false, ..session },
        ),
        _ => m,
    }
}

/// The state once something asked for a frame: only a running session keeps the
/// request.
pub open spec fn after_request(m: LiveModel) -> LiveModel {
    match m {
        LiveModel::Ready(session) => LiveModel::Ready(LiveSession { wants_frame: true, ..session }),
        _ => m,
    }
}

/// Whether text goes to Neovim: the session runs and Neovim has not exited.
pub open spec fn takes_input(m: LiveModel, exited: bool) -> bool {
    m is Ready && !exited
}

/// The state after text input: input that went to Neovim asks for a frame.
pub open spec fn after_input(m: LiveModel, exited: bool) -> LiveModel {
    if takes_input(m, exited) {
        after_request(m)
    } else {
        m
    }
}

/// A short name of the state for log lines.
pub open spec fn tag_text(m: LiveModel) -> Seq<char> {
    match m {
        LiveModel::NotStarted => "not_started"@,
        LiveModel::Starting => "starting"@,
        LiveModel::Ready(_) => "ready"@,
        LiveModel::Failed(_) => "failed"@,
    }
}

/// How the frames of a running session stand when the pane is resized at `now`.
pub open spec fn resize_note(m: LiveModel, now: u64) -> Option<ResizeNote> {
    match m {
        LiveModel::Ready(session) => Some(
            ResizeNote {
                since_last_frame: clock::elapsed(session.clock.last_frame, now),
                frame_count: session.clock.frame_count,
            },
        ),
        _ => None,
    }
}

/// Whether closing the window has to shut Neovim down first.
pub open spec fn to_shut_down(m: LiveModel) -> bool {
    m is Ready
}

impl LiveSession {
    /// A session that came up at `now`.
    pub fn new(now: u64) -> (session: Self)
        ensures
            session == fresh_session(now),
    {
        LiveSession {
            clock: FrameClock::new(now),
            logged_ready: false,
            last_animating: true,
            last_seen_batches: 0,
            wants_frame: false,
        }
    }

    /// Advances the frame clock to `now`, counts a frame, and returns the time
    /// since the clock last advanced.
    pub fn tick(&mut self, now: u64) -> (dt: u64)
        requires
            old(self).clock.frame_count < u64::MAX,
        ensures
            *final(self) == ticked(*old(self), now),
            dt == clock::elapsed(old(self).clock.last_frame, now),
    {
        self.clock.tick(now)
    }

    /// Takes note of what a drawn frame reported.
    pub fn frame_drawn(&mut self, animating: bool, batches: u64)
        ensures
            *final(self) == drawn(*old(self), animating, batches),
            final(self).last_animating == animating,
            final(self).last_seen_batches == batches,
    {
        self.last_animating = animating;
        self.last_seen_batches = batches;
    }

    /// Told whether the first real content is there, says whether to announce
    /// it: the first time that it is.
    pub fn announce_ready(&mut self, ready: bool) -> (announce: bool)
        ensures
            *final(self) == told_ready(*old(self), ready),
            announce == announces(*old(self), ready),
    {
        if !self.logged_ready && ready {
            self.logged_ready = true;
            true
        } else {
            false
        }
    }
}

impl LiveState {
    /// A short name of the state for log lines.
    pub fn tag(&self) -> (tag: &'static str)
        ensures
            tag@ == match self@ {
                LiveModel::NotStarted => "not_started"@,
                LiveModel::Starting => "starting"@,
                LiveModel::Ready(_) => "ready"@,
                LiveModel::Failed(_) => "failed"@,
            },
            tag@ == tag_text(self@),
    {
        match self {
            LiveState::NotStarted => "not_started",
            LiveState::Starting => "starting",
            LiveState::Ready(_) => "ready",
            LiveState::Failed(_) => "failed",
        }
    }

    /// Begins a render callback and says what it has to do.
    pub fn render(&mut self) -> (step: RenderStep)
        ensures
            final(self)@ == after_render(old(self)@),
            step == render_step(old(self)@),
    {
        match self {
            LiveState::NotStarted => {
                *self = LiveState::Starting;
                RenderStep::Placeholder
            },
            LiveState::Starting => RenderStep::Launch,
            LiveState::Ready(_) => RenderStep::Frame,
            LiveState::Failed(_) => RenderStep::Failure,
        }
    }

    /// Takes the outcome of starting Neovim: when it came up, or why it did not.
    pub fn launched(&mut self, outcome: Result<u64, String>)
        requires
            old(self)@ is Starting,
        ensures
            final(self)@ == after_launch(
                match outcome {
                    Ok(now) => Ok(now),
                    Err(message) => Err(message@),
                },
            ),
    {
        *self = match outcome {
            Ok(now) => LiveState::Ready(LiveSession::new(now)),
            Err(message) => LiveState::Failed(message),
        };
    }

    /// Handles a display tick, `batches` redraw batches having arrived, and says
    /// whether to draw a frame. Outside a running session `batches` is not read.
    pub fn tick(&mut self, batches: u64) -> (needs_frame: bool)
        ensures
            final(self)@ == after_tick(old(self)@, batches),
            needs_frame == tick_needs_frame(old(self)@, batches),
    {
        match self {
            LiveState::Ready(session) => {
                let new_content: bool = batches != session.last_seen_batches;
                if new_content {
                    session.last_seen_batches = batches;
                }
                let wants_frame: bool = session.wants_frame;
                session.wants_frame = false;
                session.last_animating || new_content || wants_frame
            },
            _ => true,
        }
    }

    /// Handles a resize of the pane at time `now`. A running session answers how
    /// its frames stand; the next tick is then bound to draw.
    pub fn resize(&mut self, now: u64) -> (note: Option<ResizeNote>)
        ensures
            final(self)@ == after_request(old(self)@),
            note == match old(self)@ {
                LiveModel::Ready(session) => Some(
                    ResizeNote {
                        since_last_frame: clock::elapsed(session.clock.last_frame, now),
                        frame_count: session.clock.frame_count,
                    },
                ),
                _ => None,
            },
            note == resize_note(old(self)@, now),
    {
        match self {
            LiveState::Ready(session) => {
                session.wants_frame = true;
                Some(
                    ResizeNote {
                        since_last_frame: session.clock.since_last_frame(now),
                        frame_count: session.clock.frame_count,
                    },
                )
            },
            _ => None,
        }
    }

    /// Handles text input and says whether to hand it to Neovim. `exited` says
    /// whether Neovim has exited.
    pub fn input(&mut self, exited: bool) -> (send: bool)
        ensures
            final(self)@ == after_input(old(self)@, exited),
            send == takes_input(old(self)@, exited),
    {
        match self {
            LiveState::Ready(session) => {
                if exited {
                    false
                } else {
                    session.wants_frame = true;
                    true
                }
            },
            _ => false,
        }
    }

    /// Whether closing the window has to shut Neovim down first.
    pub fn needs_shutdown(&self) -> (needed: bool)
        ensures
            needed == (self@ is Ready),
            needed == to_shut_down(self@),
    {
        match self {
            LiveState::Ready(_) => true,
            _ => false,
        }
    }
}

/// A drawn frame decides what the next tick does. The tick that finds no further
/// redraw batches draws exactly when the frame reported that its animation goes
/// on, or a frame was asked for before it; a tick that finds other batches draws.
/// Nothing that was announced or drawn before makes a difference.
pub proof fn law_drawn_frame_decides_the_next_tick(
    session: LiveSession,
    animating: bool,
    batches: u64,
    found: u64,
)
    ensures
        ({
            let after = LiveModel::Ready(drawn(session, animating, batches));
            &&& tick_needs_frame(after, batches) <==> animating || session.wants_frame
            &&& found != batches ==> tick_needs_frame(after, found)
        }),
{
}

/// Two sessions that differ in what was announced, or in their clocks, or in what
/// their frames reported before, tick alike once the same frame was drawn.
pub proof fn law_only_the_last_frame_counts(
    a: LiveSession,
    b: LiveSession,
    animating: bool,
    batches: u64,
    found: u64,
)
    requires
        a.wants_frame == b.wants_frame,
    ensures
        tick_needs_frame(LiveModel::Ready(drawn(a, animating, batches)), found)
            == tick_needs_frame(LiveModel::Ready(drawn(b, animating, batches)), found),
{
}

/// A drawn frame changes nothing but what it reported: the clock, the
/// announcement and a request for a frame stay, so a frame that was asked for
/// while this one was drawn still comes.
pub proof fn law_drawn_frame_keeps_the_rest(session: LiveSession, animating: bool, batches: u64)
    ensures
        drawn(session, animating, batches).clock == session.clock,
        drawn(session, animating, batches).logged_ready == session.logged_ready,
        drawn(session, animating, batches).wants_frame == session.wants_frame,
        drawn(session, animating, batches).last_animating == animating,
        drawn(session, animating, batches).last_seen_batches == batches,
{
}

/// A tick of a running session draws for three reasons and no other: the
/// animation goes on, redraw batches arrived that no frame and no tick has seen,
/// or a frame was asked for.
pub proof fn law_tick_draws_for_a_reason(session: LiveSession, batches: u64)
    ensures
        session.last_animating ==> tick_needs_frame(LiveModel::Ready(session), batches),
        session.last_seen_batches != batches ==> tick_needs_frame(
            LiveModel::Ready(session),
            batches,
        ),
        session.wants_frame ==> tick_needs_frame(LiveModel::Ready(session), batches),
        !session.last_animating && session.last_seen_batches == batches && !session.wants_frame
            ==> !tick_needs_frame(LiveModel::Ready(session), batches),
{
}

/// A tick uses up what it saw: it takes the batches as seen and the request as
/// answered. The animation, the clock and the announcement are not its business.
pub proof fn law_tick_uses_up_requests(session: LiveSession, batches: u64)
    ensures
        after_tick(LiveModel::Ready(session), batches) is Ready,
        ({
            let after = after_tick(LiveModel::Ready(session), batches)->Ready_0;
            &&& after.last_seen_batches == batches
            &&& !after.wants_frame
            &&& after.last_animating == session.last_animating
            &&& after.clock == session.clock
            &&& after.logged_ready == session.logged_ready
        }),
{
}

/// A request changes nothing but that a frame is wanted, and without a session
/// nothing at all.
pub proof fn law_request_only_asks(m: LiveModel)
    ensures
        m is Ready ==> after_request(m) is Ready && ({
            let (before, after) = (m->Ready_0, after_request(m)->Ready_0);
            &&& after.wants_frame
            &&& after.last_animating == before.last_animating
            &&& after.last_seen_batches == before.last_seen_batches
            &&& after.clock == before.clock
            &&& after.logged_ready == before.logged_ready
        }),
        !(m is Ready) ==> after_request(m) == m,
{
}

/// Text reaches every running session whose Neovim has not exited, and no other
/// state of a pane; text that reaches it asks for a frame as a resize does, and
/// text that does not leaves everything as it was.
pub proof fn law_text_reaches_a_running_session(m: LiveModel, exited: bool)
    ensures
        takes_input(m, exited) <==> m is Ready && !exited,
        m is Ready && !exited ==> after_input(m, exited) == after_request(m),
        exited || !(m is Ready) ==> after_input(m, exited) == m,
{
}

/// Content is announced by the first report that it is there, and never again; a
/// report that it is not there announces nothing and changes nothing. Nothing
/// else of the session changes.
pub proof fn law_first_content_is_announced(session: LiveSession, later: bool)
    ensures
        !session.logged_ready ==> announces(session, true),
        !announces(session, false),
        told_ready(session, false) == session,
        !announces(told_ready(session, true), later),
        session.logged_ready ==> !announces(session, later),
        told_ready(session, true).clock == session.clock,
        told_ready(session, true).last_animating == session.last_animating,
        told_ready(session, true).last_seen_batches == session.last_seen_batches,
        told_ready(session, true).wants_frame == session.wants_frame,
{
}

/// Beginning a frame moves the clock on and changes nothing else of the session.
pub proof fn law_beginning_a_frame_moves_the_clock(session: LiveSession, now: u64)
    ensures
        ticked(session, now).clock == clock::advanced(session.clock, now),
        ticked(session, now).logged_ready == session.logged_ready,
        ticked(session, now).last_animating == session.last_animating,
        ticked(session, now).last_seen_batches == session.last_seen_batches,
        ticked(session, now).wants_frame == session.wants_frame,
{
}

/// A session that came up draws at once, with nothing announced, no request left
/// over and a clock that begins there; a start that failed keeps its reason.
pub proof fn law_launch_brings_up_a_session(now: u64, message: Seq<char>, batches: u64)
    ensures
        after_launch(Ok(now)) is Ready,
        ({
            let session = after_launch(Ok(now))->Ready_0;
            &&& tick_needs_frame(LiveModel::Ready(session), batches)
            &&& session.last_animating
            &&& announces(session, true)
            &&& !session.wants_frame
            &&& session.last_seen_batches == 0
            &&& session.clock.start == now
            &&& session.clock.last_frame == now
            &&& session.clock.frame_count == 0
        }),
        after_launch(Err(message)) == LiveModel::Failed(message),
        fresh_session(now) == after_launch(Ok(now))->Ready_0,
{
}

/// Each state has its own thing to do in a render callback, and its own name;
/// only the first callback changes the state by itself.
pub proof fn law_each_state_has_its_step(m: LiveModel)
    ensures
        render_step(m) == RenderStep::Placeholder <==> m is NotStarted,
        render_step(m) == RenderStep::Launch <==> m is Starting,
        render_step(m) == RenderStep::Frame <==> m is Ready,
        render_step(m) == RenderStep::Failure <==> m is Failed,
        m is NotStarted ==> after_render(m) is Starting && tag_text(m) == "not_started"@,
        m is Starting ==> after_render(m) == m && tag_text(m) == "starting"@,
        m is Ready ==> after_render(m) == m && tag_text(m) == "ready"@,
        m is Failed ==> after_render(m) == m && tag_text(m) == "failed"@,
{
}

/// A resize of a pane with a running session is told with the frames that were
/// drawn and the time since the last one; without a session there is nothing to
/// tell.
pub proof fn law_resize_tells_how_frames_stand(m: LiveModel, now: u64)
    ensures
        resize_note(m, now) is Some <==> m is Ready,
        m is Ready ==> ({
            let (note, clock) = (resize_note(m, now)->0, m->Ready_0.clock);
            &&& note.frame_count == clock.frame_count
            &&& clock.last_frame <= now ==> clock.last_frame + note.since_last_frame == now
            &&& now <= clock.last_frame ==> note.since_last_frame == 0
        }),
{
}

/// Just the panes with a running session have something to shut down.
pub proof fn law_only_a_session_is_shut_down(now: u64, message: Seq<char>, session: LiveSession)
    ensures
        to_shut_down(LiveModel::Ready(session)),
        to_shut_down(after_launch(Ok(now))),
        !to_shut_down(after_launch(Err(message))),
        !to_shut_down(LiveModel::NotStarted),
        !to_shut_down(LiveModel::Starting),
{
}

} // verus!

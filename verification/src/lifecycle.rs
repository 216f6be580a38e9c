//! What holds of an editor pane over its whole life, whatever happens to it.
//!
//! A life is a sequence of events that begins in `NotStarted`.

use crate::live::{LiveModel, LiveSession, RenderStep};
use crate::live;
use vstd::prelude::*;

verus! {

/// What can happen to a pane.
pub enum LiveEvent {
    /// A render callback at time `now`. `launch` is how starting Neovim ends,
    /// should the callback start it; `animating`, `batches` and `ready` are what
    /// the session reports, should the callback draw a frame of it.
    Render {
        now: u64,
        launch: Result<u64, Seq<char>>,
        animating: bool,
        batches: u64,
        ready: bool,
    },
    /// A display tick, with this many redraw batches arrived.
    Tick { batches: u64 },
    /// The pane changed its size.
    Resize,
    /// Text was typed; `exited` says whether Neovim has exited.
    Input { exited: bool },
}

/// The session after a whole render callback that drew a frame of it.
pub open spec fn rendered(
    session: LiveSession,
    now: u64,
    animating: bool,
    batches: u64,
    ready: bool,
) -> LiveSession {
    live::told_ready(live::drawn(live::ticked(session, now), animating, batches), ready)
}

/// The state after one event.
pub open spec fn after_event(m: LiveModel, event: LiveEvent) -> LiveModel {
    match event {
        LiveEvent::Render { now, launch, animating, batches, ready } => match m {
            LiveModel::Starting => live::after_launch(launch),
            LiveModel::Ready(session) => LiveModel::Ready(
                rendered(session, now, animating, batches, ready),
            ),
            _ => live::after_render(m),
        },
        LiveEvent::Tick { batches } => live::after_tick(m, batches),
        LiveEvent::Resize => live::after_request(m),
        LiveEvent::Input { exited } => live::after_input(m, exited),
    }
}

/// The state after all of `events`, from `m` on.
pub open spec fn after_events(m: LiveModel, events: Seq<LiveEvent>) -> LiveModel
    decreases events.len(),
{
    if events.len() == 0 {
        m
    } else {
        after_event(after_events(m, events.drop_last()), events.last())
    }
}

/// The state in which the event at position `i` of a life finds the pane.
pub open spec fn state_at(events: Seq<LiveEvent>, i: int) -> LiveModel {
    after_events(LiveModel::NotStarted, events.take(i))
}

/// Whether the event at position `i` of a life is a render callback that has
/// `step` to do.
pub open spec fn does_at(events: Seq<LiveEvent>, i: int, step: RenderStep) -> bool {
    &&& 0 <= i < events.len()
    &&& events[i] is Render
    &&& live::render_step(state_at(events, i)) == step
}

/// Whether the event at position `i` of a life announces the first content.
pub open spec fn announces_at(events: Seq<LiveEvent>, i: int) -> bool {
    &&& does_at(events, i, RenderStep::Frame)
    &&& live::announces(state_at(events, i)->Ready_0, events[i]->ready)
}

/// How many of `events` are render callbacks.
pub open spec fn count_renders(events: Seq<LiveEvent>) -> nat
    decreases events.len(),
{
    if events.len() == 0 {
        0
    } else {
        count_renders(events.drop_last()) + if events.last() is Render {
            1nat
        } else {
            0
        }
    }
}

/// One event more is one step more.
proof fn lemma_next_state(events: Seq<LiveEvent>, i: int)
    requires
        0 <= i < events.len(),
    ensures
        state_at(events, i + 1) == after_event(state_at(events, i), events[i]),
{
    assert(events.take(i + 1).drop_last() =~= events.take(i));
    assert(events.take(i + 1).last() == events[i]);
}

/// How far along its life a state is.
spec fn rank(m: LiveModel) -> nat {
    match m {
        LiveModel::NotStarted => 0,
        LiveModel::Starting => 1,
        _ => 2,
    }
}

/// A life never goes back.
proof fn lemma_rank_grows(events: Seq<LiveEvent>, i: int, j: int)
    requires
        0 <= i <= j <= events.len(),
    ensures
        rank(state_at(events, i)) <= rank(state_at(events, j)),
    decreases j - i,
{
    if i < j {
        lemma_rank_grows(events, i, j - 1);
        lemma_next_state(events, j - 1);
    }
}

/// A pane that has left `NotStarted` did so in a render callback that painted
/// the placeholder.
proof fn lemma_started_by_placeholder(events: Seq<LiveEvent>, i: int) -> (j: int)
    requires
        0 <= i <= events.len(),
        !(state_at(events, i) is NotStarted),
    ensures
        0 <= j < i,
        does_at(events, j, RenderStep::Placeholder),
    decreases i,
{
    if i == 0 {
        assert(events.take(0).len() == 0);
        0
    } else {
        lemma_next_state(events, i - 1);
        if state_at(events, i - 1) is NotStarted {
            i - 1
        } else {
            lemma_started_by_placeholder(events, i - 1)
        }
    }
}

/// Neovim is started only after an earlier render callback has painted the
/// placeholder: the start blocks, and the explanation is on screen before it.
pub proof fn law_placeholder_precedes_launch(events: Seq<LiveEvent>, i: int)
    requires
        does_at(events, i, RenderStep::Launch),
    ensures
        exists|j: int| j < i && #[trigger] does_at(events, j, RenderStep::Placeholder),
{
    let j = lemma_started_by_placeholder(events, i);
    assert(does_at(events, j, RenderStep::Placeholder));
}

/// The render callback after the one that painted the placeholder starts
/// Neovim: nothing that happens between the two changes that.
pub proof fn law_launch_follows_placeholder(events: Seq<LiveEvent>, j: int, i: int)
    requires
        j < i < events.len(),
        does_at(events, j, RenderStep::Placeholder),
        events[i] is Render,
        forall|k: int| j < k < i ==> !(#[trigger] events[k] is Render),
    ensures
        does_at(events, i, RenderStep::Launch),
{
    lemma_next_state(events, j);
    lemma_stays_starting(events, j + 1, i);
}

/// Without a render callback a pane that is about to start Neovim stays so.
proof fn lemma_stays_starting(events: Seq<LiveEvent>, j: int, i: int)
    requires
        0 <= j <= i < events.len(),
        state_at(events, j) is Starting,
        forall|k: int| j <= k < i ==> !(#[trigger] events[k] is Render),
    ensures
        state_at(events, i) is Starting,
    decreases i - j,
{
    if j < i {
        lemma_next_state(events, j);
        assert(!(events[j] is Render));
        lemma_stays_starting(events, j + 1, i);
    }
}

/// Neovim is started at most once in a life.
pub proof fn law_launches_once(events: Seq<LiveEvent>, i: int, j: int)
    requires
        does_at(events, i, RenderStep::Launch),
        does_at(events, j, RenderStep::Launch),
    ensures
        i == j,
{
    if i < j {
        lemma_next_state(events, i);
        lemma_rank_grows(events, i + 1, j);
    } else if j < i {
        lemma_next_state(events, j);
        lemma_rank_grows(events, j + 1, i);
    }
}

/// A session that runs goes on running, whatever happens.
pub proof fn law_ready_lasts(m: LiveModel, events: Seq<LiveEvent>)
    requires
        m is Ready,
    ensures
        after_events(m, events) is Ready,
    decreases events.len(),
{
    if events.len() > 0 {
        law_ready_lasts(m, events.drop_last());
    }
}

/// A Neovim that was started is not left behind: from the render callback that
/// started it on, closing the window shuts it down, whatever happened since.
pub proof fn law_started_neovim_is_shut_down(events: Seq<LiveEvent>, i: int, j: int)
    requires
        does_at(events, i, RenderStep::Launch),
        events[i]->launch is Ok,
        i < j <= events.len(),
    ensures
        state_at(events, j) is Ready,
        live::to_shut_down(state_at(events, j)),
    decreases j - i,
{
    lemma_next_state(events, j - 1);
    if i < j - 1 {
        law_started_neovim_is_shut_down(events, i, j - 1);
    }
}

/// A failed start is final, and its reason is kept.
pub proof fn law_failed_lasts(m: LiveModel, events: Seq<LiveEvent>)
    requires
        m is Failed,
    ensures
        after_events(m, events) == m,
    decreases events.len(),
{
    if events.len() > 0 {
        law_failed_lasts(m, events.drop_last());
    }
}

/// Until a session runs, and after a failed start, every tick draws: the
/// callbacks that bring the pane forward only happen when a frame is drawn.
pub proof fn law_ticks_draw_outside_a_session(m: LiveModel, batches: u64)
    requires
        !(m is Ready),
    ensures
        live::tick_needs_frame(m, batches),
        live::after_tick(m, batches) == m,
{
}

/// A fresh session draws on every tick until a frame was drawn, whatever else
/// happens in between.
pub proof fn law_fresh_session_draws(now: u64, events: Seq<LiveEvent>, batches: u64)
    requires
        count_renders(events) == 0,
    ensures
        live::tick_needs_frame(
            after_events(LiveModel::Ready(live::fresh_session(now)), events),
            batches,
        ),
{
    lemma_no_render_keeps_animating(LiveModel::Ready(live::fresh_session(now)), events);
}

/// Only a drawn frame changes what the last frame reported.
proof fn lemma_no_render_keeps_animating(m: LiveModel, events: Seq<LiveEvent>)
    requires
        m is Ready,
        count_renders(events) == 0,
    ensures
        after_events(m, events) is Ready,
        after_events(m, events)->Ready_0.last_animating == m->Ready_0.last_animating,
    decreases events.len(),
{
    if events.len() > 0 {
        lemma_no_render_keeps_animating(m, events.drop_last());
    }
}

/// Whether nothing asks for a frame of `session`, `batches` redraw batches
/// having arrived.
pub open spec fn idle(session: LiveSession, batches: u64) -> bool {
    &&& !session.last_animating
    &&& !session.wants_frame
    &&& session.last_seen_batches == batches
}

/// A display tick that finds `batches` redraw batches, `n` times in a row.
pub open spec fn ticks(n: nat, batches: u64) -> Seq<LiveEvent> {
    Seq::new(n, |i: int| LiveEvent::Tick { batches })
}

/// An idle session draws nothing, for as long as only ticks happen and Neovim
/// sends nothing: after any number of them the next one skips as well.
pub proof fn law_idle_ticks_skip(session: LiveSession, batches: u64, n: nat)
    requires
        idle(session, batches),
    ensures
        after_events(LiveModel::Ready(session), ticks(n, batches)) == LiveModel::Ready(session),
        !live::tick_needs_frame(
            after_events(LiveModel::Ready(session), ticks(n, batches)),
            batches,
        ),
    decreases n,
{
    if n > 0 {
        law_idle_ticks_skip(session, batches, (n - 1) as nat);
        assert(ticks(n, batches).drop_last() =~= ticks((n - 1) as nat, batches));
    }
}

/// A resize, or a keypress that reached Neovim, forces exactly one frame: the
/// next tick draws whatever else is so, and the request is gone after it.
pub proof fn law_request_forces_one_frame(session: LiveSession, event: LiveEvent, batches: u64)
    requires
        event is Resize || event == (LiveEvent::Input { exited: false }),
    ensures
        ({
            let asked = after_event(LiveModel::Ready(session), event);
            let after = live::after_tick(asked, batches);
            &&& live::tick_needs_frame(asked, batches)
            &&& live::tick_needs_frame(after, batches) == session.last_animating
        }),
{
}

/// A keypress after Neovim has exited changes nothing.
pub proof fn law_input_after_exit_is_ignored(m: LiveModel)
    ensures
        after_event(m, LiveEvent::Input { exited: true }) == m,
        !live::takes_input(m, true),
{
}

/// New redraw batches force one frame: the tick that first sees them draws, and
/// one that finds no more does not draw on their account.
pub proof fn law_new_content_forces_one_frame(session: LiveSession, batches: u64)
    requires
        batches != session.last_seen_batches,
    ensures
        live::tick_needs_frame(LiveModel::Ready(session), batches),
        live::tick_needs_frame(live::after_tick(LiveModel::Ready(session), batches), batches)
            == session.last_animating,
{
}

/// The first content is announced at most once in a life.
pub proof fn law_announces_once(events: Seq<LiveEvent>, i: int, j: int)
    requires
        announces_at(events, i),
        announces_at(events, j),
    ensures
        i == j,
{
    if i < j {
        lemma_announced_lasts(events, i, j);
    } else if j < i {
        lemma_announced_lasts(events, j, i);
    }
}

/// What was announced stays announced.
proof fn lemma_announced_lasts(events: Seq<LiveEvent>, i: int, j: int)
    requires
        announces_at(events, i),
        i < j <= events.len(),
    ensures
        state_at(events, j) is Ready,
        state_at(events, j)->Ready_0.logged_ready,
    decreases j - i,
{
    lemma_next_state(events, j - 1);
    if i < j - 1 {
        lemma_announced_lasts(events, i, j - 1);
    }
}

/// A session's frame count is the number of render callbacks since it came up.
pub proof fn law_frame_count(now: u64, events: Seq<LiveEvent>)
    requires
        events.len() <= u64::MAX,
    ensures
        after_events(LiveModel::Ready(live::fresh_session(now)), events) is Ready,
        after_events(LiveModel::Ready(live::fresh_session(now)), events)->Ready_0.clock.frame_count
            == count_renders(events),
        count_renders(events) <= events.len(),
    decreases events.len(),
{
    if events.len() > 0 {
        law_frame_count(now, events.drop_last());
    }
}

/// Once a render callback drew a frame that reported whether its animation goes
/// on, the next tick that finds no further batches draws exactly when it does, or
/// a frame was asked for before. This holds at every point of a life.
pub proof fn law_animation_goes_on_while_reported(events: Seq<LiveEvent>, i: int)
    requires
        does_at(events, i, RenderStep::Frame),
    ensures
        live::tick_needs_frame(state_at(events, i + 1), events[i]->Render_batches)
            <==> events[i]->animating || state_at(events, i)->Ready_0.wants_frame,
{
    lemma_next_state(events, i);
}

} // verus!

//! A frame clock: how much time lies between frames, and how many there were.
//!
//! Times are nanoseconds on one monotonic clock.

use vstd::prelude::*;

verus! {

/// Every how many frames a frame-pacing line is due, where nothing else is asked
/// for.
pub const LOG_EVERY_N_FRAMES: u64 = 60;

/// A frame clock.
#[derive(Clone, Copy, Debug, PartialEq, Eq, Structural)]
pub struct FrameClock {
    /// When the clock was started.
    pub start: u64,
    /// When it last advanced.
    pub last_frame: u64,
    /// How many frames it counted.
    pub frame_count: u64,
}

/// The time from `earlier` to `now`, or zero when `now` is not later.
pub open spec fn elapsed(earlier: u64, now: u64) -> u64 {
    if now >= earlier {
        (now - earlier) as u64
    } else {
        0
    }
}

/// A clock started at `now`.
pub open spec fn started(now: u64) -> FrameClock {
    FrameClock { start: now, last_frame: now, frame_count: 0 }
}

/// The clock advanced to `now`, with one more frame.
pub open spec fn advanced(clock: FrameClock, now: u64) -> FrameClock {
    FrameClock {
        start: clock.start,
        last_frame: now,
        frame_count: (clock.frame_count + 1) as u64,
    }
}

/// The clock when the next frame is to count its time from `now` on.
pub open spec fn restarted(clock: FrameClock, now: u64) -> FrameClock {
    FrameClock { last_frame: now, ..clock }
}

/// Whether a frame-pacing line is due after that many frames, where one is asked
/// for every `every` of them.
pub open spec fn line_due(frame_count: u64, every: u64) -> bool {
    frame_count % every == 0
}

impl FrameClock {
    /// A clock started at `now`.
    pub fn new(now: u64) -> (clock: Self)
        ensures
            clock == started(now),
    {
        FrameClock { start: now, last_frame: now, frame_count: 0 }
    }

    /// Advances the clock to `now`, counts a frame, and returns the time since
    /// the clock last advanced.
    pub fn tick(&mut self, now: u64) -> (dt: u64)
        requires
            old(self).frame_count < u64::MAX,
        ensures
            *final(self) == advanced(*old(self), now),
            dt == elapsed(old(self).last_frame, now),
    {
        let dt: u64 = now.saturating_sub(self.last_frame);
        self.last_frame = now;
        self.frame_count = self.frame_count + 1;
        dt
    }

    /// Lets the next frame count its time from `now` on.
    pub fn reset(&mut self, now: u64)
        ensures
            *final(self) == (FrameClock { last_frame: now, ..*old(self) }),
            *final(self) == restarted(*old(self), now),
    {
        self.last_frame = now;
    }

    /// The time since the clock last advanced.
    pub fn since_last_frame(&self, now: u64) -> (time: u64)
        ensures
            time == elapsed(self.last_frame, now),
    {
        now.saturating_sub(self.last_frame)
    }

    /// The time since the clock was started.
    pub fn since_start(&self, now: u64) -> (time: u64)
        ensures
            time == elapsed(self.start, now),
    {
        now.saturating_sub(self.start)
    }

    /// Whether a frame-pacing line is due: every `every` frames.
    pub fn log_due(&self, every: u64) -> (due: bool)
        requires
            every > 0,
        ensures
            due == (self.frame_count % every == 0),
            due == line_due(self.frame_count, every),
    {
        self.frame_count % every == 0
    }
}

/// The clock after frames at each of `times`, from `clock` on.
pub open spec fn after_frames(clock: FrameClock, times: Seq<u64>) -> FrameClock
    decreases times.len(),
{
    if times.len() == 0 {
        clock
    } else {
        advanced(after_frames(clock, times.drop_last()), times.last())
    }
}

/// The sum of the times between frames at each of `times`.
pub open spec fn total_time(clock: FrameClock, times: Seq<u64>) -> nat
    decreases times.len(),
{
    if times.len() == 0 {
        0
    } else {
        let before = times.drop_last();
        total_time(clock, before) + elapsed(
            after_frames(clock, before).last_frame,
            times.last(),
        ) as nat
    }
}

/// No time is lost or counted twice: as long as the times do not go back, the
/// times between frames add up to the time that has passed, and the count is the
/// number of frames.
pub proof fn law_times_add_up(clock: FrameClock, times: Seq<u64>)
    requires
        forall|i: int, j: int| 0 <= i <= j < times.len() ==> times[i] <= times[j],
        times.len() > 0 ==> clock.last_frame <= times[0],
        clock.frame_count + times.len() <= u64::MAX,
    ensures
        clock.last_frame + total_time(clock, times) == after_frames(clock, times).last_frame,
        after_frames(clock, times).last_frame == if times.len() == 0 {
            clock.last_frame
        } else {
            times.last()
        },
        after_frames(clock, times).frame_count == clock.frame_count + times.len(),
        after_frames(clock, times).start == clock.start,
    decreases times.len(),
{
    if times.len() > 0 {
        let before = times.drop_last();
        assert forall|i: int, j: int| 0 <= i <= j < before.len() implies before[i] <= before[j] by {
            assert(before[i] == times[i] && before[j] == times[j]);
        }
        law_times_add_up(clock, before);
        if before.len() > 0 {
            assert(before.last() == times[times.len() - 2]);
            assert(times[times.len() - 2] <= times[times.len() - 1]);
        }
    }
}

/// The time between two moments leads from the earlier to the later one; to a
/// moment that is not later it is zero.
pub proof fn law_elapsed_leads_to_now(earlier: u64, now: u64)
    ensures
        earlier <= now ==> earlier + elapsed(earlier, now) == now,
        now <= earlier ==> elapsed(earlier, now) == 0,
{
}

/// A clock that was just started has counted nothing, and both its times count
/// from there.
pub proof fn law_fresh_clock_counts_from_its_start(now: u64, later: u64)
    requires
        now <= later,
    ensures
        started(now).frame_count == 0,
        now + elapsed(started(now).start, later) == later,
        now + elapsed(started(now).last_frame, later) == later,
{
}

/// A frame takes the time since the clock last advanced, and leaves the clock at
/// the frame: the frame after it counts from there. The start does not move.
pub proof fn law_frame_advances_the_clock(clock: FrameClock, now: u64, later: u64)
    requires
        clock.frame_count < u64::MAX,
        now <= later,
    ensures
        advanced(clock, now).frame_count == clock.frame_count + 1,
        now + elapsed(advanced(clock, now).last_frame, later) == later,
        elapsed(advanced(clock, now).start, later) == elapsed(clock.start, later),
{
}

/// A restart forgets the time since the last frame, and nothing else: the next
/// frame counts from the restart, whenever the last one was.
pub proof fn law_restart_forgets_the_gap(clock: FrameClock, now: u64, later: u64)
    requires
        now <= later,
    ensures
        now + elapsed(restarted(clock, now).last_frame, later) == later,
        restarted(clock, now).start == clock.start,
        restarted(clock, now).frame_count == clock.frame_count,
{
}

/// Of every `every` frames in a row exactly one has a line: the one that makes
/// the count a multiple of `every`.
pub proof fn law_one_line_in_every_row(rows: nat, rest: nat, every: u64, frame_count: u64)
    requires
        rest < every,
        frame_count == rows * every + rest,
    ensures
        line_due(frame_count, every) <==> rest == 0,
{
    vstd::arithmetic::div_mod::lemma_fundamental_div_mod_converse(
        frame_count as int,
        every as int,
        rows as int,
        rest as int,
    );
}

} // verus!

//! A GL window that is pumped from another main loop: which configuration it
//! takes, what its events ask for, what it draws, and how it counts its frames.

use crate::clock;
use vstd::prelude::*;

verus! {

/// The least width of the sliding rectangle, in pixels.
pub const SMALLEST_SLIDE: i32 = 20;

/// The nanoseconds of a second: how long the frames of a report are counted.
pub const REPORT_INTERVAL: u64 = 1_000_000_000;

/// The rectangle that slides over the window, as far as it is visible. It is as
/// tall as the window.
#[derive(Clone, Copy, Debug, PartialEq, Eq, Structural)]
pub struct Slide {
    pub x: i32,
    pub width: i32,
}

/// How many frames were drawn in the time since the last report.
#[derive(Clone, Copy, Debug, PartialEq, Eq, Structural)]
pub struct FpsReport {
    pub frames: u64,
    pub elapsed: u64,
}

/// The window's bookkeeping.
#[derive(Clone, Copy, Debug, PartialEq, Eq, Structural)]
pub struct GlApp {
    /// Whether the window, and with it the GL surface, exists.
    pub has_window: bool,
    /// Frames since the last report.
    pub frame_count: u64,
    /// When the last report was made, in nanoseconds.
    pub last_fps_report: u64,
}

/// An event of the window.
#[derive(Clone, Copy, Debug, PartialEq, Eq, Structural)]
pub enum GlEvent {
    CloseRequested,
    Resized { width: u32, height: u32 },
    RedrawRequested,
    Other,
}

/// What an event asks for.
#[derive(Clone, Copy, Debug, PartialEq, Eq, Structural)]
pub enum GlAction {
    Nothing,
    /// Leave the event loop.
    Exit,
    /// Resize the surface to these sides, then draw.
    ResizeAndDraw { width: u32, height: u32 },
    /// Draw.
    Draw,
}

/// `i`, or the nearer of the bounds where it does not lie between them.
pub open spec fn clamped(i: int, low: int, high: int) -> int {
    if i < low {
        low
    } else if i > high {
        high
    } else {
        i
    }
}

/// The width of the sliding rectangle in a window of the given width: an eighth
/// of it, but not less than the least.
pub open spec fn slide_width(w: int) -> int {
    if w / 8 >= SMALLEST_SLIDE {
        w / 8
    } else {
        SMALLEST_SLIDE as int
    }
}

/// Where the rectangle begins once it has travelled that far: it enters on the
/// left, leaves on the right, and begins again.
pub open spec fn slide_start(w: int, travelled: int) -> int {
    travelled % (w + slide_width(w)) - slide_width(w)
}

/// The visible part of the rectangle, where there is one.
pub open spec fn visible_slide(w: int, h: int, travelled: int) -> Option<Slide> {
    let x = slide_start(w, travelled);
    let left = clamped(x, 0, w);
    let right = clamped(x + slide_width(w), 0, w);
    if w > 0 && h > 0 && right > left {
        Some(Slide { x: left as i32, width: (right - left) as i32 })
    } else {
        None
    }
}

/// Whether `i` is the configuration to take: none has more samples, and none
/// before it has as many.
pub open spec fn is_best_config(samples: Seq<u8>, i: int) -> bool {
    &&& 0 <= i < samples.len()
    &&& forall|j: int| 0 <= j < samples.len() ==> #[trigger] samples[j] <= samples[i]
    &&& forall|j: int| 0 <= j < i ==> #[trigger] samples[j] < samples[i]
}

/// What an event asks for, depending on whether the surface exists.
pub open spec fn event_action(has_window: bool, event: GlEvent) -> GlAction {
    match event {
        GlEvent::CloseRequested => GlAction::Exit,
        GlEvent::Resized { width, height } => if has_window && width != 0 && height != 0 {
            GlAction::ResizeAndDraw { width, height }
        } else {
            GlAction::Nothing
        },
        GlEvent::RedrawRequested => if has_window {
            GlAction::Draw
        } else {
            GlAction::Nothing
        },
        GlEvent::Other => GlAction::Nothing,
    }
}

/// Whether the window goes on being pumped after its event loop said how it
/// stands.
pub open spec fn goes_on_pumping(exit_code: Option<i32>) -> bool {
    exit_code is None
}

/// The window's bookkeeping when it is told to resume, and whether the window has
/// to be created then.
pub open spec fn after_resume(app: GlApp) -> (GlApp, bool) {
    (GlApp { has_window: true, ..app }, !app.has_window)
}

/// Whether another frame is asked for before waiting.
pub open spec fn asks_for_frame(app: GlApp) -> bool {
    app.has_window
}

/// The window's bookkeeping once a frame was drawn at `now`, and the report that
/// is made then: one is due once a second has passed since the last.
pub open spec fn after_frame(app: GlApp, now: u64) -> (GlApp, Option<FpsReport>) {
    let frames = (app.frame_count + 1) as u64;
    let elapsed = clock::elapsed(app.last_fps_report, now);
    if elapsed >= REPORT_INTERVAL {
        (
            GlApp { frame_count: 0, last_fps_report: now, ..app },
            Some(FpsReport { frames, elapsed }),
        )
    } else {
        (GlApp { frame_count: frames, ..app }, None)
    }
}

/// Picks the configuration with the most samples, the first of those where
/// several have as many: `None` when there is no configuration.
pub fn pick_config(samples: &Vec<u8>) -> (best: Option<usize>)
    ensures
        best is None <==> samples@.len() == 0,
        best is Some ==> is_best_config(samples@, best->0 as int),
{
    if samples.len() == 0 {
        return None;
    }
    let mut best: usize = 0;
    let mut i: usize = 1;
    while i < samples.len()
        invariant
            1 <= i <= samples@.len(),
            best < i,
            forall|j: int| 0 <= j < i ==> #[trigger] samples@[j] <= samples@[best as int],
            forall|j: int| 0 <= j < best ==> #[trigger] samples@[j] < samples@[best as int],
        decreases samples@.len() - i,
    {
        if samples[i] > samples[best] {
            best = i;
        }
        i = i + 1;
    }
    Some(best)
}

/// The visible part of the sliding rectangle in a window of the given size, once
/// the rectangle has travelled that many pixels.
pub fn slide(w: i32, h: i32, travelled: i32) -> (visible: Option<Slide>)
    requires
        w > 0 && h > 0 ==> w + slide_width(w as int) <= i32::MAX,
    ensures
        visible == visible_slide(w as int, h as int, travelled as int),
{
    if w <= 0 || h <= 0 {
        return None;
    }
    let eighth: i32 = w / 8;
    let rect_w: i32 = if eighth >= SMALLEST_SLIDE {
        eighth
    } else {
        SMALLEST_SLIDE
    };
    let period: i32 = w + rect_w;
    let t: i32 = match travelled.checked_rem_euclid(period) {
        Some(t) => t,
        None => 0,
    };
    let x: i32 = t - rect_w;
    let left: i32 = if x < 0 {
        0
    } else {
        x
    };
    let right: i32 = if t > w {
        w
    } else {
        t
    };
    if right > left {
        Some(Slide { x: left, width: right - left })
    } else {
        None
    }
}

/// Whether the window goes on being pumped: not once its event loop has exited.
pub fn keeps_pumping(exit_code: Option<i32>) -> (goes_on: bool)
    ensures
        goes_on == (exit_code is None),
        goes_on == goes_on_pumping(exit_code),
{
    exit_code.is_none()
}

impl GlApp {
    /// No window yet, and no frame; reports count from `now` on.
    pub fn new(now: u64) -> (app: Self)
        ensures
            app == (GlApp { has_window: false, frame_count: 0, last_fps_report: now }),
    {
        GlApp { has_window: false, frame_count: 0, last_fps_report: now }
    }

    /// Says whether the caller has to create the window now, and takes it as
    /// created.
    pub fn resumed(&mut self) -> (create: bool)
        ensures
            create == !old(self).has_window,
            *final(self) == (GlApp { has_window: true, ..*old(self) }),
            (*final(self), create) == after_resume(*old(self)),
    {
        let create: bool = !self.has_window;
        self.has_window = true;
        create
    }

    /// What an event of the window asks for.
    pub fn window_event(&self, event: GlEvent) -> (action: GlAction)
        ensures
            action == event_action(self.has_window, event),
    {
        match event {
            GlEvent::CloseRequested => GlAction::Exit,
            GlEvent::Resized { width, height } => {
                if self.has_window && width != 0 && height != 0 {
                    GlAction::ResizeAndDraw { width, height }
                } else {
                    GlAction::Nothing
                }
            },
            GlEvent::RedrawRequested => {
                if self.has_window {
                    GlAction::Draw
                } else {
                    GlAction::Nothing
                }
            },
            GlEvent::Other => GlAction::Nothing,
        }
    }

    /// Whether to ask for another frame before waiting.
    pub fn about_to_wait(&self) -> (redraw: bool)
        ensures
            redraw == self.has_window,
            redraw == asks_for_frame(*self),
    {
        self.has_window
    }

    /// Counts a frame that was drawn at `now`. Once a second has passed since
    /// the last report, makes one and counts anew.
    pub fn frame_drawn(&mut self, now: u64) -> (report: Option<FpsReport>)
        requires
            old(self).frame_count < u64::MAX,
        ensures
            ({
                let frames = (old(self).frame_count + 1) as u64;
                let elapsed = clock::elapsed(old(self).last_fps_report, now);
                if elapsed >= REPORT_INTERVAL {
                    &&& report == Some(FpsReport { frames, elapsed })
                    &&& *final(self) == GlApp {
                        frame_count: 0,
                        last_fps_report: now,
                        ..*old(self)
                    }
                } else {
                    &&& report is None
                    &&& *final(self) == GlApp { frame_count: frames, ..*old(self) }
                }
            }),
            (*final(self), report) == after_frame(*old(self), now),
    {
        self.frame_count = self.frame_count + 1;
        let elapsed: u64 = now.saturating_sub(self.last_fps_report);
        if elapsed >= REPORT_INTERVAL {
            let frames: u64 = self.frame_count;
            self.frame_count = 0;
            self.last_fps_report = now;
            Some(FpsReport { frames, elapsed })
        } else {
            None
        }
    }
}

/// What is visible of the rectangle lies in the window and is no wider than the
/// rectangle.
pub proof fn law_slide_stays_in_window(w: i32, h: i32, travelled: i32)
    requires
        visible_slide(w as int, h as int, travelled as int) is Some,
    ensures
        ({
            let s = visible_slide(w as int, h as int, travelled as int)->0;
            &&& 0 <= s.x
            &&& 0 < s.width <= slide_width(w as int)
            &&& s.x + s.width <= w
        }),
{
}

/// The rectangle is visible but for the moment at which it begins again, and its
/// motion repeats.
pub proof fn law_slide_repeats(w: i32, h: i32, travelled: int)
    requires
        w > 0,
        h > 0,
    ensures
        visible_slide(w as int, h as int, travelled) is None <==> travelled % (w + slide_width(
            w as int,
        )) == 0,
        visible_slide(w as int, h as int, travelled + w + slide_width(w as int)) == visible_slide(
            w as int,
            h as int,
            travelled,
        ),
{
    let period = w + slide_width(w as int);
    assert(0 <= travelled % period < period) by (nonlinear_arith)
        requires
            period > 0,
    ;
    assert((travelled + period) % period == travelled % period) by {
        vstd::arithmetic::div_mod::lemma_mod_add_multiples_vanish(travelled, period);
        assert(period + travelled == travelled + period);
    }
    assert(travelled + w + slide_width(w as int) == travelled + period);
}

/// Of two configurations that are both the one to take, there is only one.
pub proof fn law_best_config_is_unique(samples: Seq<u8>, i: int, j: int)
    requires
        is_best_config(samples, i),
        is_best_config(samples, j),
    ensures
        i == j,
{
    if i < j {
        assert(samples[i] < samples[j]);
        assert(samples[j] <= samples[i]);
    } else if j < i {
        assert(samples[j] < samples[i]);
        assert(samples[i] <= samples[j]);
    }
}

/// The configuration that is taken is found one by one: a list of one has that
/// one, and one more configuration is taken exactly when it has more samples than
/// the one taken so far.
pub proof fn law_more_samples_win(samples: Seq<u8>, best: int, more: u8)
    ensures
        is_best_config(seq![more], 0),
        is_best_config(samples, best) && more > samples[best] ==> is_best_config(
            samples.push(more),
            samples.len() as int,
        ),
        is_best_config(samples, best) && more <= samples[best] ==> is_best_config(
            samples.push(more),
            best,
        ),
{
    let all = samples.push(more);
    if is_best_config(samples, best) {
        assert(forall|j: int| 0 <= j < samples.len() ==> all[j] == samples[j]);
        assert(all[samples.len() as int] == more);
        if more > samples[best] {
            assert forall|j: int| 0 <= j < all.len() implies #[trigger] all[j]
                <= all[samples.len() as int] by {
                if j < samples.len() {
                    assert(samples[j] <= samples[best]);
                }
            }
            assert forall|j: int| 0 <= j < samples.len() implies #[trigger] all[j]
                < all[samples.len() as int] by {
                assert(samples[j] <= samples[best]);
            }
        } else {
            assert forall|j: int| 0 <= j < all.len() implies #[trigger] all[j] <= all[best] by {
                if j < samples.len() {
                    assert(samples[j] <= samples[best]);
                }
            }
            assert forall|j: int| 0 <= j < best implies #[trigger] all[j] < all[best] by {
                assert(samples[j] < samples[best]);
            }
        }
    }
}

/// The rectangle is an eighth of the window wide, and at least twenty pixels. Its
/// right edge travels from the left edge of the window to as far past the right
/// one as the rectangle is wide, and begins again. A pixel of the window is
/// white exactly when it lies between the two edges of the rectangle.
pub proof fn law_white_pixels_follow_the_rectangle(w: i32, h: i32, travelled: i32, x: int)
    requires
        w > 0,
        h > 0,
        0 <= x < w,
    ensures
        ({
            let wide = if w as int / 8 >= 20 {
                w as int / 8
            } else {
                20
            };
            let edge = travelled as int % (w + wide);
            let visible = visible_slide(w as int, h as int, travelled as int);
            let white = visible is Some && visible->0.x <= x < visible->0.x + visible->0.width;
            white <==> edge - wide <= x < edge
        }),
{
    let wide = slide_width(w as int);
    let period = w + wide;
    assert(0 <= travelled as int % period < period) by (nonlinear_arith)
        requires
            period > 0,
    ;
}

/// A window without pixels shows nothing of the rectangle.
pub proof fn law_empty_window_shows_nothing(w: int, h: int, travelled: int)
    requires
        w <= 0 || h <= 0,
    ensures
        visible_slide(w, h, travelled) is None,
{
}

/// Closing always leaves the loop. Of a window that exists, a redraw draws and a
/// resize to a size with pixels takes that very size and draws; a size without
/// pixels, and everything before the window exists, asks for nothing.
pub proof fn law_events_of_the_window(has_window: bool, width: u32, height: u32)
    ensures
        event_action(has_window, GlEvent::CloseRequested) == GlAction::Exit,
        event_action(true, GlEvent::RedrawRequested) == GlAction::Draw,
        width > 0 && height > 0 ==> event_action(true, GlEvent::Resized { width, height })
            == (GlAction::ResizeAndDraw { width, height }),
        width == 0 || height == 0 ==> event_action(has_window, GlEvent::Resized { width, height })
            == GlAction::Nothing,
        event_action(false, GlEvent::RedrawRequested) == GlAction::Nothing,
        event_action(false, GlEvent::Resized { width, height }) == GlAction::Nothing,
        event_action(has_window, GlEvent::Other) == GlAction::Nothing,
{
}

/// A report tells every frame since the one before it, the frame that brings it
/// included, and the time since then; it comes with the first frame that is drawn
/// a second or more after it, and the count begins anew. Until then each frame is
/// one more.
pub proof fn law_report_counts_every_frame(app: GlApp, now: u64)
    requires
        app.frame_count < u64::MAX,
    ensures
        ({
            let (after, report) = after_frame(app, now);
            &&& report is Some <==> now - app.last_fps_report >= 1_000_000_000
            &&& report is Some ==> {
                &&& report->0.frames == app.frame_count + 1
                &&& app.last_fps_report + report->0.elapsed == now
                &&& after.frame_count == 0
                &&& after.last_fps_report == now
            }
            &&& report is None ==> {
                &&& after.frame_count == app.frame_count + 1
                &&& after.last_fps_report == app.last_fps_report
            }
            &&& after.has_window == app.has_window
        }),
{
}

/// The window is created by the first resume and by no other, and from then on it
/// is drawn again and again; resuming counts no frame and makes no report.
pub proof fn law_first_resume_creates_the_window(app: GlApp)
    ensures
        after_resume(app).1 <==> !app.has_window,
        !after_resume(after_resume(app).0).1,
        asks_for_frame(after_resume(app).0),
        !app.has_window ==> !asks_for_frame(app),
        after_resume(app).0.frame_count == app.frame_count,
        after_resume(app).0.last_fps_report == app.last_fps_report,
{
}

/// The pump stops with the event loop, whatever its exit code is, and not before.
pub proof fn law_pump_stops_with_the_loop(code: i32)
    ensures
        goes_on_pumping(None),
        !goes_on_pumping(Some(code)),
{
}

} // verus!

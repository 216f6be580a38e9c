//! The log lines of the panes. Times and rates are floating-point numbers; they
//! come in as the text that shows them.

use crate::geometry;
use crate::geometry::PixelRect;
use crate::perf;
use crate::text;
use vstd::prelude::*;

verus! {

/// A resize of a pane: its framebuffer in device pixels, the scale factor, and
/// the size of the widget in logical pixels.
#[derive(Clone, Copy, Debug, PartialEq, Eq, Structural)]
pub struct ResizeEvent {
    pub fb_width: i32,
    pub fb_height: i32,
    pub scale_factor: i32,
    pub logical_width: i32,
    pub logical_height: i32,
}

/// The pace of the frames as text: the time since the start in seconds, the time
/// since the frame before in milliseconds, and the rates that the two make.
#[derive(Debug)]
pub struct Pacing {
    pub t: String,
    pub dt: String,
    pub instant_fps: String,
    pub avg_fps: String,
}

/// What the session reports with a frame.
#[derive(Clone, Copy, Debug, PartialEq, Eq, Structural)]
pub struct SessionReport {
    pub ready: bool,
    pub batches: u64,
    pub exited: bool,
}

/// `n` spaces.
pub open spec fn spaces(n: int) -> Seq<char> {
    Seq::new(
        if n > 0 {
            n as nat
        } else {
            0
        },
        |i: int| ' ',
    )
}

/// The numeral of `n`, moved to the right in a field of that width.
pub open spec fn right_aligned(n: nat, width: int) -> Seq<char> {
    spaces(width - text::decimal(n).len()) + text::decimal(n)
}

/// Two numbers with a cross between them.
pub open spec fn size_text(width: int, height: int) -> Seq<char> {
    text::signed_decimal(width) + "x"@ + text::signed_decimal(height)
}

/// The sizes that a resize brings.
pub open spec fn resize_sizes(e: ResizeEvent) -> Seq<char> {
    "fb="@ + size_text(e.fb_width as int, e.fb_height as int) + "px scale_factor="@
        + text::signed_decimal(e.scale_factor as int) + " logical="@ + size_text(
        e.logical_width as int,
        e.logical_height as int,
    )
}

/// A rectangle: its size, and where it begins.
pub open spec fn rect_text(r: PixelRect) -> Seq<char> {
    size_text(
        geometry::extent(r.min_x as int, r.max_x as int),
        geometry::extent(r.min_y as int, r.max_y as int),
    ) + "@("@ + text::signed_decimal(geometry::extent(0, r.min_x as int)) + ","@
        + text::signed_decimal(geometry::extent(0, r.min_y as int)) + ")"@
}

/// A value that may be missing.
pub open spec fn or_missing(value: Option<Seq<char>>) -> Seq<char> {
    match value {
        Some(s) => s,
        None => "n/a"@,
    }
}

/// The line of a resize in a pane that keeps no session.
pub open spec fn plain_resize(e: ResizeEvent) -> Seq<char> {
    "[resize] "@ + resize_sizes(e)
}

/// The line of a resize in a pane that may keep a session.
pub open spec fn session_resize(e: ResizeEvent, forced: bool) -> Seq<char> {
    "[resize] "@ + resize_sizes(e) + " forced_next_frame="@ + perf::bool_text(forced)
}

/// The line of a resize in the composed shell.
pub open spec fn numbered_resize(
    number: nat,
    e: ResizeEvent,
    region: PixelRect,
    tag: Seq<char>,
    since: Option<Seq<char>>,
    frames: Option<u64>,
) -> Seq<char> {
    "[resize #"@ + text::decimal(number) + "] "@ + resize_sizes(e) + " content_region="@
        + rect_text(region) + " live_state="@ + tag + " since_last_frame="@ + or_missing(since)
        + " frame_count="@ + or_missing(
        match frames {
            Some(n) => Some(text::decimal(n as nat)),
            None => None,
        },
    ) + " forced_next_frame="@ + perf::bool_text(frames is Some)
}

/// The line that tells the pace of the frames.
pub open spec fn pacing(frame: nat, p: Pacing) -> Seq<char> {
    "[frame "@ + right_aligned(frame, 6) + "] t="@ + p.t@ + "s dt="@ + p.dt@
        + "ms instant_fps="@ + p.instant_fps@ + " avg_fps="@ + p.avg_fps@
}

/// That line, with what was painted where.
pub open spec fn region_pacing(
    frame: nat,
    p: Pacing,
    fb_width: int,
    fb_height: int,
    region: PixelRect,
    animating: bool,
) -> Seq<char> {
    pacing(frame, p) + " fb="@ + size_text(fb_width, fb_height) + " region="@ + rect_text(region)
        + " animating="@ + perf::bool_text(animating)
}

/// That line, with what the session reports.
pub open spec fn session_pacing(line: Seq<char>, r: SessionReport) -> Seq<char> {
    line + " ready="@ + perf::bool_text(r.ready) + " batches="@ + text::decimal(
        r.batches as nat,
    ) + " nvim_exited="@ + perf::bool_text(r.exited)
}

/// The line of an answer of the agent pane, or of the error in its place.
pub open spec fn poll_text(
    round_trip_ms: Seq<char>,
    answer: Result<Seq<char>, Seq<char>>,
) -> Seq<char> {
    "[webview-poll] round_trip="@ + round_trip_ms + match answer {
        Ok(result) => "ms result="@ + result,
        Err(error) => "ms evaluate_javascript failed: "@ + error,
    }
}

/// The line of a report on the frames of the pumped window.
pub open spec fn fps_text(frames: nat, seconds: Seq<char>) -> Seq<char> {
    "[winit/gl] ~"@ + text::decimal(frames) + " fps over last "@ + seconds + "s (frame "@
        + text::decimal(frames) + ")"@
}

/// Appends the numeral of `n`, moved to the right in a field of that width.
fn push_right_aligned(line: &mut String, n: u64, width: usize)
    ensures
        final(line)@ == old(line)@ + right_aligned(n as nat, width as int),
{
    let mut numeral: String = String::new();
    text::push_decimal(&mut numeral, n as u128);
    assert(numeral@ =~= text::decimal(n as nat));
    let length: usize = numeral.as_str().unicode_len();
    let mut written: usize = length;
    while written < width
        invariant
            length <= written,
            written <= width || written == length,
            line@ == old(line)@ + spaces(written - length),
        decreases width - written,
    {
        line.push(' ');
        written = written + 1;
        assert(line@ =~= old(line)@ + spaces(written - length));
    }
    line.append(&numeral);
    assert(line@ =~= old(line)@ + right_aligned(n as nat, width as int));
}

/// Appends two numbers with a cross between them.
fn push_size(line: &mut String, width: i32, height: i32)
    ensures
        final(line)@ == old(line)@ + size_text(width as int, height as int),
{
    text::push_signed(line, width as i64);
    line.append("x");
    text::push_signed(line, height as i64);
    assert(line@ =~= old(line)@ + size_text(width as int, height as int));
}

/// Appends the sizes that a resize brings.
fn push_resize_sizes(line: &mut String, e: ResizeEvent)
    ensures
        final(line)@ == old(line)@ + resize_sizes(e),
{
    let mut sizes: String = "fb=".to_owned();
    push_size(&mut sizes, e.fb_width, e.fb_height);
    sizes.append("px scale_factor=");
    text::push_signed(&mut sizes, e.scale_factor as i64);
    sizes.append(" logical=");
    push_size(&mut sizes, e.logical_width, e.logical_height);
    line.append(&sizes);
}

/// Appends a rectangle.
fn push_rect(line: &mut String, r: PixelRect)
    requires
        r.measurable(),
    ensures
        final(line)@ == old(line)@ + rect_text(r),
{
    let mut rect: String = String::new();
    push_size(&mut rect, r.width(), r.height());
    assert(rect@ =~= size_text(
        geometry::extent(r.min_x as int, r.max_x as int),
        geometry::extent(r.min_y as int, r.max_y as int),
    ));
    rect.append("@(");
    text::push_signed(&mut rect, r.left() as i64);
    rect.append(",");
    text::push_signed(&mut rect, r.top() as i64);
    rect.append(")");
    line.append(&rect);
}

/// The line of a resize in a pane that keeps no session.
pub fn plain_resize_line(e: ResizeEvent) -> (line: String)
    ensures
        line@ == plain_resize(e),
{
    let mut line: String = "[resize] ".to_owned();
    push_resize_sizes(&mut line, e);
    line
}

/// The line of a resize in a pane that may keep a session; `forced` says whether
/// the next tick is bound to draw.
pub fn session_resize_line(e: ResizeEvent, forced: bool) -> (line: String)
    ensures
        line@ == session_resize(e, forced),
{
    let mut line: String = "[resize] ".to_owned();
    push_resize_sizes(&mut line, e);
    line.append(" forced_next_frame=");
    line.append(perf::bool_word(forced));
    line
}

/// The line of a resize in the composed shell: its number, the region it leaves,
/// and how the session stands, where one runs.
pub fn numbered_resize_line(
    number: u64,
    e: ResizeEvent,
    region: PixelRect,
    tag: &str,
    since: Option<&str>,
    frames: Option<u64>,
) -> (line: String)
    requires
        region.measurable(),
    ensures
        line@ == numbered_resize(
            number as nat,
            e,
            region,
            tag@,
            match since {
                Some(s) => Some(s@),
                None => None,
            },
            frames,
        ),
{
    let mut line: String = "[resize #".to_owned();
    text::push_decimal(&mut line, number as u128);
    line.append("] ");
    push_resize_sizes(&mut line, e);
    line.append(" content_region=");
    push_rect(&mut line, region);
    line.append(" live_state=");
    line.append(tag);
    line.append(" since_last_frame=");
    match since {
        Some(s) => line.append(s),
        None => line.append("n/a"),
    }
    line.append(" frame_count=");
    match frames {
        Some(n) => text::push_decimal(&mut line, n as u128),
        None => line.append("n/a"),
    }
    line.append(" forced_next_frame=");
    line.append(perf::bool_word(frames.is_some()));
    line
}

/// The line that tells the pace of the frames.
pub fn pacing_line(frame: u64, p: &Pacing) -> (line: String)
    ensures
        line@ == pacing(frame as nat, *p),
{
    let mut line: String = "[frame ".to_owned();
    push_right_aligned(&mut line, frame, 6);
    line.append("] t=");
    line.append(&p.t);
    line.append("s dt=");
    line.append(&p.dt);
    line.append("ms instant_fps=");
    line.append(&p.instant_fps);
    line.append(" avg_fps=");
    line.append(&p.avg_fps);
    line
}

/// The line that tells the pace of the frames, and what was painted where.
pub fn region_pacing_line(
    frame: u64,
    p: &Pacing,
    fb_width: i32,
    fb_height: i32,
    region: PixelRect,
    animating: bool,
) -> (line: String)
    requires
        region.measurable(),
    ensures
        line@ == region_pacing(
            frame as nat,
            *p,
            fb_width as int,
            fb_height as int,
            region,
            animating,
        ),
{
    let mut line: String = pacing_line(frame, p);
    line.append(" fb=");
    push_size(&mut line, fb_width, fb_height);
    line.append(" region=");
    push_rect(&mut line, region);
    line.append(" animating=");
    line.append(perf::bool_word(animating));
    line
}

/// That line, with what the session reports.
pub fn session_pacing_line(line: String, r: SessionReport) -> (longer: String)
    ensures
        longer@ == session_pacing(line@, r),
{
    let mut longer: String = line;
    longer.append(" ready=");
    longer.append(perf::bool_word(r.ready));
    longer.append(" batches=");
    text::push_decimal(&mut longer, r.batches as u128);
    longer.append(" nvim_exited=");
    longer.append(perf::bool_word(r.exited));
    longer
}

/// The line of an answer of the agent pane to a look at its counters, or of the
/// error in its place.
pub fn poll_line(round_trip_ms: &str, answer: Result<&str, &str>) -> (line: String)
    ensures
        line@ == "[webview-poll] round_trip="@ + round_trip_ms@ + match answer {
            Ok(result) => "ms result="@ + result@,
            Err(error) => "ms evaluate_javascript failed: "@ + error@,
        },
        line@ == poll_text(
            round_trip_ms@,
            match answer {
                Ok(result) => Ok(result@),
                Err(error) => Err(error@),
            },
        ),
{
    let mut rest: String = match answer {
        Ok(_) => "ms result=".to_owned(),
        Err(_) => "ms evaluate_javascript failed: ".to_owned(),
    };
    match answer {
        Ok(result) => rest.append(result),
        Err(error) => rest.append(error),
    }
    let mut line: String = "[webview-poll] round_trip=".to_owned();
    line.append(round_trip_ms);
    line.append(&rest);
    line
}

/// The line of a report on the frames of the pumped window.
pub fn fps_line(frames: u64, seconds: &str) -> (line: String)
    ensures
        line@ == "[winit/gl] ~"@ + text::decimal(frames as nat) + " fps over last "@ + seconds@
            + "s (frame "@ + text::decimal(frames as nat) + ")"@,
        line@ == fps_text(frames as nat, seconds@),
{
    let mut line: String = "[winit/gl] ~".to_owned();
    text::push_decimal(&mut line, frames as u128);
    line.append(" fps over last ");
    line.append(seconds);
    line.append("s (frame ");
    text::push_decimal(&mut line, frames as u128);
    line.append(")");
    line
}

/// A number in a field keeps all its digits, at the right end; only spaces stand
/// before it, as many as the field is wider.
pub proof fn law_number_stands_at_the_right(n: nat, width: nat)
    ensures
        ({
            let s = right_aligned(n, width as int);
            let digits = text::decimal(n);
            let start = s.len() - digits.len();
            &&& s.len() == if digits.len() < width {
                width
            } else {
                digits.len()
            }
            &&& s.skip(start) == digits
            &&& forall|i: int| 0 <= i < start ==> #[trigger] s[i] == ' '
        }),
{
    let s = right_aligned(n, width as int);
    let start = s.len() - text::decimal(n).len();
    assert(s.skip(start) =~= text::decimal(n));
}

/// A size is told as its width, a cross and its height, in that order.
pub proof fn law_size_tells_width_and_height(width: int, height: int)
    ensures
        size_text(width, height).take(text::signed_decimal(width).len() as int)
            == text::signed_decimal(width),
        size_text(width, height)[text::signed_decimal(width).len() as int] == 'x',
        size_text(width, height).skip(text::signed_decimal(width).len() as int + 1)
            == text::signed_decimal(height),
{
    reveal_strlit("x");
    let n = text::signed_decimal(width).len() as int;
    assert(size_text(width, height).take(n) =~= text::signed_decimal(width));
    assert(size_text(width, height).skip(n + 1) =~= text::signed_decimal(height));
}

/// The sizes of a resize are told in full, each behind its own word: the
/// framebuffer, the scale factor and the logical size.
pub proof fn law_resize_line_tells_the_sizes(e: ResizeEvent, forced: bool)
    ensures
        resize_sizes(e) == "fb="@ + (text::signed_decimal(e.fb_width as int) + ("x"@ + (
        text::signed_decimal(e.fb_height as int) + ("px scale_factor="@ + (text::signed_decimal(
            e.scale_factor as int,
        ) + (" logical="@ + (text::signed_decimal(e.logical_width as int) + ("x"@
            + text::signed_decimal(e.logical_height as int))))))))),
        plain_resize(e) == "[resize] "@ + resize_sizes(e),
        session_resize(e, forced) == plain_resize(e) + (" forced_next_frame="@ + if forced {
            "true"@
        } else {
            "false"@
        }),
{
    assert(resize_sizes(e) =~= "fb="@ + (text::signed_decimal(e.fb_width as int) + ("x"@ + (
    text::signed_decimal(e.fb_height as int) + ("px scale_factor="@ + (text::signed_decimal(
        e.scale_factor as int,
    ) + (" logical="@ + (text::signed_decimal(e.logical_width as int) + ("x"@
        + text::signed_decimal(e.logical_height as int))))))))));
    assert(session_resize(e, forced) =~= plain_resize(e) + (" forced_next_frame="@ + if forced {
        "true"@
    } else {
        "false"@
    }));
}

/// A region is told as its width and height, and where it begins.
pub proof fn law_region_is_told_by_size_and_place(r: PixelRect)
    ensures
        rect_text(r) == text::signed_decimal(
            geometry::extent(r.min_x as int, r.max_x as int),
        ) + ("x"@ + (text::signed_decimal(geometry::extent(r.min_y as int, r.max_y as int)) + (
        "@("@ + (text::signed_decimal(geometry::extent(0, r.min_x as int)) + (","@ + (
        text::signed_decimal(geometry::extent(0, r.min_y as int)) + ")"@)))))),
{
    assert(rect_text(r) =~= text::signed_decimal(
        geometry::extent(r.min_x as int, r.max_x as int),
    ) + ("x"@ + (text::signed_decimal(geometry::extent(r.min_y as int, r.max_y as int)) + ("@("@ + (
    text::signed_decimal(geometry::extent(0, r.min_x as int)) + (","@ + (text::signed_decimal(
        geometry::extent(0, r.min_y as int),
    ) + ")"@)))))));
}

/// The line of a numbered resize tells its number, the sizes, the region, the
/// state, and how the frames of a running session stand: the next one is forced.
pub proof fn law_numbered_resize_tells_everything(
    number: nat,
    e: ResizeEvent,
    region: PixelRect,
    tag: Seq<char>,
    time: Seq<char>,
    count: u64,
)
    ensures
        numbered_resize(number, e, region, tag, Some(time), Some(count)) == "[resize #"@
            + text::decimal(number) + "] "@ + resize_sizes(e) + " content_region="@ + rect_text(
            region,
        ) + " live_state="@ + tag + " since_last_frame="@ + time + " frame_count="@ + text::decimal(
            count as nat,
        ) + " forced_next_frame="@ + "true"@,
{
}

/// Without a session the time and the count are told as missing, and no frame is
/// forced.
pub proof fn law_numbered_resize_without_a_session(
    number: nat,
    e: ResizeEvent,
    region: PixelRect,
    tag: Seq<char>,
)
    ensures
        numbered_resize(number, e, region, tag, None, None) == "[resize #"@ + text::decimal(number)
            + "] "@ + resize_sizes(e) + " content_region="@ + rect_text(region) + " live_state="@
            + tag + " since_last_frame="@ + "n/a"@ + " frame_count="@ + "n/a"@
            + " forced_next_frame="@ + "false"@,
{
}

/// The line of the pace tells the frame, and each time and rate as it is written.
pub proof fn law_pacing_line_tells_the_pace(frame: nat, p: Pacing)
    ensures
        pacing(frame, p) == "[frame "@ + (right_aligned(frame, 6) + ("] t="@ + (p.t@ + ("s dt="@ + (
        p.dt@ + ("ms instant_fps="@ + (p.instant_fps@ + (" avg_fps="@ + p.avg_fps@)))))))),
{
    assert(pacing(frame, p) =~= "[frame "@ + (right_aligned(frame, 6) + ("] t="@ + (p.t@ + (
    "s dt="@ + (p.dt@ + ("ms instant_fps="@ + (p.instant_fps@ + (" avg_fps="@ + p.avg_fps@)))))))));
}

/// With a region the line goes on to tell the framebuffer, the region and whether
/// the animation goes on.
pub proof fn law_region_pacing_goes_on(
    frame: nat,
    p: Pacing,
    fb_width: int,
    fb_height: int,
    region: PixelRect,
)
    ensures
        region_pacing(frame, p, fb_width, fb_height, region, true) == pacing(frame, p) + " fb="@
            + size_text(fb_width, fb_height) + " region="@ + rect_text(region) + " animating="@
            + "true"@,
        region_pacing(frame, p, fb_width, fb_height, region, false) == pacing(frame, p) + " fb="@
            + size_text(fb_width, fb_height) + " region="@ + rect_text(region) + " animating="@
            + "false"@,
{
}

/// With a session the line goes on to tell whether content is there, how many
/// batches arrived, and whether Neovim has exited.
pub proof fn law_session_pacing_goes_on(line: Seq<char>, r: SessionReport)
    ensures
        session_pacing(line, r) == line + " ready="@ + (if r.ready {
            "true"@
        } else {
            "false"@
        }) + " batches="@ + text::decimal(r.batches as nat) + " nvim_exited="@ + (if r.exited {
            "true"@
        } else {
            "false"@
        }),
{
}

/// The line of a poll tells the time that it took, and the answer or the error as
/// it came.
pub proof fn law_poll_line_tells_the_answer(round_trip_ms: Seq<char>, words: Seq<char>)
    ensures
        poll_text(round_trip_ms, Ok(words)) == "[webview-poll] round_trip="@ + (round_trip_ms + (
        "ms result="@ + words)),
        poll_text(round_trip_ms, Err(words)) == "[webview-poll] round_trip="@ + (round_trip_ms + (
        "ms evaluate_javascript failed: "@ + words)),
{
    assert(poll_text(round_trip_ms, Ok(words)) =~= "[webview-poll] round_trip="@ + (round_trip_ms
        + ("ms result="@ + words)));
    assert(poll_text(round_trip_ms, Err(words)) =~= "[webview-poll] round_trip="@ + (round_trip_ms
        + ("ms evaluate_javascript failed: "@ + words)));
}

/// The line of the frame rate tells the frames, twice, and the time between.
pub proof fn law_fps_line_tells_the_frames(frames: nat, seconds: Seq<char>)
    ensures
        fps_text(frames, seconds) == "[winit/gl] ~"@ + (text::decimal(frames) + (
        " fps over last "@ + (seconds + ("s (frame "@ + (text::decimal(frames) + ")"@))))),
{
    assert(fps_text(frames, seconds) =~= "[winit/gl] ~"@ + (text::decimal(frames) + (
    " fps over last "@ + (seconds + ("s (frame "@ + (text::decimal(frames) + ")"@))))));
}

/// A value that is there is told as it is, and one that is not as missing.
pub proof fn law_missing_values_are_told(value: Seq<char>)
    ensures
        or_missing(Some(value)) == value,
        or_missing(None) == "n/a"@,
{
}

} // verus!

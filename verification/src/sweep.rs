//! The automatic resize sweep: a divider that moves back and forth between two
//! bounds, standing in for a hand that drags it.

use crate::text;
use vstd::prelude::*;

verus! {

/// How often the divider moves when nothing else is asked for, in milliseconds.
pub const DEFAULT_INTERVAL_MS: u64 = 16;

/// How far the divider moves when nothing else is asked for, in pixels.
pub const DEFAULT_STEP_PX: i32 = 6;

/// Every how many moves a log line is due.
pub const LOG_EVERY_N_MOVES: u64 = 30;

/// What the sweep was asked to do.
#[derive(Clone, Copy, Debug, PartialEq, Eq, Structural)]
pub struct SweepSettings {
    pub interval_ms: u64,
    pub step_px: i32,
}

/// Which way the divider moves.
#[derive(Clone, Copy, Debug, PartialEq, Eq, Structural)]
pub enum Direction {
    /// Towards larger positions.
    Forward,
    /// Towards smaller positions.
    Backward,
}

/// A running sweep.
#[derive(Clone, Copy, Debug, PartialEq, Eq, Structural)]
pub struct Sweep {
    pub direction: Direction,
    /// How many moves were made.
    pub moves: u64,
}

/// One move of the divider.
#[derive(Clone, Copy, Debug, PartialEq, Eq, Structural)]
pub struct SweepMove {
    /// Where the divider goes.
    pub position: i32,
    /// The bounds of this move.
    pub min_pos: i32,
    pub max_pos: i32,
    /// The width that the bounds were taken from.
    pub width: i32,
    /// The number of this move, from one on.
    pub number: u64,
}

/// An end of the track of something that moves back and forth.
#[derive(Clone, Copy, Debug, PartialEq, Eq, Structural)]
pub enum TrackEnd {
    Start,
    End,
}

/// Whether the variable that switches the sweep on holds `1`.
pub open spec fn switched_on(enabled: Option<&str>) -> bool {
    enabled is Some && enabled->0@ == "1"@
}

/// The settings that the variables ask for: each one counts where it is there
/// and reads as an integer, and its default stands in where it does not.
pub open spec fn settings_from(interval: Option<&str>, step: Option<&str>) -> SweepSettings {
    SweepSettings {
        interval_ms: match interval {
            Some(s) => match text::unsigned_value(s@) {
                Some(n) => n,
                None => DEFAULT_INTERVAL_MS,
            },
            None => DEFAULT_INTERVAL_MS,
        },
        step_px: match step {
            Some(s) => match text::signed_value(s@) {
                Some(n) => n,
                None => DEFAULT_STEP_PX,
            },
            None => DEFAULT_STEP_PX,
        },
    }
}

/// 15% of the width, rounded down.
pub open spec fn lower_bound(width: int) -> int {
    width * 15 / 100
}

/// 85% of the width, rounded down.
pub open spec fn upper_bound(width: int) -> int {
    width * 85 / 100
}

/// By how much a step in the given direction changes the position.
pub open spec fn offset(direction: Direction, step: int) -> int {
    match direction {
        Direction::Forward => step,
        Direction::Backward => -step,
    }
}

/// Where a step from `position` goes: one that reaches a bound stops there.
pub open spec fn stepped(width: int, step: int, position: int, direction: Direction) -> int {
    let target = position + offset(direction, step);
    if target >= upper_bound(width) {
        upper_bound(width)
    } else if target <= lower_bound(width) {
        lower_bound(width)
    } else {
        target
    }
}

/// Which way the step after that goes: one that reached a bound turns.
pub open spec fn turned(
    width: int,
    step: int,
    position: int,
    direction: Direction,
) -> Direction {
    let target = position + offset(direction, step);
    if target >= upper_bound(width) {
        Direction::Backward
    } else if target <= lower_bound(width) {
        Direction::Forward
    } else {
        direction
    }
}

/// Whether a move can be made without leaving what an `i32` holds, and counted.
pub open spec fn fits(sweep: Sweep, width: i32, position: i32, step: i32) -> bool {
    width > 0 ==> {
        &&& i32::MIN <= offset(sweep.direction, step as int) <= i32::MAX
        &&& i32::MIN <= position + offset(sweep.direction, step as int) <= i32::MAX
        &&& sweep.moves < u64::MAX
    }
}

/// The move of a timer tick that finds the pane this wide and the divider at
/// `position`: none before the pane has a width.
pub open spec fn move_made(
    sweep: Sweep,
    width: i32,
    position: i32,
    step: i32,
) -> Option<SweepMove> {
    if width > 0 {
        Some(
            SweepMove {
                position: stepped(
                    width as int,
                    step as int,
                    position as int,
                    sweep.direction,
                ) as i32,
                min_pos: lower_bound(width as int) as i32,
                max_pos: upper_bound(width as int) as i32,
                width,
                number: (sweep.moves + 1) as u64,
            },
        )
    } else {
        None
    }
}

/// The sweep after such a tick.
pub open spec fn after_tick(sweep: Sweep, width: i32, position: i32, step: i32) -> Sweep {
    if width > 0 {
        Sweep {
            direction: turned(width as int, step as int, position as int, sweep.direction),
            moves: (sweep.moves + 1) as u64,
        }
    } else {
        sweep
    }
}

/// What a timer tick finds.
pub struct SweepTick {
    pub width: i32,
    pub position: i32,
}

/// The sweep after all of `ticks`, from its start on.
pub open spec fn after_ticks(ticks: Seq<SweepTick>, step: i32) -> Sweep
    decreases ticks.len(),
{
    if ticks.len() == 0 {
        Sweep { direction: Direction::Forward, moves: 0 }
    } else {
        after_tick(
            after_ticks(ticks.drop_last(), step),
            ticks.last().width,
            ticks.last().position,
            step,
        )
    }
}

/// Position and direction after `n` moves that start from `position`, each from
/// where the one before left the divider.
pub open spec fn after_moves(
    width: int,
    step: int,
    position: int,
    direction: Direction,
    n: nat,
) -> (int, Direction)
    decreases n,
{
    if n == 0 {
        (position, direction)
    } else {
        let (p, d) = after_moves(width, step, position, direction, (n - 1) as nat);
        (stepped(width, step, p, d), turned(width, step, p, d))
    }
}

/// Whether the move of that number is logged.
pub open spec fn is_logged(number: u64) -> bool {
    number % LOG_EVERY_N_MOVES == 0
}

/// Where something that runs along a track stops, where it does, and which way it
/// goes on.
pub open spec fn bounced(
    past_end: bool,
    before_start: bool,
    direction: Direction,
) -> (Option<TrackEnd>, Direction) {
    if past_end {
        (Some(TrackEnd::End), Direction::Backward)
    } else if before_start {
        (Some(TrackEnd::Start), Direction::Forward)
    } else {
        (None, direction)
    }
}

/// The log line of a move.
pub open spec fn move_line(m: SweepMove) -> Seq<char> {
    "[resize-sweep] tick "@ + text::decimal(m.number as nat) + ": paned.position()="@
        + text::signed_decimal(m.position as int) + " bounds=["@ + text::signed_decimal(
        m.min_pos as int,
    ) + ","@ + text::signed_decimal(m.max_pos as int) + "] width="@ + text::signed_decimal(
        m.width as int,
    )
}

/// The log line that tells the settings.
pub open spec fn settings_line(settings: SweepSettings) -> Seq<char> {
    "[resize-sweep] enabled: interval="@ + text::decimal(settings.interval_ms as nat)
        + "ms step="@ + text::signed_decimal(settings.step_px as int)
        + "px (bouncing paned.position() between 15%-85% of current width)"@
}

impl SweepSettings {
    /// Reads the settings from the values of three environment variables:
    /// `None` unless the first one switches the sweep on.
    pub fn from_variables(
        enabled: Option<&str>,
        interval: Option<&str>,
        step: Option<&str>,
    ) -> (settings: Option<Self>)
        ensures
            settings == if switched_on(enabled) {
                Some(settings_from(interval, step))
            } else {
                None
            },
    {
        let on: bool = match enabled {
            Some(s) => text::same_text(s, "1"),
            None => false,
        };
        if !on {
            return None;
        }
        let interval_ms: u64 = match interval {
            Some(s) => match text::parse_unsigned(s) {
                Some(n) => n,
                None => DEFAULT_INTERVAL_MS,
            },
            None => DEFAULT_INTERVAL_MS,
        };
        let step_px: i32 = match step {
            Some(s) => match text::parse_signed(s) {
                Some(n) => n,
                None => DEFAULT_STEP_PX,
            },
            None => DEFAULT_STEP_PX,
        };
        Some(SweepSettings { interval_ms, step_px })
    }

    /// The log line that tells the settings.
    pub fn line(&self) -> (line: String)
        ensures
            line@ == settings_line(*self),
    {
        let mut line: String = "[resize-sweep] enabled: interval=".to_owned();
        text::push_decimal(&mut line, self.interval_ms as u128);
        line.append("ms step=");
        text::push_signed(&mut line, self.step_px as i64);
        line.append("px (bouncing paned.position() between 15%-85% of current width)");
        line
    }
}

impl Sweep {
    /// A sweep that has not moved yet and will move forward.
    pub fn new() -> (sweep: Self)
        ensures
            sweep == (Sweep { direction: Direction::Forward, moves: 0 }),
    {
        Sweep { direction: Direction::Forward, moves: 0 }
    }

    /// Moves the divider of a pane that is `width` wide by `step_px` from
    /// `position`. A pane without a width has not been laid out: nothing moves.
    pub fn advance(&mut self, width: i32, position: i32, step_px: i32) -> (moved: Option<SweepMove>)
        requires
            fits(*old(self), width, position, step_px),
        ensures
            moved == move_made(*old(self), width, position, step_px),
            *final(self) == after_tick(*old(self), width, position, step_px),
    {
        if width <= 0 {
            return None;
        }
        let min_pos: i32 = (width as i64 * 15 / 100) as i32;
        let max_pos: i32 = (width as i64 * 85 / 100) as i32;
        let shift: i32 = match self.direction {
            Direction::Forward => step_px,
            Direction::Backward => -step_px,
        };
        let mut target: i32 = position + shift;
        if target >= max_pos {
            target = max_pos;
            self.direction = Direction::Backward;
        } else if target <= min_pos {
            target = min_pos;
            self.direction = Direction::Forward;
        }
        self.moves = self.moves + 1;
        Some(SweepMove { position: target, min_pos, max_pos, width, number: self.moves })
    }
}

/// What something that moves along a track does after a step that took it past
/// one of the ends or not: it is put back on the end that it passed, and moves
/// away from it from then on.
pub fn bounce(past_end: bool, before_start: bool, direction: Direction) -> (turn: (
    Option<TrackEnd>,
    Direction,
))
    ensures
        turn == if past_end {
            (Some(TrackEnd::End), Direction::Backward)
        } else if before_start {
            (Some(TrackEnd::Start), Direction::Forward)
        } else {
            (None, direction)
        },
        turn == bounced(past_end, before_start, direction),
{
    if past_end {
        (Some(TrackEnd::End), Direction::Backward)
    } else if before_start {
        (Some(TrackEnd::Start), Direction::Forward)
    } else {
        (None, direction)
    }
}

impl SweepMove {
    /// Whether a log line is due with this move.
    pub fn log_due(&self) -> (due: bool)
        ensures
            due == (self.number % LOG_EVERY_N_MOVES == 0),
            due == is_logged(self.number),
    {
        self.number % LOG_EVERY_N_MOVES == 0
    }

    /// The log line of this move.
    pub fn line(&self) -> (line: String)
        ensures
            line@ == move_line(*self),
    {
        let mut line: String = "[resize-sweep] tick ".to_owned();
        text::push_decimal(&mut line, self.number as u128);
        line.append(": paned.position()=");
        text::push_signed(&mut line, self.position as i64);
        line.append(" bounds=[");
        text::push_signed(&mut line, self.min_pos as i64);
        line.append(",");
        text::push_signed(&mut line, self.max_pos as i64);
        line.append("] width=");
        text::push_signed(&mut line, self.width as i64);
        line
    }
}

/// Every move ends between the bounds, wherever it began, and the bounds lie
/// inside the pane.
pub proof fn law_moves_stay_in_bounds(
    width: i32,
    step: int,
    position: int,
    direction: Direction,
)
    requires
        width > 0,
    ensures
        0 <= lower_bound(width as int) <= stepped(width as int, step, position, direction),
        stepped(width as int, step, position, direction) <= upper_bound(width as int) < width,
{
}

/// A sweep counts no more moves than there were ticks.
proof fn lemma_counts_moves(ticks: Seq<SweepTick>, step: i32)
    requires
        ticks.len() <= u64::MAX,
    ensures
        after_ticks(ticks, step).moves <= ticks.len(),
    decreases ticks.len(),
{
    if ticks.len() > 0 {
        lemma_counts_moves(ticks.drop_last(), step);
    }
}

/// Whatever the ticks of a sweep find, each one can be taken: it moves the
/// divider once where the pane has a width, to a place between the bounds of
/// that width, and else leaves it alone. The width may change from tick to tick,
/// and the divider may have been moved from outside. Only a divider so far out
/// that the step from it is no `i32` is left out, and a counter that is full.
pub proof fn law_every_tick_moves_within_bounds(ticks: Seq<SweepTick>, step: i32, i: int)
    requires
        0 <= i < ticks.len() <= u64::MAX,
        step > i32::MIN,
        i32::MIN <= ticks[i].position - step <= i32::MAX,
        i32::MIN <= ticks[i].position + step <= i32::MAX,
    ensures
        ({
            let (width, position) = (ticks[i].width, ticks[i].position);
            let sweep = after_ticks(ticks.take(i), step);
            let moved = move_made(sweep, width, position, step);
            &&& fits(sweep, width, position, step)
            &&& moved is Some <==> width > 0
            &&& moved is Some ==> lower_bound(width as int) <= moved->0.position <= upper_bound(
                width as int,
            )
            &&& after_ticks(ticks.take(i + 1), step) == after_tick(sweep, width, position, step)
        }),
{
    lemma_counts_moves(ticks.take(i), step);
    let sweep = after_ticks(ticks.take(i), step);
    let width = ticks[i].width;
    if width > 0 {
        law_moves_stay_in_bounds(
            width,
            step as int,
            ticks[i].position as int,
            sweep.direction,
        );
    }
    assert(ticks.take(i + 1).drop_last() =~= ticks.take(i));
}

/// The direction changes only at a bound: after a move that ends elsewhere the
/// divider goes on the way it went.
pub proof fn law_turns_only_at_bounds(
    width: i32,
    step: int,
    position: int,
    direction: Direction,
)
    requires
        width > 0,
        turned(width as int, step, position, direction) != direction,
    ensures
        ({
            let p = stepped(width as int, step, position, direction);
            p == lower_bound(width as int) || p == upper_bound(width as int)
        }),
{
}

/// Short of the bound, each move of a sweep goes one step further.
proof fn lemma_moves_add_up(width: i32, step: int, position: int, direction: Direction, n: nat)
    requires
        width > 0,
        step > 0,
        lower_bound(width as int) <= position <= upper_bound(width as int),
        n > 0 ==> lower_bound(width as int) < position + n * offset(direction, step) < upper_bound(
            width as int,
        ),
    ensures
        after_moves(width as int, step, position, direction, n) == (
            position + n * offset(direction, step),
            direction,
        ),
    decreases n,
{
    if n > 0 {
        let o = offset(direction, step);
        let m = (n - 1) as nat;
        assert(n * o == m * o + o) by (nonlinear_arith)
            requires
                m == n - 1,
        ;
        if m > 0 {
            assert(m * o >= o && o > 0 || m * o <= o && o < 0) by (nonlinear_arith)
                requires
                    m >= 1,
                    o != 0,
            ;
        }
        lemma_moves_add_up(width, step, position, direction, m);
        assert(m == 0 ==> m * o == 0) by (nonlinear_arith);
    } else {
        assert(n * offset(direction, step) == 0) by (nonlinear_arith)
            requires
                n == 0,
        ;
    }
}

/// A sweep keeps going back and forth: with a positive step, a divider between
/// the bounds reaches the bound that it moves towards, and turns there, in as
/// many moves as the way to it needs steps, and no fewer.
pub proof fn law_sweep_reaches_the_bound(
    width: i32,
    step: int,
    position: int,
    direction: Direction,
    n: nat,
)
    requires
        width > 0,
        step > 0,
        lower_bound(width as int) <= position <= upper_bound(width as int),
        ({
            let way = match direction {
                Direction::Forward => upper_bound(width as int) - position,
                Direction::Backward => position - lower_bound(width as int),
            };
            n >= 1 && (n - 1) * step < way <= n * step || n == 1 && way == 0
        }),
    ensures
        after_moves(width as int, step, position, direction, n) == match direction {
            Direction::Forward => (upper_bound(width as int), Direction::Backward),
            Direction::Backward => (lower_bound(width as int), Direction::Forward),
        },
        forall|m: nat| 0 < m < n ==> (#[trigger] after_moves(
            width as int,
            step,
            position,
            direction,
            m,
        )).1 == direction,
{
    let o = offset(direction, step);
    assert forall|m: nat| 0 < m < n implies (#[trigger] after_moves(
        width as int,
        step,
        position,
        direction,
        m,
    )).1 == direction by {
        assert(0 < m * step <= (n - 1) * step) by (nonlinear_arith)
            requires
                0 < m <= n - 1,
                step > 0,
        ;
        assert(direction is Backward ==> m * o == -(m * step)) by (nonlinear_arith)
            requires
                direction is Backward ==> o == -step,
        ;
        assert(direction is Forward ==> m * o == m * step) by (nonlinear_arith)
            requires
                direction is Forward ==> o == step,
        ;
        lemma_moves_add_up(width, step, position, direction, m);
    }
    let m = (n - 1) as nat;
    if m > 0 {
        assert(0 < m * step) by (nonlinear_arith)
            requires
                0 < m,
                step > 0,
        ;
    }
    assert(n * step == m * step + step) by (nonlinear_arith)
        requires
            m == n - 1,
    ;
    assert(direction is Forward ==> m * o == m * step) by (nonlinear_arith)
        requires
            direction is Forward ==> o == step,
    ;
    assert(direction is Backward ==> m * o == -(m * step)) by (nonlinear_arith)
        requires
            direction is Backward ==> o == -step,
    ;
    lemma_moves_add_up(width, step, position, direction, m);
}

/// The bounds lie at 15 and 85 hundredths of the width, less than a pixel below.
pub proof fn law_bounds_are_hundredths_of_the_width(width: i32)
    requires
        width > 0,
    ensures
        15 * width - 100 < 100 * lower_bound(width as int) <= 15 * width,
        85 * width - 100 < 100 * upper_bound(width as int) <= 85 * width,
{
}

/// A step that ends between the bounds is taken in full, the way the divider
/// goes, and the divider goes on that way. One that would reach a bound, or began
/// beyond it, ends at the bound, and the divider turns away from it.
pub proof fn law_step_is_taken_or_turns(
    width: i32,
    step: int,
    position: int,
    direction: Direction,
)
    requires
        width > 0,
    ensures
        ({
            let target = if direction is Forward {
                position + step
            } else {
                position - step
            };
            let (low, high) = (width as int * 15 / 100, width as int * 85 / 100);
            let end = stepped(width as int, step, position, direction);
            let next = turned(width as int, step, position, direction);
            &&& low < target < high ==> end == target && next == direction
            &&& target >= high ==> end == high && next is Backward
            &&& target <= low && target < high ==> end == low && next is Forward
        }),
{
}

/// Forward and backward are mirror images: between the bounds a step there and a
/// step back end where they began.
pub proof fn law_step_back_undoes_a_step(width: i32, step: int, position: int)
    requires
        width > 0,
        lower_bound(width as int) < position < upper_bound(width as int),
        lower_bound(width as int) < position + step < upper_bound(width as int),
    ensures
        stepped(
            width as int,
            step,
            stepped(width as int, step, position, Direction::Forward),
            Direction::Backward,
        ) == position,
{
}

/// A tick that moves the divider tells where it went, between which bounds, in
/// which width, and how many moves there were; the sweep goes on from there.
pub proof fn law_move_tells_what_was_done(
    sweep: Sweep,
    width: i32,
    position: i32,
    step: i32,
)
    requires
        width > 0,
        fits(sweep, width, position, step),
    ensures
        ({
            let moved = move_made(sweep, width, position, step);
            let after = after_tick(sweep, width, position, step);
            &&& moved is Some
            &&& moved->0.position == stepped(
                width as int,
                step as int,
                position as int,
                sweep.direction,
            )
            &&& moved->0.min_pos == width as int * 15 / 100
            &&& moved->0.max_pos == width as int * 85 / 100
            &&& moved->0.width == width
            &&& moved->0.number == sweep.moves + 1
            &&& after.moves == sweep.moves + 1
            &&& after.direction == turned(
                width as int,
                step as int,
                position as int,
                sweep.direction,
            )
        }),
{
    law_moves_stay_in_bounds(width, step as int, position as int, sweep.direction);
}

/// Before the pane has a width a tick does nothing at all.
pub proof fn law_no_width_no_move(sweep: Sweep, width: i32, position: i32, step: i32)
    requires
        width <= 0,
    ensures
        move_made(sweep, width, position, step) is None,
        after_tick(sweep, width, position, step) == sweep,
{
}

/// Only the value `1` switches the sweep on. Each setting is the number that its
/// variable holds, whatever the other one is; where the variable is missing or
/// holds no number, the sweep moves by 6 pixels every 16 milliseconds.
pub proof fn law_variables_set_the_sweep(
    s: &str,
    interval: Option<&str>,
    step: Option<&str>,
    n: u64,
    px: i32,
)
    ensures
        switched_on(Some(s)) <==> s@ == "1"@,
        !switched_on(None),
        s@ == text::decimal(n as nat) ==> settings_from(Some(s), step).interval_ms == n,
        text::unsigned_value(s@) == Some(n) ==> settings_from(Some(s), step).interval_ms == n,
        text::unsigned_value(s@) is None ==> settings_from(Some(s), step).interval_ms == 16,
        settings_from(None, step).interval_ms == 16,
        s@ == text::signed_decimal(px as int) ==> settings_from(interval, Some(s)).step_px == px,
        text::signed_value(s@) == Some(px) ==> settings_from(interval, Some(s)).step_px == px,
        text::signed_value(s@) is None ==> settings_from(interval, Some(s)).step_px == 6,
        settings_from(interval, None).step_px == 6,
{
    text::law_unsigned_round_trip(n);
    text::law_signed_round_trip(px);
}

/// Of thirty moves in a row one is logged, the one whose number is a multiple of
/// thirty.
pub proof fn law_one_move_in_thirty_is_logged(rows: nat, rest: nat, number: u64)
    requires
        rest < 30,
        number == 30 * rows + rest,
    ensures
        is_logged(number) <==> rest == 0,
{
}

/// Whatever runs along a track turns back where it ran past an end, stops at that
/// end, and else goes on as it went. The far end comes first.
pub proof fn law_bounce_turns_back(past_end: bool, before_start: bool, direction: Direction)
    ensures
        past_end ==> bounced(past_end, before_start, direction) == (
            Some(TrackEnd::End),
            Direction::Backward,
        ),
        before_start && !past_end ==> bounced(past_end, before_start, direction) == (
            Some(TrackEnd::Start),
            Direction::Forward,
        ),
        !before_start && !past_end ==> bounced(past_end, before_start, direction) == (
            None::<TrackEnd>,
            direction,
        ),
{
}

/// The line of a move tells each of its numbers, in its place.
pub proof fn law_move_line_tells_the_move(m: SweepMove)
    ensures
        move_line(m) == "[resize-sweep] tick "@ + (text::decimal(m.number as nat)
            + (": paned.position()="@ + (text::signed_decimal(m.position as int) + (" bounds=["@ + (
        text::signed_decimal(m.min_pos as int) + (","@ + (text::signed_decimal(m.max_pos as int) + (
        "] width="@ + text::signed_decimal(m.width as int))))))))),
{
    assert(move_line(m) =~= "[resize-sweep] tick "@ + (text::decimal(m.number as nat) + (
    ": paned.position()="@ + (text::signed_decimal(m.position as int) + (" bounds=["@ + (
    text::signed_decimal(m.min_pos as int) + (","@ + (text::signed_decimal(m.max_pos as int) + (
    "] width="@ + text::signed_decimal(m.width as int))))))))));
}

/// The line of the settings tells both of them.
pub proof fn law_settings_line_tells_the_settings(s: SweepSettings)
    ensures
        settings_line(s) == "[resize-sweep] enabled: interval="@ + (text::decimal(
            s.interval_ms as nat,
        ) + ("ms step="@ + (text::signed_decimal(s.step_px as int)
            + "px (bouncing paned.position() between 15%-85% of current width)"@))),
{
    assert(settings_line(s) =~= "[resize-sweep] enabled: interval="@ + (text::decimal(
        s.interval_ms as nat,
    ) + ("ms step="@ + (text::signed_decimal(s.step_px as int)
        + "px (bouncing paned.position() between 15%-85% of current width)"@))));
}

} // verus!

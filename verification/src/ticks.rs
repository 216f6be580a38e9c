//! How many display ticks drew a frame and how many skipped it, over windows of
//! a fixed number of ticks and over the whole run.

use crate::text;
use vstd::arithmetic::div_mod::lemma_fundamental_div_mod;
use vstd::prelude::*;

verus! {

/// How many ticks a window holds.
pub const TICK_LOG_EVERY_N_TICKS: u64 = 300;

/// The running counts.
pub struct TickStats {
    ticks: u64,
    issued: u64,
    skipped: u64,
    issued_total: u64,
    skipped_total: u64,
}

/// The running counts as a mathematical value.
pub struct TickModel {
    /// Ticks of the window so far that drew.
    pub issued: nat,
    /// Ticks of the window so far that skipped.
    pub skipped: nat,
    /// Ticks of the run so far that drew.
    pub issued_total: nat,
    /// Ticks of the run so far that skipped.
    pub skipped_total: nat,
}

/// A finished window.
pub struct TickSummary {
    issued: u64,
    skipped: u64,
    issued_total: u64,
    skipped_total: u64,
}

impl View for TickStats {
    type V = TickModel;

    closed spec fn view(&self) -> TickModel {
        TickModel {
            issued: self.issued as nat,
            skipped: self.skipped as nat,
            issued_total: self.issued_total as nat,
            skipped_total: self.skipped_total as nat,
        }
    }
}

impl View for TickSummary {
    type V = TickModel;

    closed spec fn view(&self) -> TickModel {
        TickModel {
            issued: self.issued as nat,
            skipped: self.skipped as nat,
            issued_total: self.issued_total as nat,
            skipped_total: self.skipped_total as nat,
        }
    }
}

/// The counts before the first tick.
pub open spec fn no_ticks() -> TickModel {
    TickModel { issued: 0, skipped: 0, issued_total: 0, skipped_total: 0 }
}

/// The counts with one tick more, before a full window is closed.
pub open spec fn counted(m: TickModel, issued: bool) -> TickModel {
    if issued {
        TickModel { issued: m.issued + 1, issued_total: m.issued_total + 1, ..m }
    } else {
        TickModel { skipped: m.skipped + 1, skipped_total: m.skipped_total + 1, ..m }
    }
}

/// Whether the window is full.
pub open spec fn full(m: TickModel) -> bool {
    m.issued + m.skipped >= TICK_LOG_EVERY_N_TICKS
}

/// The counts after one tick: a window that it fills is closed, and the next one
/// begins empty. The totals go on.
pub open spec fn after_record(m: TickModel, issued: bool) -> TickModel {
    let next = counted(m, issued);
    if full(next) {
        TickModel { issued: 0, skipped: 0, ..next }
    } else {
        next
    }
}

/// The counts after ticks with the given outcomes, from the first tick on.
pub open spec fn after_outcomes(outcomes: Seq<bool>) -> TickModel
    decreases outcomes.len(),
{
    if outcomes.len() == 0 {
        no_ticks()
    } else {
        after_record(after_outcomes(outcomes.drop_last()), outcomes.last())
    }
}

/// How many of `outcomes` equal `which`.
pub open spec fn count(outcomes: Seq<bool>, which: bool) -> nat
    decreases outcomes.len(),
{
    if outcomes.len() == 0 {
        0
    } else {
        count(outcomes.drop_last(), which) + if outcomes.last() == which {
            1nat
        } else {
            0
        }
    }
}

/// A percentage with one decimal, given in tenths of a percent.
pub open spec fn percent_text(tenths: nat) -> Seq<char> {
    text::decimal(tenths / 10) + "."@ + text::decimal(tenths % 10)
}

/// The share of skipped ticks in a full window, in tenths of a percent, rounded
/// to the nearest: no share of a window lies half way between two.
pub open spec fn skipped_tenths(skipped: nat) -> nat {
    (2000 * skipped + TICK_LOG_EVERY_N_TICKS as nat) / (2 * TICK_LOG_EVERY_N_TICKS as nat)
}

/// The log line of a finished window.
pub open spec fn summary_line(m: TickModel) -> Seq<char> {
    "[tick] last "@ + text::decimal(TICK_LOG_EVERY_N_TICKS as nat) + " ticks: issued="@
        + text::decimal(m.issued) + " skipped="@ + text::decimal(m.skipped) + " skip_ratio="@
        + percent_text(skipped_tenths(m.skipped)) + "% (cumulative issued="@ + text::decimal(
        m.issued_total,
    ) + " skipped="@ + text::decimal(m.skipped_total) + ")"@
}

impl TickStats {
    /// A window is closed as soon as it is full, and the totals hold what the
    /// window holds.
    #[verifier::type_invariant]
    spec fn valid(self) -> bool {
        &&& self.ticks < TICK_LOG_EVERY_N_TICKS
        &&& self.issued + self.skipped == self.ticks
        &&& self.issued <= self.issued_total
        &&& self.skipped <= self.skipped_total
    }

    /// No ticks counted yet.
    pub fn new() -> (stats: Self)
        ensures
            stats@ == no_ticks(),
    {
        TickStats { ticks: 0, issued: 0, skipped: 0, issued_total: 0, skipped_total: 0 }
    }

    /// Counts one tick, which drew or skipped. The tick that fills a window
    /// returns the window's summary, and the next window begins empty.
    pub fn record(&mut self, issued_this_tick: bool) -> (summary: Option<TickSummary>)
        requires
            issued_this_tick ==> old(self)@.issued_total < u64::MAX,
            !issued_this_tick ==> old(self)@.skipped_total < u64::MAX,
        ensures
            final(self)@ == after_record(old(self)@, issued_this_tick),
            summary is Some <==> full(counted(old(self)@, issued_this_tick)),
            summary is Some ==> summary->0@ == counted(old(self)@, issued_this_tick),
    {
        proof {
            use_type_invariant(&*self);
        }
        let mut issued: u64 = self.issued;
        let mut skipped: u64 = self.skipped;
        let mut issued_total: u64 = self.issued_total;
        let mut skipped_total: u64 = self.skipped_total;
        if issued_this_tick {
            issued = issued + 1;
            issued_total = issued_total + 1;
        } else {
            skipped = skipped + 1;
            skipped_total = skipped_total + 1;
        }
        let ticks: u64 = self.ticks + 1;
        if ticks >= TICK_LOG_EVERY_N_TICKS {
            *self = TickStats { ticks: 0, issued: 0, skipped: 0, issued_total, skipped_total };
            Some(TickSummary { issued, skipped, issued_total, skipped_total })
        } else {
            *self = TickStats { ticks, issued, skipped, issued_total, skipped_total };
            None
        }
    }

    /// How many ticks of the run drew.
    pub fn issued_total(&self) -> (total: u64)
        ensures
            total == self@.issued_total,
    {
        self.issued_total
    }

    /// How many ticks of the run skipped.
    pub fn skipped_total(&self) -> (total: u64)
        ensures
            total == self@.skipped_total,
    {
        self.skipped_total
    }
}

impl TickSummary {
    /// A summary is of a full window.
    #[verifier::type_invariant]
    spec fn valid(self) -> bool {
        self.issued + self.skipped == TICK_LOG_EVERY_N_TICKS
    }

    /// The log line of the window.
    pub fn line(&self) -> (line: String)
        ensures
            line@ == summary_line(self@),
    {
        proof {
            use_type_invariant(self);
        }
        let tenths: u64 = (2000 * self.skipped + TICK_LOG_EVERY_N_TICKS) / (2
            * TICK_LOG_EVERY_N_TICKS);
        let mut ratio: String = String::new();
        text::push_decimal(&mut ratio, (tenths / 10) as u128);
        ratio.append(".");
        text::push_decimal(&mut ratio, (tenths % 10) as u128);
        assert(ratio@ =~= percent_text(skipped_tenths(self@.skipped)));

        let mut line: String = "[tick] last ".to_owned();
        text::push_decimal(&mut line, TICK_LOG_EVERY_N_TICKS as u128);
        line.append(" ticks: issued=");
        text::push_decimal(&mut line, self.issued as u128);
        line.append(" skipped=");
        text::push_decimal(&mut line, self.skipped as u128);
        line.append(" skip_ratio=");
        line.append(&ratio);
        line.append("% (cumulative issued=");
        text::push_decimal(&mut line, self.issued_total as u128);
        line.append(" skipped=");
        text::push_decimal(&mut line, self.skipped_total as u128);
        line.append(")");
        line
    }
}

/// After any ticks, the totals are how many of them drew and how many skipped,
/// and the open window holds those since the last full one.
pub proof fn law_counts(outcomes: Seq<bool>)
    ensures
        after_outcomes(outcomes).issued_total == count(outcomes, true),
        after_outcomes(outcomes).skipped_total == count(outcomes, false),
        count(outcomes, true) + count(outcomes, false) == outcomes.len(),
        after_outcomes(outcomes).issued + after_outcomes(outcomes).skipped == outcomes.len()
            % TICK_LOG_EVERY_N_TICKS as nat,
        ({
            let window = outcomes.skip(
                outcomes.len() - outcomes.len() % TICK_LOG_EVERY_N_TICKS as nat,
            );
            &&& after_outcomes(outcomes).issued == count(window, true)
            &&& after_outcomes(outcomes).skipped == count(window, false)
        }),
    decreases outcomes.len(),
{
    let n = outcomes.len();
    let size = TICK_LOG_EVERY_N_TICKS as nat;
    let window = outcomes.skip(n - n % size);
    if n == 0 {
        assert(window =~= Seq::<bool>::empty());
    } else {
        let shorter = outcomes.drop_last();
        law_counts(shorter);
        let m = (n - 1) as nat;
        let open = shorter.skip(m - m % size);
        if n % size == 0 {
            assert(m % size == size - 1);
            assert(window =~= Seq::<bool>::empty());
        } else {
            assert(m % size == n % size - 1);
            assert(window.drop_last() =~= open);
            assert(window.last() == outcomes.last());
        }
    }
}

/// A summary comes with every tick whose number is a multiple of the window
/// size, and with no other.
pub proof fn law_summary_every_window(outcomes: Seq<bool>, issued: bool)
    ensures
        full(counted(after_outcomes(outcomes), issued)) <==> (outcomes.len() + 1)
            % TICK_LOG_EVERY_N_TICKS as nat == 0,
{
    law_counts(outcomes);
}

/// Outcomes that are all alike are counted as that.
proof fn lemma_count_alike(outcomes: Seq<bool>, which: bool)
    requires
        forall|i: int| 0 <= i < outcomes.len() ==> #[trigger] outcomes[i] == which,
    ensures
        count(outcomes, which) == outcomes.len(),
        count(outcomes, !which) == 0,
    decreases outcomes.len(),
{
    if outcomes.len() > 0 {
        let before = outcomes.drop_last();
        assert forall|i: int| 0 <= i < before.len() implies #[trigger] before[i] == which by {
            assert(before[i] == outcomes[i]);
        }
        lemma_count_alike(before, which);
        assert(outcomes[outcomes.len() - 1] == which);
    }
}

/// A window in which every tick had the same outcome shows just that: one that
/// was idle throughout shows no drawn tick, one that was busy throughout no
/// skipped one.
pub proof fn law_uniform_window(outcomes: Seq<bool>, which: bool)
    requires
        outcomes.len() % TICK_LOG_EVERY_N_TICKS as nat == TICK_LOG_EVERY_N_TICKS - 1,
        forall|i: int|
            outcomes.len() - TICK_LOG_EVERY_N_TICKS < i < outcomes.len()
                ==> #[trigger] outcomes[i] == which,
    ensures
        ({
            let window = counted(after_outcomes(outcomes), which);
            &&& full(window)
            &&& window.issued == if which {
                TICK_LOG_EVERY_N_TICKS as nat
            } else {
                0
            }
            &&& window.skipped == if which {
                0
            } else {
                TICK_LOG_EVERY_N_TICKS as nat
            }
        }),
{
    law_counts(outcomes);
    let n = outcomes.len();
    let first = n - n % TICK_LOG_EVERY_N_TICKS as nat;
    let window = outcomes.skip(first);
    assert forall|i: int| 0 <= i < window.len() implies #[trigger] window[i] == which by {
        assert(window[i] == outcomes[first + i]);
    }
    lemma_count_alike(window, which);
}

/// The rounded share is nearer to the exact one than half a tenth of a percent.
pub proof fn law_skip_ratio_is_nearest(skipped: nat)
    ensures
        -(TICK_LOG_EVERY_N_TICKS as int) < 2 * (skipped_tenths(skipped) * TICK_LOG_EVERY_N_TICKS
            - 1000 * skipped) < TICK_LOG_EVERY_N_TICKS,
{
    let size = TICK_LOG_EVERY_N_TICKS as int;
    let tenths = skipped_tenths(skipped) as int;
    let rest = (2000 * skipped + size) % (2 * size);
    lemma_fundamental_div_mod(2000 * skipped + size, 2 * size);
    assert(2 * size * tenths == 2 * (tenths * size)) by (nonlinear_arith);
    // A share half way between two tenths would leave no rest. In windows of 300
    // ticks there is none: the rest is 100, 300 or 500.
    assert(rest == (2000 * skipped + 300) % 600);
    assert(0 < rest < 2 * size);
}

/// The summary of a window tells what happened in it: of its three hundred ticks,
/// how many drew and how many skipped, and the same of all ticks so far.
pub proof fn law_summary_tells_its_window(outcomes: Seq<bool>)
    requires
        outcomes.len() > 0,
        outcomes.len() % 300 == 0,
    ensures
        ({
            let summary = counted(after_outcomes(outcomes.drop_last()), outcomes.last());
            let window = outcomes.skip(outcomes.len() - 300);
            &&& full(summary)
            &&& summary.issued == count(window, true)
            &&& summary.skipped == count(window, false)
            &&& summary.issued + summary.skipped == 300
            &&& summary.issued_total == count(outcomes, true)
            &&& summary.skipped_total == count(outcomes, false)
        }),
{
    let before = outcomes.drop_last();
    let n = before.len();
    law_counts(before);
    assert(n % 300 == 299);
    let open = before.skip(n - n % 300);
    let window = outcomes.skip(outcomes.len() - 300);
    assert(window.drop_last() =~= open);
    assert(window.last() == outcomes.last());
}

/// Of the same ticks, one more that drew counts as drawn and one more that
/// skipped as skipped, for the run as for the window.
pub proof fn law_tick_counts_once(outcomes: Seq<bool>, issued: bool)
    ensures
        count(outcomes.push(issued), issued) == count(outcomes, issued) + 1,
        count(outcomes.push(issued), !issued) == count(outcomes, !issued),
        after_outcomes(outcomes.push(issued)) == after_record(after_outcomes(outcomes), issued),
{
    assert(outcomes.push(issued).drop_last() =~= outcomes);
}

/// The line of a window tells its counts, the share of the skipped ticks in whole
/// percent and tenths, and the totals, each in its place.
pub proof fn law_summary_line_tells_the_counts(m: TickModel)
    ensures
        summary_line(m) == "[tick] last "@ + (text::decimal(300) + (" ticks: issued="@ + (
        text::decimal(m.issued) + (" skipped="@ + (text::decimal(m.skipped) + (" skip_ratio="@ + (
        text::decimal(skipped_tenths(m.skipped) / 10) + ("."@ + (text::decimal(
            skipped_tenths(m.skipped) % 10,
        ) + ("% (cumulative issued="@ + (text::decimal(m.issued_total) + (" skipped="@ + (
        text::decimal(m.skipped_total) + ")"@))))))))))))),
{
    assert(summary_line(m) =~= "[tick] last "@ + (text::decimal(300) + (" ticks: issued="@ + (
    text::decimal(m.issued) + (" skipped="@ + (text::decimal(m.skipped) + (" skip_ratio="@ + (
    text::decimal(skipped_tenths(m.skipped) / 10) + ("."@ + (text::decimal(
        skipped_tenths(m.skipped) % 10,
    ) + ("% (cumulative issued="@ + (text::decimal(m.issued_total) + (" skipped="@ + (
    text::decimal(m.skipped_total) + ")"@))))))))))))));
}

} // verus!

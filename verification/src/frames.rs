//! Frame times of a measured run: collected by phase, put in order, and written
//! out.
//!
//! A frame time is a whole number of nanoseconds. The sums and averages over a
//! phase are floating-point numbers; they come in here as the text that shows
//! them.

use crate::geometry;
use crate::text;
use vstd::multiset::Multiset;
use vstd::prelude::*;

verus! {

/// The phases of a measured run.
#[derive(Clone, Copy, Debug, PartialEq, Eq, Structural)]
pub enum Phase {
    /// Before anything is measured.
    PreMeasurement,
    /// No input.
    Idle,
    /// Text is typed.
    Typing,
    /// The buffer is scrolled.
    Scroll,
}

/// The frame times of each measured phase, in the order of the frames.
#[derive(Debug)]
pub struct FrameStats {
    pub idle: Vec<u64>,
    pub typing: Vec<u64>,
    pub scroll: Vec<u64>,
}

/// The frame times of each measured phase as mathematical values.
pub struct FrameModel {
    pub idle: Seq<u64>,
    pub typing: Seq<u64>,
    pub scroll: Seq<u64>,
}

/// The frame times of one phase in order, and those that are reported.
#[derive(Debug)]
pub struct FrameDigest {
    /// All frame times, from the shortest to the longest.
    pub sorted: Vec<u64>,
    pub min: u64,
    pub max: u64,
    /// The frame time at the middle of the order.
    pub p50: u64,
    /// The frame time that about 95% of the frames do not exceed.
    pub p95: u64,
}

/// The figures of one phase as text.
#[derive(Debug)]
pub struct FrameFigures {
    /// How many frames there were.
    pub n: usize,
    pub wall_seconds: String,
    pub avg_ms: String,
    pub min_ms: String,
    pub max_ms: String,
    pub p50_ms: String,
    pub p95_ms: String,
    pub effective_fps: String,
}

impl View for FrameStats {
    type V = FrameModel;

    open spec fn view(&self) -> FrameModel {
        FrameModel { idle: self.idle@, typing: self.typing@, scroll: self.scroll@ }
    }
}

/// The frame times with one more, which counts for the phase it was drawn in;
/// before the measurement it counts for none.
pub open spec fn with_frame(m: FrameModel, phase: Phase, dt: u64) -> FrameModel {
    match phase {
        Phase::PreMeasurement => m,
        Phase::Idle => FrameModel { idle: m.idle.push(dt), ..m },
        Phase::Typing => FrameModel { typing: m.typing.push(dt), ..m },
        Phase::Scroll => FrameModel { scroll: m.scroll.push(dt), ..m },
    }
}

/// The frame times of one phase; before the measurement there are none.
pub open spec fn of_phase(m: FrameModel, phase: Phase) -> Seq<u64> {
    match phase {
        Phase::PreMeasurement => Seq::empty(),
        Phase::Idle => m.idle,
        Phase::Typing => m.typing,
        Phase::Scroll => m.scroll,
    }
}

/// Whether `s` goes from its smallest number to its largest.
pub open spec fn ascending(s: Seq<u64>) -> bool {
    forall|i: int, j: int| 0 <= i <= j < s.len() ==> s[i] <= s[j]
}

/// Whether `s` holds the numbers of `t`, each as often, in ascending order.
pub open spec fn sorts(s: Seq<u64>, t: Seq<u64>) -> bool {
    ascending(s) && s.to_multiset() == t.to_multiset()
}

/// The position of the 95th percentile among `n` ordered frame times: 0.95
/// times `n` in single precision, cut off to a whole number, but no position
/// past the last. Single precision holds 0.95 as 15938355 / 2^24.
pub open spec fn p95_position(n: nat) -> int
    recommends
        n > 0,
{
    let product = geometry::single(geometry::single(n) * 15938355) / 0x100_0000;
    if product < n {
        product as int
    } else {
        n - 1
    }
}

/// Whether `d` is the digest of these frame times.
pub open spec fn is_digest(d: FrameDigest, dts: Seq<u64>) -> bool {
    let n = dts.len();
    &&& sorts(d.sorted@, dts)
    &&& d.sorted@.len() == n
    &&& d.min == d.sorted@[0]
    &&& d.max == d.sorted@[n - 1]
    &&& d.p50 == d.sorted@[n as int / 2]
    &&& d.p95 == d.sorted@[p95_position(n)]
}

/// Whether the figures `f` are those of `n` frames whose times, in order, are
/// written as `millis`.
pub open spec fn are_picked(f: FrameFigures, n: nat, millis: Seq<String>) -> bool {
    &&& f.n == n
    &&& f.min_ms@ == millis[0]@
    &&& f.p50_ms@ == millis[n as int / 2]@
    &&& f.p95_ms@ == millis[p95_position(n)]@
    &&& f.max_ms@ == millis[n - 1]@
}

/// The report of a phase: its figures, or that it had no frames.
pub open spec fn report_of(figures: Option<FrameFigures>) -> Seq<char> {
    match figures {
        Some(f) => json_of_figures(f),
        None => "{\"n\":0}"@,
    }
}

/// The figures of a phase as JSON.
pub open spec fn json_of_figures(f: FrameFigures) -> Seq<char> {
    "{\"n\":"@ + text::decimal(f.n as nat) + ",\"wall_seconds\":"@ + f.wall_seconds@
        + ",\"avg_ms\":"@ + f.avg_ms@ + ",\"min_ms\":"@ + f.min_ms@ + ",\"max_ms\":"@ + f.max_ms@
        + ",\"p50_ms\":"@ + f.p50_ms@ + ",\"p95_ms\":"@ + f.p95_ms@ + ",\"effective_fps\":"@
        + f.effective_fps@ + "}"@
}

impl FrameStats {
    /// No frames yet.
    pub fn new() -> (stats: Self)
        ensures
            stats@ == (FrameModel { idle: Seq::empty(), typing: Seq::empty(), scroll: Seq::empty() }),
    {
        FrameStats { idle: Vec::new(), typing: Vec::new(), scroll: Vec::new() }
    }

    /// Takes the time of a frame that was drawn in the given phase.
    pub fn push(&mut self, phase: Phase, dt: u64)
        ensures
            final(self)@ == with_frame(old(self)@, phase, dt),
    {
        match phase {
            Phase::PreMeasurement => {},
            Phase::Idle => self.idle.push(dt),
            Phase::Typing => self.typing.push(dt),
            Phase::Scroll => self.scroll.push(dt),
        }
    }
}

/// Merges two ascending sequences into one.
fn merge(a: &Vec<u64>, b: &Vec<u64>) -> (merged: Vec<u64>)
    requires
        ascending(a@),
        ascending(b@),
        a@.len() + b@.len() <= usize::MAX,
    ensures
        ascending(merged@),
        merged@.to_multiset() == a@.to_multiset().add(b@.to_multiset()),
        merged@.len() == a@.len() + b@.len(),
{
    broadcast use vstd::seq_lib::group_to_multiset_ensures;

    let mut merged: Vec<u64> = Vec::new();
    let mut i: usize = 0;
    let mut j: usize = 0;
    proof {
        assert(a@.take(0).to_multiset() =~= Multiset::<u64>::empty());
        assert(b@.take(0).to_multiset() =~= Multiset::<u64>::empty());
        assert(merged@.to_multiset() =~= a@.take(0).to_multiset().add(b@.take(0).to_multiset()));
    }
    while i < a.len() || j < b.len()
        invariant
            i <= a@.len(),
            j <= b@.len(),
            a@.len() + b@.len() <= usize::MAX,
            merged@.len() == i + j,
            ascending(a@),
            ascending(b@),
            ascending(merged@),
            forall|k: int, l: int|
                0 <= k < merged@.len() && i <= l < a@.len() ==> #[trigger] merged@[k] <= #[trigger] a@[l],
            forall|k: int, l: int|
                0 <= k < merged@.len() && j <= l < b@.len() ==> #[trigger] merged@[k] <= #[trigger] b@[l],
            merged@.to_multiset() == a@.take(i as int).to_multiset().add(
                b@.take(j as int).to_multiset(),
            ),
        decreases a@.len() - i + b@.len() - j,
    {
        let ghost before = merged@;
        if j >= b.len() || i < a.len() && a[i] <= b[j] {
            let next: u64 = a[i];
            merged.push(next);
            proof {
                broadcast use vstd::seq_lib::group_to_multiset_ensures;

                assert(merged@ =~= before.push(next));
                assert(a@.take(i + 1) =~= a@.take(i as int).push(next));
                assert(merged@.to_multiset() =~= a@.take(i + 1).to_multiset().add(
                    b@.take(j as int).to_multiset(),
                ));
            }
            i = i + 1;
        } else {
            let next: u64 = b[j];
            merged.push(next);
            proof {
                broadcast use vstd::seq_lib::group_to_multiset_ensures;

                assert(merged@ =~= before.push(next));
                assert(b@.take(j + 1) =~= b@.take(j as int).push(next));
                assert(merged@.to_multiset() =~= a@.take(i as int).to_multiset().add(
                    b@.take(j + 1).to_multiset(),
                ));
            }
            j = j + 1;
        }
    }
    assert(a@.take(i as int) =~= a@);
    assert(b@.take(j as int) =~= b@);
    merged
}

/// The numbers from position `from` up to `to` in ascending order.
fn sort_range(v: &Vec<u64>, from: usize, to: usize) -> (sorted: Vec<u64>)
    requires
        from <= to <= v@.len(),
    ensures
        sorts(sorted@, v@.subrange(from as int, to as int)),
        sorted@.len() == to - from,
    decreases to - from,
{
    broadcast use vstd::seq_lib::group_to_multiset_ensures;

    if to - from <= 1 {
        let mut single: Vec<u64> = Vec::new();
        if from < to {
            single.push(v[from]);
        }
        assert(single@ =~= v@.subrange(from as int, to as int));
        return single;
    }
    let middle: usize = from + (to - from) / 2;
    let low: Vec<u64> = sort_range(v, from, middle);
    let high: Vec<u64> = sort_range(v, middle, to);
    proof {
        let left = v@.subrange(from as int, middle as int);
        let right = v@.subrange(middle as int, to as int);
        assert(v@.subrange(from as int, to as int) =~= left + right);
        vstd::seq_lib::lemma_multiset_commutative(left, right);
    }
    merge(&low, &high)
}

/// The position of the 95th percentile among `n` ordered frame times.
pub fn p95_index(n: usize) -> (position: usize)
    requires
        n > 0,
    ensures
        position == p95_position(n as nat),
{
    let whole: u128 = geometry::round_single(n as u128);
    assert(whole * 15938355 < 0x1_0000_0000_0000_0000_0000_0000);
    let product: u128 = geometry::round_single(whole * 15938355) / 0x100_0000;
    if product < n as u128 {
        product as usize
    } else {
        n - 1
    }
}

/// Puts the frame times of a phase in order and picks those that are reported:
/// `None` when the phase drew no frame.
pub fn digest(dts: &Vec<u64>) -> (digest: Option<FrameDigest>)
    ensures
        digest is None <==> dts@.len() == 0,
        digest is Some ==> {
            let d = digest->0;
            let n = dts@.len();
            &&& sorts(d.sorted@, dts@)
            &&& d.sorted@.len() == n
            &&& d.min == d.sorted@[0]
            &&& d.max == d.sorted@[n - 1]
            &&& d.p50 == d.sorted@[n as int / 2]
            &&& d.p95 == d.sorted@[p95_position(n)]
        },
        digest is Some ==> is_digest(digest->0, dts@),
{
    let n: usize = dts.len();
    if n == 0 {
        return None;
    }
    let sorted: Vec<u64> = sort_range(dts, 0, n);
    assert(dts@.subrange(0, n as int) =~= dts@);
    let min: u64 = sorted[0];
    let max: u64 = sorted[n - 1];
    let p50: u64 = sorted[n / 2];
    let p95: u64 = sorted[p95_index(n)];
    Some(FrameDigest { sorted, min, max, p50, p95 })
}

/// The figures of a phase with frames. `millis` is how each of the ordered frame
/// times is written; the shortest, the middle, the 95th percentile and the longest
/// are picked from it. The other figures are as given.
pub fn phase_figures(
    digest: &FrameDigest,
    millis: &Vec<String>,
    wall_seconds: String,
    avg_ms: String,
    effective_fps: String,
) -> (f: FrameFigures)
    requires
        millis@.len() == digest.sorted@.len(),
        millis@.len() > 0,
    ensures
        ({
            let n = digest.sorted@.len();
            &&& f.n == n
            &&& f.min_ms@ == millis@[0]@
            &&& f.p50_ms@ == millis@[n as int / 2]@
            &&& f.p95_ms@ == millis@[p95_position(n)]@
            &&& f.max_ms@ == millis@[n - 1]@
            &&& f.wall_seconds == wall_seconds
            &&& f.avg_ms == avg_ms
            &&& f.effective_fps == effective_fps
        }),
        are_picked(f, digest.sorted@.len(), millis@),
{
    let n: usize = digest.sorted.len();
    FrameFigures {
        n,
        wall_seconds,
        avg_ms,
        min_ms: millis[0].clone(),
        max_ms: millis[n - 1].clone(),
        p50_ms: millis[n / 2].clone(),
        p95_ms: millis[p95_index(n)].clone(),
        effective_fps,
    }
}

/// The figures of a phase as JSON; a phase without frames has none, and only
/// says so.
pub fn stats_json(figures: Option<&FrameFigures>) -> (json: String)
    ensures
        json@ == match figures {
            Some(f) => json_of_figures(*f),
            None => "{\"n\":0}"@,
        },
        json@ == report_of(
            match figures {
                Some(f) => Some(*f),
                None => None,
            },
        ),
{
    let figures: &FrameFigures = match figures {
        Some(f) => f,
        None => {
            return "{\"n\":0}".to_owned();
        },
    };
    let mut json: String = "{\"n\":".to_owned();
    text::push_decimal(&mut json, figures.n as u128);
    json.append(",\"wall_seconds\":");
    json.append(&figures.wall_seconds);
    json.append(",\"avg_ms\":");
    json.append(&figures.avg_ms);
    json.append(",\"min_ms\":");
    json.append(&figures.min_ms);
    json.append(",\"max_ms\":");
    json.append(&figures.max_ms);
    json.append(",\"p50_ms\":");
    json.append(&figures.p50_ms);
    json.append(",\"p95_ms\":");
    json.append(&figures.p95_ms);
    json.append(",\"effective_fps\":");
    json.append(&figures.effective_fps);
    json.append("}");
    json
}

/// A frame counts for its own phase only: the other phases keep their frames.
pub proof fn law_frame_counts_for_its_phase(m: FrameModel, phase: Phase, other: Phase, dt: u64)
    ensures
        of_phase(with_frame(m, phase, dt), other) == if phase == other && !(phase
            is PreMeasurement) {
            of_phase(m, other).push(dt)
        } else {
            of_phase(m, other)
        },
{
}

/// Single precision takes no more than a sixteenth off a whole number.
proof fn lemma_single_keeps_most(x: nat)
    ensures
        16 * geometry::single(x) >= 15 * x,
{
    geometry::lemma_single_error(x);
}

/// The position of the 95th percentile is a position, and not before the middle.
pub proof fn law_p95_position(n: nat)
    requires
        n > 0,
    ensures
        n / 2 <= p95_position(n) < n,
{
    let a = geometry::single(n);
    lemma_single_keeps_most(n);
    lemma_single_keeps_most(a * 15938355);
    let b = geometry::single(a * 15938355);
    assert(16 * a >= 15 * n);
    assert(16 * b >= 15 * (a * 15938355));
    assert(15 * (a * 15938355) == 239075325 * a);
    assert(256 * b >= 239075325 * (16 * a));
    assert(256 * b >= 3586129875 * n);
    assert(2 * b >= n * 0x100_0000);
    assert(b / 0x100_0000 >= n / 2);
}

/// Up to 2^19 frames rounding does not show: the position of the 95th percentile
/// is 95% of their number, rounded down.
pub proof fn law_p95_is_exact(n: nat)
    requires
        0 < n <= 0x8_0000,
    ensures
        p95_position(n) == n * 95 / 100,
{
    geometry::lemma_single_is_exact(n);
    let product = n * 15938355;
    let t = n * 95 / 100;
    if n * 95 % 100 == 0 {
        lemma_rounds_up(n, t);
    } else {
        geometry::lemma_single_error(product);
        lemma_stays_between(n, product, geometry::single(product));
    }
}

/// Where 95% of the number of frames is not whole, an error of one part in 2^24
/// reaches no whole number.
proof fn lemma_stays_between(n: nat, product: nat, rounded: nat)
    requires
        0 < n <= 0x8_0000,
        n * 95 % 100 != 0,
        product == n * 15938355,
        0x100_0000 * rounded <= 0x100_0001 * product,
        0xff_ffff * product <= 0x100_0000 * rounded,
    ensures
        rounded / 0x100_0000 == n * 95 / 100,
{
    let t = n * 95 / 100;
    let rest = n * 95 % 100;
    assert(100 * product == 0x100_0000 * (100 * t + rest) - 20 * n);
    assert(5 <= rest <= 95) by {
        assert(n * 95 % 5 == 0);
    }
    assert(product < 0x100_0000 * n);
    assert(product - n <= rounded <= product + n);
    assert(0x100_0000 * t <= rounded < 0x100_0000 * (t + 1));
}

/// Where 95% of the number of frames is whole, rounding closes the gap that the
/// single-precision 0.95 leaves below it.
proof fn lemma_rounds_up(n: nat, t: nat)
    requires
        0 < n <= 0x8_0000,
        n * 95 == 100 * t,
    ensures
        geometry::single(n * 15938355) == t * 0x100_0000,
{
    let product = n * 15938355;
    let whole = t * 0x100_0000;
    let gap = (whole - product) as nat;
    assert(5 * gap == n);
    let u = geometry::unit(product);
    geometry::lemma_unit(product, 0x800_0000_0000);
    reveal_with_fuel(geometry::unit, 21);
    assert(geometry::unit(0x800_0000_0000) == 0x10_0000);
    let k = 0x10_0000nat / u;
    assert(0x10_0000 == k * u) by (nonlinear_arith)
        requires
            0x10_0000nat % u == 0,
            k == 0x10_0000nat / u,
            u >= 1,
    ;
    assert(product < u * 0x100_0000);
    assert(2 * gap < u);
    let multiple = 16 * k * t;
    assert(whole == multiple * u) by (nonlinear_arith)
        requires
            0x10_0000 == k * u,
            whole == t * 0x100_0000,
            multiple == 16 * k * t,
    ;
    if gap > 0 {
        let below = (multiple - 1) as int;
        assert(multiple >= 1) by (nonlinear_arith)
            requires
                whole == multiple * u,
                whole > 0,
                u >= 1,
        ;
        assert(product == below * u + (u - gap)) by (nonlinear_arith)
            requires
                whole == multiple * u,
                below == multiple - 1,
                product == whole - gap,
        ;
        vstd::arithmetic::div_mod::lemma_fundamental_div_mod_converse(
            product as int,
            u as int,
            below,
            u - gap,
        );
        assert((below + 1) * u == whole) by (nonlinear_arith)
            requires
                whole == multiple * u,
                below == multiple - 1,
        ;
    }
}

/// The reported frame times are in order: the shortest is no longer than the
/// middle one, that is no longer than the 95th percentile, and that no longer
/// than the longest.
pub proof fn law_percentiles_in_order(sorted: Seq<u64>)
    requires
        ascending(sorted),
        sorted.len() > 0,
    ensures
        ({
            let n = sorted.len();
            sorted[0] <= sorted[n as int / 2] <= sorted[p95_position(n)] <= sorted[n - 1]
        }),
{
    law_p95_position(sorted.len());
}

/// A frame counts for the phase that it was drawn in: its time comes last in the
/// list of that phase, and the lists of the others stay as they were.
pub proof fn law_each_phase_has_its_list(m: FrameModel, dt: u64)
    ensures
        with_frame(m, Phase::PreMeasurement, dt) == m,
        ({
            let after = with_frame(m, Phase::Idle, dt);
            after.idle == m.idle.push(dt) && after.typing == m.typing && after.scroll == m.scroll
        }),
        ({
            let after = with_frame(m, Phase::Typing, dt);
            after.idle == m.idle && after.typing == m.typing.push(dt) && after.scroll == m.scroll
        }),
        ({
            let after = with_frame(m, Phase::Scroll, dt);
            after.idle == m.idle && after.typing == m.typing && after.scroll == m.scroll.push(dt)
        }),
{
}

/// A digest loses no frame and makes none up, and its order is the order of the
/// numbers.
pub proof fn law_digest_orders_all_frames(d: FrameDigest, dts: Seq<u64>, i: int, j: int)
    requires
        is_digest(d, dts),
    ensures
        d.sorted@.to_multiset() == dts.to_multiset(),
        0 <= i <= j < dts.len() ==> d.sorted@[i] <= d.sorted@[j],
        d.sorted@.len() == dts.len(),
{
}

/// The shortest and the longest time of a digest are times of frames, and no frame
/// took less or more.
pub proof fn law_digest_spans_the_frames(d: FrameDigest, dts: Seq<u64>, i: int)
    requires
        is_digest(d, dts),
        0 <= i < dts.len(),
    ensures
        d.min <= dts[i] <= d.max,
        dts.contains(d.min),
        dts.contains(d.max),
        dts.contains(d.p50),
        dts.contains(d.p95),
{
    broadcast use vstd::seq_lib::group_to_multiset_ensures;

    let n = dts.len();
    law_p95_position(n);
    assert(dts.to_multiset().count(dts[i]) > 0);
    assert(d.sorted@.contains(dts[i]));
    let k = choose|k: int| 0 <= k < n && d.sorted@[k] == dts[i];
    assert(d.sorted@[0] <= d.sorted@[k] <= d.sorted@[n - 1]);
    assert(d.sorted@.contains(d.sorted@[0]));
    assert(d.sorted@.contains(d.sorted@[n - 1]));
    assert(d.sorted@.contains(d.sorted@[n as int / 2]));
    assert(d.sorted@.contains(d.sorted@[p95_position(n)]));
    assert(d.sorted@.to_multiset().count(d.min) > 0);
    assert(d.sorted@.to_multiset().count(d.max) > 0);
    assert(d.sorted@.to_multiset().count(d.p50) > 0);
    assert(d.sorted@.to_multiset().count(d.p95) > 0);
}

/// The middle of the order is behind half of the frames, and the 95th percentile
/// behind 95 of each hundred.
pub proof fn law_percentiles_have_their_places(d: FrameDigest, dts: Seq<u64>)
    requires
        is_digest(d, dts),
        0 < dts.len() <= 0x8_0000,
    ensures
        d.p50 == d.sorted@[dts.len() as int / 2],
        d.p95 == d.sorted@[dts.len() as int * 95 / 100],
        d.min == d.sorted@[0],
        d.max == d.sorted@[dts.len() - 1],
{
    law_p95_is_exact(dts.len());
}

/// Beyond that the 95th percentile stays within a hundredth of its place.
pub proof fn law_p95_is_close(n: nat)
    requires
        n > 0,
    ensures
        94 * n - 100 <= 100 * p95_position(n) <= 96 * n,
{
    let a = geometry::single(n);
    let b = geometry::single(a * 15938355);
    geometry::lemma_single_error(n);
    geometry::lemma_single_error(a * 15938355);
    assert(0x100_0000 * a <= 0x100_0001 * n && 0xff_ffff * n <= 0x100_0000 * a);
    assert(1000 * a <= 1001 * n && 999 * n <= 1000 * a);
    assert(1000 * b <= 1001 * (a * 15938355) && 999 * (a * 15938355) <= 1000 * b);
    assert(a * 15938355 <= 15954294 * n && 15922416 * n <= a * 15938355 + n);
    assert(b <= 15970249 * n && 15906493 * n <= b + 2 * n);
    let product = b / 0x100_0000;
    assert(0x100_0000 * product <= b < 0x100_0000 * product + 0x100_0000);
}

/// The figures of a phase are the writing of its digest: where every ordered time
/// is written in one and the same way, the shortest, the middle, the 95th
/// percentile and the longest are that writing of those of the digest, and the
/// number of frames is the number of times.
pub proof fn law_figures_write_the_digest(
    f: FrameFigures,
    d: FrameDigest,
    dts: Seq<u64>,
    millis: Seq<String>,
    written: spec_fn(u64) -> Seq<char>,
)
    requires
        is_digest(d, dts),
        dts.len() > 0,
        are_picked(f, d.sorted@.len(), millis),
        forall|i: int|
            0 <= i < d.sorted@.len() ==> (#[trigger] millis[i])@ == written(d.sorted@[i]),
    ensures
        f.n == dts.len(),
        f.min_ms@ == written(d.min),
        f.p50_ms@ == written(d.p50),
        f.p95_ms@ == written(d.p95),
        f.max_ms@ == written(d.max),
{
    law_p95_position(dts.len());
}

/// What is written ahead of the number of frames.
spec fn ahead_of_n() -> Seq<char> {
    "{\"n\":"@
}

/// What follows the number of frames.
spec fn behind_n(f: FrameFigures) -> Seq<char> {
    ",\"wall_seconds\":"@ + (f.wall_seconds@ + (",\"avg_ms\":"@ + (f.avg_ms@ + (",\"min_ms\":"@ + (
    f.min_ms@ + (",\"max_ms\":"@ + (f.max_ms@ + (",\"p50_ms\":"@ + (f.p50_ms@ + (
    ",\"p95_ms\":"@ + (f.p95_ms@ + (",\"effective_fps\":"@ + (f.effective_fps@ + "}"@))))))))))))
    )
}

/// The figures as JSON, taken apart around the number of frames.
proof fn lemma_json_parts(f: FrameFigures)
    ensures
        json_of_figures(f) == ahead_of_n() + text::decimal(f.n as nat) + behind_n(f),
        behind_n(f).len() > 0 && behind_n(f)[0] == ',',
        ahead_of_n().len() == 5,
{
    reveal_strlit("{\"n\":");
    reveal_strlit(",\"wall_seconds\":");
    assert(json_of_figures(f) =~= ahead_of_n() + text::decimal(f.n as nat) + behind_n(f));
}

/// The report of a phase tells its number of frames: what stands between the key
/// `n` and the first comma reads as that number.
pub proof fn law_report_tells_the_number_of_frames(f: FrameFigures, comma: int)
    requires
        5 <= comma < json_of_figures(f).len(),
        json_of_figures(f)[comma] == ',',
        forall|i: int| 5 <= i < comma ==> #[trigger] json_of_figures(f)[i] != ',',
    ensures
        json_of_figures(f).take(5) == "{\"n\":"@,
        text::is_numeral(json_of_figures(f).subrange(5, comma)),
        text::numeral_value(json_of_figures(f).subrange(5, comma)) == f.n,
{
    let json = json_of_figures(f);
    let numeral = text::decimal(f.n as nat);
    lemma_json_parts(f);
    text::lemma_decimal_reads_back(f.n as nat);
    let end = 5 + numeral.len() as int;
    assert(json[end] == behind_n(f)[0]);
    if comma < end {
        assert(json[comma] == numeral[comma - 5]);
        assert(text::is_digit(numeral[comma - 5]));
    }
    assert(comma == end);
    assert(json.take(5) =~= "{\"n\":"@);
    assert(json.subrange(5, comma) =~= numeral);
}

/// There is such a comma, so the number can be read.
pub proof fn law_report_has_its_first_comma(f: FrameFigures) -> (comma: int)
    ensures
        5 < comma < json_of_figures(f).len(),
        json_of_figures(f)[comma] == ',',
        forall|i: int| 5 <= i < comma ==> #[trigger] json_of_figures(f)[i] != ',',
{
    let json = json_of_figures(f);
    let numeral = text::decimal(f.n as nat);
    lemma_json_parts(f);
    text::lemma_decimal_reads_back(f.n as nat);
    let end = 5 + numeral.len() as int;
    assert(json[end] == behind_n(f)[0]);
    assert forall|i: int| 5 <= i < end implies #[trigger] json[i] != ',' by {
        assert(json[i] == numeral[i - 5]);
        assert(text::is_digit(numeral[i - 5]));
    }
    end
}

/// Reports of phases with different numbers of frames differ.
pub proof fn law_reports_differ_in_the_number_of_frames(f: FrameFigures, g: FrameFigures)
    requires
        json_of_figures(f) == json_of_figures(g),
    ensures
        f.n == g.n,
{
    let comma = law_report_has_its_first_comma(f);
    law_report_tells_the_number_of_frames(f, comma);
    law_report_tells_the_number_of_frames(g, comma);
}

/// After the number of frames the report holds the other figures, each behind its
/// own key and just as it is written, and nothing more. A phase without frames
/// reports that alone.
pub proof fn law_report_holds_every_figure(f: FrameFigures)
    ensures
        report_of(Some(f)) == "{\"n\":"@ + (text::decimal(f.n as nat) + (",\"wall_seconds\":"@ + (
        f.wall_seconds@ + (",\"avg_ms\":"@ + (f.avg_ms@ + (",\"min_ms\":"@ + (f.min_ms@ + (
        ",\"max_ms\":"@ + (f.max_ms@ + (",\"p50_ms\":"@ + (f.p50_ms@ + (",\"p95_ms\":"@ + (
        f.p95_ms@ + (",\"effective_fps\":"@ + (f.effective_fps@ + "}"@))))))))))))))),
        report_of(None) == "{\"n\":0}"@,
{
    lemma_json_parts(f);
    assert(ahead_of_n() + text::decimal(f.n as nat) + behind_n(f) =~= "{\"n\":"@ + (text::decimal(
        f.n as nat,
    ) + behind_n(f)));
}

} // verus!

//! Pixel geometry of the editor pane: the region of the framebuffer that the
//! editor may paint.
//!
//! Coordinates are handed to the renderer as single-precision numbers. All of
//! them are whole, so they are held as integers here; a whole number of more
//! than 24 significant bits is rounded as single precision rounds it.

use vstd::arithmetic::power2::{
    lemma2_to64, lemma_pow2_adds, lemma_pow2_pos, lemma_pow2_strictly_increases, lemma_pow2_unfold,
    pow2,
};
use vstd::prelude::*;

verus! {

/// The width of the border around the content region, in device pixels.
pub const CONTENT_MARGIN: i64 = 40;

/// Both sides of a framebuffer must be larger than this for the border to be
/// left free: the two margins and 20 pixels more.
pub const SMALLEST_WITH_MARGIN: i64 = 100;

/// A rectangle of whole device pixels.
#[derive(Clone, Copy, Debug, PartialEq, Eq, Structural)]
pub struct PixelRect {
    pub min_x: i64,
    pub min_y: i64,
    pub max_x: i64,
    pub max_y: i64,
}

/// How far apart the single-precision numbers around `x` are, where they are
/// whole: the smallest power of two that leaves `x` at most 24 bits.
pub open spec fn unit(x: nat) -> nat
    decreases x,
{
    if x < 0x100_0000 {
        1
    } else {
        2 * unit(x / 2)
    }
}

/// The multiple of `u` that is nearest to `x`; between two that are equally near
/// the even multiple.
pub open spec fn nearest_multiple(x: nat, u: nat) -> nat
    recommends
        u > 0,
{
    let below = x / u;
    let rest = x % u;
    if 2 * rest < u || 2 * rest == u && below % 2 == 0 {
        below * u
    } else {
        (below + 1) * u
    }
}

/// The single-precision number that the whole number `x` converts to.
pub open spec fn single(x: nat) -> nat {
    nearest_multiple(x, unit(x))
}

/// The single-precision number that the integer `i` converts to.
pub open spec fn single_signed(i: int) -> int {
    if i < 0 {
        -single((-i) as nat)
    } else {
        single(i as nat) as int
    }
}

/// `i`, or the nearest `i32` where it does not fit one.
pub open spec fn clamp_i32(i: int) -> int {
    if i < i32::MIN {
        i32::MIN as int
    } else if i > i32::MAX {
        i32::MAX as int
    } else {
        i
    }
}

/// The larger of two integers.
pub open spec fn larger(a: int, b: int) -> int {
    if a >= b {
        a
    } else {
        b
    }
}

/// The region that the editor may paint in a framebuffer of the given size: all
/// but a margin on every side, or all of it where it is too small for one, but
/// at least one pixel each way.
pub open spec fn content_region(fb_width: int, fb_height: int) -> PixelRect {
    let w = single_signed(fb_width);
    let h = single_signed(fb_height);
    if w > SMALLEST_WITH_MARGIN && h > SMALLEST_WITH_MARGIN {
        PixelRect {
            min_x: CONTENT_MARGIN,
            min_y: CONTENT_MARGIN,
            max_x: single_signed(w - CONTENT_MARGIN) as i64,
            max_y: single_signed(h - CONTENT_MARGIN) as i64,
        }
    } else {
        PixelRect { min_x: 0, min_y: 0, max_x: larger(w, 1) as i64, max_y: larger(h, 1) as i64 }
    }
}

/// Rounds a whole number to single precision.
pub fn round_single(x: u128) -> (s: u128)
    requires
        x < 0x1_0000_0000_0000_0000_0000_0000,
    ensures
        s == single(x as nat),
        s <= 2 * x,
{
    let mut u: u128 = 1;
    let mut rest: u128 = x;
    while rest >= 0x100_0000
        invariant
            u >= 1,
            u * rest <= x,
            x < 0x1_0000_0000_0000_0000_0000_0000,
            unit(x as nat) == u * unit(rest as nat),
        decreases rest,
    {
        let half: u128 = rest / 2;
        proof {
            let v = unit(half as nat);
            assert(unit(rest as nat) == 2 * v);
            assert(u * (2 * v) == (u * 2) * v) by (nonlinear_arith);
            assert((u * 2) * half <= u * rest) by (nonlinear_arith)
                requires
                    half * 2 <= rest,
                    u >= 1,
            ;
            assert(u * 2 <= u * rest) by (nonlinear_arith)
                requires
                    rest >= 2,
                    u >= 1,
            ;
        }
        u = u * 2;
        rest = half;
    }
    proof {
        assert(u * 1 == u);
        lemma_unit(x as nat, x as nat);
        lemma_nearest_bound(x as nat, u as nat);
    }
    let below: u128 = x / u;
    let left: u128 = x % u;
    proof {
        assert(below * u <= x && u <= 2 * x + 1 && below <= x) by (nonlinear_arith)
            requires
                below == x / u,
                u >= 1,
                u == 1 || u * 0x80_0000 <= x,
        ;
        assert((below + 1) * u == below * u + u) by (nonlinear_arith);
    }
    if 2 * left < u || 2 * left == u && below % 2 == 0 {
        below * u
    } else {
        (below + 1) * u
    }
}

/// Rounding never doubles a number.
proof fn lemma_nearest_bound(x: nat, u: nat)
    requires
        u == 1 || u > 1 && u * 0x80_0000 <= x,
    ensures
        nearest_multiple(x, u) <= 2 * x,
{
    let below = x / u;
    assert(below * u <= x && (below + 1) * u == below * u + u) by (nonlinear_arith)
        requires
            u >= 1,
            below == x / u,
    ;
    if u == 1 {
        assert(x % 1 == 0);
    } else {
        assert(u <= x) by (nonlinear_arith)
            requires
                u >= 1,
                u * 0x80_0000 <= x,
        ;
    }
}

/// Rounds an integer to single precision.
fn round_signed(i: i64) -> (s: i64)
    requires
        -0x1_0000_0000 <= i <= 0x1_0000_0000,
    ensures
        s == single_signed(i as int),
        -0x2_0000_0000 <= s <= 0x2_0000_0000,
{
    if i < 0 {
        -(round_single((-i) as u128) as i64)
    } else {
        round_single(i as u128) as i64
    }
}

/// The region of a framebuffer of the given size, in device pixels, that the
/// editor may paint.
pub fn compute_content_region(fb_width: i32, fb_height: i32) -> (region: PixelRect)
    ensures
        region == content_region(fb_width as int, fb_height as int),
        region.measurable(),
{
    let w: i64 = round_signed(fb_width as i64);
    let h: i64 = round_signed(fb_height as i64);
    proof {
        if fb_width >= 0 {
            lemma_single_is_held(fb_width as nat);
        }
        if fb_height >= 0 {
            lemma_single_is_held(fb_height as nat);
        }
        law_region_lies_in_framebuffer(fb_width, fb_height);
    }
    if w > SMALLEST_WITH_MARGIN && h > SMALLEST_WITH_MARGIN {
        PixelRect {
            min_x: CONTENT_MARGIN,
            min_y: CONTENT_MARGIN,
            max_x: round_signed(w - CONTENT_MARGIN),
            max_y: round_signed(h - CONTENT_MARGIN),
        }
    } else {
        PixelRect {
            min_x: 0,
            min_y: 0,
            max_x: if w >= 1 {
                w
            } else {
                1
            },
            max_y: if h >= 1 {
                h
            } else {
                1
            },
        }
    }
}

/// The distance between two coordinates as a log line tells it: rounded to
/// single precision, and cut off at the limits of `i32`.
pub open spec fn extent(min: int, max: int) -> int {
    clamp_i32(single_signed(max - min))
}

/// The whole-pixel distance from `min` to `max` for a log line.
fn measure(min: i64, max: i64) -> (pixels: i32)
    requires
        -0x1_0000_0000 <= max - min <= 0x1_0000_0000,
    ensures
        pixels == extent(min as int, max as int),
{
    let distance: i64 = round_signed(max - min);
    if distance < -0x8000_0000 {
        i32::MIN
    } else if distance > 0x7fff_ffff {
        i32::MAX
    } else {
        distance as i32
    }
}

impl PixelRect {
    /// Whether the coordinates are small enough for the sides to be measured.
    pub open spec fn measurable(self) -> bool {
        &&& -0x8000_0000 <= self.min_x <= 0x8000_0000
        &&& -0x8000_0000 <= self.min_y <= 0x8000_0000
        &&& -0x8000_0000 <= self.max_x <= 0x8000_0000
        &&& -0x8000_0000 <= self.max_y <= 0x8000_0000
    }

    /// The width of the rectangle for a log line.
    pub fn width(&self) -> (pixels: i32)
        requires
            self.measurable(),
        ensures
            pixels == extent(self.min_x as int, self.max_x as int),
    {
        measure(self.min_x, self.max_x)
    }

    /// The height of the rectangle for a log line.
    pub fn height(&self) -> (pixels: i32)
        requires
            self.measurable(),
        ensures
            pixels == extent(self.min_y as int, self.max_y as int),
    {
        measure(self.min_y, self.max_y)
    }

    /// Where the rectangle begins on the left, for a log line.
    pub fn left(&self) -> (pixels: i32)
        requires
            self.measurable(),
        ensures
            pixels == extent(0, self.min_x as int),
    {
        measure(0, self.min_x)
    }

    /// Where the rectangle begins at the top, for a log line.
    pub fn top(&self) -> (pixels: i32)
        requires
            self.measurable(),
        ensures
            pixels == extent(0, self.min_y as int),
    {
        measure(0, self.min_y)
    }
}

/// A power of two divides every power of two that is not smaller, and numbers
/// that are farther up are not closer together.
pub proof fn lemma_unit(x: nat, y: nat)
    requires
        x <= y,
    ensures
        unit(x) >= 1,
        unit(x) == 1 || unit(x) * 0x80_0000 <= x < unit(x) * 0x100_0000,
        unit(y) % unit(x) == 0,
    decreases y,
{
    if x >= 0x100_0000 {
        lemma_unit(x / 2, y / 2);
        let a = unit(x / 2) as int;
        let b = unit(y / 2) as int;
        let k = b / a;
        assert(2 * b == k * (2 * a)) by (nonlinear_arith)
            requires
                b % a == 0,
                a >= 1,
                k == b / a,
        ;
        vstd::arithmetic::div_mod::lemma_mod_multiples_basic(k, 2 * a);
    }
}

/// Rounding moves a number by at most half a unit, up to no multiple beyond one
/// that the number has not passed.
proof fn lemma_nearest(x: nat, u: nat, top: nat)
    requires
        u > 0,
        x <= top,
        top % u == 0,
    ensures
        nearest_multiple(x, u) <= top,
        2 * nearest_multiple(x, u) <= 2 * x + u,
        2 * x <= 2 * nearest_multiple(x, u) + u,
        nearest_multiple(x, u) % u == 0,
{
    let below = x / u;
    let rest = x % u;
    let t = top / u;
    assert(x == below * u + rest && 0 <= rest < u && top == t * u) by (nonlinear_arith)
        requires
            u > 0,
            below == x / u,
            rest == x % u,
            t == top / u,
            top % u == 0,
    ;
    assert((below + 1) * u == below * u + u) by (nonlinear_arith);
    if rest > 0 {
        assert(below < t) by (nonlinear_arith)
            requires
                below * u + rest <= t * u,
                rest > 0,
                u > 0,
        ;
        assert((below + 1) * u <= t * u) by (nonlinear_arith)
            requires
                below + 1 <= t,
                u > 0,
        ;
    }
    assert((below * u) % u == 0 && ((below + 1) * u) % u == 0) by (nonlinear_arith)
        requires
            u > 0,
    ;
}

/// Up to 24 bits a whole number is its own single-precision number.
pub proof fn lemma_single_is_exact(x: nat)
    requires
        x <= 0x100_0000,
    ensures
        single(x) == x,
{
    if x < 0x100_0000 {
        assert(x / 1 == x && x % 1 == 0);
        assert(unit(x) == 1);
    } else {
        assert(unit(0x80_0000) == 1);
        assert(unit(x) == 2);
        assert(x / 2 == 0x80_0000 && x % 2 == 0);
    }
}

/// Rounding to single precision moves a number by no more than one part in 2^24.
pub proof fn lemma_single_error(x: nat)
    ensures
        0x100_0000 * single(x) <= 0x100_0001 * x,
        0xff_ffff * x <= 0x100_0000 * single(x),
{
    lemma_unit(x, x);
    let u = unit(x);
    if u == 1 {
        assert(x / 1 == x && x % 1 == 0);
    } else {
        let top = (x / u + 1) * u;
        assert(top >= x && top % u == 0) by (nonlinear_arith)
            requires
                top == (x / u + 1) * u,
                u > 0,
        ;
        lemma_nearest(x, u, top);
    }
}

/// The size of a framebuffer as the renderer sees it, and with a margin taken
/// off, keeps the order of the two.
proof fn lemma_margin(w: nat)
    requires
        w > SMALLEST_WITH_MARGIN,
        w <= 0x8000_0000,
        w % unit(w) == 0,
    ensures
        single((w - CONTENT_MARGIN) as nat) <= w,
        single((w - CONTENT_MARGIN) as nat) > CONTENT_MARGIN,
{
    let x = (w - CONTENT_MARGIN) as nat;
    lemma_unit(x, w);
    lemma_unit(w, w);
    let u = unit(x);
    assert(w % u == 0) by (nonlinear_arith)
        requires
            u > 0,
            unit(w) % u == 0,
            unit(w) > 0,
            w % unit(w) == 0,
    {
        let v = unit(w);
        let a = v / u;
        let b = w / v;
        assert(v == a * u);
        assert(w == b * v);
        assert(w == (b * a) * u);
        assert(((b * a) * u) % u == 0);
    }
    lemma_nearest(x, u, w);
}

/// Rounding gives a number that single precision holds.
proof fn lemma_single_is_held(x: nat)
    requires
        x <= 0x8000_0000,
    ensures
        single(x) % unit(single(x)) == 0,
        single(x) <= 0x8000_0000,
{
    lemma_unit(x, x);
    lemma_unit(x, 0x8000_0000);
    let u = unit(x);
    let s = single(x);
    assert(unit(0x80_0000) == 1);
    reveal_with_fuel(unit, 10);
    assert(unit(0x8000_0000) == 256);
    assert(0x8000_0000nat % u == 0) by {
        let a = 256nat / u;
        assert(256 == a * u) by (nonlinear_arith)
            requires
                256nat % u == 0,
                a == 256nat / u,
                u > 0,
        ;
        assert((a * 0x80_0000 * u) % u == 0) by (nonlinear_arith)
            requires
                u > 0,
        ;
        assert(a * 0x80_0000 * u == 0x8000_0000) by (nonlinear_arith)
            requires
                256 == a * u,
        ;
    }
    lemma_nearest(x, u, 0x8000_0000);
    if x < 0x100_0000 {
        lemma_single_is_exact(x);
    } else {
        lemma_double_unit(x, s);
    }
}

/// A multiple of the unit around `x` that is not far above it is held.
proof fn lemma_double_unit(x: nat, s: nat)
    requires
        x >= 0x100_0000,
        s % unit(x) == 0,
        2 * s <= 2 * x + unit(x),
        2 * x <= 2 * s + unit(x),
    ensures
        s % unit(s) == 0,
{
    lemma_unit(x, x);
    let u = unit(x);
    let q = s / u;
    assert(s == q * u) by (nonlinear_arith)
        requires
            s % u == 0,
            q == s / u,
            u > 0,
    ;
    assert(q <= 0x100_0000) by (nonlinear_arith)
        requires
            s == q * u,
            2 * s <= 2 * x + u,
            x < u * 0x100_0000,
            u > 0,
    ;
    assert(q >= 0x80_0000) by (nonlinear_arith)
        requires
            s == q * u,
            2 * x <= 2 * s + u,
            u * 0x80_0000 <= x,
            u > 0,
    ;
    lemma_unit_of_scaled(q, x);
    if q < 0x100_0000 {
        assert((q * u) % u == 0) by (nonlinear_arith)
            requires
                u > 0,
        ;
    } else {
        assert((0x80_0000 * (2 * u)) % (2 * u) == 0) by (nonlinear_arith)
            requires
                u > 0,
        ;
        assert(q * u == 0x80_0000 * (2 * u)) by (nonlinear_arith)
            requires
                q == 0x100_0000,
        ;
    }
}

/// The unit around a 24-bit number that is scaled by the unit around `x`.
proof fn lemma_unit_of_scaled(q: nat, x: nat)
    requires
        0x80_0000 <= q <= 0x100_0000,
    ensures
        q < 0x100_0000 ==> unit(q * unit(x)) == unit(x),
        q == 0x100_0000 ==> unit(q * unit(x)) == 2 * unit(x),
    decreases x,
{
    let u = unit(x);
    if x < 0x100_0000 {
        assert(u == 1 && q * 1 == q);
        assert(unit(0x80_0000) == 1);
        assert(0x100_0000nat / 2 == 0x80_0000);
    } else {
        let v = unit(x / 2);
        lemma_unit_of_scaled(q, x / 2);
        lemma_unit(x / 2, x / 2);
        assert(q * u == 2 * (q * v)) by (nonlinear_arith)
            requires
                u == 2 * v,
        ;
        assert(q * v >= 0x80_0000) by (nonlinear_arith)
            requires
                q >= 0x80_0000,
                v >= 1,
        ;
        assert((2 * (q * v)) / 2 == q * v);
    }
}

/// The content region is never empty, starts inside the framebuffer and does not
/// reach beyond it, where the framebuffer has a pixel at all.
pub proof fn law_region_lies_in_framebuffer(fb_width: i32, fb_height: i32)
    ensures
        ({
            let r = content_region(fb_width as int, fb_height as int);
            &&& 0 <= r.min_x < r.max_x <= larger(single_signed(fb_width as int), 1)
            &&& 0 <= r.min_y < r.max_y <= larger(single_signed(fb_height as int), 1)
        }),
{
    let w = single_signed(fb_width as int);
    let h = single_signed(fb_height as int);
    if fb_width >= 0 {
        lemma_single_is_held(fb_width as nat);
    }
    if fb_height >= 0 {
        lemma_single_is_held(fb_height as nat);
    }
    if w > SMALLEST_WITH_MARGIN && h > SMALLEST_WITH_MARGIN {
        lemma_margin(w as nat);
        lemma_margin(h as nat);
    }
}

/// In a framebuffer of at most 2^24 pixels each way, whose sides are larger than
/// the two margins and 20 pixels, the region leaves a margin of exactly
/// `CONTENT_MARGIN` pixels on every side.
pub proof fn law_region_leaves_margin(fb_width: i32, fb_height: i32)
    requires
        SMALLEST_WITH_MARGIN < fb_width <= 0x100_0000,
        SMALLEST_WITH_MARGIN < fb_height <= 0x100_0000,
    ensures
        content_region(fb_width as int, fb_height as int) == (PixelRect {
            min_x: CONTENT_MARGIN,
            min_y: CONTENT_MARGIN,
            max_x: (fb_width - CONTENT_MARGIN) as i64,
            max_y: (fb_height - CONTENT_MARGIN) as i64,
        }),
{
    lemma_single_is_exact(fb_width as nat);
    lemma_single_is_exact(fb_height as nat);
    lemma_single_is_exact((fb_width - CONTENT_MARGIN) as nat);
    lemma_single_is_exact((fb_height - CONTENT_MARGIN) as nat);
}

/// How far apart two numbers are.
pub open spec fn distance(a: nat, b: nat) -> nat {
    if a >= b {
        (a - b) as nat
    } else {
        (b - a) as nat
    }
}

/// The unit around a number is a power of two.
proof fn lemma_unit_is_a_power(x: nat) -> (j: nat)
    ensures
        unit(x) == pow2(j),
        x < 0x100_0000 ==> j == 0,
        x >= 0x100_0000 ==> j > 0,
    decreases x,
{
    lemma2_to64();
    if x < 0x100_0000 {
        0
    } else {
        let i = lemma_unit_is_a_power(x / 2);
        lemma_pow2_unfold(i + 1);
        i + 1
    }
}

/// No multiple of `u` is nearer to `x` than the nearest one, and where another is
/// as near the nearest one is even.
proof fn lemma_no_multiple_is_nearer(x: nat, u: nat, a: nat)
    requires
        u > 0,
    ensures
        distance(x, nearest_multiple(x, u)) <= distance(x, a * u),
        a * u != nearest_multiple(x, u) && distance(x, nearest_multiple(x, u)) == distance(x, a * u)
            ==> distance(a * u, nearest_multiple(x, u)) == u && nearest_multiple(x, u) % (2 * u)
            == 0,
{
    let below = x / u;
    let rest = x % u;
    assert(x == below * u + rest && rest < u) by (nonlinear_arith)
        requires
            u > 0,
            below == x / u,
            rest == x % u,
    ;
    assert((below + 1) * u == below * u + u) by (nonlinear_arith);
    if a < below {
        assert((a + 1) * u <= below * u) by (nonlinear_arith)
            requires
                a + 1 <= below,
        ;
        assert((a + 1) * u == a * u + u) by (nonlinear_arith);
    } else if a > below + 1 {
        assert((below + 2) * u <= a * u) by (nonlinear_arith)
            requires
                below + 2 <= a,
        ;
        assert((below + 2) * u == below * u + 2 * u) by (nonlinear_arith);
    }
    let even = if below % 2 == 0 {
        below
    } else {
        below + 1
    };
    let half = even / 2;
    assert(even * u == half * (2 * u)) by (nonlinear_arith)
        requires
            even == 2 * half,
    ;
    vstd::arithmetic::div_mod::lemma_mod_multiples_basic(half as int, 2 * u as int);
}

/// A number that single precision holds is a multiple of the unit around `x`, or
/// less than every number with that unit.
proof fn lemma_held_or_below(x: nat, k: nat, e: nat) -> (a: nat)
    requires
        x >= 0x100_0000,
        k < 0x100_0000,
    ensures
        k * pow2(e) == a * unit(x) || k * pow2(e) < 0x80_0000 * unit(x) <= x,
{
    let u = unit(x);
    let y = k * pow2(e);
    let j = lemma_unit_is_a_power(x);
    lemma_unit(x, x);
    assert(u > 1) by {
        lemma_pow2_unfold(j);
        lemma_pow2_pos((j - 1) as nat);
    }
    if e >= j {
        let a = k * pow2((e - j) as nat);
        lemma_pow2_adds((e - j) as nat, j);
        assert(y == a * u) by (nonlinear_arith)
            requires
                y == k * pow2(e),
                a == k * pow2((e - j) as nat),
                pow2(e) == pow2((e - j) as nat) * u,
        ;
        a
    } else {
        let half = pow2((j - 1) as nat);
        lemma_pow2_unfold(j);
        lemma_pow2_pos(e);
        if e < j - 1 {
            lemma_pow2_strictly_increases(e, (j - 1) as nat);
        }
        assert(y < 0x100_0000 * half) by (nonlinear_arith)
            requires
                y == k * pow2(e),
                k < 0x100_0000,
                0 < pow2(e) <= half,
        ;
        assert(0x100_0000 * half == 0x80_0000 * u);
        0
    }
}

/// Rounding to single precision takes the nearest number that it holds. Those are
/// the whole numbers below 2^24, and them times a power of two.
pub proof fn law_single_is_nearest(x: nat, k: nat, e: nat)
    requires
        k < 0x100_0000,
    ensures
        distance(x, single(x)) <= distance(x, k * pow2(e)),
{
    if x < 0x100_0000 {
        lemma_single_is_exact(x);
    } else {
        let u = unit(x);
        let a = lemma_held_or_below(x, k, e);
        lemma_unit(x, x);
        if k * pow2(e) == a * u {
            lemma_no_multiple_is_nearer(x, u, a);
        } else {
            lemma_no_multiple_is_nearer(x, u, 0x80_0000);
        }
    }
}

/// Between two that are equally near it takes the even one: the one that is a
/// multiple of twice the distance between them.
pub proof fn law_single_takes_the_even_one(x: nat, k: nat, e: nat)
    requires
        k < 0x100_0000,
        k * pow2(e) != single(x),
        distance(x, k * pow2(e)) == distance(x, single(x)),
    ensures
        single(x) % (2 * distance(k * pow2(e), single(x))) == 0,
{
    if x < 0x100_0000 {
        lemma_single_is_exact(x);
    } else {
        let u = unit(x);
        let a = lemma_held_or_below(x, k, e);
        lemma_unit(x, x);
        if k * pow2(e) == a * u {
            lemma_no_multiple_is_nearer(x, u, a);
        } else {
            lemma_no_multiple_is_nearer(x, u, 0x80_0000);
        }
    }
}

/// What rounding gives is a number that single precision holds.
pub proof fn law_single_is_held(x: nat) -> (held: (nat, nat))
    ensures
        held.0 < 0x100_0000,
        single(x) == held.0 * pow2(held.1),
{
    lemma2_to64();
    if x < 0x100_0000 {
        lemma_single_is_exact(x);
        assert(x * pow2(0) == x);
        (x, 0)
    } else {
        let u = unit(x);
        let j = lemma_unit_is_a_power(x);
        lemma_unit(x, x);
        lemma_pow2_pos(j);
        let below = x / u;
        assert(below < 0x100_0000) by (nonlinear_arith)
            requires
                below == x / u,
                x < u * 0x100_0000,
                u > 0,
        ;
        if single(x) == below * u {
            (below, j)
        } else if below + 1 < 0x100_0000 {
            (below + 1, j)
        } else {
            lemma_pow2_unfold(j + 1);
            assert(0x100_0000 * u == 0x80_0000 * (2 * u));
            assert(below + 1 == 0x100_0000);
            (0x80_0000, j + 1)
        }
    }
}

/// A negative number is rounded as the positive one, with its sign.
pub proof fn law_rounding_keeps_the_sign(i: int)
    ensures
        i >= 0 ==> single_signed(i) == single(i as nat),
        i >= 0 ==> single_signed(-i) == -single(i as nat),
{
    if i == 0 {
        lemma_single_is_exact(0);
    }
}

/// A framebuffer that is too small for the margins, one way or the other, is
/// painted as a whole, and where it has no pixel, one.
pub proof fn law_small_framebuffer_is_painted_whole(fb_width: i32, fb_height: i32)
    requires
        fb_width <= 100 || fb_height <= 100,
        fb_width <= 0x100_0000,
        fb_height <= 0x100_0000,
    ensures
        ({
            let r = content_region(fb_width as int, fb_height as int);
            &&& r.min_x == 0
            &&& r.min_y == 0
            &&& r.max_x == if fb_width >= 1 {
                fb_width as int
            } else {
                1
            }
            &&& r.max_y == if fb_height >= 1 {
                fb_height as int
            } else {
                1
            }
        }),
{
    if fb_width >= 0 {
        lemma_single_is_exact(fb_width as nat);
    }
    if fb_height >= 0 {
        lemma_single_is_exact(fb_height as nat);
    }
}

/// A larger framebuffer leaves forty pixels free on every side: the region begins
/// forty pixels from the left and from the top, and ends forty pixels before the
/// right and the bottom, each rounded as single precision rounds. The two sides do
/// not touch each other.
pub proof fn law_region_keeps_forty_pixels_free(fb_width: i32, fb_height: i32)
    requires
        single_signed(fb_width as int) > 100,
        single_signed(fb_height as int) > 100,
    ensures
        ({
            let r = content_region(fb_width as int, fb_height as int);
            &&& r.min_x == 40
            &&& r.min_y == 40
            &&& r.max_x == single_signed(single_signed(fb_width as int) - 40)
            &&& r.max_y == single_signed(single_signed(fb_height as int) - 40)
        }),
{
    lemma_single_is_held(fb_width as nat);
    lemma_single_is_held(fb_height as nat);
    lemma_margin(single(fb_width as nat));
    lemma_margin(single(fb_height as nat));
}

/// A distance of up to 2^24 pixels is told as it is, to either side; a larger one
/// is told rounded, and never beyond the limits of `i32`.
pub proof fn law_distance_is_told(min: int, max: int)
    ensures
        -0x100_0000 <= max - min <= 0x100_0000 ==> extent(min, max) == max - min,
        i32::MIN <= extent(min, max) <= i32::MAX,
        i32::MIN <= single_signed(max - min) <= i32::MAX ==> extent(min, max) == single_signed(
            max - min,
        ),
        single_signed(max - min) > i32::MAX ==> extent(min, max) == i32::MAX,
        single_signed(max - min) < i32::MIN ==> extent(min, max) == i32::MIN,
{
    let d = max - min;
    if 0 <= d <= 0x100_0000 {
        lemma_single_is_exact(d as nat);
    }
    if -0x100_0000 <= d < 0 {
        lemma_single_is_exact((-d) as nat);
    }
}

/// The same holds beyond that size, with the sides rounded: where one of them is
/// too small for the margins, the region is the whole framebuffer, but at least a
/// pixel each way.
pub proof fn law_narrow_framebuffer_is_painted_whole(fb_width: i32, fb_height: i32)
    requires
        single_signed(fb_width as int) <= 100 || single_signed(fb_height as int) <= 100,
    ensures
        ({
            let r = content_region(fb_width as int, fb_height as int);
            let (w, h) = (single_signed(fb_width as int), single_signed(fb_height as int));
            &&& r.min_x == 0
            &&& r.min_y == 0
            &&& r.max_x == if w >= 1 {
                w
            } else {
                1
            }
            &&& r.max_y == if h >= 1 {
                h
            } else {
                1
            }
        }),
{
    if fb_width >= 0 {
        lemma_single_is_held(fb_width as nat);
    }
    if fb_height >= 0 {
        lemma_single_is_held(fb_height as nat);
    }
}

} // verus!

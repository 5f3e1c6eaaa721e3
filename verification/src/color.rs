//! Stick positions as colours.
//!
//! A stick gives a direction and a distance, red, green and blue are three separate
//! amounts. Between the two stands the colour wheel: the direction picks the hue, the
//! distance the saturation. Everything is done in integers: the direction is measured on
//! the diamond `|x| + |y| = 1` in place of the circle.

use crate::gamepad::GamepadReport;
use vstd::prelude::*;

verus! {

/// Once round the colour wheel: six sectors of 256 steps.
pub const HUE_MAX: u16 = 1536;

/// The absolute value.
pub open spec fn abs(v: int) -> int {
    if v < 0 {
        -v
    } else {
        v
    }
}

/// How far round the diamond a direction is from the horizontal, a quarter being 384:
/// positive above it, negative below, rounded towards it.
pub open spec fn elevation(x: int, y: int) -> int {
    let d = abs(x) + abs(y);
    if y < 0 {
        -(((-y) * 384) / d)
    } else {
        (y * 384) / d
    }
}

/// The hue for a direction: 0 to the right, then counter-clockwise round the diamond.
pub open spec fn hue(x: int, y: int) -> int {
    if x == 0 && y == 0 {
        0
    } else if x < 0 {
        768 - elevation(x, y)
    } else {
        elevation(x, y) % 1536
    }
}

/// The square root of `n`, rounded down.
pub open spec fn floor_root(n: nat) -> nat
    decreases n,
{
    if n == 0 {
        0
    } else {
        let r = floor_root((n - 1) as nat);
        if (r + 1) * (r + 1) <= n {
            r + 1
        } else {
            r
        }
    }
}

/// How far a stick is pushed, from 0 in the middle to 255 at 32767 and beyond.
pub open spec fn push(x: int, y: int) -> int {
    let r = floor_root((x * x + y * y) as nat) as int;
    (if r < 32767 {
        r
    } else {
        32767
    }) * 255 / 32767
}

/// An axis as a slider: 0 at its lowest, 255 at its highest.
pub open spec fn slider(v: int) -> int {
    (v + 32768) * 255 / 65535
}

/// `v` with the fraction `n / 255` of it taken away.
pub open spec fn dimmed(v: int, n: int) -> int {
    v * (255 - n) / 255
}

/// A hue, saturation and brightness as red, green and blue.
pub open spec fn rgb(h: int, s: int, v: int) -> (int, int, int) {
    let sector = (h / 256) % 6;
    let f = h % 256;
    let none = dimmed(v, s);
    let falling = dimmed(v, s * f / 255);
    let rising = dimmed(v, s * (255 - f) / 255);
    if sector == 0 {
        (v, rising, none)
    } else if sector == 1 {
        (falling, v, none)
    } else if sector == 2 {
        (none, v, rising)
    } else if sector == 3 {
        (none, falling, v)
    } else if sector == 4 {
        (rising, none, v)
    } else {
        (v, none, falling)
    }
}

/// The colour that a report asks for.
#[verifier::opaque]
pub open spec fn report_color(r: GamepadReport) -> (int, int, int) {
    rgb(
        hue(r.left_stick_x as int, r.left_stick_y as int),
        push(r.left_stick_x as int, r.left_stick_y as int),
        slider(r.right_stick_y as int),
    )
}

// ── Lemmas ───────────────────────────────────────────────────────────────────

proof fn lemma_floor_root(n: nat)
    ensures
        floor_root(n) * floor_root(n) <= n < (floor_root(n) + 1) * (floor_root(n) + 1),
    decreases n,
{
    let root = floor_root(n) as int;
    if n == 0 {
        assert(root * root == 0 && (root + 1) * (root + 1) == 1) by (nonlinear_arith)
            requires
                root == 0,
        ;
    } else {
        lemma_floor_root((n - 1) as nat);
        let r = floor_root((n - 1) as nat) as int;
        if (r + 1) * (r + 1) <= n {
            assert(root == r + 1);
            assert((r + 1) * (r + 1) < (root + 1) * (root + 1)) by (nonlinear_arith)
                requires
                    root == r + 1,
                    r >= 0,
            ;
        }
    }
}

proof fn lemma_root_unique(a: int, b: int, n: int)
    requires
        0 <= a,
        0 <= b,
        a * a <= n < (a + 1) * (a + 1),
        b * b <= n < (b + 1) * (b + 1),
    ensures
        a == b,
{
    if a < b {
        assert((a + 1) * (a + 1) <= b * b) by (nonlinear_arith)
            requires
                0 <= a < b,
        ;
    } else if b < a {
        assert((b + 1) * (b + 1) <= a * a) by (nonlinear_arith)
            requires
                0 <= b < a,
        ;
    }
}

/// The square root rounded down is the one number whose square does not exceed `n` while
/// the square of the next one does.
pub proof fn lemma_floor_root_is(n: nat, r: nat)
    ensures
        floor_root(n) == r <==> r * r <= n < (r + 1) * (r + 1),
{
    lemma_floor_root(n);
    if r * r <= n < (r + 1) * (r + 1) {
        lemma_root_unique(r as int, floor_root(n) as int, n as int);
    }
}

/// The square root rounded down grows with the number.
proof fn lemma_root_monotone(m: nat, n: nat)
    requires
        m <= n,
    ensures
        floor_root(m) <= floor_root(n),
    decreases n,
{
    if m < n {
        lemma_root_monotone(m, (n - 1) as nat);
    }
}

proof fn lemma_elevation_range(x: int, y: int)
    requires
        x != 0 || y != 0,
    ensures
        -384 <= elevation(x, y) <= 384,
        y >= 0 ==> elevation(x, y) >= 0,
        y <= 0 ==> elevation(x, y) <= 0,
        x == 0 && y > 0 ==> elevation(x, y) == 384,
        x == 0 && y < 0 ==> elevation(x, y) == -384,
        y == 0 ==> elevation(x, y) == 0,
{
    let d = abs(x) + abs(y);
    let a = abs(y);
    assert(0 <= (a * 384) / d <= 384) by (nonlinear_arith)
        requires
            0 <= a <= d,
            d > 0,
    ;
    if x == 0 {
        assert((a * 384) / d == 384) by (nonlinear_arith)
            requires
                a == d,
                d > 0,
        ;
    }
    if y == 0 {
        assert((a * 384) / d == 0) by (nonlinear_arith)
            requires
                a == 0,
                d > 0,
        ;
    }
}

/// Taking a share away leaves between nothing and everything; taking away more leaves
/// less.
proof fn lemma_dimmed(v: int, m: int, n: int)
    requires
        0 <= v <= 255,
        0 <= m <= n <= 255,
    ensures
        0 <= dimmed(v, n) <= dimmed(v, m) <= v,
        dimmed(v, 0) == v,
        dimmed(v, 255) == 0,
        0 <= v * (255 - m) <= 65025,
{
    assert(0 <= v * (255 - n) <= v * (255 - m) <= v * 255 <= 65025) by (nonlinear_arith)
        requires
            0 <= v <= 255,
            0 <= m <= n <= 255,
    ;
}

/// A share of a share.
proof fn lemma_share(s: int, f: int)
    requires
        0 <= s <= 255,
        0 <= f <= 255,
    ensures
        0 <= s * f <= 65025,
        0 <= s * f / 255 <= s,
{
    assert(0 <= s * f <= s * 255 <= 65025) by (nonlinear_arith)
        requires
            0 <= s <= 255,
            0 <= f <= 255,
    ;
}

// ── Functions ────────────────────────────────────────────────────────────────

/// `u32::isqrt` of the standard library.
///
/// Trusted: it returns the square root, rounded down.
pub assume_specification[ u32::isqrt ](n: u32) -> (r: u32)
    ensures
        r * r <= n < (r + 1) * (r + 1),
;

/// The hue for a direction.
///
/// Right is red, up a yellowish green, left cyan, down a bluish violet.
pub fn stick_hue(x: i16, y: i16) -> (h: u16)
    ensures
        h == hue(x as int, y as int),
{
    let ax: i32 = if x < 0 {
        -(x as i32)
    } else {
        x as i32
    };
    let ay: i32 = if y < 0 {
        -(y as i32)
    } else {
        y as i32
    };
    let d: i32 = ax + ay;
    if d == 0 {
        return 0;
    }
    proof {
        lemma_elevation_range(x as int, y as int);
    }
    let quarter: i32 = ay * 384 / d;
    let p: i32 = if y < 0 {
        -quarter
    } else {
        quarter
    };
    assert(p == elevation(x as int, y as int));
    let a: i32 = if x < 0 {
        768 - p
    } else if y < 0 {
        1536 + p
    } else {
        p
    };
    (a as u16) % HUE_MAX
}

/// How far a stick is pushed, from 0 to 255.
pub fn stick_magnitude(x: i16, y: i16) -> (m: u8)
    ensures
        m == push(x as int, y as int),
{
    let ax: u32 = if x < 0 {
        (-(x as i32)) as u32
    } else {
        x as u32
    };
    let ay: u32 = if y < 0 {
        (-(y as i32)) as u32
    } else {
        y as u32
    };
    proof {
        let (a, b) = (ax as int, ay as int);
        assert(0 <= a * a <= 1073741824) by (nonlinear_arith)
            requires
                0 <= a <= 32768,
        ;
        assert(0 <= b * b <= 1073741824) by (nonlinear_arith)
            requires
                0 <= b <= 32768,
        ;
        assert((-a) * (-a) == a * a) by (nonlinear_arith);
        assert((-b) * (-b) == b * b) by (nonlinear_arith);
    }
    // Two squares of 32768 are one more than an i32 can hold.
    let sum: u32 = ax * ax + ay * ay;
    let root: u32 = sum.isqrt();
    proof {
        assert(sum == x * x + y * y);
        lemma_floor_root(sum as nat);
        lemma_root_unique(root as int, floor_root(sum as nat) as int, sum as int);
    }
    let capped: u32 = if root < 32767 {
        root
    } else {
        32767
    };
    (capped * 255 / 32767) as u8
}

/// An axis as a slider from 0 to 255; in the middle it gives about one half.
pub fn axis_to_level(v: i16) -> (r: u8)
    ensures
        r == slider(v as int),
{
    ((v as i32 + 32768) * 255 / 65535) as u8
}

/// A hue, saturation and brightness as red, green and blue.
pub fn hsv_to_rgb(h: u16, s: u8, v: u8) -> (r: (u8, u8, u8))
    ensures
        (r.0 as int, r.1 as int, r.2 as int) == rgb(h as int, s as int, v as int),
{
    let f: u32 = (h % 256) as u32;
    let vv: u32 = v as u32;
    let ss: u32 = s as u32;
    proof {
        lemma_share(s as int, f as int);
        lemma_share(s as int, 255 - f);
        lemma_dimmed(v as int, s as int, s as int);
        lemma_dimmed(v as int, s as int * f as int / 255, s as int);
        lemma_dimmed(v as int, s as int * (255 - f) / 255, s as int);
    }
    let none: u8 = (vv * (255 - ss) / 255) as u8;
    let falling: u8 = (vv * (255 - ss * f / 255) / 255) as u8;
    let rising: u8 = (vv * (255 - ss * (255 - f) / 255) / 255) as u8;
    match (h / 256) % 6 {
        0 => (v, rising, none),
        1 => (falling, v, none),
        2 => (none, v, rising),
        3 => (none, falling, v),
        4 => (rising, none, v),
        _ => (v, none, falling),
    }
}

/// The colour that the sticks ask for.
///
/// The left stick is the colour wheel: its direction picks the hue, its distance the
/// saturation, from white in the middle to the pure colour at the edge. The right stick's
/// Y axis is the brightness, from off at the bottom to full at the top.
pub fn sticks_to_rgb(r: &GamepadReport) -> (c: (u8, u8, u8))
    ensures
        (c.0 as int, c.1 as int, c.2 as int) == report_color(*r),
        (c.0 as int, c.1 as int, c.2 as int) == rgb(
            hue(r.left_stick_x as int, r.left_stick_y as int),
            push(r.left_stick_x as int, r.left_stick_y as int),
            slider(r.right_stick_y as int),
        ),
{
    reveal(report_color);
    let hue = stick_hue(r.left_stick_x, r.left_stick_y);
    let sat = stick_magnitude(r.left_stick_x, r.left_stick_y);
    let val = axis_to_level(r.right_stick_y);
    hsv_to_rgb(hue, sat, val)
}

// ── Laws ─────────────────────────────────────────────────────────────────────

/// Every direction has a place on the colour wheel.
pub proof fn lemma_hue_range(x: int, y: int)
    ensures
        0 <= hue(x, y) < 1536,
{
    if x != 0 || y != 0 {
        lemma_elevation_range(x, y);
    }
}

/// The four main directions are a quarter of the wheel apart.
pub proof fn lemma_hue_of_main_directions(a: int)
    requires
        a > 0,
    ensures
        hue(a, 0) == 0,
        hue(0, a) == 384,
        hue(-a, 0) == 768,
        hue(0, -a) == 1152,
{
    lemma_elevation_range(a, 0);
    lemma_elevation_range(0, a);
    lemma_elevation_range(-a, 0);
    lemma_elevation_range(0, -a);
}

/// Opposite directions have opposite hues.
pub proof fn lemma_hue_of_opposite(x: int, y: int)
    requires
        x != 0 || y != 0,
    ensures
        hue(-x, -y) == (hue(x, y) + 768) % 1536,
{
    lemma_elevation_range(x, y);
    lemma_elevation_range(-x, -y);
    assert(elevation(-x, -y) == -elevation(x, y));
}

/// The hue depends on the direction alone, not on how far the stick is pushed.
pub proof fn lemma_hue_ignores_distance(x: int, y: int, k: int)
    requires
        k > 0,
    ensures
        hue(k * x, k * y) == hue(x, y),
{
    assert(k * x == 0 <==> x == 0) by (nonlinear_arith)
        requires
            k > 0,
    ;
    assert(k * y == 0 <==> y == 0) by (nonlinear_arith)
        requires
            k > 0,
    ;
    assert(k * x < 0 <==> x < 0) by (nonlinear_arith)
        requires
            k > 0,
    ;
    assert(k * y < 0 <==> y < 0) by (nonlinear_arith)
        requires
            k > 0,
    ;
    if x != 0 || y != 0 {
        let d = abs(x) + abs(y);
        let a = abs(y);
        assert(k * (-x) == -(k * x)) by (nonlinear_arith);
        assert(k * (-y) == -(k * y)) by (nonlinear_arith);
        assert(abs(k * y) == k * a);
        assert(abs(k * x) == k * abs(x));
        assert(k * abs(x) + k * a == k * d) by (nonlinear_arith)
            requires
                d == abs(x) + a,
        ;
        assert(((k * a) * 384) / (k * d) == (a * 384) / d) by {
            assert((k * a) * 384 == k * (a * 384)) by (nonlinear_arith);
            vstd::arithmetic::div_mod::lemma_div_multiples_vanish_quotient(k, a * 384, d);
        }
        assert(elevation(k * x, k * y) == elevation(x, y));
    }
}

/// A larger share of a whole is a larger share of 384.
proof fn lemma_share_order(a: int, c: int, b: int, d: int)
    requires
        0 <= a,
        0 <= b,
        0 < c,
        0 < d,
        a * d <= b * c,
    ensures
        (a * 384) / c <= (b * 384) / d,
{
    let q = (a * 384) / c;
    assert(q * c <= a * 384) by {
        vstd::arithmetic::div_mod::lemma_fundamental_div_mod(a * 384, c);
        vstd::arithmetic::div_mod::lemma_mod_bound(a * 384, c);
        vstd::arithmetic::mul::lemma_mul_is_commutative(q, c);
    }
    assert(q * d <= b * 384) by (nonlinear_arith)
        requires
            q * c <= a * 384,
            a * d <= b * c,
            0 < c,
            0 < d,
    ;
    vstd::arithmetic::div_mod::lemma_div_is_ordered(q * d, b * 384, d);
    vstd::arithmetic::div_mod::lemma_div_multiples_vanish(q, d);
    vstd::arithmetic::mul::lemma_mul_is_commutative(q, d);
}

/// The hue follows the stick round: of two directions in the upper half, the one further
/// counter-clockwise never has the smaller hue.
pub proof fn lemma_hue_follows_rotation(x1: int, y1: int, x2: int, y2: int)
    requires
        y1 >= 0,
        y2 >= 0,
        x1 * y2 - x2 * y1 > 0,
    ensures
        hue(x1, y1) <= hue(x2, y2),
{
    assert(!(x1 == 0 && y1 == 0) && !(x2 == 0 && y2 == 0)) by (nonlinear_arith)
        requires
            x1 * y2 - x2 * y1 > 0,
    ;
    lemma_elevation_range(x1, y1);
    lemma_elevation_range(x2, y2);
    let d1 = abs(x1) + abs(y1);
    let d2 = abs(x2) + abs(y2);
    if x1 >= 0 && x2 >= 0 {
        assert(y1 * d2 <= y2 * d1) by (nonlinear_arith)
            requires
                x1 * y2 - x2 * y1 > 0,
                d1 == x1 + y1,
                d2 == x2 + y2,
        ;
        lemma_share_order(y1, d1, y2, d2);
    } else if x1 < 0 && x2 < 0 {
        assert(y2 * d1 <= y1 * d2) by (nonlinear_arith)
            requires
                x1 * y2 - x2 * y1 > 0,
                d1 == -x1 + y1,
                d2 == -x2 + y2,
        ;
        lemma_share_order(y2, d2, y1, d1);
    } else if x1 < 0 {
        assert(x1 * y2 <= 0 && x2 * y1 >= 0) by (nonlinear_arith)
            requires
                x1 < 0,
                x2 >= 0,
                y1 >= 0,
                y2 >= 0,
        ;
    }
}

/// A stick in the middle is not pushed at all, one at the edge is pushed fully, and one
/// further out is never pushed less.
pub proof fn lemma_push(x: int, y: int, z: int, w: int)
    ensures
        0 <= push(x, y) <= 255,
        push(0, 0) == 0,
        x * x + y * y >= 32767 * 32767 ==> push(x, y) == 255,
        x * x + y * y <= z * z + w * w ==> push(x, y) <= push(z, w),
{
    lemma_squares(x, y);
    lemma_squares(z, w);
    let n = (x * x + y * y) as nat;
    let root = floor_root(n) as int;
    lemma_floor_root(n);
    if n >= 32767 * 32767 && root < 32767 {
        assert((root + 1) * (root + 1) <= 32767 * 32767) by (nonlinear_arith)
            requires
                0 <= root < 32767,
        ;
    }
    if x * x + y * y <= z * z + w * w {
        lemma_root_monotone(n, (z * z + w * w) as nat);
    }
    assert(0int * 0int + 0int * 0int == 0);
}

proof fn lemma_squares(x: int, y: int)
    ensures
        x * x + y * y >= 0,
{
    assert(x * x >= 0 && y * y >= 0) by (nonlinear_arith);
}

/// The slider runs from 0 at the bottom over one half in the middle to 255 at the top, and
/// never goes back on the way.
pub proof fn lemma_slider(v: i16, w: i16)
    ensures
        slider(-32768) == 0,
        slider(0) == 127,
        slider(32767) == 255,
        v <= w ==> 0 <= slider(v as int) <= slider(w as int) <= 255,
{
}

/// Every colour has one channel at the full brightness, another at the least that the
/// saturation allows, and the third between the two.
pub proof fn lemma_rgb_channels(h: int, s: int, v: int)
    requires
        0 <= s <= 255,
        0 <= v <= 255,
    ensures
        ({
            let (r, g, b) = rgb(h, s, v);
            &&& 0 <= dimmed(v, s) <= r <= v
            &&& 0 <= dimmed(v, s) <= g <= v
            &&& 0 <= dimmed(v, s) <= b <= v
            &&& r == v || g == v || b == v
            &&& r == dimmed(v, s) || g == dimmed(v, s) || b == dimmed(v, s)
        }),
{
    let f = h % 256;
    lemma_share(s, f);
    lemma_share(s, 255 - f);
    lemma_dimmed(v, s, s);
    lemma_dimmed(v, s * f / 255, s);
    lemma_dimmed(v, s * (255 - f) / 255, s);
}

/// Without saturation the colour is white at the given brightness.
pub proof fn lemma_unsaturated_is_white(h: int, v: int)
    requires
        0 <= v <= 255,
    ensures
        rgb(h, 0, v) == (v, v, v),
{
    lemma_rgb_channels(h, 0, v);
    lemma_dimmed(v, 0, 0);
}

/// At full saturation one channel is off: the colour is pure.
pub proof fn lemma_saturated_is_pure(h: int, v: int)
    requires
        0 <= v <= 255,
    ensures
        rgb(h, 255, v).0 == 0 || rgb(h, 255, v).1 == 0 || rgb(h, 255, v).2 == 0,
{
    lemma_rgb_channels(h, 255, v);
    lemma_dimmed(v, 255, 255);
}

/// Without brightness everything is off.
pub proof fn lemma_dark_is_off(h: int, s: int)
    requires
        0 <= s <= 255,
    ensures
        rgb(h, s, 0) == (0int, 0int, 0int),
{
    lemma_rgb_channels(h, s, 0);
}

/// With the left stick in the middle the light is white; with the right stick at the
/// bottom it is off, and at the top one channel is at its brightest; with the left stick at
/// the edge one channel is off.
pub proof fn lemma_report_color(r: GamepadReport)
    ensures
        ({
            let (red, green, blue) = report_color(r);
            let x = r.left_stick_x as int;
            let y = r.left_stick_y as int;
            &&& x == 0 && y == 0 ==> red == green && green == blue && blue == slider(
                r.right_stick_y as int,
            )
            &&& r.right_stick_y == -32768 ==> red == 0 && green == 0 && blue == 0
            &&& r.right_stick_y == 32767 ==> red == 255 || green == 255 || blue == 255
            &&& x * x + y * y >= 32767 * 32767 ==> red == 0 || green == 0 || blue == 0
        }),
{
    reveal(report_color);
    let x = r.left_stick_x as int;
    let y = r.left_stick_y as int;
    let h = hue(x, y);
    let s = push(x, y);
    let v = slider(r.right_stick_y as int);
    lemma_push(x, y, x, y);
    lemma_slider(r.right_stick_y, r.right_stick_y);
    lemma_rgb_channels(h, s, v);
    lemma_unsaturated_is_white(h, v);
    lemma_saturated_is_pure(h, v);
    lemma_dark_is_off(h, s);
}

/// In the upper right quarter the hue is the share of `y` in `x + y`, in steps of which 384
/// make the whole, rounded down.
pub proof fn lemma_hue_in_the_first_quarter(x: int, y: int)
    requires
        x >= 0,
        y >= 0,
        x + y > 0,
    ensures
        hue(x, y) * (x + y) <= 384 * y < (hue(x, y) + 1) * (x + y),
{
    lemma_elevation_range(x, y);
    let d = x + y;
    let q = (y * 384) / d;
    vstd::arithmetic::div_mod::lemma_fundamental_div_mod(y * 384, d);
    vstd::arithmetic::div_mod::lemma_mod_bound(y * 384, d);
    assert(q * d == d * q) by (nonlinear_arith);
    assert((q + 1) * d == q * d + d) by (nonlinear_arith);
    assert(elevation(x, y) == q);
    assert(hue(x, y) == q);
}

/// Left and right are mirror images: the hues lie equally far from the top.
pub proof fn lemma_hue_mirrored_sideways(x: int, y: int)
    requires
        x > 0,
        y >= 0,
    ensures
        hue(-x, y) == 768 - hue(x, y),
{
    lemma_elevation_range(x, y);
    lemma_elevation_range(-x, y);
    assert(elevation(-x, y) == elevation(x, y));
}

/// Up and down are mirror images: the hues lie equally far from the right, to either side.
pub proof fn lemma_hue_mirrored_upright(x: int, y: int)
    requires
        x != 0 || y != 0,
    ensures
        (hue(x, -y) + hue(x, y)) % 1536 == 0,
{
    lemma_elevation_range(x, y);
    lemma_elevation_range(x, -y);
    assert(elevation(x, -y) == -elevation(x, y));
}

/// How far a stick is pushed: with `r` the distance from the middle, rounded down, it is
/// the share of `r` in 32767, in steps of which 255 make the whole, rounded down; beyond
/// that distance it is full.
pub proof fn lemma_push_is_the_distance(x: int, y: int, r: int)
    requires
        r >= 0,
        r * r <= x * x + y * y < (r + 1) * (r + 1),
    ensures
        r < 32767 ==> push(x, y) * 32767 <= 255 * r < (push(x, y) + 1) * 32767,
        r >= 32767 ==> push(x, y) == 255,
{
    lemma_squares(x, y);
    let n = (x * x + y * y) as nat;
    lemma_floor_root(n);
    lemma_root_unique(r, floor_root(n) as int, n as int);
}

/// The slider is the share of the way from the bottom to the top, in steps of which 255
/// make the whole, rounded down.
pub proof fn lemma_slider_is_the_share(v: int)
    ensures
        slider(v) * 65535 <= 255 * (v + 32768) < (slider(v) + 1) * 65535,
{
}

/// Once round the wheel leads back to the same colour.
pub proof fn lemma_hue_has_period(h: int, s: int, v: int)
    ensures
        rgb(h + 1536, s, v) == rgb(h, s, v),
{
    assert((h + 1536) / 256 == h / 256 + 6);
    assert((h + 1536) % 256 == h % 256);
    assert((h / 256 + 6) % 6 == (h / 256) % 6);
}

/// A third of a turn hands each channel on: what was red is green, what was green is blue,
/// what was blue is red.
pub proof fn lemma_third_of_a_turn(h: int, s: int, v: int)
    ensures
        ({
            let (r, g, b) = rgb(h, s, v);
            rgb(h + 512, s, v) == (b, r, g)
        }),
{
    assert((h + 512) / 256 == h / 256 + 2);
    assert((h + 512) % 256 == h % 256);
}

/// Which channel is at full brightness: red round 0, green round a third, blue round two
/// thirds of the wheel, each for a third of it.
pub proof fn lemma_brightest_channel(h: int, s: int, v: int)
    requires
        0 <= h < 1536,
    ensures
        h < 256 || h >= 1280 ==> rgb(h, s, v).0 == v,
        256 <= h < 768 ==> rgb(h, s, v).1 == v,
        768 <= h < 1280 ==> rgb(h, s, v).2 == v,
{
}

/// Which channel is the least, and how much of the brightness the saturation leaves it,
/// rounded down: blue in the first third of the wheel, red in the second, green in the last.
pub proof fn lemma_least_channel(h: int, s: int, v: int)
    requires
        0 <= h < 1536,
    ensures
        ({
            let (r, g, b) = rgb(h, s, v);
            let least = if h < 512 {
                b
            } else if h < 1024 {
                r
            } else {
                g
            };
            255 * least <= v * (255 - s) < 255 * (least + 1)
        }),
{
}

/// The channel between the two: in the first sector green rises with the hue, in the second
/// red falls. Of the saturation it loses the share `t` that is left of the way up, or that
/// is gone of the way down, rounded down.
pub proof fn lemma_middle_channel(h: int, s: int, v: int, t: int)
    requires
        0 <= h < 512,
        h < 256 ==> 255 * t <= s * (255 - h) < 255 * (t + 1),
        h >= 256 ==> 255 * t <= s * (h - 256) < 255 * (t + 1),
    ensures
        ({
            let (r, g, b) = rgb(h, s, v);
            let middle = if h < 256 {
                g
            } else {
                r
            };
            255 * middle <= v * (255 - t) < 255 * (middle + 1)
        }),
{
    if h < 256 {
        assert(s * (255 - h) / 255 == t);
    } else {
        assert(h % 256 == h - 256);
        assert(s * (h - 256) / 255 == t);
    }
}

/// One step of a share changes it by one at most.
proof fn lemma_small_steps(s: int, f: int, v: int)
    requires
        0 <= s <= 255,
        0 <= f < 255,
        0 <= v <= 255,
    ensures
        0 <= s * (f + 1) / 255 - s * f / 255 <= 1,
        0 <= s * (255 - f) / 255 - s * (255 - (f + 1)) / 255 <= 1,
        0 <= dimmed(v, s * f / 255) - dimmed(v, s * (f + 1) / 255) <= 1,
        0 <= dimmed(v, s * (255 - (f + 1)) / 255) - dimmed(v, s * (255 - f) / 255) <= 1,
{
    assert(s * (f + 1) == s * f + s) by (nonlinear_arith);
    assert(s * (255 - f) == s * (255 - (f + 1)) + s) by (nonlinear_arith);
    lemma_small_dimming(v, s * f / 255, s * (f + 1) / 255);
    lemma_small_dimming(v, s * (255 - (f + 1)) / 255, s * (255 - f) / 255);
}

proof fn lemma_small_dimming(v: int, m: int, n: int)
    requires
        0 <= v <= 255,
        m <= n <= m + 1,
    ensures
        0 <= dimmed(v, m) - dimmed(v, n) <= 1,
{
    if n == m + 1 {
        assert(v * (255 - m) == v * (255 - n) + v) by (nonlinear_arith)
            requires
                n == m + 1,
        ;
    }
}

/// There is no jump anywhere on the wheel: from one hue to the next each channel changes by
/// one at most.
pub proof fn lemma_no_jumps(h: int, s: int, v: int)
    requires
        0 <= h < 1536,
        0 <= s <= 255,
        0 <= v <= 255,
    ensures
        ({
            let (r, g, b) = rgb(h, s, v);
            let (r1, g1, b1) = rgb(h + 1, s, v);
            -1 <= r1 - r <= 1 && -1 <= g1 - g <= 1 && -1 <= b1 - b <= 1
        }),
{
    let f = h % 256;
    if f < 255 {
        assert((h + 1) / 256 == h / 256);
        assert((h + 1) % 256 == f + 1);
        lemma_small_steps(s, f, v);
    } else {
        assert((h + 1) / 256 == h / 256 + 1);
        assert((h + 1) % 256 == 0);
        assert(s * 255 / 255 == s);
        assert(s * 0 == 0);
        lemma_dimmed(v, 0, s);
    }
}

/// The colour of a report is the wheel's colour at the hue of the left stick, with the left
/// stick's push as saturation and the right stick's height as brightness.
pub proof fn lemma_sticks_pick_the_colour(r: GamepadReport)
    ensures
        report_color(r) == rgb(
            hue(r.left_stick_x as int, r.left_stick_y as int),
            push(r.left_stick_x as int, r.left_stick_y as int),
            slider(r.right_stick_y as int),
        ),
        0 <= report_color(r).0 <= 255,
        0 <= report_color(r).1 <= 255,
        0 <= report_color(r).2 <= 255,
{
    reveal(report_color);
    let (x, y) = (r.left_stick_x as int, r.left_stick_y as int);
    lemma_push(x, y, x, y);
    lemma_slider(r.right_stick_y, r.right_stick_y);
    lemma_rgb_channels(hue(x, y), push(x, y), slider(r.right_stick_y as int));
}

proof fn lemma_main_colours(v: int)
    requires
        0 <= v <= 255,
    ensures
        rgb(0, 255, v) == (v, 0int, 0int),
        rgb(384, 255, v) == (v * 127 / 255, v, 0int),
        rgb(768, 255, v) == (0int, v, v),
        rgb(1152, 255, v) == (v * 128 / 255, 0int, v),
{
    lemma_dimmed(v, 0, 255);
    assert(255int * 127 / 255 == 127 && 255int * 128 / 255 == 128 && 255int * 255 / 255 == 255
        && 255int * 0 / 255 == 0);
    assert(384int / 256 == 1 && 384int % 256 == 128);
    assert(1152int / 256 == 4 && 1152int % 256 == 128);
}

/// With the left stick at the edge the four main directions give red, a yellowish green,
/// cyan and a bluish violet, each as bright as the right stick says.
pub proof fn lemma_colours_of_the_main_directions(r: GamepadReport)
    ensures
        ({
            let (red, green, blue) = report_color(r);
            let (x, y) = (r.left_stick_x, r.left_stick_y);
            let v = slider(r.right_stick_y as int);
            &&& x == 32767 && y == 0 ==> red == v && green == 0 && blue == 0
            &&& x == 0 && y == 32767 ==> green == v && blue == 0 && red <= v <= 2 * red + 2
            &&& x <= -32767 && y == 0 ==> red == 0 && green == v && blue == v
            &&& x == 0 && y <= -32767 ==> blue == v && green == 0 && red <= v <= 2 * red + 2
        }),
{
    reveal(report_color);
    let (x, y) = (r.left_stick_x as int, r.left_stick_y as int);
    let v = slider(r.right_stick_y as int);
    lemma_slider(r.right_stick_y, r.right_stick_y);
    if x == 32767 && y == 0 || x == 0 && y == 32767 || x <= -32767 && y == 0 || x == 0 && y
        <= -32767 {
        assert(x * x + y * y >= 32767 * 32767) by (nonlinear_arith)
            requires
                x >= 32767 || x <= -32767 || y >= 32767 || y <= -32767,
        ;
        lemma_push(x, y, x, y);
        let a = if x == 0 {
            abs(y)
        } else {
            abs(x)
        };
        lemma_hue_of_main_directions(a);
        assert(push(x, y) == 255);
        lemma_main_colours(v);
        if x == 0 && y > 0 {
            assert(report_color(r) == rgb(384, 255, v));
        } else if x == 0 {
            assert(report_color(r) == rgb(1152, 255, v));
        } else if x > 0 {
            assert(report_color(r) == rgb(0, 255, v));
        } else {
            assert(report_color(r) == rgb(768, 255, v));
        }
    }
}

} // verus!

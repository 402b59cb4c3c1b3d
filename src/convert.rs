//! Exact integer conversions between RGB and HSL.
//!
//! Hue is held in millionths of a degree, saturation and lightness in
//! hundred-millionths (so `HSL_ONE` stands for 1.0, i.e. 100%). Every result
//! is the exact rational value rounded half up.

use vstd::prelude::*;

verus! {

/// 1.0 for saturation and lightness.
pub const HSL_ONE: u64 = 100_000_000;

/// One degree of hue.
pub const DEGREE: u64 = 1_000_000;

/// A full turn of hue.
pub const TURN: u64 = 360_000_000;

/// `n / d` rounded to the nearest integer, halves up (for `n >= 0`, `d > 0`).
pub open spec fn round_div(n: int, d: int) -> int {
    (2 * n + d) / (2 * d)
}

/// The hue parameter wrapped once into `[0, TURN]`, as the hue helper does.
pub open spec fn wrap_turn(t: int) -> int {
    if t < 0 {
        t + TURN
    } else if t > TURN {
        t - TURN
    } else {
        t
    }
}

/// The four-segment hue rule, as a numerator over `TURN` (with `p`, `q` over
/// `HSL_ONE * HSL_ONE`, `t` a wrapped hue over `TURN`).
pub open spec fn hue_num(p: int, q: int, t: int) -> int {
    let d = TURN as int;
    if 6 * t < d {
        p * d + (q - p) * 6 * t
    } else if 2 * t < d {
        q * d
    } else if 3 * t < 2 * d {
        p * d + (q - p) * (2 * d - 3 * t) * 2
    } else {
        p * d
    }
}

/// A channel of value `n / den`, scaled by 255, rounded, clamped to a byte.
pub open spec fn to_byte(n: int, den: int) -> int {
    if n <= 0 {
        0
    } else {
        let v = round_div(255 * n, den);
        if v > 255 {
            255
        } else {
            v
        }
    }
}

pub open spec fn hsl_q(s: int, l: int) -> int {
    let u = HSL_ONE as int;
    if 2 * l < u {
        l * (u + s)
    } else {
        l * u + s * u - l * s
    }
}

pub open spec fn hsl_p(s: int, l: int) -> int {
    2 * l * (HSL_ONE as int) - hsl_q(s, l)
}

/// One channel of `hsl_to_rgb`, with `shift` the hue offset of the channel
/// (a third of a turn for red, none for green, minus a third for blue).
pub open spec fn hsl_channel(h: int, s: int, l: int, shift: int) -> int {
    let u = HSL_ONE as int;
    to_byte(hue_num(hsl_p(s, l), hsl_q(s, l), wrap_turn(h + shift)), u * u * (TURN as int))
}

/// The RGB bytes of a hue, saturation and lightness.
pub open spec fn hsl_rgb(h: int, s: int, l: int) -> (u8, u8, u8) {
    if s == 0 {
        let v = to_byte(l, HSL_ONE as int) as u8;
        (v, v, v)
    } else {
        let third = TURN as int / 3;
        (
            hsl_channel(h, s, l, third) as u8,
            hsl_channel(h, s, l, 0) as u8,
            hsl_channel(h, s, l, -third) as u8,
        )
    }
}

fn hue_channel(p: i128, q: i128, t: i128) -> (r: u8)
    requires
        -5 * (HSL_ONE * HSL_ONE) <= p <= 5 * (HSL_ONE * HSL_ONE),
        -5 * (HSL_ONE * HSL_ONE) <= q <= 5 * (HSL_ONE * HSL_ONE),
        0 <= t <= TURN,
    ensures
        r as int == to_byte(
            hue_num(p as int, q as int, t as int),
            (HSL_ONE * HSL_ONE) as int * (TURN as int),
        ),
{
    let d: i128 = TURN as i128;
    assert(d == 360_000_000);
    let big: i128 = 1_000_000_000_000_000_000_000_000_000;
    assert(-50_000_000_000_000_000 <= p <= 50_000_000_000_000_000);
    assert(-50_000_000_000_000_000 <= q <= 50_000_000_000_000_000);
    assert(-18_000_000_000_000_000_000_000_000 <= p * d <= 18_000_000_000_000_000_000_000_000)
        by (nonlinear_arith)
        requires -50_000_000_000_000_000 <= p <= 50_000_000_000_000_000, d == 360_000_000;
    assert(-18_000_000_000_000_000_000_000_000 <= q * d <= 18_000_000_000_000_000_000_000_000)
        by (nonlinear_arith)
        requires -50_000_000_000_000_000 <= q <= 50_000_000_000_000_000, d == 360_000_000;
    let n: i128 = if 6 * t < d {
        let x = (q - p) * 6;
        assert(-216_000_000_000_000_000_000_000_000 <= x * t <= 216_000_000_000_000_000_000_000_000)
            by (nonlinear_arith)
            requires -600_000_000_000_000_000 <= x <= 600_000_000_000_000_000, 0 <= t <= 360_000_000;
        p * d + (q - p) * 6 * t
    } else if 2 * t < d {
        q * d
    } else if 3 * t < 2 * d {
        let x = q - p;
        let y = 2 * d - 3 * t;
        assert(-36_000_000_000_000_000_000_000_000 <= x * y <= 36_000_000_000_000_000_000_000_000)
            by (nonlinear_arith)
            requires -100_000_000_000_000_000 <= x <= 100_000_000_000_000_000, 0 <= y <= 360_000_000;
        p * d + (q - p) * (2 * d - 3 * t) * 2
    } else {
        p * d
    };
    assert(n == hue_num(p as int, q as int, t as int));
    assert(-big <= n <= big);
    if n <= 0 {
        return 0;
    }
    let den: i128 = 3_600_000_000_000_000_000_000_000;
    assert(den == (HSL_ONE * HSL_ONE) as int * (TURN as int));
    assert(0 < n <= 1_000_000_000_000_000_000_000_000_000);
    let w: i128 = 510 * n;
    let v = (w + den) / (2 * den);
    if v > 255 {
        255
    } else {
        v as u8
    }
}

/// Converts hue (millionths of a degree), saturation and lightness
/// (`HSL_ONE` = 1.0) to RGB bytes.
pub fn hsl_to_rgb(h: u64, s: u64, l: u64) -> (r: (u8, u8, u8))
    requires
        h <= TURN,
        s <= HSL_ONE,
        l <= HSL_ONE,
    ensures
        r == hsl_rgb(h as int, s as int, l as int),
{
    let u: i128 = 100_000_000;
    if s == 0 {
        let v: u8 = if l == 0 {
            0
        } else {
            assert(l <= 100_000_000);
            let x = (510 * (l as i128) + 100_000_000) / 200_000_000;
            if x > 255 {
                255
            } else {
                x as u8
            }
        };
        return (v, v, v);
    }
    let si = s as i128;
    let li = l as i128;
    assert(li * si <= u * u && li * si >= 0) by (nonlinear_arith)
        requires 0 <= li <= u, 0 <= si <= u;
    assert(li * u <= u * u && li * u >= 0) by (nonlinear_arith)
        requires 0 <= li <= u, u > 0;
    assert(si * u <= u * u && si * u >= 0) by (nonlinear_arith)
        requires 0 <= si <= u, u > 0;
    assert(li * (u + si) <= 2 * (u * u) && li * (u + si) >= 0) by (nonlinear_arith)
        requires 0 <= li <= u, 0 <= si <= u;
    let q: i128 = if 2 * li < u {
        li * (u + si)
    } else {
        li * u + si * u - li * si
    };
    let p: i128 = 2 * li * u - q;
    assert(q == hsl_q(s as int, l as int));
    assert(p == hsl_p(s as int, l as int));
    let hi = h as i128;
    let d = TURN as i128;
    let third = d / 3;
    let tr = if hi + third > d { hi + third - d } else { hi + third };
    let tg = hi;
    let tb = if hi - third < 0 { hi - third + d } else { hi - third };
    assert(tr == wrap_turn(h + third));
    assert(tb == wrap_turn(h - third));
    (hue_channel(p, q, tr), hue_channel(p, q, tg), hue_channel(p, q, tb))
}


pub open spec fn max3(r: int, g: int, b: int) -> int {
    if r >= g && r >= b {
        r
    } else if g >= b {
        g
    } else {
        b
    }
}

pub open spec fn min3(r: int, g: int, b: int) -> int {
    if r <= g && r <= b {
        r
    } else if g <= b {
        g
    } else {
        b
    }
}

/// Hue in degrees as numerator and denominator; zero for grays. The channel
/// holding the maximum decides the formula, red first, then green.
pub open spec fn hue_parts(r: int, g: int, b: int) -> (int, int) {
    let mx = max3(r, g, b);
    let d = mx - min3(r, g, b);
    if d == 0 {
        (0, 1)
    } else if mx == r {
        (60 * (g - b) + if g < b { 360 * d } else { 0 }, d)
    } else if mx == g {
        (60 * (b - r) + 120 * d, d)
    } else {
        (60 * (r - g) + 240 * d, d)
    }
}

/// Saturation as numerator and denominator; zero for grays.
pub open spec fn sat_parts(r: int, g: int, b: int) -> (int, int) {
    let mx = max3(r, g, b);
    let mn = min3(r, g, b);
    if mx == mn {
        (0, 1)
    } else if mx + mn > 255 {
        (mx - mn, 510 - mx - mn)
    } else {
        (mx - mn, mx + mn)
    }
}

/// Lightness is `light_num / 510`.
pub open spec fn light_num(r: int, g: int, b: int) -> int {
    max3(r, g, b) + min3(r, g, b)
}

/// Numerators and denominators of hue, saturation and lightness, each
/// numerator non-negative and below 360 (hue) or at most its denominator.
fn hsl_parts(r: u8, g: u8, b: u8) -> (res: (u64, u64, u64, u64, u64))
    ensures
        (res.0 as int, res.1 as int) == hue_parts(r as int, g as int, b as int),
        (res.2 as int, res.3 as int) == sat_parts(r as int, g as int, b as int),
        res.4 as int == light_num(r as int, g as int, b as int),
        res.1 > 0 && res.3 > 0,
        res.0 < 360 * res.1,
        res.0 <= 110_000 && res.1 <= 255,
        res.2 <= res.3 <= 510,
        res.4 <= 510,
{
    let (ri, gi, bi) = (r as i64, g as i64, b as i64);
    let mx = if ri >= gi && ri >= bi {
        ri
    } else if gi >= bi {
        gi
    } else {
        bi
    };
    let mn = if ri <= gi && ri <= bi {
        ri
    } else if gi <= bi {
        gi
    } else {
        bi
    };
    let d = mx - mn;
    let light = (mx + mn) as u64;
    if d == 0 {
        return (0, 1, 0, 1, light);
    }
    let hn: i64 = if mx == ri {
        60 * (gi - bi) + if gi < bi { 360 * d } else { 0 }
    } else if mx == gi {
        60 * (bi - ri) + 120 * d
    } else {
        60 * (ri - gi) + 240 * d
    };
    let sd: i64 = if mx + mn > 255 { 510 - mx - mn } else { mx + mn };
    (hn as u64, d as u64, d as u64, sd as u64, light)
}

/// Converts RGB bytes to hue (millionths of a degree, in `[0, TURN)`),
/// saturation and lightness (`HSL_ONE` = 1.0), each rounded half up.
pub fn rgb_to_hsl(r: u8, g: u8, b: u8) -> (res: (u64, u64, u64))
    ensures
        res.0 == round_div(
            hue_parts(r as int, g as int, b as int).0 * DEGREE,
            hue_parts(r as int, g as int, b as int).1,
        ),
        res.1 == round_div(
            sat_parts(r as int, g as int, b as int).0 * HSL_ONE,
            sat_parts(r as int, g as int, b as int).1,
        ),
        res.2 == round_div(light_num(r as int, g as int, b as int) * HSL_ONE, 510),
        res.0 <= TURN && res.1 <= HSL_ONE && res.2 <= HSL_ONE,
        r == g && g == b ==> res.0 == 0 && res.1 == 0,
{
    let (hn, hd, sn, sd, ln) = hsl_parts(r, g, b);
    assert(hn * 1_000_000 <= 110_000_000_000);
    assert(sn * 100_000_000 <= sd * 100_000_000) by (nonlinear_arith)
        requires sn <= sd;
    assert(hn * 1_000_000 <= 360 * hd * 1_000_000) by (nonlinear_arith)
        requires hn <= 360 * hd;
    if r == g && g == b {
        assert(hn == 0 && hd == 1 && sn == 0 && sd == 1);
    }
    let h = (2 * (hn * 1_000_000) + hd) / (2 * hd);
    let s = (2 * (sn * 100_000_000) + sd) / (2 * sd);
    let l = (2 * (ln * 100_000_000) + 510) / 1020;
    assert(h <= 360_000_000) by (nonlinear_arith)
        requires h == (2 * (hn * 1_000_000) + hd) / (2 * hd), hn * 1_000_000 <= 360 * hd * 1_000_000, hd > 0;
    assert(s <= 100_000_000) by (nonlinear_arith)
        requires s == (2 * (sn * 100_000_000) + sd) / (2 * sd), sn * 100_000_000 <= sd * 100_000_000, sd > 0;
    (h, s, l)
}

/// Hue in whole degrees, saturation and lightness in whole percent, each
/// rounded half up from the exact values.
pub fn hsl_display(r: u8, g: u8, b: u8) -> (res: (u64, u64, u64))
    ensures
        res.0 == round_div(
            hue_parts(r as int, g as int, b as int).0,
            hue_parts(r as int, g as int, b as int).1,
        ),
        res.1 == round_div(
            100 * sat_parts(r as int, g as int, b as int).0,
            sat_parts(r as int, g as int, b as int).1,
        ),
        res.2 == round_div(100 * light_num(r as int, g as int, b as int), 510),
{
    let (hn, hd, sn, sd, ln) = hsl_parts(r, g, b);
    ((2 * hn + hd) / (2 * hd), (2 * (100 * sn) + sd) / (2 * sd), (2 * (100 * ln) + 510) / 1020)
}

} // verus!

//! Recognition of the four color notations: hex, `rgb()`/`rgba()`,
//! `hsl()`/`hsla()` and `oklch()`.

use vstd::prelude::*;
use crate::chars::{string_of, sub_chars, to_chars};
use crate::color::{Color, ColorData, ColorParseError, Oklch, ParsedColor, OPAQUE};
use crate::convert::{hsl_rgb, hsl_to_rgb, HSL_ONE, TURN};
use crate::lexer::{
    dec_ok, dec_units, digit_val, digits_end, digits_val, is_digit, is_num_char, lemma_digits_end,
    lemma_num_end, lemma_spaces_end, num_end, parse_decimal, skip_digits, skip_num, skip_spaces,
    spaces_end, trim_bounds, trimmed, MICRO,
};

verus! {

/// `c` equals the ASCII lowercase letter `lower` up to simple case folding.
pub open spec fn ci(c: char, lower: char) -> bool {
    c == lower || c as u32 + 32 == lower as u32 || (lower == 'k' && c as u32 == 0x212a) || (
    lower == 's' && c as u32 == 0x17f)
}

fn ci_eq(c: char, lower: char) -> (r: bool)
    requires
        'a' <= lower <= 'z',
    ensures
        r == ci(c, lower),
{
    c == lower || c as u32 + 32 == lower as u32 || (lower == 'k' && c as u32 == 0x212a) || (lower
        == 's' && c as u32 == 0x17f)
}

pub open spec fn opt_eq(r: Option<usize>, o: Option<int>) -> bool {
    match r {
        Some(x) => o == Some(x as int),
        None => o is None,
    }
}

/// Optional spaces, the character `c`, optional spaces.
pub open spec fn punct(s: Seq<char>, i: int, c: char) -> Option<int> {
    let j = spaces_end(s, i);
    if j < s.len() && s[j] == c {
        Some(spaces_end(s, j + 1))
    } else {
        None
    }
}

fn punct_at(s: &Vec<char>, i: usize, c: char) -> (r: Option<usize>)
    requires
        i <= s@.len(),
    ensures
        opt_eq(r, punct(s@, i as int, c)),
        r matches Some(x) ==> x <= s@.len(),
{
    let j = skip_spaces(s, i);
    if j < s.len() && s[j] == c {
        Some(skip_spaces(s, j + 1))
    } else {
        None
    }
}

/// The end of the input, after optional spaces and a closing parenthesis.
pub open spec fn closes(s: Seq<char>, i: int) -> bool {
    let j = spaces_end(s, i);
    j + 1 == s.len() && s[j] == ')'
}

fn closes_at(s: &Vec<char>, i: usize) -> (r: bool)
    requires
        i <= s@.len(),
    ensures
        r == closes(s@, i as int),
{
    let j = skip_spaces(s, i);
    j < s.len() && j + 1 == s.len() && s[j] == ')'
}

/// Alpha of a token: its value clamped to 1.0, or 1.0 when it is no number.
pub open spec fn alpha_value(t: Seq<char>) -> int {
    if dec_ok(t) {
        if dec_units(t) < OPAQUE {
            dec_units(t) as int
        } else {
            OPAQUE as int
        }
    } else {
        OPAQUE as int
    }
}

/// The tail of a functional notation: an optional alpha after `sep`, then
/// the closing parenthesis. Gives the alpha, 1.0 when it is absent.
pub open spec fn closing(s: Seq<char>, i: int, sep: char) -> Option<int> {
    let j = spaces_end(s, i);
    if j < s.len() && s[j] == sep {
        let k = spaces_end(s, j + 1);
        let e = num_end(s, k);
        if e > k && closes(s, e) {
            Some(alpha_value(s.subrange(k, e)))
        } else {
            None
        }
    } else if closes(s, j) {
        Some(OPAQUE as int)
    } else {
        None
    }
}

fn closing_at(s: &Vec<char>, i: usize, sep: char) -> (r: Option<u32>)
    requires
        i <= s@.len(),
    ensures
        match r {
            Some(a) => closing(s@, i as int, sep) == Some(a as int) && a <= OPAQUE,
            None => closing(s@, i as int, sep) is None,
        },
{
    let j = skip_spaces(s, i);
    if j < s.len() && s[j] == sep {
        let k = skip_spaces(s, j + 1);
        let e = skip_num(s, k);
        proof {
            lemma_num_end(s@, k as int);
        }
        if e > k && closes_at(s, e) {
            match parse_decimal(s, k, e) {
                Some(v) => {
                    if v < OPAQUE as u64 {
                        Some(v as u32)
                    } else {
                        Some(OPAQUE)
                    }
                },
                None => Some(OPAQUE),
            }
        } else {
            None
        }
    } else {
        proof {
            lemma_spaces_end(s@, i as int);
        }
        if closes_at(s, j) {
            Some(OPAQUE)
        } else {
            None
        }
    }
}

/// One to three digits whose value fits a byte.
pub open spec fn byte_field(s: Seq<char>, i: int) -> Option<(int, int)> {
    let j = digits_end(s, i);
    if 1 <= j - i <= 3 && digits_val(s.subrange(i, j)) <= 255 {
        Some((digits_val(s.subrange(i, j)) as int, j))
    } else {
        None
    }
}

fn byte_at(s: &Vec<char>, i: usize) -> (r: Option<(u8, usize)>)
    requires
        i <= s@.len(),
    ensures
        match r {
            Some((v, j)) => byte_field(s@, i as int) == Some((v as int, j as int)) && j <= s@.len(),
            None => byte_field(s@, i as int) is None,
        },
{
    let j = skip_digits(s, i);
    if j == i || j - i > 3 {
        return None;
    }
    proof {
        lemma_digits_end(s@, i as int);
    }
    let mut v: u32 = 0;
    let mut k: usize = i;
    while k < j
        invariant
            i <= k <= j <= s@.len(),
            j - i <= 3,
            forall|x: int| i <= x < j ==> is_digit(#[trigger] s@[x]),
            v as nat == digits_val(s@.subrange(i as int, k as int)),
            v < 1000,
            k - i == 0 ==> v == 0,
            k - i == 1 ==> v < 10,
            k - i == 2 ==> v < 100,
        decreases j - k,
    {
        proof {
            let p = s@.subrange(i as int, k as int);
            assert(s@.subrange(i as int, k + 1) =~= p.push(s@[k as int]));
            assert(p.push(s@[k as int]).drop_last() =~= p);
        }
        v = v * 10 + (s[k] as u32 - '0' as u32);
        k = k + 1;
    }
    if v > 255 {
        None
    } else {
        Some((v as u8, j))
    }
}

/// Hex digits.
pub open spec fn is_hex(c: char) -> bool {
    is_digit(c) || ('a' <= c <= 'f') || ('A' <= c <= 'F')
}

pub open spec fn hex_val(c: char) -> int {
    if is_digit(c) {
        digit_val(c) as int
    } else if 'a' <= c <= 'f' {
        c as u32 - 'a' as u32 + 10
    } else {
        c as u32 - 'A' as u32 + 10
    }
}

fn hex_of(c: char) -> (r: u8)
    requires
        is_hex(c),
    ensures
        r as int == hex_val(c),
        r < 16,
{
    if '0' <= c && c <= '9' {
        (c as u32 - '0' as u32) as u8
    } else if 'a' <= c && c <= 'f' {
        (c as u32 - 'a' as u32 + 10) as u8
    } else {
        (c as u32 - 'A' as u32 + 10) as u8
    }
}

/// Alpha of an alpha byte: `byte / 255` in millionths, rounded half up.
pub open spec fn alpha_of_byte(x: int) -> int {
    (2 * x * (OPAQUE as int) + 255) / 510
}

/// The `x`-th hex digit after the optional `#`.
pub open spec fn hx(s: Seq<char>, x: int) -> int {
    let b: int = if s.len() > 0 && s[0] == '#' { 1 } else { 0 };
    hex_val(s[b + x])
}

/// `#?` then 3, 4, 6 or 8 hex digits; short forms repeat each digit.
pub open spec fn hex_spec(s: Seq<char>) -> Option<ColorData> {
    let b: int = if s.len() > 0 && s[0] == '#' { 1 } else { 0 };
    let n = s.len() - b;
    if (n == 3 || n == 4 || n == 6 || n == 8) && forall|k: int| b <= k < s.len() ==> is_hex(s[k]) {
        if n == 3 {
            Some(ColorData { r: (hx(s, 0) * 17) as u8, g: (hx(s, 1) * 17) as u8, b: (hx(s, 2) * 17) as u8, a: OPAQUE })
        } else if n == 4 {
            Some(ColorData { r: (hx(s, 0) * 17) as u8, g: (hx(s, 1) * 17) as u8, b: (hx(s, 2) * 17) as u8, a: alpha_of_byte(hx(s, 3) * 17) as u32 })
        } else if n == 6 {
            Some(ColorData { r: (hx(s, 0) * 16 + hx(s, 1)) as u8, g: (hx(s, 2) * 16 + hx(s, 3)) as u8, b: (hx(s, 4) * 16 + hx(s, 5)) as u8, a: OPAQUE })
        } else {
            Some(ColorData { r: (hx(s, 0) * 16 + hx(s, 1)) as u8, g: (hx(s, 2) * 16 + hx(s, 3)) as u8, b: (hx(s, 4) * 16 + hx(s, 5)) as u8, a: alpha_of_byte(hx(s, 6) * 16 + hx(s, 7)) as u32 })
        }
    } else {
        None
    }
}

fn alpha_byte(x: u8) -> (r: u32)
    ensures
        r as int == alpha_of_byte(x as int),
        r <= OPAQUE,
{
    ((2 * (x as u64) * 1_000_000 + 255) / 510) as u32
}

pub fn parse_hex(s: &Vec<char>) -> (r: Option<ColorData>)
    ensures
        r == hex_spec(s@),
        r matches Some(c) ==> c.wf(),
{
    let b: usize = if s.len() > 0 && s[0] == '#' { 1 } else { 0 };
    let n = s.len() - b;
    if !(n == 3 || n == 4 || n == 6 || n == 8) {
        return None;
    }
    let mut k: usize = b;
    while k < s.len()
        invariant
            b <= k <= s@.len(),
            b == (if s@.len() > 0 && s@[0] == '#' { 1int } else { 0int }),
            n == s@.len() - b,
            n == 3 || n == 4 || n == 6 || n == 8,
            forall|x: int| b <= x < k ==> is_hex(#[trigger] s@[x]),
        decreases s@.len() - k,
    {
        let c = s[k];
        if !(('0' <= c && c <= '9') || ('a' <= c && c <= 'f') || ('A' <= c && c <= 'F')) {
            assert(!is_hex(s@[k as int]));
            assert(hex_spec(s@) is None) by {
                let bb: int = if s@.len() > 0 && s@[0] == '#' { 1 } else { 0 };
                assert(bb == b);
                assert(!is_hex(s@[k as int]) && bb <= k < s@.len());
            }
            return None;
        }
        k = k + 1;
    }
    let h0 = hex_of(s[b]);
    let h1 = hex_of(s[b + 1]);
    let h2 = hex_of(s[b + 2]);
    if n == 3 {
        Some(ColorData { r: h0 * 17, g: h1 * 17, b: h2 * 17, a: OPAQUE })
    } else if n == 4 {
        let h3 = hex_of(s[b + 3]);
        Some(ColorData { r: h0 * 17, g: h1 * 17, b: h2 * 17, a: alpha_byte(h3 * 17) })
    } else {
        let h3 = hex_of(s[b + 3]);
        let h4 = hex_of(s[b + 4]);
        let h5 = hex_of(s[b + 5]);
        let (r, g, bl) = (h0 * 16 + h1, h2 * 16 + h3, h4 * 16 + h5);
        if n == 6 {
            Some(ColorData { r, g, b: bl, a: OPAQUE })
        } else {
            let h6 = hex_of(s[b + 6]);
            let h7 = hex_of(s[b + 7]);
            Some(ColorData { r, g, b: bl, a: alpha_byte(h6 * 16 + h7) })
        }
    }
}


/// `rgb(r, g, b)` or `rgba(r, g, b, a)`, keyword in any case.
pub open spec fn rgb_spec(s: Seq<char>) -> Option<ColorData> {
    if s.len() >= 3 && ci(s[0], 'r') && ci(s[1], 'g') && ci(s[2], 'b') {
        let i0: int = if s.len() > 3 && ci(s[3], 'a') { 4 } else { 3 };
        match punct(s, i0, '(') {
            Some(i1) => match byte_field(s, i1) {
                Some((r, i2)) => match punct(s, i2, ',') {
                    Some(i3) => match byte_field(s, i3) {
                        Some((g, i4)) => match punct(s, i4, ',') {
                            Some(i5) => match byte_field(s, i5) {
                                Some((b, i6)) => match closing(s, i6, ',') {
                                    Some(a) => Some(
                                        ColorData { r: r as u8, g: g as u8, b: b as u8, a: a as u32 },
                                    ),
                                    None => None,
                                },
                                None => None,
                            },
                            None => None,
                        },
                        None => None,
                    },
                    None => None,
                },
                None => None,
            },
            None => None,
        }
    } else {
        None
    }
}

pub fn parse_rgb(s: &Vec<char>) -> (r: Option<ColorData>)
    ensures
        r == rgb_spec(s@),
        r matches Some(c) ==> c.wf(),
{
    if !(s.len() >= 3 && ci_eq(s[0], 'r') && ci_eq(s[1], 'g') && ci_eq(s[2], 'b')) {
        return None;
    }
    let i0: usize = if s.len() > 3 && ci_eq(s[3], 'a') { 4 } else { 3 };
    let i1 = match punct_at(s, i0, '(') { Some(x) => x, None => return None };
    let (r, i2) = match byte_at(s, i1) { Some(x) => x, None => return None };
    let i3 = match punct_at(s, i2, ',') { Some(x) => x, None => return None };
    let (g, i4) = match byte_at(s, i3) { Some(x) => x, None => return None };
    let i5 = match punct_at(s, i4, ',') { Some(x) => x, None => return None };
    let (b, i6) = match byte_at(s, i5) { Some(x) => x, None => return None };
    let a = match closing_at(s, i6, ',') { Some(x) => x, None => return None };
    Some(ColorData { r, g, b, a })
}

/// One to three digits, then optionally a dot and at least one digit: the
/// value in millionths.
pub open spec fn num_field(s: Seq<char>, i: int) -> Option<(int, int)> {
    let j = digits_end(s, i);
    if 1 <= j - i <= 3 {
        let k = if j < s.len() && s[j] == '.' { digits_end(s, j + 1) } else { j };
        if (j < s.len() && s[j] == '.' && k == j + 1) || !dec_ok(s.subrange(i, k)) {
            None
        } else {
            Some((dec_units(s.subrange(i, k)) as int, k))
        }
    } else {
        None
    }
}

fn num_at(s: &Vec<char>, i: usize) -> (r: Option<(u64, usize)>)
    requires
        i <= s@.len(),
    ensures
        match r {
            Some((v, j)) => num_field(s@, i as int) == Some((v as int, j as int)) && j <= s@.len(),
            None => num_field(s@, i as int) is None,
        },
{
    let j = skip_digits(s, i);
    if j == i || j - i > 3 {
        return None;
    }
    let dot = j < s.len() && s[j] == '.';
    let k = if dot { skip_digits(s, j + 1) } else { j };
    if dot && k == j + 1 {
        return None;
    }
    proof {
        lemma_digits_end(s@, i as int);
        if dot {
            lemma_digits_end(s@, j + 1);
        }
        assert forall|x: int| i <= x < k implies is_num_char(#[trigger] s@[x]) by {
            if x < j {
                assert(is_digit(s@[x]));
            } else if x > j {
                assert(is_digit(s@[x]));
            }
        }
    }
    match parse_decimal(s, i, k) {
        Some(v) => Some((v, k)),
        None => None,
    }
}


/// Skips one optional percent sign.
pub open spec fn opt_pct(s: Seq<char>, i: int) -> int {
    if 0 <= i < s.len() && s[i] == '%' {
        i + 1
    } else {
        i
    }
}

fn pct_at(s: &Vec<char>, i: usize) -> (r: usize)
    requires
        i <= s@.len(),
    ensures
        r == opt_pct(s@, i as int),
        r <= s@.len(),
{
    if i < s.len() && s[i] == '%' {
        i + 1
    } else {
        i
    }
}

/// The RGB bytes of an `hsl()` color whose numbers are in range.
pub open spec fn hsl_color(h: int, sv: int, lv: int, a: int) -> Option<ColorData> {
    if h <= TURN && sv <= HSL_ONE && lv <= HSL_ONE {
        let (r, g, b) = hsl_rgb(h, sv, lv);
        Some(ColorData { r, g, b, a: a as u32 })
    } else {
        None
    }
}

/// `hsl(h, s%, l%)` or `hsla(h, s%, l%, a)`, keyword in any case, percent
/// signs optional; hue at most 360, saturation and lightness at most 100%.
pub open spec fn hsl_spec(s: Seq<char>) -> Option<ColorData> {
    if s.len() >= 3 && ci(s[0], 'h') && ci(s[1], 's') && ci(s[2], 'l') {
        let i0: int = if s.len() > 3 && ci(s[3], 'a') { 4 } else { 3 };
        match punct(s, i0, '(') {
            Some(i1) => match num_field(s, i1) {
                Some((h, i2)) => match punct(s, i2, ',') {
                    Some(i3) => match num_field(s, i3) {
                        Some((sv, i4)) => match punct(s, opt_pct(s, i4), ',') {
                            Some(i5) => match num_field(s, i5) {
                                Some((lv, i6)) => match closing(s, opt_pct(s, i6), ',') {
                                    Some(a) => hsl_color(h, sv, lv, a),
                                    None => None,
                                },
                                None => None,
                            },
                            None => None,
                        },
                        None => None,
                    },
                    None => None,
                },
                None => None,
            },
            None => None,
        }
    } else {
        None
    }
}

pub fn parse_hsl(s: &Vec<char>) -> (r: Option<ColorData>)
    ensures
        r == hsl_spec(s@),
        r matches Some(c) ==> c.wf(),
{
    if !(s.len() >= 3 && ci_eq(s[0], 'h') && ci_eq(s[1], 's') && ci_eq(s[2], 'l')) {
        return None;
    }
    let i0: usize = if s.len() > 3 && ci_eq(s[3], 'a') { 4 } else { 3 };
    let i1 = match punct_at(s, i0, '(') { Some(x) => x, None => return None };
    let (h, i2) = match num_at(s, i1) { Some(x) => x, None => return None };
    let i3 = match punct_at(s, i2, ',') { Some(x) => x, None => return None };
    let (sv, i4) = match num_at(s, i3) { Some(x) => x, None => return None };
    let i5 = match punct_at(s, pct_at(s, i4), ',') { Some(x) => x, None => return None };
    let (lv, i6) = match num_at(s, i5) { Some(x) => x, None => return None };
    let a = match closing_at(s, pct_at(s, i6), ',') { Some(x) => x, None => return None };
    if h <= TURN && sv <= HSL_ONE && lv <= HSL_ONE {
        let (r, g, b) = hsl_to_rgb(h, sv, lv);
        Some(ColorData { r, g, b, a })
    } else {
        None
    }
}

/// A non-empty run of digits and dots that reads as a number: its value.
pub open spec fn token(s: Seq<char>, i: int) -> Option<(int, int)> {
    let e = num_end(s, i);
    if e > i && dec_ok(s.subrange(i, e)) {
        Some((dec_units(s.subrange(i, e)) as int, e))
    } else {
        None
    }
}

fn token_at(s: &Vec<char>, i: usize) -> (r: Option<(u64, usize)>)
    requires
        i <= s@.len(),
    ensures
        match r {
            Some((v, e)) => token(s@, i as int) == Some((v as int, e as int)) && e <= s@.len(),
            None => token(s@, i as int) is None,
        },
{
    let e = skip_num(s, i);
    if e == i {
        return None;
    }
    proof {
        lemma_num_end(s@, i as int);
    }
    match parse_decimal(s, i, e) {
        Some(v) => Some((v, e)),
        None => None,
    }
}

/// At least one space: the position after the run, or `None`.
pub open spec fn gap(s: Seq<char>, i: int) -> Option<int> {
    if spaces_end(s, i) > i {
        Some(spaces_end(s, i))
    } else {
        None
    }
}

/// The OKLCH coordinates of an `oklch()` color whose numbers are in range.
pub open spec fn oklch_color(l: int, c: int, h: int, a: int) -> Option<Oklch> {
    if l <= 100 * MICRO && h <= TURN {
        Some(Oklch { l: l as u64, c: c as u64, h: h as u64, a: a as u32 })
    } else {
        None
    }
}

/// `oklch(L% C H)` or `oklch(L% C H / A)`, keyword in any case, numbers
/// separated by spaces; lightness at most 100%, hue at most 360.
pub open spec fn oklch_spec(s: Seq<char>) -> Option<Oklch> {
    if s.len() >= 5 && ci(s[0], 'o') && ci(s[1], 'k') && ci(s[2], 'l') && ci(s[3], 'c') && ci(
        s[4],
        'h',
    ) {
        match punct(s, 5, '(') {
            Some(i1) => match token(s, i1) {
                Some((l, i2)) => match gap(s, opt_pct(s, i2)) {
                    Some(i3) => match token(s, i3) {
                        Some((c, i4)) => match gap(s, i4) {
                            Some(i5) => match token(s, i5) {
                                Some((h, i6)) => match closing(s, i6, '/') {
                                    Some(a) => oklch_color(l, c, h, a),
                                    None => None,
                                },
                                None => None,
                            },
                            None => None,
                        },
                        None => None,
                    },
                    None => None,
                },
                None => None,
            },
            None => None,
        }
    } else {
        None
    }
}

fn gap_at(s: &Vec<char>, i: usize) -> (r: Option<usize>)
    requires
        i <= s@.len(),
    ensures
        opt_eq(r, gap(s@, i as int)),
        r matches Some(x) ==> x <= s@.len(),
{
    let j = skip_spaces(s, i);
    if j > i {
        Some(j)
    } else {
        None
    }
}

pub fn parse_oklch(s: &Vec<char>) -> (r: Option<Oklch>)
    ensures
        r == oklch_spec(s@),
        r matches Some(c) ==> c.a <= OPAQUE,
{
    if !(s.len() >= 5 && ci_eq(s[0], 'o') && ci_eq(s[1], 'k') && ci_eq(s[2], 'l') && ci_eq(
        s[3],
        'c',
    ) && ci_eq(s[4], 'h')) {
        return None;
    }
    let i1 = match punct_at(s, 5, '(') { Some(x) => x, None => return None };
    let (l, i2) = match token_at(s, i1) { Some(x) => x, None => return None };
    let i3 = match gap_at(s, pct_at(s, i2)) { Some(x) => x, None => return None };
    let (c, i4) = match token_at(s, i3) { Some(x) => x, None => return None };
    let i5 = match gap_at(s, i4) { Some(x) => x, None => return None };
    let (h, i6) = match token_at(s, i5) { Some(x) => x, None => return None };
    let a = match closing_at(s, i6, '/') { Some(x) => x, None => return None };
    if l <= 100 * MICRO && h <= TURN {
        Some(Oklch { l, c, h, a })
    } else {
        None
    }
}


/// The first notation that matches the trimmed input, tried in the order
/// hex, `rgb()`, `hsl()`, `oklch()`; the trimmed input when none does.
pub open spec fn parse_spec(s: Seq<char>) -> Result<ParsedColor, Seq<char>> {
    let t = trimmed(s);
    if hex_spec(t) is Some {
        Ok(ParsedColor::Rgb(hex_spec(t)->0))
    } else if rgb_spec(t) is Some {
        Ok(ParsedColor::Rgb(rgb_spec(t)->0))
    } else if hsl_spec(t) is Some {
        Ok(ParsedColor::Rgb(hsl_spec(t)->0))
    } else if oklch_spec(t) is Some {
        Ok(ParsedColor::Oklch(oklch_spec(t)->0))
    } else {
        Err(t)
    }
}

impl ParsedColor {
    pub open spec fn wf(self) -> bool {
        match self {
            ParsedColor::Rgb(c) => c.wf(),
            ParsedColor::Oklch(o) => o.a <= OPAQUE,
        }
    }
}

impl Color {
    /// Parses a color notation; see `parse_spec`.
    pub fn parse(input: &str) -> (r: Result<ParsedColor, ColorParseError>)
        ensures
            match r {
                Ok(p) => parse_spec(input@) == Ok::<ParsedColor, Seq<char>>(p) && p.wf(),
                Err(ColorParseError::InvalidFormat(e)) => parse_spec(input@) == Err::<
                    ParsedColor,
                    Seq<char>,
                >(e@),
            },
    {
        let all = to_chars(input);
        let (lo, hi) = trim_bounds(&all);
        let t = sub_chars(&all, lo, hi);
        if let Some(c) = parse_hex(&t) {
            return Ok(ParsedColor::Rgb(c));
        }
        if let Some(c) = parse_rgb(&t) {
            return Ok(ParsedColor::Rgb(c));
        }
        if let Some(c) = parse_hsl(&t) {
            return Ok(ParsedColor::Rgb(c));
        }
        if let Some(c) = parse_oklch(&t) {
            return Ok(ParsedColor::Oklch(c));
        }
        let e = string_of(&t, 0, t.len());
        assert(e@ =~= trimmed(input@));
        Err(ColorParseError::InvalidFormat(e))
    }
}

} // verus!

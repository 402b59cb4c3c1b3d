//! Canonical text forms of a color: hex, `rgb()` and `hsl()`.

use vstd::prelude::*;
use vstd::string::*;
use crate::chars::push_char;
use crate::color::{Color, ColorData, ColorParseError, OPAQUE};
use crate::convert::{hsl_display, hue_parts, light_num, round_div, sat_parts};
use crate::format::{
    dec_str, digit_char, digit_chars, fixed2, hex2, push_dec, push_fixed2, push_hex2,
};
use crate::lexer::{is_space, spaces_end, trail_start, trimmed};
use crate::notation::{alpha_of_byte, hex_spec, hex_val, hx, is_hex, parse_spec};
use crate::color::ParsedColor;

verus! {

/// The alpha byte of an alpha in millionths: `a * 255` rounded half up.
pub open spec fn alpha_to_byte(a: int) -> int {
    (2 * (a * 255) + 1_000_000) / 2_000_000
}

/// `#RRGGBB`, or `#RRGGBBAA` when the color is not opaque.
pub open spec fn hex_str(c: ColorData) -> Seq<char> {
    let base = seq!['#'] + hex2(c.r as int) + hex2(c.g as int) + hex2(c.b as int);
    if c.a == OPAQUE {
        base
    } else {
        base + hex2(alpha_to_byte(c.a as int))
    }
}

/// `rgb(r, g, b)`, or `rgba(r, g, b, a)` with two decimals of alpha.
pub open spec fn rgb_str(c: ColorData) -> Seq<char> {
    let body = dec_str(c.r as nat) + ", "@ + dec_str(c.g as nat) + ", "@ + dec_str(c.b as nat);
    if c.a == OPAQUE {
        "rgb("@ + body + ")"@
    } else {
        "rgba("@ + body + ", "@ + fixed2(c.a as int) + ")"@
    }
}

/// Hue in degrees, saturation and lightness in percent, each rounded.
pub open spec fn hsl_rounded(c: ColorData) -> (nat, nat, nat) {
    let (r, g, b) = (c.r as int, c.g as int, c.b as int);
    (
        round_div(hue_parts(r, g, b).0, hue_parts(r, g, b).1) as nat,
        round_div(100 * sat_parts(r, g, b).0, sat_parts(r, g, b).1) as nat,
        round_div(100 * light_num(r, g, b), 510) as nat,
    )
}

/// `hsl(h, s%, l%)`, or `hsla(h, s%, l%, a)` with two decimals of alpha.
pub open spec fn hsl_str(c: ColorData) -> Seq<char> {
    let (h, s, l) = hsl_rounded(c);
    let body = dec_str(h) + ", "@ + dec_str(s) + "%, "@ + dec_str(l) + "%"@;
    if c.a == OPAQUE {
        "hsl("@ + body + ")"@
    } else {
        "hsla("@ + body + ", "@ + fixed2(c.a as int) + ")"@
    }
}

impl ColorData {
    pub fn to_hex(&self) -> (r: String)
        requires
            self.wf(),
        ensures
            r@ == hex_str(*self),
    {
        let mut s = String::new();
        push_char(&mut s, '#');
        push_hex2(&mut s, self.r);
        push_hex2(&mut s, self.g);
        push_hex2(&mut s, self.b);
        if self.a != OPAQUE {
            let x = (2 * (self.a as u64 * 255) + 1_000_000) / 2_000_000;
            assert(x <= 255) by (nonlinear_arith)
                requires x == (2 * (self.a as u64 * 255) + 1_000_000) / 2_000_000, self.a <= 1_000_000;
            push_hex2(&mut s, x as u8);
        }
        assert(s@ =~= hex_str(*self));
        s
    }

    pub fn to_rgb(&self) -> (r: String)
        ensures
            r@ == rgb_str(*self),
    {
        let mut s = String::new();
        if self.a == OPAQUE {
            s.append("rgb(");
        } else {
            s.append("rgba(");
        }
        let ghost start = s@;
        push_dec(&mut s, self.r as u64);
        s.append(", ");
        push_dec(&mut s, self.g as u64);
        s.append(", ");
        push_dec(&mut s, self.b as u64);
        if self.a != OPAQUE {
            s.append(", ");
            push_fixed2(&mut s, self.a);
        }
        s.append(")");
        assert(s@ =~= rgb_str(*self));
        s
    }

    pub fn to_hsl(&self) -> (r: String)
        ensures
            r@ == hsl_str(*self),
    {
        let (h, sat, l) = hsl_display(self.r, self.g, self.b);
        let mut s = String::new();
        if self.a == OPAQUE {
            s.append("hsl(");
        } else {
            s.append("hsla(");
        }
        push_dec(&mut s, h);
        s.append(", ");
        push_dec(&mut s, sat);
        s.append("%, ");
        push_dec(&mut s, l);
        s.append("%");
        if self.a != OPAQUE {
            s.append(", ");
            push_fixed2(&mut s, self.a);
        }
        s.append(")");
        assert(s@ =~= hsl_str(*self));
        s
    }
}

impl Color {
    pub fn to_hex(&self) -> (r: String)
        requires
            self.data().wf(),
        ensures
            r@ == hex_str(self.data()),
    {
        self.to_data().to_hex()
    }

    pub fn to_rgb(&self) -> (r: String)
        ensures
            r@ == rgb_str(self.data()),
    {
        self.to_data().to_rgb()
    }

    pub fn to_hsl(&self) -> (r: String)
        ensures
            r@ == hsl_str(self.data()),
    {
        self.to_data().to_hsl()
    }

    /// The hex form.
    pub fn default_label(&self) -> (r: String)
        requires
            self.data().wf(),
        ensures
            r@ == hex_str(self.data()),
    {
        self.to_hex()
    }
}

impl ColorParseError {
    /// `Invalid color format: '<input>'`.
    pub fn message(&self) -> (r: String)
        ensures
            match self {
                ColorParseError::InvalidFormat(e) => r@ == "Invalid color format: '"@ + e@ + "'"@,
            },
    {
        match self {
            ColorParseError::InvalidFormat(e) => {
                let mut s = String::from_str("Invalid color format: '");
                s.append(e.as_str());
                s.append("'");
                s
            },
        }
    }
}


proof fn lemma_digit_char(v: int)
    requires
        0 <= v < 16,
    ensures
        is_hex(digit_char(v)),
        hex_val(digit_char(v)) == v,
        !is_space(digit_char(v)),
{
    let d = digit_chars();
    assert(v == 0 || v == 1 || v == 2 || v == 3 || v == 4 || v == 5 || v == 6 || v == 7 || v == 8
        || v == 9 || v == 10 || v == 11 || v == 12 || v == 13 || v == 14 || v == 15);
}

/// The color that reading back the hex form of `c` gives: `c` itself, with
/// its alpha rounded to the nearest alpha byte.
pub open spec fn hex_read_back(c: ColorData) -> ColorData {
    ColorData {
        r: c.r,
        g: c.g,
        b: c.b,
        a: if c.a == OPAQUE {
            OPAQUE
        } else {
            alpha_of_byte(alpha_to_byte(c.a as int)) as u32
        },
    }
}

/// Parsing the hex form of a color gives back its bytes; alpha survives
/// up to the precision of one alpha byte.
#[verifier::rlimit(40)]
pub proof fn lemma_hex_round_trip(c: ColorData)
    requires
        c.wf(),
    ensures
        parse_spec(hex_str(c)) == Ok::<ParsedColor, Seq<char>>(ParsedColor::Rgb(hex_read_back(c))),
{
    let s = hex_str(c);
    let x = alpha_to_byte(c.a as int);
    assert(0 <= x <= 255) by (nonlinear_arith)
        requires x == (2 * (c.a as int * 255) + 1_000_000) / 2_000_000, 0 <= c.a <= 1_000_000;
    let vals: Seq<int> = if c.a == OPAQUE {
        seq![c.r as int, c.g as int, c.b as int]
    } else {
        seq![c.r as int, c.g as int, c.b as int, x]
    };
    assert(s.len() == 1 + 2 * vals.len());
    assert(s[0] == '#');
    assert forall|k: int| 0 <= k < vals.len() implies s[1 + 2 * k] == digit_char(
        #[trigger] vals[k] / 16,
    ) && s[2 + 2 * k] == digit_char(vals[k] % 16) && 0 <= vals[k] <= 255 by {}
    assert forall|k: int| 1 <= k < s.len() implies is_hex(#[trigger] s[k]) && !is_space(s[k]) by {
        let j = (k - 1) / 2;
        assert(0 <= j < vals.len());
        lemma_digit_char(vals[j] / 16);
        lemma_digit_char(vals[j] % 16);
    }
    assert forall|k: int| 0 <= k < vals.len() implies hx(s, 2 * k) * 16 + hx(s, 2 * k + 1) == #[trigger] vals[k] by {
        lemma_digit_char(vals[k] / 16);
        lemma_digit_char(vals[k] % 16);
    }
    assert(spaces_end(s, 0) == 0);
    lemma_trail_full(s);
    assert(s.subrange(0, s.len() as int) =~= s);
    assert(trimmed(s) == s);
    assert(hx(s, 0) * 16 + hx(s, 1) == vals[0]);
    assert(hx(s, 2) * 16 + hx(s, 3) == vals[1]);
    assert(hx(s, 4) * 16 + hx(s, 5) == vals[2]);
    if c.a != OPAQUE {
        assert(hx(s, 6) * 16 + hx(s, 7) == vals[3]);
    }
    assert(hex_spec(s) == Some(hex_read_back(c)));
}

proof fn lemma_trail_full(s: Seq<char>)
    requires
        s.len() > 0,
        !is_space(s.last()),
    ensures
        trail_start(s, s.len() as int) == s.len(),
{
}

} // verus!

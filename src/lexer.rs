//! Character classes and cursor-based scanning primitives for the color
//! notations: whitespace, ASCII digits, decimal numbers and case-insensitive
//! keywords.

use vstd::prelude::*;

verus! {

/// One unit of a decimal value: values are held in millionths.
pub const MICRO: u64 = 1_000_000;

/// Decimal values saturate here (a million million units).
pub const DEC_CAP: u64 = 1_000_000_000_000_000_000;

/// Integer parts saturate here; `INT_CAP * MICRO == DEC_CAP`.
pub const INT_CAP: u64 = 1_000_000_000_000;

/// Unicode `White_Space`, the class that `str::trim` and `\s` both use.
pub open spec fn is_space(c: char) -> bool {
    let u = c as u32;
    (9 <= u <= 13) || u == 32 || u == 0x85 || u == 0xa0 || u == 0x1680 || (0x2000 <= u <= 0x200a)
        || u == 0x2028 || u == 0x2029 || u == 0x202f || u == 0x205f || u == 0x3000
}

pub fn space(c: char) -> (r: bool)
    ensures
        r == is_space(c),
{
    let u = c as u32;
    (9 <= u && u <= 13) || u == 32 || u == 0x85 || u == 0xa0 || u == 0x1680 || (0x2000 <= u && u
        <= 0x200a) || u == 0x2028 || u == 0x2029 || u == 0x202f || u == 0x205f || u == 0x3000
}

pub open spec fn is_digit(c: char) -> bool {
    '0' <= c <= '9'
}

pub open spec fn digit_val(c: char) -> nat {
    (c as u32 - '0' as u32) as nat
}

/// Value of a run of ASCII digits, most significant first.
pub open spec fn digits_val(s: Seq<char>) -> nat
    decreases s.len(),
{
    if s.len() == 0 {
        0
    } else {
        digits_val(s.drop_last()) * 10 + digit_val(s.last())
    }
}

/// The first position at or after `i` that is not whitespace.
pub open spec fn spaces_end(s: Seq<char>, i: int) -> int
    recommends
        0 <= i <= s.len(),
    decreases s.len() - i,
{
    if 0 <= i < s.len() && is_space(s[i]) {
        spaces_end(s, i + 1)
    } else {
        i
    }
}

/// The first position at or after `i` that is not an ASCII digit.
pub open spec fn digits_end(s: Seq<char>, i: int) -> int
    decreases s.len() - i,
{
    if 0 <= i < s.len() && is_digit(s[i]) {
        digits_end(s, i + 1)
    } else {
        i
    }
}

pub open spec fn is_num_char(c: char) -> bool {
    is_digit(c) || c == '.'
}

/// The first position at or after `i` that is neither a digit nor a dot.
pub open spec fn num_end(s: Seq<char>, i: int) -> int
    decreases s.len() - i,
{
    if 0 <= i < s.len() && is_num_char(s[i]) {
        num_end(s, i + 1)
    } else {
        i
    }
}

pub proof fn lemma_spaces_end(s: Seq<char>, i: int)
    requires
        0 <= i <= s.len(),
    ensures
        i <= spaces_end(s, i) <= s.len(),
        forall|k: int| i <= k < spaces_end(s, i) ==> is_space(#[trigger] s[k]),
        spaces_end(s, i) < s.len() ==> !is_space(s[spaces_end(s, i)]),
    decreases s.len() - i,
{
    if i < s.len() && is_space(s[i]) {
        lemma_spaces_end(s, i + 1);
    }
}

pub proof fn lemma_digits_end(s: Seq<char>, i: int)
    requires
        0 <= i <= s.len(),
    ensures
        i <= digits_end(s, i) <= s.len(),
        forall|k: int| i <= k < digits_end(s, i) ==> is_digit(#[trigger] s[k]),
    decreases s.len() - i,
{
    if i < s.len() && is_digit(s[i]) {
        lemma_digits_end(s, i + 1);
    }
}

pub proof fn lemma_num_end(s: Seq<char>, i: int)
    requires
        0 <= i <= s.len(),
    ensures
        i <= num_end(s, i) <= s.len(),
        forall|k: int| i <= k < num_end(s, i) ==> is_num_char(#[trigger] s[k]),
    decreases s.len() - i,
{
    if i < s.len() && is_num_char(s[i]) {
        lemma_num_end(s, i + 1);
    }
}

pub fn skip_spaces(s: &Vec<char>, i: usize) -> (r: usize)
    requires
        i <= s@.len(),
    ensures
        r == spaces_end(s@, i as int),
        i <= r <= s@.len(),
{
    let mut j = i;
    while j < s.len() && space(s[j])
        invariant
            i <= j <= s@.len(),
            spaces_end(s@, j as int) == spaces_end(s@, i as int),
        decreases s@.len() - j,
    {
        j = j + 1;
    }
    proof {
        lemma_spaces_end(s@, i as int);
    }
    j
}

pub fn skip_digits(s: &Vec<char>, i: usize) -> (r: usize)
    requires
        i <= s@.len(),
    ensures
        r == digits_end(s@, i as int),
        i <= r <= s@.len(),
{
    let mut j = i;
    while j < s.len() && '0' <= s[j] && s[j] <= '9'
        invariant
            i <= j <= s@.len(),
            digits_end(s@, j as int) == digits_end(s@, i as int),
        decreases s@.len() - j,
    {
        j = j + 1;
    }
    proof {
        lemma_digits_end(s@, i as int);
    }
    j
}

pub fn skip_num(s: &Vec<char>, i: usize) -> (r: usize)
    requires
        i <= s@.len(),
    ensures
        r == num_end(s@, i as int),
        i <= r <= s@.len(),
{
    let mut j = i;
    while j < s.len() && (('0' <= s[j] && s[j] <= '9') || s[j] == '.')
        invariant
            i <= j <= s@.len(),
            num_end(s@, j as int) == num_end(s@, i as int),
        decreases s@.len() - j,
    {
        j = j + 1;
    }
    proof {
        lemma_num_end(s@, i as int);
    }
    j
}


/// The position after the last non-space character before `j`.
pub open spec fn trail_start(s: Seq<char>, j: int) -> int
    decreases j,
{
    if 0 < j <= s.len() && is_space(s[j - 1]) {
        trail_start(s, j - 1)
    } else {
        j
    }
}

/// `s` without leading and trailing whitespace.
pub open spec fn trimmed(s: Seq<char>) -> Seq<char> {
    let lo = spaces_end(s, 0);
    let hi = trail_start(s, s.len() as int);
    if lo < hi {
        s.subrange(lo, hi)
    } else {
        Seq::empty()
    }
}

proof fn lemma_trail_start(s: Seq<char>, j: int)
    requires
        0 <= j <= s.len(),
    ensures
        0 <= trail_start(s, j) <= j,
        trail_start(s, j) > 0 ==> !is_space(s[trail_start(s, j) - 1]),
    decreases j,
{
    if 0 < j && is_space(s[j - 1]) {
        lemma_trail_start(s, j - 1);
    }
}

/// The bounds of `s` without leading and trailing whitespace.
pub fn trim_bounds(s: &Vec<char>) -> (r: (usize, usize))
    ensures
        r.0 <= r.1 <= s@.len(),
        s@.subrange(r.0 as int, r.1 as int) == trimmed(s@),
{
    let lo = skip_spaces(s, 0);
    let mut hi = s.len();
    while hi > lo && space(s[hi - 1])
        invariant
            lo <= hi <= s@.len(),
            lo == spaces_end(s@, 0),
            trail_start(s@, hi as int) == trail_start(s@, s@.len() as int),
            forall|x: int| hi <= x < s@.len() ==> is_space(#[trigger] s@[x]),
        decreases hi,
    {
        hi = hi - 1;
    }
    proof {
        lemma_spaces_end(s@, 0);
        lemma_trail_start(s@, s@.len() as int);
        if lo < s@.len() {
            assert(!is_space(s@[lo as int]));
            if hi == lo {
                assert(is_space(s@[lo as int]));
            }
        }
        if lo < hi {
            assert(trail_start(s@, hi as int) == hi);
        } else {
            assert(s@.subrange(lo as int, hi as int) =~= Seq::<char>::empty());
        }
    }
    (lo, hi)
}

pub open spec fn pow10(n: nat) -> nat
    decreases n,
{
    if n == 0 {
        1
    } else {
        10 * pow10((n - 1) as nat)
    }
}

/// A token of digits and dots is a number when it holds at most one dot,
/// only digits after it, and at least one digit.
pub open spec fn dec_ok(t: Seq<char>) -> bool {
    let k = digits_end(t, 0);
    (k == t.len() || (t[k] == '.' && digits_end(t, k + 1) == t.len())) && (k > 0 || t.len() > k
        + 1)
}

/// The digits after the dot, if there is one.
pub open spec fn frac_digits(t: Seq<char>) -> Seq<char> {
    let k = digits_end(t, 0);
    if k < t.len() {
        t.subrange(k + 1, t.len() as int)
    } else {
        Seq::empty()
    }
}

/// The first `m` digits of `f` read as an `m`-digit number, zeros filling
/// in where `f` is shorter.
pub open spec fn scaled_prefix(f: Seq<char>, m: nat) -> nat {
    let c: nat = if m < f.len() { m } else { f.len() };
    digits_val(f.subrange(0, c as int)) * pow10((m - c) as nat)
}

/// The value of a decimal token in millionths, rounded half up at the
/// seventh fractional digit; integer parts from `INT_CAP` on give `DEC_CAP`.
pub open spec fn dec_units(t: Seq<char>) -> nat {
    let k = digits_end(t, 0);
    let ip = digits_val(t.subrange(0, k));
    let f = frac_digits(t);
    let f6 = scaled_prefix(f, 6);
    let up: nat = if f.len() > 6 && f[6] >= '5' { 1 } else { 0 };
    if ip >= INT_CAP {
        DEC_CAP as nat
    } else {
        ip * (MICRO as nat) + f6 + up
    }
}

proof fn lemma_digits_val_push(s: Seq<char>, c: char)
    ensures
        digits_val(s.push(c)) == digits_val(s) * 10 + digit_val(c),
{
    assert(s.push(c).drop_last() =~= s);
}

proof fn lemma_digits_val_bound(s: Seq<char>)
    requires
        forall|k: int| 0 <= k < s.len() ==> is_digit(#[trigger] s[k]),
    ensures
        digits_val(s) < pow10(s.len()),
    decreases s.len(),
{
    if s.len() > 0 {
        let d = s.drop_last();
        assert forall|k: int| 0 <= k < d.len() implies is_digit(#[trigger] d[k]) by {
            assert(d[k] == s[k]);
        }
        lemma_digits_val_bound(d);
        let a = digits_val(d);
        let b = pow10(d.len());
        assert(a * 10 + digit_val(s.last()) < b * 10) by (nonlinear_arith)
            requires
                a < b,
                digit_val(s.last()) < 10,
        ;
    }
}

/// Reads the decimal token `s[i..j]`: `None` when it is not a number.
pub fn parse_decimal(s: &Vec<char>, i: usize, j: usize) -> (r: Option<u64>)
    requires
        i <= j <= s@.len(),
        forall|k: int| i <= k < j ==> is_num_char(#[trigger] s@[k]),
    ensures
        r is Some <==> dec_ok(s@.subrange(i as int, j as int)),
        r is Some ==> r->0 == dec_units(s@.subrange(i as int, j as int)),
{
    let ghost t = s@.subrange(i as int, j as int);
    let n = j - i;
    let mut p: usize = 0;
    let mut ip: u64 = 0;
    while p < n && '0' <= s[i + p] && s[i + p] <= '9'
        invariant
            n == t.len(),
            t == s@.subrange(i as int, j as int),
            i + n <= s@.len(),
            i <= j <= s@.len(),
            n == j - i,
            forall|x: int| 0 <= x < n ==> #[trigger] t[x] == s@[i + x],
            p <= n,
            digits_end(t, p as int) == digits_end(t, 0),
            forall|k: int| 0 <= k < p ==> is_digit(#[trigger] t[k]),
            ip as nat == if digits_val(t.subrange(0, p as int)) < INT_CAP {
                digits_val(t.subrange(0, p as int))
            } else {
                INT_CAP as nat
            },
        decreases n - p,
    {
        let d = (s[i + p] as u32 - '0' as u32) as u64;
        proof {
            assert(t.subrange(0, p + 1) =~= t.subrange(0, p as int).push(t[p as int]));
            lemma_digits_val_push(t.subrange(0, p as int), t[p as int]);
        }
        if ip >= INT_CAP || ip * 10 + d >= INT_CAP {
            ip = INT_CAP;
        } else {
            ip = ip * 10 + d;
        }
        p = p + 1;
    }
    let k = p;
    proof {
        lemma_digits_end(t, 0);
        lemma_digits_end(t, k as int);
    }
    let has_dot = k < n;
    let fstart = if has_dot { k + 1 } else { n };
    if has_dot {
        if s[i + k] != '.' {
            return None;
        }
    }
    let mut q: usize = fstart;
    while q < n && '0' <= s[i + q] && s[i + q] <= '9'
        invariant
            n == t.len(),
            t == s@.subrange(i as int, j as int),
            i + n <= s@.len(),
            i <= j <= s@.len(),
            n == j - i,
            forall|x: int| 0 <= x < n ==> #[trigger] t[x] == s@[i + x],
            fstart <= q <= n,
            has_dot ==> digits_end(t, q as int) == digits_end(t, fstart as int),
            forall|m: int| fstart <= m < q ==> is_digit(#[trigger] t[m]),
        decreases n - q,
    {
        q = q + 1;
    }
    if q < n {
        return None;
    }
    if k == 0 && n <= k + 1 {
        return None;
    }
    let ghost f = frac_digits(t);
    assert(f.len() == n - fstart);
    let flen = n - fstart;
    let mut f6: u64 = 0;
    let mut m: usize = 0;
    assert(scaled_prefix(f, 0) == 0) by {
        assert(f.subrange(0, 0) =~= Seq::<char>::empty());
        let a = digits_val(f.subrange(0, 0));
        let b = pow10(0);
        assert(a * b == 0) by (nonlinear_arith)
            requires a == 0;
    }
    assert forall|x: int| 0 <= x < flen implies is_digit(#[trigger] f[x]) by {
        assert(f[x] == t[fstart + x]);
    }
    while m < 6
        invariant
            n == t.len(),
            t == s@.subrange(i as int, j as int),
            i + n <= s@.len(),
            i <= j <= s@.len(),
            n == j - i,
            forall|x: int| 0 <= x < n ==> #[trigger] t[x] == s@[i + x],
            f == frac_digits(t),
            f.len() == flen,
            fstart + flen == n,
            forall|x: int| 0 <= x < flen ==> #[trigger] f[x] == t[fstart + x],
            forall|x: int| 0 <= x < flen ==> is_digit(#[trigger] f[x]),
            m <= 6,
            f6 as nat == scaled_prefix(f, m as nat),
            f6 < pow10(m as nat),
        decreases 6 - m,
    {
        let ghost cut: int = if m < flen { m as int } else { flen as int };
        let ghost e: nat = (m - cut) as nat;
        proof {
            lemma_digits_val_bound(f.subrange(0, cut));
            reveal_with_fuel(pow10, 7);
            assert(pow10(m as nat) <= 100_000);
        }
        if m < flen {
            assert(f[m as int] == t[fstart + m]);
            assert(is_digit(f[m as int]));
            assert(s@[(i + fstart + m) as int] == t[fstart + m]);
            let d = (s[i + fstart + m] as u32 - '0' as u32) as u64;
            proof {
                assert(f.subrange(0, m + 1) =~= f.subrange(0, m as int).push(f[m as int]));
                lemma_digits_val_push(f.subrange(0, m as int), f[m as int]);
                let a = digits_val(f.subrange(0, m as int));
                let a2 = digits_val(f.subrange(0, m + 1));
                assert(pow10(0) == 1);
                assert(a * pow10(0) == a && a2 * pow10(0) == a2) by (nonlinear_arith)
                    requires pow10(0) == 1;
                assert(f6 * 10 + d < pow10(m as nat) * 10) by (nonlinear_arith)
                    requires f6 < pow10(m as nat), d < 10;
            }
            f6 = f6 * 10 + d;
        } else {
            proof {
                let a = digits_val(f.subrange(0, cut));
                assert(a * pow10(e) * 10 == a * pow10(e + 1)) by (nonlinear_arith)
                    requires pow10(e + 1) == 10 * pow10(e);
                assert(f6 * 10 < pow10(m as nat) * 10) by (nonlinear_arith)
                    requires f6 < pow10(m as nat);
            }
            f6 = f6 * 10;
        }
        m = m + 1;
    }
    let up: u64 = if flen > 6 && s[i + fstart + 6] >= '5' { 1 } else { 0 };
    proof {
        assert(t.subrange(0, k as int) =~= t.subrange(0, digits_end(t, 0)));
        reveal_with_fuel(pow10, 7);
        assert(pow10(6) == 1_000_000);
    }
    if ip >= INT_CAP {
        Some(DEC_CAP)
    } else {
        proof {
            assert(ip * MICRO <= (INT_CAP - 1) * MICRO) by (nonlinear_arith)
                requires ip < INT_CAP;
        }
        Some(ip * MICRO + f6 + up)
    }
}

} // verus!

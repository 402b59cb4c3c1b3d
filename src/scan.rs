//! Finding color notations in free text.

use vstd::prelude::*;
use crate::color::{Color, ParsedColor};
use crate::notation::parse_spec;

verus! {

/// What `regex::Regex::find_iter` yields for `pattern` over `text`: the
/// successive non-overlapping leftmost-first matches.
pub uninterp spec fn regex_find_all(pattern: Seq<char>, text: Seq<char>) -> Seq<Seq<char>>;

/// Relies on `regex::Regex::find_iter` (after `Regex::new`): the text of
/// every match of `pattern` in `text`, in order; none when the pattern does
/// not compile.
#[verifier::external_body]
pub(crate) fn find_all(pattern: &str, text: &str) -> (r: Vec<String>)
    ensures
        r.deep_view() == regex_find_all(pattern@, text@),
{
    match regex::Regex::new(pattern) {
        Ok(re) => re.find_iter(text).map(|m| m.as_str().to_string()).collect(),
        Err(_) => Vec::new(),
    }
}

/// Whether `regex::Regex::is_match` holds for `pattern` on `text`.
pub uninterp spec fn regex_is_match(pattern: Seq<char>, text: Seq<char>) -> bool;

/// Relies on `regex::Regex::is_match` (after `Regex::new`): whether
/// `pattern` matches somewhere in `text`; false when it does not compile.
#[verifier::external_body]
pub(crate) fn is_match(pattern: &str, text: &str) -> (r: bool)
    ensures
        r == regex_is_match(pattern@, text@),
{
    match regex::Regex::new(pattern) {
        Ok(re) => re.is_match(text),
        Err(_) => false,
    }
}

/// The colors that the strings in `ms` parse to, in order, dropping those
/// that match no notation.
pub open spec fn parsed_all(ms: Seq<Seq<char>>) -> Seq<ParsedColor>
    decreases ms.len(),
{
    if ms.len() == 0 {
        Seq::empty()
    } else {
        let rest = parsed_all(ms.drop_last());
        match parse_spec(ms.last()) {
            Ok(p) => rest.push(p),
            Err(_) => rest,
        }
    }
}

/// Hex tokens bounded by word boundaries.
pub open spec fn hex_finder() -> Seq<char> {
    r"#[0-9a-fA-F]{3,8}\b"@
}

pub open spec fn rgb_finder() -> Seq<char> {
    r"(?i)rgba?\s*\([^)]+\)"@
}

pub open spec fn hsl_finder() -> Seq<char> {
    r"(?i)hsla?\s*\([^)]+\)"@
}

pub open spec fn oklch_finder() -> Seq<char> {
    r"(?i)oklch\s*\([^)]+\)"@
}

/// All colors found in `t`: every hex match first, then every `rgb()`,
/// `hsl()` and `oklch()` match, each kept when it parses.
pub open spec fn extract_spec(t: Seq<char>) -> Seq<ParsedColor> {
    parsed_all(regex_find_all(hex_finder(), t)) + parsed_all(regex_find_all(rgb_finder(), t))
        + parsed_all(regex_find_all(hsl_finder(), t)) + parsed_all(
        regex_find_all(oklch_finder(), t),
    )
}

/// Parses each candidate in order and keeps those that parse.
pub fn colors_in_matches(ms: &Vec<String>) -> (r: Vec<ParsedColor>)
    ensures
        r@ == parsed_all(ms.deep_view()),
{
    let mut r: Vec<ParsedColor> = Vec::new();
    let mut i: usize = 0;
    while i < ms.len()
        invariant
            i <= ms@.len(),
            r@ == parsed_all(ms.deep_view().subrange(0, i as int)),
        decreases ms@.len() - i,
    {
        let ghost pre = ms.deep_view().subrange(0, i as int);
        let ghost next = ms.deep_view().subrange(0, i + 1);
        assert(next.drop_last() =~= pre);
        assert(next.last() == ms@[i as int]@);
        match Color::parse(ms[i].as_str()) {
            Ok(p) => r.push(p),
            Err(_) => {},
        }
        i = i + 1;
    }
    assert(ms.deep_view().subrange(0, ms@.len() as int) =~= ms.deep_view());
    r
}

/// Every color notation found in `text`; see `extract_spec`.
pub fn extract_colors_from_text(text: &str) -> (r: Vec<ParsedColor>)
    ensures
        r@ == extract_spec(text@),
{
    let mut r = colors_in_matches(&find_all(r"#[0-9a-fA-F]{3,8}\b", text));
    let mut r2 = colors_in_matches(&find_all(r"(?i)rgba?\s*\([^)]+\)", text));
    let mut r3 = colors_in_matches(&find_all(r"(?i)hsla?\s*\([^)]+\)", text));
    let mut r4 = colors_in_matches(&find_all(r"(?i)oklch\s*\([^)]+\)", text));
    r.append(&mut r2);
    r.append(&mut r3);
    r.append(&mut r4);
    r
}

} // verus!

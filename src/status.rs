//! Short one-line summaries of snippet text for the status bar.

use vstd::prelude::*;
use vstd::string::*;
use crate::chars::{push_char, string_of, sub_chars, to_chars};
use crate::lexer::{trail_start, trim_bounds, trimmed};
use crate::lines::{first_line, split_lines};

verus! {

/// `s` without trailing whitespace.
pub open spec fn trim_end(s: Seq<char>) -> Seq<char> {
    s.subrange(0, trail_start(s, s.len() as int))
}

pub open spec fn truncate_spec(s: Seq<char>, max_len: int) -> Seq<char> {
    let t = trimmed(first_line(s));
    if t.len() <= max_len {
        t
    } else {
        trim_end(t.take(max_len - 1)) + seq!['\u{2026}']
    }
}

/// The trimmed first line of `text`; when longer than `max_len`
/// characters, its first `max_len - 1` characters, trimmed at the end,
/// followed by an ellipsis.
pub fn truncate_for_status(text: &str, max_len: usize) -> (r: String)
    requires
        max_len >= 1,
    ensures
        r@ == truncate_spec(text@, max_len as int),
{
    let ls = split_lines(&to_chars(text));
    let first: Vec<char> = if ls.len() > 0 {
        let ghost lv = ls@.map_values(|l: Vec<char>| l@);
        assert(lv[0] == ls@[0]@);
        sub_chars(&ls[0], 0, ls[0].len())
    } else {
        Vec::new()
    };
    assert(first@ == first_line(text@));
    let (lo, hi) = trim_bounds(&first);
    let t = sub_chars(&first, lo, hi);
    if t.len() <= max_len {
        return string_of(&t, 0, t.len());
    }
    let cut = sub_chars(&t, 0, max_len - 1);
    let mut e = cut.len();
    while e > 0 && crate::lexer::space(cut[e - 1])
        invariant
            e <= cut@.len(),
            trail_start(cut@, e as int) == trail_start(cut@, cut@.len() as int),
        decreases e,
    {
        e = e - 1;
    }
    let mut r = string_of(&cut, 0, e);
    push_char(&mut r, '\u{2026}');
    assert(t@.take(max_len - 1) =~= cut@);
    r
}

} // verus!

//! Lines, words and substrings of text, as `str::lines`,
//! `str::split_whitespace` and `str::contains` see them.

use vstd::prelude::*;
use crate::chars::{push_char, sub_chars};
use crate::lexer::{is_space, space};

verus! {

/// The first line break at or after `i`, or the end.
pub open spec fn newline_pos(s: Seq<char>, i: int) -> int
    decreases s.len() - i,
{
    if 0 <= i < s.len() && s[i] != '\n' {
        newline_pos(s, i + 1)
    } else {
        i
    }
}

/// A line without its trailing carriage return.
pub open spec fn strip_cr(l: Seq<char>) -> Seq<char> {
    if l.len() > 0 && l.last() == '\r' {
        l.drop_last()
    } else {
        l
    }
}

/// The lines from position `i` on; a final line break ends the last line
/// rather than starting an empty one.
pub open spec fn lines_from(s: Seq<char>, i: int) -> Seq<Seq<char>>
    decreases s.len() - i,
{
    if 0 <= i < s.len() {
        let j = newline_pos(s, i);
        if i <= j < s.len() {
            seq![strip_cr(s.subrange(i, j))] + lines_from(s, j + 1)
        } else {
            seq![strip_cr(s.subrange(i, j))]
        }
    } else {
        Seq::empty()
    }
}

pub open spec fn lines(s: Seq<char>) -> Seq<Seq<char>> {
    lines_from(s, 0)
}

/// The first line, empty when there is none.
pub open spec fn first_line(s: Seq<char>) -> Seq<char> {
    if lines(s).len() > 0 {
        lines(s)[0]
    } else {
        Seq::empty()
    }
}

/// Lines joined with line breaks.
pub open spec fn join_lines(ls: Seq<Seq<char>>) -> Seq<char>
    decreases ls.len(),
{
    if ls.len() == 0 {
        Seq::empty()
    } else if ls.len() == 1 {
        ls[0]
    } else {
        join_lines(ls.drop_last()) + seq!['\n'] + ls.last()
    }
}

proof fn lemma_newline_pos(s: Seq<char>, i: int)
    requires
        0 <= i <= s.len(),
    ensures
        i <= newline_pos(s, i) <= s.len(),
        newline_pos(s, i) < s.len() ==> s[newline_pos(s, i)] == '\n',
    decreases s.len() - i,
{
    if i < s.len() && s[i] != '\n' {
        lemma_newline_pos(s, i + 1);
    }
}

fn strip_cr_vec(l: Vec<char>) -> (r: Vec<char>)
    ensures
        r@ == strip_cr(l@),
{
    let mut l = l;
    if l.len() > 0 && l[l.len() - 1] == '\r' {
        l.pop();
    }
    l
}

/// The lines of `v`.
pub fn split_lines(v: &Vec<char>) -> (r: Vec<Vec<char>>)
    ensures
        r@.map_values(|l: Vec<char>| l@) == lines(v@),
{
    let mut r: Vec<Vec<char>> = Vec::new();
    let mut i: usize = 0;
    while i < v.len()
        invariant
            i <= v@.len(),
            r@.map_values(|l: Vec<char>| l@) + lines_from(v@, i as int) == lines(v@),
        decreases v@.len() - i,
    {
        let mut j = i;
        while j < v.len() && v[j] != '\n'
            invariant
                i <= j <= v@.len(),
                newline_pos(v@, j as int) == newline_pos(v@, i as int),
            decreases v@.len() - j,
        {
            j = j + 1;
        }
        proof {
            lemma_newline_pos(v@, i as int);
        }
        let line = strip_cr_vec(sub_chars(v, i, j));
        let ghost old_r = r@.map_values(|l: Vec<char>| l@);
        r.push(line);
        let ghost new_r = r@.map_values(|l: Vec<char>| l@);
        assert(new_r =~= old_r.push(line@));
        if j < v.len() {
            proof {
                assert(lines_from(v@, i as int) == seq![line@] + lines_from(v@, j + 1));
                assert(old_r + lines_from(v@, i as int) =~= new_r + lines_from(v@, j + 1));
            }
            i = j + 1;
        } else {
            proof {
                assert(lines_from(v@, i as int) == seq![line@]);
                assert(lines_from(v@, j as int) =~= Seq::<Seq<char>>::empty());
                assert(old_r + lines_from(v@, i as int) =~= new_r + lines_from(v@, j as int));
            }
            i = j;
        }
    }
    assert(lines_from(v@, i as int) =~= Seq::<Seq<char>>::empty());
    assert(r@.map_values(|l: Vec<char>| l@) =~= r@.map_values(|l: Vec<char>| l@) + lines_from(v@, i as int));
    r
}

/// The first `n` lines joined with line breaks.
pub fn join_first(ls: &Vec<Vec<char>>, n: usize) -> (r: String)
    ensures
        r@ == join_lines(
            ls@.map_values(|l: Vec<char>| l@).take(if n < ls@.len() { n as int } else { ls@.len() as int }),
        ),
{
    let m = if n < ls.len() { n } else { ls.len() };
    let mut r = String::new();
    let mut k: usize = 0;
    while k < m
        invariant
            m <= ls@.len(),
            k <= m,
            r@ == join_lines(ls@.map_values(|l: Vec<char>| l@).take(k as int)),
        decreases m - k,
    {
        let ghost before = r@;
        if k > 0 {
            push_char(&mut r, '\n');
        }
        let line = &ls[k];
        let mut x: usize = 0;
        let ghost mid = r@;
        while x < line.len()
            invariant
                x <= line@.len(),
                r@ == mid + line@.take(x as int),
            decreases line@.len() - x,
        {
            push_char(&mut r, line[x]);
            assert(line@.take(x + 1) =~= line@.take(x as int).push(line@[x as int]));
            x = x + 1;
        }
        proof {
            let t = ls@.map_values(|l: Vec<char>| l@).take(k + 1);
            assert(t.drop_last() =~= ls@.map_values(|l: Vec<char>| l@).take(k as int));
            assert(t.last() == ls@[k as int]@);
            assert(line@.take(line@.len() as int) =~= line@);
            if k == 0 {
                assert(before =~= Seq::<char>::empty());
                assert(r@ =~= join_lines(t));
            } else {
                assert(r@ =~= join_lines(t));
            }
        }
        k = k + 1;
    }
    r
}

/// The whitespace-separated words of `s`.
pub open spec fn words(s: Seq<char>) -> Seq<Seq<char>>
    decreases s.len(),
{
    if s.len() == 0 {
        Seq::empty()
    } else {
        let w = words(s.drop_last());
        let c = s.last();
        if is_space(c) {
            w
        } else if s.len() >= 2 && !is_space(s[s.len() - 2]) && w.len() > 0 {
            w.drop_last().push(w.last().push(c))
        } else {
            w.push(seq![c])
        }
    }
}

/// The words of `v`.
pub fn split_words(v: &Vec<char>) -> (r: Vec<String>)
    ensures
        r.deep_view() == words(v@),
{
    let mut r: Vec<String> = Vec::new();
    let mut cur = String::new();
    let mut in_word = false;
    let mut i: usize = 0;
    while i < v.len()
        invariant
            i <= v@.len(),
            in_word ==> i > 0 && !is_space(v@[i - 1]),
            !in_word ==> (i == 0 || is_space(v@[i - 1])),
            words(v@.take(i as int)) == if in_word {
                r.deep_view().push(cur@)
            } else {
                r.deep_view()
            },
            in_word ==> cur@.len() > 0,
        decreases v@.len() - i,
    {
        let c = v[i];
        proof {
            assert(v@.take(i + 1).drop_last() =~= v@.take(i as int));
        }
        if space(c) {
            if in_word {
                let ghost old_r = r.deep_view();
                r.push(cur);
                assert(r.deep_view() =~= old_r.push(cur@));
                cur = String::new();
                in_word = false;
            }
        } else {
            if in_word {
                let ghost w = words(v@.take(i as int));
                push_char(&mut cur, c);
                assert(w.drop_last() =~= r.deep_view());
            } else {
                cur = String::new();
                push_char(&mut cur, c);
                in_word = true;
                assert(cur@ =~= seq![c]);
            }
        }
        i = i + 1;
    }
    if in_word {
        let ghost old_r = r.deep_view();
        r.push(cur);
        assert(r.deep_view() =~= old_r.push(cur@));
    }
    assert(v@.take(v@.len() as int) =~= v@);
    r
}

/// `needle` occurs in `hay` at `i`.
pub open spec fn occurs_at(hay: Seq<char>, needle: Seq<char>, i: int) -> bool {
    0 <= i && i + needle.len() <= hay.len() && hay.subrange(i, i + needle.len()) == needle
}

pub open spec fn contains(hay: Seq<char>, needle: Seq<char>) -> bool {
    exists|i: int| occurs_at(hay, needle, i)
}

fn occurs(hay: &Vec<char>, needle: &Vec<char>, i: usize) -> (r: bool)
    requires
        i + needle@.len() <= hay@.len(),
    ensures
        r == occurs_at(hay@, needle@, i as int),
{
    let hl = hay.len();
    let mut k: usize = 0;
    while k < needle.len()
        invariant
            hl == hay@.len(),
            i + needle@.len() <= hay@.len(),
            k <= needle@.len(),
            forall|x: int| 0 <= x < k ==> hay@[i + x] == needle@[x],
        decreases needle@.len() - k,
    {
        assert(i + k < hay@.len());
        if hay[i + k] != needle[k] {
            assert(hay@.subrange(i as int, i + needle@.len())[k as int] != needle@[k as int]);
            return false;
        }
        k = k + 1;
    }
    assert(hay@.subrange(i as int, i + needle@.len()) =~= needle@);
    true
}

/// Whether `needle` occurs in `hay`.
pub fn contains_chars(hay: &Vec<char>, needle: &Vec<char>) -> (r: bool)
    ensures
        r == contains(hay@, needle@),
{
    if needle.len() > hay.len() {
        return false;
    }
    if needle.len() == 0 {
        assert(hay@.subrange(0, 0) =~= needle@);
        assert(occurs_at(hay@, needle@, 0));
        return true;
    }
    let last = hay.len() - needle.len();
    let mut i: usize = 0;
    while i <= last
        invariant
            needle@.len() <= hay@.len(),
            last == hay@.len() - needle@.len(),
            last < usize::MAX,
            i <= last + 1,
            forall|x: int| 0 <= x < i ==> !occurs_at(hay@, needle@, x),
        decreases last + 1 - i,
    {
        if occurs(hay, needle, i) {
            return true;
        }
        i = i + 1;
    }
    assert forall|x: int| !occurs_at(hay@, needle@, x) by {
        if 0 <= x < i {
        }
    }
    false
}

} // verus!

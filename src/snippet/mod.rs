//! Snippets: colors, code and text, with their kinds and previews.

pub mod code;
pub mod text;

use vstd::prelude::*;
use vstd::string::*;
use crate::chars::{
    byte_len, lower_of, lowercase, push_char, same_chars, string_of, sub_chars, to_chars,
    utf8_width, width_of,
};
use crate::color::ColorData;
use crate::lexer::{is_digit, trim_bounds, trimmed};
use crate::lines::{contains, contains_chars, first_line, lines, split_lines};
use crate::scan::{extract_colors_from_text, extract_spec};
use crate::serialize::{hex_str, rgb_str};
use code::{looks_like_code, looks_like_code_spec, sat_len, CodeData};
use text::TextData;

verus! {

/// The kind of a snippet.
#[derive(Clone, Copy, Debug, PartialEq, Eq, Structural)]
pub enum SnippetKind {
    Color,
    Code,
    Text,
}

/// What a snippet holds.
#[derive(Clone, Debug)]
pub enum SnippetContent {
    Color(ColorData),
    Code(CodeData),
    Text(TextData),
}

/// A snippet with its identity, label and position in the list.
#[derive(Clone, Debug)]
pub struct Snippet {
    pub id: i64,
    pub label: String,
    pub content: SnippetContent,
    pub position: i64,
}

impl SnippetKind {
    pub fn display_name(&self) -> (r: &'static str)
        ensures
            r@ == match self {
                SnippetKind::Color => "Color"@,
                SnippetKind::Code => "Code"@,
                SnippetKind::Text => "Text"@,
            },
    {
        match self {
            SnippetKind::Color => "Color",
            SnippetKind::Code => "Code",
            SnippetKind::Text => "Text",
        }
    }

    pub open spec fn db_str(self) -> Seq<char> {
        match self {
            SnippetKind::Color => "color"@,
            SnippetKind::Code => "code"@,
            SnippetKind::Text => "text"@,
        }
    }

    /// The name under which the kind is stored.
    pub fn as_db_str(&self) -> (r: &'static str)
        ensures
            r@ == self.db_str(),
    {
        match self {
            SnippetKind::Color => "color",
            SnippetKind::Code => "code",
            SnippetKind::Text => "text",
        }
    }

    /// The kind stored under `s`, if any.
    pub fn from_db_str(s: &str) -> (r: Option<SnippetKind>)
        ensures
            r == if s@ == "color"@ {
                Some(SnippetKind::Color)
            } else if s@ == "code"@ {
                Some(SnippetKind::Code)
            } else if s@ == "text"@ {
                Some(SnippetKind::Text)
            } else {
                None
            },
    {
        let v = to_chars(s);
        if same_chars(&v, &to_chars("color")) {
            Some(SnippetKind::Color)
        } else if same_chars(&v, &to_chars("code")) {
            Some(SnippetKind::Code)
        } else if same_chars(&v, &to_chars("text")) {
            Some(SnippetKind::Text)
        } else {
            None
        }
    }
}

/// A named group of snippets.
#[derive(Clone, Debug)]
pub struct Palette {
    pub id: i64,
    pub name: String,
}

/// The first characters of `l` that fit in `n` bytes.
pub open spec fn byte_prefix(l: Seq<char>, n: int) -> Seq<char>
    decreases l.len(),
{
    if l.len() == 0 || utf8_width(l[0]) > n {
        Seq::empty()
    } else {
        seq![l[0]] + byte_prefix(l.subrange(1, l.len() as int), n - utf8_width(l[0]))
    }
}

/// `l` cut to `n` bytes followed by `...` when it is longer than that.
pub open spec fn shorten(l: Seq<char>, n: int) -> Seq<char> {
    if sat_len(l) > n {
        byte_prefix(l, n) + "..."@
    } else {
        l
    }
}

fn shorten_line(l: &Vec<char>, n: usize) -> (r: String)
    ensures
        r@ == shorten(l@, n as int),
{
    if byte_len(l) > n {
        let mut out = String::new();
        let mut used: usize = 0;
        let mut i: usize = 0;
        assert(l@.subrange(0, l@.len() as int) =~= l@);
        assert(out@ + byte_prefix(l@, n as int) =~= byte_prefix(l@, n as int));
        while i < l.len() && width_of(l[i]) <= n - used
            invariant
                i <= l@.len(),
                used <= n,
                out@ + byte_prefix(l@.subrange(i as int, l@.len() as int), n - used) == byte_prefix(
                    l@,
                    n as int,
                ),
            decreases l@.len() - i,
        {
            let ghost rest = l@.subrange(i as int, l@.len() as int);
            assert(rest.subrange(1, rest.len() as int) =~= l@.subrange(i + 1, l@.len() as int));
            let ghost before = out@;
            push_char(&mut out, l[i]);
            assert(before + byte_prefix(rest, n - used) =~= out@ + byte_prefix(
                l@.subrange(i + 1, l@.len() as int),
                n - used - utf8_width(l@[i as int]),
            ));
            used = used + width_of(l[i]);
            i = i + 1;
        }
        let ghost rest = l@.subrange(i as int, l@.len() as int);
        assert(byte_prefix(rest, n - used) =~= Seq::<char>::empty());
        assert(out@ =~= byte_prefix(l@, n as int));
        out.append("...");
        out
    } else {
        string_of(l, 0, l.len())
    }
}

fn first_line_of(s: &str) -> (r: Vec<char>)
    ensures
        r@ == first_line(s@),
{
    let ls = split_lines(&to_chars(s));
    if ls.len() > 0 {
        let ghost lv = ls@.map_values(|l: Vec<char>| l@);
        assert(lv[0] == ls@[0]@);
        sub_chars(&ls[0], 0, ls[0].len())
    } else {
        Vec::new()
    }
}

impl SnippetContent {
    pub open spec fn kind_of(&self) -> SnippetKind {
        match self {
            SnippetContent::Color(_) => SnippetKind::Color,
            SnippetContent::Code(_) => SnippetKind::Code,
            SnippetContent::Text(_) => SnippetKind::Text,
        }
    }

    pub open spec fn wf(&self) -> bool {
        match self {
            SnippetContent::Color(c) => c.wf(),
            _ => true,
        }
    }

    pub fn kind(&self) -> (r: SnippetKind)
        ensures
            r == self.kind_of(),
    {
        match self {
            SnippetContent::Color(_) => SnippetKind::Color,
            SnippetContent::Code(_) => SnippetKind::Code,
            SnippetContent::Text(_) => SnippetKind::Text,
        }
    }

    pub open spec fn preview_of(&self, max_len: int) -> Seq<char> {
        match self {
            SnippetContent::Color(c) => hex_str(*c),
            SnippetContent::Code(c) => shorten(first_line(c.code@), max_len),
            SnippetContent::Text(t) => shorten(first_line(t.text@), max_len),
        }
    }

    /// A one-line preview: the hex form of a color, else the first line,
    /// cut to `max_len` bytes with `...` appended when longer.
    pub fn preview(&self, max_len: usize) -> (r: String)
        requires
            self.wf(),
        ensures
            r@ == self.preview_of(max_len as int),
    {
        match self {
            SnippetContent::Color(c) => c.to_hex(),
            SnippetContent::Code(c) => shorten_line(&first_line_of(c.code.as_str()), max_len),
            SnippetContent::Text(t) => shorten_line(&first_line_of(t.text.as_str()), max_len),
        }
    }

    /// The text that copying the snippet puts on the clipboard.
    pub fn to_copyable_string(&self) -> (r: String)
        requires
            self.wf(),
        ensures
            r@ == match self {
                SnippetContent::Color(c) => hex_str(*c),
                SnippetContent::Code(c) => c.code@,
                SnippetContent::Text(t) => t.text@,
            },
    {
        match self {
            SnippetContent::Color(c) => c.to_hex(),
            SnippetContent::Code(c) => c.code.clone(),
            SnippetContent::Text(t) => t.text.clone(),
        }
    }
}

/// A character of nanoid's URL-safe alphabet.
pub open spec fn is_id_char(c: char) -> bool {
    c == '_' || c == '-' || is_digit(c) || ('a' <= c <= 'z') || ('A' <= c <= 'Z')
}

/// Relies on `nanoid::format` with nanoid's default random source and its
/// URL-safe alphabet: `size` characters of that alphabet, drawn at random.
#[verifier::external_body]
fn random_id(size: usize) -> (r: String)
    requires
        0 < size <= 1024,
    ensures
        r@.len() == size,
        forall|i: int| 0 <= i < r@.len() ==> is_id_char(#[trigger] r@[i]),
{
    nanoid::format(nanoid::rngs::default, &nanoid::alphabet::SAFE, size)
}

/// Length of generated labels.
pub const LABEL_LEN: usize = 8;

/// A generated label: eight URL-safe characters.
pub open spec fn is_generated_label(l: Seq<char>) -> bool {
    l.len() == LABEL_LEN && forall|i: int| 0 <= i < l.len() ==> is_id_char(#[trigger] l[i])
}

/// `label`, or a generated label when it is empty.
fn label_or_generated(label: String) -> (r: String)
    ensures
        label@.len() > 0 ==> r@ == label@,
        label@.len() == 0 ==> is_generated_label(r@),
{
    if label.as_str().is_empty() {
        random_id(LABEL_LEN)
    } else {
        label
    }
}

/// Whether `needle` occurs in `hay`.
pub fn contains_str(hay: &str, needle: &str) -> (r: bool)
    ensures
        r == contains(hay@, needle@),
{
    contains_chars(&to_chars(hay), &to_chars(needle))
}

impl Snippet {
    /// A snippet not yet stored: id and position 0.
    pub fn new(label: String, content: SnippetContent) -> (r: Snippet)
        ensures
            r.id == 0,
            r.position == 0,
            r.label@ == label@,
            r.content == content,
    {
        Snippet { id: 0, label, content, position: 0 }
    }

    pub fn kind(&self) -> (r: SnippetKind)
        ensures
            r == self.content.kind_of(),
    {
        self.content.kind()
    }

    /// A color snippet; an empty label is replaced by a generated one.
    pub fn color(r: u8, g: u8, b: u8, a: u32, label: String) -> (s: Snippet)
        ensures
            s.id == 0 && s.position == 0,
            s.content == SnippetContent::Color(ColorData::new_spec(r, g, b, a)),
            label@.len() > 0 ==> s.label@ == label@,
            label@.len() == 0 ==> is_generated_label(s.label@),
    {
        let data = ColorData::new(r, g, b, a);
        Snippet::new(label_or_generated(label), SnippetContent::Color(data))
    }

    /// A code snippet; an empty label is replaced by a generated one.
    pub fn code(code: String, language: String, label: String) -> (s: Snippet)
        ensures
            s.id == 0 && s.position == 0,
            s.content is Code,
            s.content->Code_0.view() == CodeData::new_spec(code@, language@),
            label@.len() > 0 ==> s.label@ == label@,
            label@.len() == 0 ==> is_generated_label(s.label@),
    {
        Snippet::new(label_or_generated(label), SnippetContent::Code(CodeData::new(code, language)))
    }

    /// A text snippet; an empty label is replaced by a generated one.
    pub fn text(text: String, label: String) -> (s: Snippet)
        ensures
            s.id == 0 && s.position == 0,
            s.content is Text,
            s.content->Text_0.text@ == text@,
            label@.len() > 0 ==> s.label@ == label@,
            label@.len() == 0 ==> is_generated_label(s.label@),
    {
        Snippet::new(label_or_generated(label), SnippetContent::Text(TextData::new(text)))
    }

    /// A fresh generated label.
    pub fn default_label(&self) -> (r: String)
        ensures
            is_generated_label(r@),
    {
        random_id(LABEL_LEN)
    }

    pub open spec fn matches_spec(&self, f: Seq<char>) -> bool {
        let lf = lower_of(f);
        f.len() == 0 || contains(lower_of(self.label@), lf) || match self.content {
            SnippetContent::Color(c) => contains(lower_of(hex_str(c)), lf) || contains(
                lower_of(rgb_str(c)),
                lf,
            ),
            SnippetContent::Code(c) => contains(lower_of(c.code@), lf) || contains(
                lower_of(c.language@),
                lf,
            ),
            SnippetContent::Text(t) => contains(lower_of(t.text@), lf),
        }
    }

    /// Whether the filter occurs, ignoring case, in the label or the
    /// content (hex and `rgb()` forms of a color, code or language, text).
    pub fn matches_filter(&self, filter: &str) -> (r: bool)
        requires
            self.content.wf(),
        ensures
            r == self.matches_spec(filter@),
    {
        if filter.is_empty() {
            return true;
        }
        let f = lowercase(filter);
        if contains_str(lowercase(self.label.as_str()).as_str(), f.as_str()) {
            return true;
        }
        match &self.content {
            SnippetContent::Color(c) => {
                contains_str(lowercase(c.to_hex().as_str()).as_str(), f.as_str()) || contains_str(
                    lowercase(c.to_rgb().as_str()).as_str(),
                    f.as_str(),
                )
            },
            SnippetContent::Code(c) => {
                contains_str(lowercase(c.code.as_str()).as_str(), f.as_str()) || contains_str(
                    lowercase(c.language.as_str()).as_str(),
                    f.as_str(),
                )
            },
            SnippetContent::Text(t) => contains_str(
                lowercase(t.text.as_str()).as_str(),
                f.as_str(),
            ),
        }
    }
}

pub open spec fn detect_spec(s: Seq<char>) -> Option<SnippetKind> {
    let t = trimmed(s);
    if extract_spec(t).len() > 0 {
        Some(SnippetKind::Color)
    } else if looks_like_code_spec(t) {
        Some(SnippetKind::Code)
    } else if lines(t).len() > 1 || sat_len(t) > 20 {
        Some(SnippetKind::Text)
    } else {
        None
    }
}

/// What kind of snippet `text` would make: a color when it holds a color
/// notation, else code when it looks like code, else text when it has
/// several lines or over 20 bytes.
pub fn detect_snippet_type(text: &str) -> (r: Option<SnippetKind>)
    ensures
        r == detect_spec(text@),
{
    let v = to_chars(text);
    let (lo, hi) = trim_bounds(&v);
    let t = string_of(&v, lo, hi);
    if extract_colors_from_text(t.as_str()).len() > 0 {
        return Some(SnippetKind::Color);
    }
    if looks_like_code(t.as_str()) {
        return Some(SnippetKind::Code);
    }
    let tv = sub_chars(&v, lo, hi);
    if split_lines(&tv).len() > 1 || byte_len(&tv) > 20 {
        return Some(SnippetKind::Text);
    }
    None
}

} // verus!

//! Plain text snippets.

use vstd::prelude::*;
use crate::chars::to_chars;
use crate::lexer::{trim_bounds, trimmed};
use crate::lines::{join_first, join_lines, lines, split_lines};

verus! {

/// Plain text.
#[derive(Clone, Debug)]
pub struct TextData {
    pub text: String,
}

impl TextData {
    pub fn new(text: String) -> (r: TextData)
        ensures
            r.text@ == text@,
    {
        TextData { text }
    }

    /// The number of lines, as `str::lines` counts them.
    pub fn line_count(&self) -> (r: usize)
        ensures
            r == lines(self.text@).len(),
    {
        split_lines(&to_chars(self.text.as_str())).len()
    }

    /// The number of characters.
    pub fn char_count(&self) -> (r: usize)
        ensures
            r == self.text@.len(),
    {
        to_chars(self.text.as_str()).len()
    }

    /// The first `max_lines` lines, joined with line breaks.
    pub fn preview(&self, max_lines: usize) -> (r: String)
        ensures
            r@ == join_lines(
                lines(self.text@).take(
                    if max_lines < lines(self.text@).len() {
                        max_lines as int
                    } else {
                        lines(self.text@).len() as int
                    },
                ),
            ),
    {
        join_first(&split_lines(&to_chars(self.text.as_str())), max_lines)
    }

    /// Whether the text is empty or whitespace only.
    pub fn is_empty(&self) -> (r: bool)
        ensures
            r == (trimmed(self.text@).len() == 0),
    {
        let v = to_chars(self.text.as_str());
        let (lo, hi) = trim_bounds(&v);
        lo == hi
    }
}

} // verus!

//! Text and cursor bookkeeping for the terminal UI.
//!
//! The rendering itself lives outside the library; these types carry the
//! printable text and track the cursor's position within the displayed
//! lines.

use vstd::prelude::*;
use vstd::string::*;

use crate::textgen::ascii_len;

verus! {

/// Describes something that has a printable length.
///
/// For example, a string containing color characters has a different
/// length when printed than the number of bytes or chars in it.
pub trait HasLength {
    /// number of char widths taken when printed on the terminal
    fn length(&self) -> usize;
}

/// Holds some text that is to be printed on the terminal.
///
/// `raw_text` carries the formatting, `text` is what the user reads, and
/// `length` is the width the text takes on the terminal.
#[derive(Debug, Clone)]
pub struct Text {
    raw_text: String,
    text: String,
    length: usize,
}

impl Text {
    /// The text with all formatting.
    pub closed spec fn raw_view(self) -> Seq<char> {
        self.raw_text@
    }

    /// The printed text without formatting.
    pub closed spec fn text_view(self) -> Seq<char> {
        self.text@
    }

    /// The width taken when printed.
    pub closed spec fn spec_length(self) -> usize {
        self.length
    }

    /// Constructs a new Text from a raw string.
    ///
    /// The string must not itself hold formatting characters, zero-width
    /// characters or multi-width characters.
    pub fn new(text: String) -> (r: Text)
        requires
            text.is_ascii(),
        ensures
            r.raw_view() == text@,
            r.text_view() == text@,
            r.spec_length() == text@.len(),
    {
        let length = ascii_len(text.as_str());
        Self { raw_text: text.clone(), text, length }
    }

    /// the raw text with all formatting
    pub fn raw_text(&self) -> (r: &String)
        ensures
            r@ == self.raw_view(),
    {
        &self.raw_text
    }

    /// the actual printed text without formatting
    pub fn text(&self) -> (r: &String)
        ensures
            r@ == self.text_view(),
    {
        &self.text
    }
}

impl HasLength for Text {
    fn length(&self) -> (r: usize)
        ensures
            r == self.spec_length(),
    {
        self.length
    }
}

/// The summed width of a line of texts; the sum saturates at the largest
/// machine integer.
impl HasLength for [Text] {
    fn length(&self) -> usize {
        let mut total: usize = 0;
        let mut i: usize = 0;
        let n = self.len();
        while i < n
            invariant
                n == self@.len(),
                i <= n,
            decreases n - i,
        {
            let l = self[i].length;
            total = if total <= usize::MAX - l {
                total + l
            } else {
                usize::MAX
            };
            i = i + 1;
        }
        total
    }
}

/// the position of a line of words
#[derive(Clone, Copy)]
pub struct LinePos {
    /// y-position of line in the terminal window
    pub y: u16,
    /// x-position of the first char in the line
    pub x: u16,
    /// length (number of chars) in this line
    pub length: u16,
}

/// Tracks the cursor's position within the displayed lines of words.
pub struct CursorPos {
    pub lines: Vec<LinePos>,
    pub cur_line: usize,
    pub cur_char_in_line: u16,
}

impl CursorPos {
    /// The cursor sits on a character of an existing line, every line
    /// holds at least one character, and every line's coordinates stay
    /// within the terminal's range.
    pub open spec fn wf(self) -> bool {
        &&& self.cur_line < self.lines@.len()
        &&& self.cur_char_in_line < self.lines@[self.cur_line as int].length
        &&& forall|i: int| 0 <= i < self.lines@.len() ==> 1 <= (#[trigger] self.lines@[i]).length
        &&& forall|i: int|
            0 <= i < self.lines@.len() ==> (#[trigger] self.lines@[i]).x + self.lines@[i].length
                <= 65536
    }

    /// The terminal coordinates under the cursor.
    pub open spec fn spec_cur_pos(self) -> (u16, u16) {
        let line = self.lines@[self.cur_line as int];
        (((line.x + self.cur_char_in_line) as u16), line.y)
    }

    /// A fresh tracker with no lines; it becomes usable once lines are
    /// filled in.
    pub fn new() -> (r: Self)
        ensures
            r.lines@.len() == 0,
            r.cur_line == 0,
            r.cur_char_in_line == 0,
    {
        Self { lines: Vec::new(), cur_line: 0, cur_char_in_line: 0 }
    }

    /// Moves the cursor one character forward: one step within the line,
    /// or to the start of the next line once the current one is
    /// exhausted; at the very end the cursor stays put.  Returns the new
    /// coordinates.
    pub fn next(&mut self) -> (r: (u16, u16))
        requires
            old(self).wf(),
        ensures
            final(self).wf(),
            final(self).lines == old(self).lines,
            ({
                let line = old(self).lines@[old(self).cur_line as int];
                if old(self).cur_char_in_line + 1 < line.length {
                    final(self).cur_line == old(self).cur_line && final(self).cur_char_in_line
                        == old(self).cur_char_in_line + 1
                } else if old(self).cur_line + 1 < old(self).lines@.len() {
                    final(self).cur_line == old(self).cur_line + 1 && final(self).cur_char_in_line
                        == 0
                } else {
                    final(self).cur_line == old(self).cur_line && final(self).cur_char_in_line
                        == old(self).cur_char_in_line
                }
            }),
            r == final(self).spec_cur_pos(),
    {
        let line = self.lines[self.cur_line];
        let max_chars_index = line.length - 1;
        if self.cur_char_in_line < max_chars_index {
            // more chars in line
            self.cur_char_in_line = self.cur_char_in_line + 1;
        } else {
            // reached the end of line
            if self.cur_line < self.lines.len() - 1 {
                // more lines available
                self.cur_line = self.cur_line + 1;
                self.cur_char_in_line = 0;
            }
        }
        self.cur_pos()
    }

    /// Moves the cursor one character back: one step within the line, or
    /// to the last character of the previous line; at the very start the
    /// cursor stays put.  Returns the new coordinates.
    pub fn prev(&mut self) -> (r: (u16, u16))
        requires
            old(self).wf(),
        ensures
            final(self).wf(),
            final(self).lines == old(self).lines,
            ({
                if old(self).cur_char_in_line > 0 {
                    final(self).cur_line == old(self).cur_line && final(self).cur_char_in_line
                        == old(self).cur_char_in_line - 1
                } else if old(self).cur_line > 0 {
                    final(self).cur_line == old(self).cur_line - 1 && final(self).cur_char_in_line
                        == old(self).lines@[old(self).cur_line - 1].length - 1
                } else {
                    final(self).cur_line == old(self).cur_line && final(self).cur_char_in_line
                        == old(self).cur_char_in_line
                }
            }),
            r == final(self).spec_cur_pos(),
    {
        if self.cur_char_in_line > 0 {
            // more chars behind in line
            self.cur_char_in_line = self.cur_char_in_line - 1;
        } else {
            // reached the start of line
            if self.cur_line > 0 {
                // more lines available
                self.cur_line = self.cur_line - 1;
                self.cur_char_in_line = self.lines[self.cur_line].length - 1;
            }
        }
        self.cur_pos()
    }

    /// The terminal coordinates under the cursor.
    pub fn cur_pos(&self) -> (r: (u16, u16))
        requires
            self.wf(),
        ensures
            r == self.spec_cur_pos(),
    {
        let line = self.lines[self.cur_line];
        (line.x + self.cur_char_in_line, line.y)
    }
}

} // verus!

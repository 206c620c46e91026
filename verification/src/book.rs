//! Streaming tokenizer over arbitrary prose: serves the space-delimited
//! tokens of an in-memory text lazily, in order, skipping blank and
//! non-ASCII tokens without terminating the stream.

use vstd::prelude::*;
use vstd::string::*;
use vstd::utf8::is_ascii_chars;

use crate::ToipeError;
use crate::corpus::{
    chunk_end, chunk_word, is_space, lemma_chunk_end_bounds, next_chunk_word, replace_newlines,
    token_start_from, trim_end_in,
};
use crate::textgen::{char_at, is_space_char, WordSelector};

verus! {

/// Position just past the chunk that starts at `start`: one past the next
/// space, or the text's end.  Works on arbitrary text, ASCII or not.
fn find_chunk_end(s: &str, start: usize) -> (end: usize)
    requires
        start <= s@.len(),
    ensures
        end == chunk_end(s@, start as int),
        start <= end <= s@.len(),
{
    let n = s.unicode_len();
    let mut j = start;
    proof {
        lemma_chunk_end_bounds(s@, start as int);
    }
    while j < n
        invariant
            n == s@.len(),
            start <= j <= n,
            chunk_end(s@, start as int) == chunk_end(s@, j as int),
            start <= chunk_end(s@, start as int) <= n,
        decreases n - j,
    {
        if s.get_char(j) == ' ' {
            return j + 1;
        }
        j = j + 1;
    }
    n
}

/// The word one chunk yields: newlines turned into spaces, surrounding
/// whitespace trimmed; `None` when the chunk holds only whitespace or any
/// character outside ASCII.
fn chunk_to_word(chunk: &str) -> (r: Option<String>)
    ensures
        r matches Some(w) ==> chunk_word(chunk@) == Option::Some(w@),
        r is None ==> chunk_word(chunk@) is None,
{
    let ghost t = chunk@;
    let n = chunk.unicode_len();
    let mut a: usize = n;
    let mut b: usize = 0;
    let mut ascii_ok = true;
    let mut j: usize = 0;
    while j < n
        invariant
            t == chunk@,
            n == t.len(),
            j <= n,
            a <= n,
            a == n ==> token_start_from(t, 0) == token_start_from(t, j as int),
            a < n ==> a == token_start_from(t, 0) && !is_space(t[a as int]) && a < b,
            b <= j,
            b == trim_end_in(t, j as int),
            ascii_ok ==> forall|i: int| 0 <= i < j ==> ('\0' <= #[trigger] t[i] <= '\u{7f}'),
            !ascii_ok ==> exists|i: int| 0 <= i < j && !('\0' <= #[trigger] t[i] <= '\u{7f}'),
        decreases n - j,
    {
        let c = chunk.get_char(j);
        if !('\0' <= c && c <= '\u{7f}') {
            ascii_ok = false;
        }
        if !is_space_char(c) {
            if a >= n {
                a = j;
            }
            b = j + 1;
        }
        j = j + 1;
    }
    if a >= n {
        return None;
    }
    if !ascii_ok {
        proof {
            let i = choose|i: int| 0 <= i < n && !('\0' <= #[trigger] t[i] <= '\u{7f}');
            assert(!is_ascii_chars(t));
            assert(token_start_from(t, 0) < t.len());
            assert(chunk_word(t) is None);
        }
        return None;
    }
    proof {
        assert(is_ascii_chars(t));
        assert(chunk.is_ascii());
        assert(b == trim_end_in(t, n as int));
    }
    let mut word = String::new();
    let mut i = a;
    while i < b
        invariant
            chunk.is_ascii(),
            t == chunk@,
            n == t.len(),
            a <= i <= b <= n,
            word@ == replace_newlines(t.subrange(a as int, i as int)),
        decreases b - i,
    {
        let c = char_at(chunk, i);
        if c == '\n' {
            proof {
                reveal_strlit(" ");
            }
            word.append(" ");
        } else {
            word.append(chunk.substring_ascii(i, i + 1));
        }
        proof {
            assert(word@ =~= replace_newlines(t.subrange(a as int, i + 1)));
        }
        i = i + 1;
    }
    Some(word)
}

/// Selector that treats arbitrary prose as a source of space-delimited
/// tokens, read lazily: each request scans the text from the current
/// offset, skips blank and non-ASCII tokens, and stops with an explicit
/// end-of-input error once the text is exhausted.
#[derive(Debug)]
pub struct BookSelector {
    text: String,
    offset: usize,
}

impl View for BookSelector {
    type V = Seq<char>;

    closed spec fn view(&self) -> Seq<char> {
        self.text@
    }
}

impl BookSelector {
    /// The read offset never passes the text's end.
    pub closed spec fn wf(self) -> bool {
        self.offset <= self.text@.len()
    }

    /// The offset the next read starts from.
    pub closed spec fn pos(self) -> int {
        self.offset as int
    }

    /// Create from a String holding the whole text, positioned at its
    /// start.
    pub fn new(text: String) -> (r: Result<Self, ToipeError>)
        ensures
            r is Ok,
            r matches Ok(sel) ==> sel.wf() && sel@ == text@ && sel.pos() == 0,
    {
        let book_selector = Self { text, offset: 0 };
        Ok(book_selector)
    }

    /// Create from a String representing the text.
    pub fn from_string(text: String) -> (r: Result<Self, ToipeError>)
        ensures
            r is Ok,
            r matches Ok(sel) ==> sel.wf() && sel@ == text@ && sel.pos() == 0,
    {
        BookSelector::new(text)
    }

    /// Reads the raw chunk at the current offset: everything up to and
    /// including the next space delimiter, or the rest of the text.
    fn read_chunk(&mut self) -> (chunk: String)
        requires
            old(self).wf(),
            old(self).pos() < old(self)@.len(),
        ensures
            final(self).wf(),
            final(self)@ == old(self)@,
            chunk@ == old(self)@.subrange(old(self).pos(), chunk_end(old(self)@, old(self).pos())),
            final(self).pos() == chunk_end(old(self)@, old(self).pos()),
    {
        let p = self.offset;
        let e = find_chunk_end(self.text.as_str(), p);
        let chunk = String::from_str(self.text.as_str().substring_char(p, e));
        self.offset = e;
        chunk
    }

    /// Reads the next raw chunk, or `None` once the text is exhausted.
    pub fn next(&mut self) -> (r: Option<String>)
        requires
            old(self).wf(),
        ensures
            final(self).wf(),
            final(self)@ == old(self)@,
            old(self).pos() >= old(self)@.len() ==> r is None && final(self).pos() == old(
                self,
            ).pos(),
            old(self).pos() < old(self)@.len() ==> (r matches Some(chunk) && chunk@ == old(
                self,
            )@.subrange(old(self).pos(), chunk_end(old(self)@, old(self).pos())) && final(self).pos()
                == chunk_end(old(self)@, old(self).pos())),
    {
        let n = self.text.as_str().unicode_len();
        if self.offset >= n {
            return None;
        }
        Some(self.read_chunk())
    }
}

impl WordSelector for BookSelector {
    open spec fn inv(&self) -> bool {
        self.wf()
    }

    /// Any word a chunk at or after the current offset yields may still
    /// come out.
    open spec fn may_serve(&self, w: Seq<char>) -> bool {
        exists|p: int|
            self.pos() <= p <= self@.len() && (#[trigger] next_chunk_word(self@, p)
                matches Option::Some(pair) && w == pair.0)
    }

    /// A successful call serves the first word any remaining chunk yields
    /// and advances the offset just past that chunk.
    open spec fn step_ok(pre: Self, post: Self, w: Seq<char>) -> bool {
        &&& post@ == pre@
        &&& next_chunk_word(pre@, pre.pos()) matches Option::Some(pair) && w == pair.0
            && post.pos() == pair.1
    }

    /// A call fails exactly when no remaining chunk yields a word; the
    /// text is then exhausted.
    open spec fn fail_ok(pre: Self, post: Self, e: ToipeError) -> bool {
        &&& post@ == pre@
        &&& next_chunk_word(pre@, pre.pos()) is None
        &&& post.pos() == pre@.len()
        &&& e.msg@ == "unexpected end of file"@
    }

    proof fn lemma_fail_ok_stable(pre: Self, post: Self, e: ToipeError) {
        assert(next_chunk_word(post@, post.pos()) is None);
    }

    fn new_word(&mut self) -> (r: Result<String, ToipeError>) {
        let ghost pre = *self;
        let ghost s = self.text@;
        let n = self.text.as_str().unicode_len();
        while self.offset < n
            invariant
                pre == *old(self),
                self.wf(),
                self@ == s,
                s == pre@,
                n == s.len(),
                pre.pos() <= self.pos(),
                next_chunk_word(s, pre.pos()) == next_chunk_word(s, self.pos()),
            decreases n - self.offset,
        {
            let ghost p = self.pos();
            proof {
                lemma_chunk_end_bounds(s, p);
            }
            let chunk = self.read_chunk();
            match chunk_to_word(chunk.as_str()) {
                Some(word) => {
                    proof {
                        assert(next_chunk_word(s, p) == Option::Some((word@, chunk_end(s, p))));
                        assert(pre.may_serve(word@));
                        assert forall|w: Seq<char>| #[trigger] self.may_serve(w) implies pre
                            .may_serve(w) by {
                            let q = choose|q: int|
                                self.pos() <= q <= self@.len() && (#[trigger] next_chunk_word(
                                    self@,
                                    q,
                                ) matches Option::Some(pair) && w == pair.0);
                            assert(pre.pos() <= q <= pre@.len() && (next_chunk_word(pre@, q)
                                matches Option::Some(pair) && w == pair.0));
                        }
                        assert(Self::step_ok(pre, *self, word@));
                    }
                    return Ok(word);
                },
                None => {
                    proof {
                        assert(next_chunk_word(s, p) == next_chunk_word(s, self.pos()));
                    }
                },
            }
        }
        let e = ToipeError::from_msg(String::from_str("unexpected end of file"));
        proof {
            assert(self.pos() == n);
            assert(next_chunk_word(s, self.pos()) is None);
            assert forall|w: Seq<char>| #[trigger] self.may_serve(w) implies pre.may_serve(w) by {
                let q = choose|q: int|
                    self.pos() <= q <= self@.len() && (#[trigger] next_chunk_word(self@, q)
                        matches Option::Some(pair) && w == pair.0);
                assert(pre.pos() <= q <= pre@.len() && (next_chunk_word(pre@, q)
                    matches Option::Some(pair) && w == pair.0));
            }
            assert(Self::fail_ok(pre, *self, e));
        }
        Err(e)
    }
}

} // verus!

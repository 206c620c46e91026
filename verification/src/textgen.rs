//! Selecting (random) words for the typing test.
//!
//! [`RawWordSelector`] is the algorithmic core: it indexes an in-memory,
//! alphabetically sorted word corpus by first letter, then serves uniformly
//! drawn, constraint-filtered words.  [`SequentialFileWordSelector`] is a
//! simpler variant that serves pre-tokenized words in order.

use vstd::prelude::*;
use vstd::pervasive::VecAdditionalExecFns;
use vstd::string::*;

use crate::ToipeError;
use crate::corpus::{
    classified_lines, count_letter, count_letter_upto, cum_letters, first_line_with, has_eligible,
    is_alnum, is_eligible, is_space, kept_tokens, kept_tokens_from, lemma_block_of_index,
    lemma_classified_prefix, lemma_count_letter_upto_bound, lemma_count_lt_bound,
    lemma_count_pos_iff_first, lemma_cum_is_count_lt, lemma_cum_monotone,
    lemma_eligible_classified, lemma_first_is_cum, lemma_first_line_with, lemma_line_end_bounds,
    lemma_line_index, lemma_lines_from_bound, lemma_token_end_bounds, lemma_token_start_bounds,
    letter_ord, letter_slot, line_classified, line_content, line_content_at, line_end, line_letter,
    line_start, lower_char, lower_chars, num_lines, sorted_by_letter, token_end_from, token_kept,
    token_start_from, wellformed,
};

use rand::Rng;

verus! {

broadcast use vstd::string::is_ascii_spec_bytes;

/// Length of an ASCII string, in characters.
pub(crate) fn ascii_len(s: &str) -> (n: usize)
    requires
        s.is_ascii(),
    ensures
        n == s@.len(),
{
    let b = s.as_bytes();
    proof {
        vstd::string::is_ascii_spec_bytes(s);
        vstd::slice::axiom_spec_len::<u8>(b);
    }
    b.len()
}

/// Reads the character at index `i` of an ASCII string in constant time.
pub(crate) fn char_at(s: &str, i: usize) -> (c: char)
    requires
        s.is_ascii(),
        i < s@.len(),
    ensures
        c == s@[i as int],
{
    let b = s.get_ascii(i);
    proof {
        assert('\0' <= s@[i as int] <= '\u{7f}');
    }
    b as char
}

/// Position just past the line that starts at `start`.
fn find_line_end(s: &str, start: usize) -> (end: usize)
    requires
        s.is_ascii(),
        start <= s@.len(),
    ensures
        end == line_end(s@, start as int),
        start <= end <= s@.len(),
{
    let n = ascii_len(s);
    let mut j = start;
    proof {
        lemma_line_end_bounds(s@, start as int);
    }
    while j < n
        invariant
            s.is_ascii(),
            n == s@.len(),
            start <= j <= n,
            line_end(s@, start as int) == line_end(s@, j as int),
            start <= line_end(s@, start as int) <= n,
        decreases n - j,
    {
        if char_at(s, j) == '\n' {
            return j + 1;
        }
        j = j + 1;
    }
    n
}

/// Reads the line that starts at `start`: its content without the trailing
/// newline, and the position just past the line.
fn read_line_at(s: &str, start: usize) -> (r: (String, usize))
    requires
        s.is_ascii(),
        start <= s@.len(),
    ensures
        r.0@ == line_content_at(s@, start as int),
        r.1 == line_end(s@, start as int),
{
    let end = find_line_end(s, start);
    let content_end = if end > start && char_at(s, end - 1) == '\n' {
        end - 1
    } else {
        end
    };
    let sub = s.substring_ascii(start, content_end);
    (String::from_str(sub), end)
}

/// A vector of `n` zeros.
fn zeros(n: usize) -> (v: Vec<usize>)
    ensures
        v@.len() == n,
        forall|i: int| 0 <= i < n ==> v@[i] == 0,
{
    let mut v: Vec<usize> = Vec::new();
    let mut i: usize = 0;
    while i < n
        invariant
            i <= n,
            v@.len() == i,
            forall|j: int| 0 <= j < i ==> v@[j] == 0,
        decreases n - i,
    {
        v.push(0);
        i = i + 1;
    }
    v
}

/// Relies on rand's `Rng::gen_range` over the thread-local generator: the
/// result lies inside the given range, and the call panics only when the
/// range is empty.
#[verifier::external_body]
fn random_index(lo: usize, hi: usize) -> (r: usize)
    requires
        lo < hi,
    ensures
        lo <= r < hi,
{
    rand::thread_rng().gen_range(lo..hi)
}

/// ASCII lowercasing, built character by character: uppercase letters are
/// drawn from an alphabet literal, every other character is copied.
fn lowercase(s: &str) -> (r: String)
    requires
        s.is_ascii(),
    ensures
        r@ == lower_chars(s@),
{
    let alphabet = "abcdefghijklmnopqrstuvwxyz";
    proof {
        reveal_strlit("abcdefghijklmnopqrstuvwxyz");
        assert(alphabet.is_ascii());
        assert forall|k: int| 0 <= k < 26 implies #[trigger] alphabet@[k] as int == k + 97 by {}
    }
    let n = ascii_len(s);
    let mut out = String::new();
    let mut i: usize = 0;
    while i < n
        invariant
            s.is_ascii(),
            n == s@.len(),
            i <= n,
            alphabet.is_ascii(),
            alphabet@.len() == 26,
            forall|k: int| 0 <= k < 26 ==> #[trigger] alphabet@[k] as int == k + 97,
            out@ == lower_chars(s@.subrange(0, i as int)),
        decreases n - i,
    {
        let c = char_at(s, i);
        if 'A' <= c && c <= 'Z' {
            let idx = (c as u8 - 65) as usize;
            out.append(alphabet.substring_ascii(idx, idx + 1));
            proof {
                assert(alphabet@[idx as int] == lower_char(c));
                assert(out@ =~= lower_chars(s@.subrange(0, i + 1)));
            }
        } else {
            out.append(s.substring_ascii(i, i + 1));
            proof {
                assert(lower_char(c) == c);
                assert(out@ =~= lower_chars(s@.subrange(0, i + 1)));
            }
        }
        i = i + 1;
    }
    proof {
        assert(s@.subrange(0, n as int) =~= s@);
    }
    out
}

/// Rightmost insertion point of `x` in the non-decreasing array `a`: the
/// first index whose element is strictly greater than `x`.
fn bisect_right(a: &Vec<usize>, x: usize) -> (r: usize)
    requires
        forall|i: int, j: int| 0 <= i <= j < a@.len() ==> a@[i] <= a@[j],
    ensures
        r <= a@.len(),
        forall|i: int| 0 <= i < r ==> a@[i] <= x,
        forall|i: int| r <= i < a@.len() ==> a@[i] > x,
{
    let mut lo: usize = 0;
    let mut hi: usize = a.len();
    while lo < hi
        invariant
            lo <= hi <= a@.len(),
            forall|i: int, j: int| 0 <= i <= j < a@.len() ==> a@[i] <= a@[j],
            forall|i: int| 0 <= i < lo ==> a@[i] <= x,
            forall|i: int| hi <= i < a@.len() ==> a@[i] > x,
        decreases hi - lo,
    {
        let mid = lo + (hi - lo) / 2;
        if a[mid] <= x {
            lo = mid + 1;
        } else {
            hi = mid;
        }
    }
    lo
}

/// How many random draws the constraint filter makes before it falls back
/// to an exhaustive scan of the corpus.
const RETRY_LIMIT: usize = 64;

/// Whether the constraint filter accepts `w`: between 2 and 8 characters,
/// all of them ASCII letters.
pub fn is_eligible_word(w: &str) -> (r: bool)
    ensures
        r == is_eligible(w@),
{
    let n = w.unicode_len();
    if n < 2 || n > 8 {
        return false;
    }
    let mut i: usize = 0;
    while i < n
        invariant
            n == w@.len(),
            2 <= n <= 8,
            i <= n,
            forall|j: int| 0 <= j < i ==> letter_ord(#[trigger] w@[j]) >= 0,
        decreases n - i,
    {
        let c = w.get_char(i);
        if letter_slot(c) >= 26 {
            return false;
        }
        i = i + 1;
    }
    true
}

/// Invariant of the index-building pass after `k` processed lines: every
/// letter that was seen has its first line before line `k`, and
/// `letter_pos` holds that line's start offset.
spec fn letter_pos_ok(s: Seq<char>, counts: Seq<usize>, letter_pos: Seq<usize>, k: int) -> bool {
    &&& forall|l: int|
        0 <= l < 26 && counts[l] > 0 ==> #[trigger] first_line_with(s, l, k) < k
    &&& forall|l: int|
        0 <= l < 26 && counts[l] > 0 ==> #[trigger] letter_pos[l] == line_start(
            s,
            first_line_with(s, l, k),
        )
}

/// Efficient selector of words from an in-memory word list.
///
/// ### Assumptions
///
/// The word list is assumed to:
/// - Have a list of words separated by newline.
/// - Use only English alphabet and **ASCII**.
/// - Be **sorted alphabetically**, in a case-insensitive manner: both
///   "Apple" and "apple" must appear before words starting with "b".
/// - Have no empty lines except at the end.
///
/// Only words between length 2 and 8, inclusive, are served.
///
/// ### Algorithm
///
/// At construction, one pass over all lines builds an index mapping each
/// letter of the alphabet to the byte position of its block of lines and to
/// the cumulative number of lines before that block.
///
/// To select a (pseudo-)random word, a number between 0 (inclusive) and the
/// number of classified lines (exclusive) is drawn.  Binary search over the
/// cumulative array resolves it to the owning letter; the corpus is then
/// read line by line from that letter's position up to the target line.
#[derive(Debug)]
pub struct RawWordSelector {
    corpus: String,
    letter_pos: Vec<usize>,
    letter_cum: Vec<usize>,
}

impl View for RawWordSelector {
    type V = Seq<char>;

    closed spec fn view(&self) -> Seq<char> {
        self.corpus@
    }
}

impl RawWordSelector {
    /// The letter index faithfully describes the corpus: `letter_cum` holds
    /// the cumulative per-letter line counts and `letter_pos` the start
    /// offset of each letter's first line.
    pub closed spec fn wf(self) -> bool {
        &&& self.corpus.is_ascii()
        &&& self.letter_pos@.len() == 26
        &&& self.letter_cum@.len() == 27
        &&& forall|l: int| 0 <= l <= 26 ==> #[trigger] self.letter_cum@[l] == cum_letters(self@, l)
        &&& forall|l: int|
            0 <= l < 26 && count_letter(self@, l) > 0 ==> #[trigger] self.letter_pos@[l]
                == line_start(self@, first_line_with(self@, l, num_lines(self@)))
    }

    /// Create from a String holding the whole word list.
    ///
    /// Builds the letter index in one linear pass over the lines.
    pub fn new(word_list: String) -> (r: Result<Self, ToipeError>)
        requires
            word_list.is_ascii(),
        ensures
            r is Ok,
            r matches Ok(sel) ==> sel.wf() && sel@ == word_list@,
    {
        let ghost s = word_list@;
        let corpus_len = ascii_len(word_list.as_str());
        let mut counts = zeros(26);
        let mut letter_pos = zeros(26);
        let mut pos: usize = 0;
        let ghost mut k: int = 0;

        while pos < corpus_len
            invariant
                word_list.is_ascii(),
                s == word_list@,
                corpus_len == s.len(),
                0 <= k <= pos <= corpus_len,
                k <= num_lines(s),
                pos == line_start(s, k),
                counts@.len() == 26,
                letter_pos@.len() == 26,
                forall|l: int| 0 <= l < 26 ==> #[trigger] counts@[l] == count_letter_upto(s, l, k),
                letter_pos_ok(s, counts@, letter_pos@, k),
            decreases corpus_len - pos,
        {
            let ghost old_counts = counts@;
            let ghost old_letter_pos = letter_pos@;
            proof {
                lemma_line_index(s, k);
                lemma_line_end_bounds(s, pos as int);
            }
            let c = char_at(word_list.as_str(), pos);
            let slot = letter_slot(c);
            let end = find_line_end(word_list.as_str(), pos);
            proof {
                assert(line_letter(s, k) == letter_ord(c));
                assert(line_start(s, k + 1) == end);
            }
            if slot < 26 {
                proof {
                    lemma_count_letter_upto_bound(s, slot as int, k);
                }
                if counts[slot] == 0 {
                    proof {
                        lemma_count_pos_iff_first(s, slot as int, k);
                    }
                    letter_pos.set(slot, pos);
                }
                let cur = counts[slot];
                counts.set(slot, cur + 1);
            }
            proof {
                let ghost k0 = k;
                k = k + 1;
                assert forall|l: int| 0 <= l < 26 implies #[trigger] counts@[l]
                    == count_letter_upto(s, l, k) by {
                    assert(count_letter_upto(s, l, k) == count_letter_upto(s, l, k0) + if line_letter(
                        s,
                        k0,
                    ) == l {
                        1nat
                    } else {
                        0nat
                    });
                }
                assert(letter_pos_ok(s, counts@, letter_pos@, k)) by {
                    assert(letter_pos_ok(s, old_counts, old_letter_pos, k0));
                    assert forall|l: int| 0 <= l < 26 && counts@[l] > 0 implies
                        #[trigger] first_line_with(s, l, k) < k by {
                        lemma_count_pos_iff_first(s, l, k);
                    }
                    assert forall|l: int| 0 <= l < 26 && counts@[l] > 0 implies
                        #[trigger] letter_pos@[l] == line_start(s, first_line_with(s, l, k)) by {
                        lemma_count_pos_iff_first(s, l, k0);
                        lemma_first_line_with(s, l, k0);
                        let f = first_line_with(s, l, k0);
                        if letter_ord(c) == l {
                            if count_letter_upto(s, l, k0) == 0 {
                                assert(f == k0);
                                assert(first_line_with(s, l, k) == k0);
                                assert(letter_pos@[l] == pos);
                            } else {
                                assert(old_counts[l] > 0);
                                assert(f < k0);
                                assert(first_line_with(s, l, k) == f);
                                assert(letter_pos@[l] == old_letter_pos[l]);
                            }
                        } else {
                            assert(counts@[l] == count_letter_upto(s, l, k0));
                            assert(old_counts[l] > 0);
                            assert(f < k0);
                            assert(first_line_with(s, l, k) == f);
                            assert(letter_pos@[l] == old_letter_pos[l]);
                        }
                    }
                }
            }
            pos = end;
        }

        proof {
            lemma_line_index(s, k);
            assert(k == num_lines(s));
        }

        let mut letter_cum = zeros(27);
        let mut l: usize = 0;
        while l < 26
            invariant
                corpus_len == s.len(),
                counts@.len() == 26,
                letter_cum@.len() == 27,
                l <= 26,
                forall|m: int| 0 <= m < 26 ==> #[trigger] counts@[m] == count_letter(s, m),
                forall|m: int| 0 <= m <= l ==> #[trigger] letter_cum@[m] == cum_letters(s, m),
                forall|m: int| l < m < 27 ==> #[trigger] letter_cum@[m] == 0,
            decreases 26 - l,
        {
            proof {
                lemma_cum_is_count_lt(s, l + 1);
                lemma_count_lt_bound(s, l + 1, num_lines(s));
                lemma_lines_from_bound(s, 0);
            }
            let next = letter_cum[l] + counts[l];
            letter_cum.set(l + 1, next);
            l = l + 1;
        }

        let word_selector = Self { corpus: word_list, letter_pos, letter_cum };

        Ok(word_selector)
    }

    /// Reads the word at line `line_offset` within the block of lines of
    /// the letter with ordinal `letter_index`: it seeks to the block's
    /// start offset and scans line by line.
    fn word_at_letter_offset(&self, letter_index: usize, line_offset: usize) -> (r: String)
        requires
            self.wf(),
            wellformed(self@),
            sorted_by_letter(self@),
            letter_index < 26,
            line_offset < count_letter(self@, letter_index as int),
        ensures
            r@ == line_content(self@, cum_letters(self@, letter_index as int) + line_offset),
    {
        let ghost s = self@;
        let ghost l = letter_index as int;
        let ghost base = cum_letters(s, l) as int;
        proof {
            lemma_first_is_cum(s, l);
            lemma_count_lt_bound(s, 26, num_lines(s));
            lemma_cum_is_count_lt(s, 26);
            lemma_cum_monotone(s, l + 1, 26);
            lemma_block_of_index(s, l, base);
            lemma_line_index(s, base);
        }
        let mut p = self.letter_pos[letter_index];
        let mut skipped: usize = 0;
        while skipped < line_offset
            invariant
                self.wf(),
                wellformed(s),
                sorted_by_letter(s),
                s == self@,
                0 <= l < 26,
                base == cum_letters(s, l),
                skipped <= line_offset,
                line_offset < count_letter(s, l),
                p == line_start(s, base + skipped),
                p <= s.len(),
            decreases line_offset - skipped,
        {
            proof {
                lemma_cum_monotone(s, l + 1, 26);
                lemma_cum_is_count_lt(s, 26);
                lemma_count_lt_bound(s, 26, num_lines(s));
                lemma_block_of_index(s, l, base + skipped);
                lemma_line_index(s, base + skipped);
                assert(p < s.len());
                lemma_line_end_bounds(s, p as int);
            }
            p = find_line_end(self.corpus.as_str(), p);
            proof {
                assert(line_start(s, base + skipped + 1) == p);
            }
            skipped = skipped + 1;
        }
        let (word, _end) = read_line_at(self.corpus.as_str(), p);
        word
    }

    /// Reads the word at a global line index: binary search over the
    /// cumulative array resolves the index to its owning letter, and the
    /// letter's block is scanned to the target line.
    ///
    /// Resolving a global index always returns the corresponding corpus
    /// line verbatim, minus its trailing newline.
    pub fn word_at_index(&self, index: usize) -> (r: String)
        requires
            self.wf(),
            wellformed(self@),
            sorted_by_letter(self@),
            index < classified_lines(self@),
        ensures
            r@ == line_content(self@, index as int),
    {
        let ghost s = self@;
        proof {
            lemma_cum_is_count_lt(s, 26);
            assert forall|i: int, j: int| 0 <= i <= j < self.letter_cum@.len() implies self
                .letter_cum@[i] <= self.letter_cum@[j] by {
                lemma_cum_monotone(s, i, j);
            }
        }
        let slot = bisect_right(&self.letter_cum, index);
        proof {
            assert(self.letter_cum@[0] == cum_letters(s, 0));
            assert(self.letter_cum@[0] <= index);
            assert(slot >= 1);
            assert(self.letter_cum@[26] == cum_letters(s, 26));
            assert(self.letter_cum@[26] > index);
            assert(slot <= 26);
        }
        let letter_index = slot - 1;
        let line_offset = index - self.letter_cum[letter_index];
        proof {
            let l = letter_index as int;
            assert(self.letter_cum@[l] == cum_letters(s, l));
            assert(self.letter_cum@[l + 1] == cum_letters(s, l + 1));
            assert(cum_letters(s, l) <= index < cum_letters(s, l + 1));
            assert(line_offset < count_letter(s, l));
        }
        self.word_at_letter_offset(letter_index, line_offset)
    }

    /// Create from a String representing the word list file.
    pub fn from_string(word_list: String) -> (r: Result<Self, ToipeError>)
        requires
            word_list.is_ascii(),
        ensures
            r is Ok,
            r matches Ok(sel) ==> sel.wf() && sel@ == word_list@,
    {
        RawWordSelector::new(word_list)
    }
}

/// Describes a thing that provides new words.
pub trait WordSelector: Sized {
    /// Structural invariant of the selector's state.
    spec fn inv(&self) -> bool;

    /// Whether the selector may still serve the word `w`.
    spec fn may_serve(&self, w: Seq<char>) -> bool;

    /// What one successful call does: how the returned word and the state
    /// after the call relate to the state before it.
    spec fn step_ok(pre: Self, post: Self, w: Seq<char>) -> bool;

    /// When a call may fail, and with which error.
    spec fn fail_ok(pre: Self, post: Self, e: ToipeError) -> bool;

    /// A failure's evidence also holds of the state the failing call
    /// leaves behind.
    proof fn lemma_fail_ok_stable(pre: Self, post: Self, e: ToipeError)
        requires
            Self::fail_ok(pre, post, e),
        ensures
            Self::fail_ok(post, post, e),
    ;

    /// Returns a new word.
    fn new_word(&mut self) -> (r: Result<String, ToipeError>)
        requires
            old(self).inv(),
        ensures
            final(self).inv(),
            r matches Ok(w) ==> old(self).may_serve(w@) && Self::step_ok(
                *old(self),
                *final(self),
                w@,
            ),
            r matches Err(e) ==> Self::fail_ok(*old(self), *final(self), e),
            forall|w: Seq<char>| #[trigger] final(self).may_serve(w) ==> old(self).may_serve(w),
    ;

    /// Returns a [`Vec`] containing `num_words` words, calling
    /// [`Self::new_word`] once per word and failing fast on its first
    /// error, discarding any words already produced.
    ///
    /// On success the words are exactly what a chain of successful calls
    /// serves, in call order; on failure the returned error is one the
    /// selector's final state genuinely fails with, and asking for zero
    /// words never fails.
    fn new_words(&mut self, num_words: usize) -> (r: Result<Vec<String>, ToipeError>)
        requires
            old(self).inv(),
        ensures
            final(self).inv(),
            forall|w: Seq<char>| #[trigger] final(self).may_serve(w) ==> old(self).may_serve(w),
            num_words == 0 ==> r is Ok,
            r matches Ok(ws) ==> ws@.len() == num_words && (forall|i: int|
                0 <= i < ws@.len() ==> old(self).may_serve(#[trigger] ws@[i]@)) && (exists|
                states: Seq<Self>,
            |
                states.len() == num_words + 1 && states[0] == *old(self) && states[
                    num_words as int
                ] == *final(self) && (forall|j: int|
                    0 <= j < num_words ==> Self::step_ok(
                        #[trigger] states[j],
                        states[j + 1],
                        ws.deep_view()[j],
                    ))),
            r matches Err(e) ==> Self::fail_ok(*final(self), *final(self), e),
    {
        let mut words: Vec<String> = Vec::new();
        let mut i: usize = 0;
        let mut failure: Option<ToipeError> = None;
        let ghost mut states: Seq<Self> = seq![*old(self)];
        let ghost mut fail_pre: Self = *old(self);
        while i < num_words
            invariant_except_break
                failure is None,
                states[i as int] == *self,
            invariant
                i <= num_words,
                words@.len() == i,
                self.inv(),
                forall|w: Seq<char>| #[trigger] self.may_serve(w) ==> old(self).may_serve(w),
                forall|j: int| 0 <= j < i ==> old(self).may_serve(#[trigger] words@[j]@),
                states.len() == i + 1,
                states[0] == *old(self),
                forall|j: int|
                    0 <= j < i ==> Self::step_ok(
                        #[trigger] states[j],
                        states[j + 1],
                        words.deep_view()[j],
                    ),
            ensures
                failure is None ==> i == num_words && states[i as int] == *self,
                failure matches Some(e) ==> i < num_words && Self::fail_ok(fail_pre, *self, e),
            decreases num_words - i,
        {
            let ghost pre_call = *self;
            let ghost pre_words = words.deep_view();
            match self.new_word() {
                Ok(w) => {
                    words.push(w);
                    proof {
                        states = states.push(*self);
                        assert(words.deep_view() =~= pre_words.push(w@));
                    }
                },
                Err(e) => {
                    proof {
                        fail_pre = pre_call;
                    }
                    failure = Some(e);
                    break;
                },
            }
            i = i + 1;
        }
        match failure {
            Some(e) => {
                proof {
                    Self::lemma_fail_ok_stable(fail_pre, *self, e);
                }
                Err(e)
            },
            None => {
                proof {
                    assert(states.len() == num_words + 1 && states[0] == *old(self) && states[
                        num_words as int
                    ] == *self && (forall|j: int|
                        0 <= j < num_words ==> Self::step_ok(
                            #[trigger] states[j],
                            states[j + 1],
                            words.deep_view()[j],
                        )));
                }
                Ok(words)
            },
        }
    }
}

impl WordSelector for RawWordSelector {
    /// The index is faithful, the corpus is wellformed and sorted, and at
    /// least one eligible word exists (the documented precondition of the
    /// constraint filter).
    open spec fn inv(&self) -> bool {
        &&& self.wf()
        &&& wellformed(self@)
        &&& sorted_by_letter(self@)
        &&& has_eligible(self@)
    }

    /// Any eligible corpus word, lowercased, may be served at any time.
    open spec fn may_serve(&self, w: Seq<char>) -> bool {
        exists|k: int|
            0 <= k < num_lines(self@) && is_eligible(#[trigger] line_content(self@, k)) && w
                == lower_chars(line_content(self@, k))
    }

    /// A draw leaves the selector unchanged and serves an eligible corpus
    /// word, lowercased.
    open spec fn step_ok(pre: Self, post: Self, w: Seq<char>) -> bool {
        post == pre && pre.may_serve(w)
    }

    /// Drawing from a corpus that holds an eligible word never fails.
    open spec fn fail_ok(pre: Self, post: Self, e: ToipeError) -> bool {
        false
    }

    proof fn lemma_fail_ok_stable(pre: Self, post: Self, e: ToipeError) {
    }

    /// Draws random words until one satisfies the constraint filter, then
    /// returns it lowercased.
    ///
    /// After a bounded number of rejected draws the filter falls back to
    /// drawing uniformly among all eligible lines, so a corpus that holds
    /// at least one eligible word always yields one.
    fn new_word(&mut self) -> (r: Result<String, ToipeError>) {
        let ghost s = self@;
        proof {
            let k = choose|k: int| 0 <= k < num_lines(s) && is_eligible(#[trigger] line_content(s, k));
            lemma_eligible_classified(s, k);
            lemma_classified_prefix(s, k);
            lemma_cum_is_count_lt(s, 26);
            lemma_count_lt_bound(s, 26, num_lines(s));
        }
        let total = self.letter_cum[26];
        let mut tries: usize = RETRY_LIMIT;
        while tries > 0
            invariant
                *self == *old(self),
                self.inv(),
                s == self@,
                total == classified_lines(s),
                0 < total <= num_lines(s),
            decreases tries,
        {
            let idx = random_index(0, total);
            let word = self.word_at_index(idx);
            if is_eligible_word(word.as_str()) {
                let result = lowercase(word.as_str());
                proof {
                    assert(*self == *old(self));
                    assert(is_eligible(line_content(s, idx as int)));
                    assert(old(self).may_serve(result@));
                    assert(Self::step_ok(*old(self), *self, result@));
                }
                return Ok(result);
            }
            tries = tries - 1;
        }
        let mut eligible_idx: Vec<usize> = Vec::new();
        let mut i: usize = 0;
        while i < total
            invariant
                *self == *old(self),
                self.inv(),
                s == self@,
                total == classified_lines(s),
                0 < total <= num_lines(s),
                i <= total,
                forall|j: int|
                    0 <= j < eligible_idx@.len() ==> #[trigger] eligible_idx@[j] < total
                        && is_eligible(line_content(s, eligible_idx@[j] as int)),
                forall|k: int|
                    0 <= k < i && is_eligible(#[trigger] line_content(s, k)) ==> eligible_idx@.len()
                        > 0,
            decreases total - i,
        {
            let word = self.word_at_index(i);
            if is_eligible_word(word.as_str()) {
                eligible_idx.push(i);
            }
            i = i + 1;
        }
        proof {
            let k = choose|k: int| 0 <= k < num_lines(s) && is_eligible(#[trigger] line_content(s, k));
            lemma_eligible_classified(s, k);
            lemma_classified_prefix(s, k);
            assert(k < total);
            assert(eligible_idx@.len() > 0);
        }
        let j = random_index(0, eligible_idx.len());
        let idx = eligible_idx[j];
        let word = self.word_at_index(idx);
        Ok(lowercase(word.as_str()))
    }
}

/// Whether the global line index `i` falls in the half-open interval of
/// letter `l` in the cumulative boundary array.
pub open spec fn owns_index(s: Seq<char>, l: int, i: int) -> bool {
    cum_letters(s, l) <= i < cum_letters(s, l + 1)
}

proof fn lemma_some_letter_owns(s: Seq<char>, i: int, a: int, b: int)
    requires
        0 <= a < b <= 26,
        cum_letters(s, a) <= i < cum_letters(s, b),
    ensures
        exists|l: int| a <= l < b && #[trigger] owns_index(s, l, i),
    decreases b - a,
{
    if cum_letters(s, a + 1) > i {
        assert(owns_index(s, a, i));
    } else {
        lemma_some_letter_owns(s, i, a + 1, b);
    }
}

/// Law: every global index below the total cumulative line count resolves
/// to exactly one letter ordinal whose interval owns it.
pub proof fn lemma_index_resolves_to_one_letter(s: Seq<char>, i: int)
    requires
        0 <= i < cum_letters(s, 26),
    ensures
        exists|l: int| 0 <= l < 26 && #[trigger] owns_index(s, l, i),
        forall|l1: int, l2: int|
            0 <= l1 < 26 && 0 <= l2 < 26 && #[trigger] owns_index(s, l1, i) && #[trigger] owns_index(
                s,
                l2,
                i,
            ) ==> l1 == l2,
{
    lemma_some_letter_owns(s, i, 0, 26);
    assert forall|l1: int, l2: int|
        0 <= l1 < 26 && 0 <= l2 < 26 && #[trigger] owns_index(s, l1, i) && #[trigger] owns_index(
            s,
            l2,
            i,
        ) implies l1 == l2 by {
        if l1 < l2 {
            lemma_cum_monotone(s, l1 + 1, l2);
        }
        if l2 < l1 {
            lemma_cum_monotone(s, l2 + 1, l1);
        }
    }
}

/// Law: over a wellformed, sorted corpus whose words all satisfy the
/// length and alphabet constraints, the constraint filter never rejects a
/// draw: every drawable global index yields an eligible word.
pub proof fn lemma_filter_never_rejects(s: Seq<char>, i: int)
    requires
        wellformed(s),
        sorted_by_letter(s),
        forall|k: int|
            0 <= k < num_lines(s) && line_classified(s, k) ==> is_eligible(
                #[trigger] line_content(s, k),
            ),
        0 <= i < cum_letters(s, 26),
    ensures
        is_eligible(line_content(s, i)),
{
    lemma_cum_is_count_lt(s, 26);
    lemma_count_lt_bound(s, 26, num_lines(s));
    lemma_classified_prefix(s, i);
}

/// Law: every word the indexed sampler may serve is entirely lowercase,
/// whatever the corpus's original casing.
pub proof fn lemma_served_words_lowercase(sel: RawWordSelector, w: Seq<char>)
    requires
        sel.may_serve(w),
    ensures
        forall|i: int| 0 <= i < w.len() ==> !('A' <= #[trigger] w[i] && w[i] <= 'Z'),
{
    let k = choose|k: int|
        0 <= k < num_lines(sel@) && is_eligible(#[trigger] line_content(sel@, k)) && w
            == lower_chars(line_content(sel@, k));
    let content = line_content(sel@, k);
    assert forall|i: int| 0 <= i < w.len() implies !('A' <= #[trigger] w[i] && w[i] <= 'Z') by {
        assert(w[i] == lower_char(content[i]));
    }
}

/// Whether `c` is whitespace, as token splitting sees it.
pub(crate) fn is_space_char(c: char) -> (r: bool)
    ensures
        r == is_space(c),
{
    c == ' ' || c == '\t' || c == '\n' || c == '\r' || c == '\x0b' || c == '\x0c'
}

/// Position of the first non-whitespace character at or after `p`.  Works
/// on arbitrary text, ASCII or not.
pub(crate) fn skip_spaces(s: &str, p: usize) -> (r: usize)
    requires
        p <= s@.len(),
    ensures
        r == token_start_from(s@, p as int),
        p <= r <= s@.len(),
{
    let n = s.unicode_len();
    let mut j = p;
    while j < n
        invariant
            n == s@.len(),
            p <= j <= n,
            token_start_from(s@, p as int) == token_start_from(s@, j as int),
        decreases n - j,
    {
        if !is_space_char(s.get_char(j)) {
            return j;
        }
        j = j + 1;
    }
    n
}

/// Position of the first whitespace character at or after `p`.  Works on
/// arbitrary text, ASCII or not.
fn scan_token(s: &str, p: usize) -> (r: usize)
    requires
        p <= s@.len(),
    ensures
        r == token_end_from(s@, p as int),
        p <= r <= s@.len(),
{
    let n = s.unicode_len();
    let mut j = p;
    while j < n
        invariant
            n == s@.len(),
            p <= j <= n,
            token_end_from(s@, p as int) == token_end_from(s@, j as int),
        decreases n - j,
    {
        if is_space_char(s.get_char(j)) {
            return j;
        }
        j = j + 1;
    }
    n
}

/// Whether every character of `s` in `[a, e)` is ASCII alphanumeric.
/// Works on arbitrary text: any character outside ASCII fails the test.
fn token_all_alnum(s: &str, a: usize, e: usize) -> (r: bool)
    requires
        a <= e <= s@.len(),
    ensures
        r == token_kept(s@.subrange(a as int, e as int)),
{
    let ghost t = s@.subrange(a as int, e as int);
    let mut j = a;
    while j < e
        invariant
            a <= j <= e <= s@.len(),
            t == s@.subrange(a as int, e as int),
            forall|i: int| 0 <= i < j - a ==> is_alnum(#[trigger] t[i]),
        decreases e - j,
    {
        let c = s.get_char(j);
        let alnum = if letter_slot(c) < 26 {
            true
        } else {
            '0' <= c && c <= '9'
        };
        if !alnum {
            proof {
                assert(t[j - a] == c);
                assert(!is_alnum(t[j - a]));
            }
            return false;
        }
        j = j + 1;
    }
    true
}

/// Selector that serves the words of a pre-tokenized text strictly in
/// their original order: the text is split on whitespace once, at
/// construction, and the purely alphanumeric tokens are popped from the
/// front until they run out.
pub struct SequentialFileWordSelector {
    words: Vec<String>,
    next: usize,
}

impl SequentialFileWordSelector {
    /// The cursor never passes the end of the word list.
    pub closed spec fn wf(self) -> bool {
        self.next <= self.words@.len()
    }

    /// The words not yet served, in order.
    pub closed spec fn remaining(self) -> Seq<Seq<char>> {
        self.words.deep_view().skip(self.next as int)
    }

    /// Create from a String holding the whole text, ASCII or not: splits
    /// it on whitespace and keeps the purely alphanumeric tokens, in
    /// their original order; tokens with characters outside ASCII are
    /// dropped by that filter.
    pub fn from_string(text: String) -> (r: Self)
        ensures
            r.wf(),
            r.remaining() == kept_tokens(text@),
    {
        let ghost s = text@;
        let n = text.as_str().unicode_len();
        let mut words: Vec<String> = Vec::new();
        let mut p: usize = 0;
        while p < n
            invariant
                s == text@,
                n == s.len(),
                p <= n,
                words.deep_view() + kept_tokens_from(s, p as int) == kept_tokens(s),
            decreases n - p,
        {
            let ghost old_words = words.deep_view();
            let a = skip_spaces(text.as_str(), p);
            if a >= n {
                proof {
                    assert(kept_tokens_from(s, p as int) == kept_tokens_from(s, n as int));
                }
                p = n;
            } else {
                let e = scan_token(text.as_str(), a);
                proof {
                    lemma_token_start_bounds(s, p as int);
                    assert(token_end_from(s, a as int) == token_end_from(s, a + 1));
                    lemma_token_end_bounds(s, a + 1);
                }
                let ghost t = s.subrange(a as int, e as int);
                if token_all_alnum(text.as_str(), a, e) {
                    let word = String::from_str(text.as_str().substring_char(a, e));
                    words.push(word);
                    proof {
                        assert(kept_tokens_from(s, p as int) == seq![t] + kept_tokens_from(
                            s,
                            e as int,
                        ));
                        assert(words.deep_view() =~= old_words.push(t));
                        assert(words.deep_view() + kept_tokens_from(s, e as int) =~= old_words + (
                        seq![t] + kept_tokens_from(s, e as int)));
                    }
                } else {
                    proof {
                        assert(kept_tokens_from(s, p as int) == kept_tokens_from(s, e as int));
                    }
                }
                p = e;
            }
        }
        proof {
            assert(kept_tokens_from(s, p as int) =~= Seq::<Seq<char>>::empty());
        }
        let r = SequentialFileWordSelector { words, next: 0 };
        proof {
            assert(r.remaining() =~= r.words.deep_view());
        }
        r
    }
}

impl WordSelector for SequentialFileWordSelector {
    open spec fn inv(&self) -> bool {
        self.wf()
    }

    /// Any word not yet served may still come out.
    open spec fn may_serve(&self, w: Seq<char>) -> bool {
        exists|i: int| 0 <= i < self.remaining().len() && w == #[trigger] self.remaining()[i]
    }

    /// A successful call serves exactly the front-most remaining word and
    /// drops it from the remaining ones.
    open spec fn step_ok(pre: Self, post: Self, w: Seq<char>) -> bool {
        &&& pre.remaining().len() > 0
        &&& w == pre.remaining()[0]
        &&& post.remaining() == pre.remaining().drop_first()
    }

    /// A call fails exactly when the words have run out, and exhaustion
    /// leaves the selector unchanged.
    open spec fn fail_ok(pre: Self, post: Self, e: ToipeError) -> bool {
        &&& pre.remaining().len() == 0
        &&& post.remaining() == pre.remaining()
        &&& e.msg@ == "No more words available"@
    }

    proof fn lemma_fail_ok_stable(pre: Self, post: Self, e: ToipeError) {
    }

    fn new_word(&mut self) -> (r: Result<String, ToipeError>) {
        let ghost pre = *self;
        if self.next < self.words.len() {
            let word = self.words[self.next].clone();
            self.next = self.next + 1;
            proof {
                assert(word@ == pre.remaining()[0]);
                assert(self.remaining() =~= pre.remaining().drop_first());
                assert forall|w: Seq<char>| #[trigger] self.may_serve(w) implies pre.may_serve(
                    w,
                ) by {
                    let i = choose|i: int|
                        0 <= i < self.remaining().len() && w == #[trigger] self.remaining()[i];
                    assert(w == pre.remaining()[i + 1]);
                }
                assert(pre.may_serve(word@));
                assert(Self::step_ok(pre, *self, word@));
            }
            Ok(word)
        } else {
            let e = ToipeError::from_msg(String::from_str("No more words available"));
            proof {
                assert(pre.remaining().len() == 0);
                assert(Self::fail_ok(pre, *self, e));
            }
            Err(e)
        }
    }
}

} // verus!

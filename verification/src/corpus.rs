//! Mathematical model of a word corpus: a sequence of ASCII characters that
//! splits into newline-terminated lines, each line one word.
//!
//! The model gives every line a start offset, a content, and a letter
//! classification (the ordinal of its case-folded first character), and
//! counts lines per letter.  The letter index and the samplers in
//! `textgen` state their contracts over these functions.

use vstd::prelude::*;
use vstd::utf8::is_ascii_chars;

verus! {

/// Ordinal of an ASCII letter after case folding: 'a' and 'A' map to 0,
/// 'z' and 'Z' map to 25; every other character maps to -1.
pub open spec fn letter_ord(c: char) -> int {
    if 'a' <= c && c <= 'z' {
        c as int - 'a' as int
    } else if 'A' <= c && c <= 'Z' {
        c as int - 'A' as int
    } else {
        -1
    }
}

/// Case-folding classification of a character, as the index builder uses
/// it: letters give their ordinal, everything else gives 26.
pub fn letter_slot(c: char) -> (r: usize)
    ensures
        letter_ord(c) >= 0 ==> r == letter_ord(c),
        letter_ord(c) < 0 ==> r == 26,
{
    if 'a' <= c && c <= 'z' {
        (c as u8 - 97) as usize
    } else if 'A' <= c && c <= 'Z' {
        (c as u8 - 65) as usize
    } else {
        26
    }
}

/// ASCII lowercasing of one character: 'A'..'Z' map to 'a'..'z', all other
/// characters stay as they are.
pub open spec fn lower_char(c: char) -> char {
    if 'A' <= c && c <= 'Z' {
        ((c as u8 + 32) as char)
    } else {
        c
    }
}

/// ASCII lowercasing of a character sequence.
pub open spec fn lower_chars(s: Seq<char>) -> Seq<char> {
    s.map_values(|c: char| lower_char(c))
}

/// A word the constraint filter accepts: between 2 and 8 characters,
/// all of them ASCII letters.
pub open spec fn is_eligible(w: Seq<char>) -> bool {
    &&& 2 <= w.len() <= 8
    &&& forall|i: int| 0 <= i < w.len() ==> letter_ord(#[trigger] w[i]) >= 0
}

/// Position just past the line that starts at `start`: one past the next
/// newline, or the end of the corpus if no newline follows.
pub open spec fn line_end(s: Seq<char>, start: int) -> int
    decreases s.len() - start when 0 <= start <= s.len()
{
    if start >= s.len() {
        s.len() as int
    } else if s[start] == '\n' {
        start + 1
    } else {
        line_end(s, start + 1)
    }
}

pub proof fn lemma_line_end_bounds(s: Seq<char>, start: int)
    requires
        0 <= start <= s.len(),
    ensures
        start <= line_end(s, start) <= s.len(),
        start < s.len() ==> start < line_end(s, start),
    decreases s.len() - start,
{
    if start < s.len() && s[start] != '\n' {
        lemma_line_end_bounds(s, start + 1);
    }
}

/// Start offset of line `k`; saturates at the corpus end once the lines
/// are exhausted.
pub open spec fn line_start(s: Seq<char>, k: int) -> int
    decreases k when k >= 0
{
    if k <= 0 {
        0
    } else {
        line_end(s, line_start(s, k - 1))
    }
}

pub proof fn lemma_line_start_bounds(s: Seq<char>, k: int)
    requires
        k >= 0,
    ensures
        0 <= line_start(s, k) <= s.len(),
    decreases k,
{
    if k > 0 {
        lemma_line_start_bounds(s, k - 1);
        lemma_line_end_bounds(s, line_start(s, k - 1));
    }
}

/// Number of lines that start at or after position `pos`.
pub open spec fn lines_from(s: Seq<char>, pos: int) -> nat
    decreases s.len() - pos when 0 <= pos <= s.len() via lines_from_dec
{
    if pos >= s.len() {
        0
    } else {
        1 + lines_from(s, line_end(s, pos))
    }
}

#[via_fn]
proof fn lines_from_dec(s: Seq<char>, pos: int) {
    if pos < s.len() {
        lemma_line_end_bounds(s, pos);
    }
}

/// Total number of lines of the corpus.
pub open spec fn num_lines(s: Seq<char>) -> int {
    lines_from(s, 0) as int
}

/// Line `k` exists exactly when its start offset is inside the corpus.
pub open spec fn has_line(s: Seq<char>, k: int) -> bool {
    0 <= k && line_start(s, k) < s.len()
}

/// Relates the line-start offsets to the line count: the first `num_lines`
/// start offsets are inside the corpus, all later ones sit at its end.
pub proof fn lemma_line_index(s: Seq<char>, k: int)
    requires
        k >= 0,
    ensures
        0 <= line_start(s, k) <= s.len(),
        lines_from(s, line_start(s, k)) == if k < num_lines(s) {
            num_lines(s) - k
        } else {
            0
        },
        has_line(s, k) <==> k < num_lines(s),
        !has_line(s, k) ==> line_start(s, k) == s.len(),
    decreases k,
{
    lemma_line_start_bounds(s, k);
    if k > 0 {
        lemma_line_index(s, k - 1);
        let p = line_start(s, k - 1);
        lemma_line_end_bounds(s, p);
        assert(line_start(s, k) == line_end(s, p));
        if k - 1 < num_lines(s) {
            assert(lines_from(s, p) == num_lines(s) - (k - 1));
            assert(p < s.len()) by {
                if p >= s.len() {
                    assert(lines_from(s, p) == 0);
                }
            }
            assert(lines_from(s, p) == 1 + lines_from(s, line_end(s, p)));
        } else {
            assert(p == s.len());
            assert(line_end(s, p) == s.len());
        }
    }
}

/// Content of the line that starts at offset `st`: the characters up to,
/// and not including, its terminating newline (or up to the corpus end).
pub open spec fn line_content_at(s: Seq<char>, st: int) -> Seq<char> {
    let en = line_end(s, st);
    if en > st && s[en - 1] == '\n' {
        s.subrange(st, en - 1)
    } else {
        s.subrange(st, en)
    }
}

/// Content of line `k`, without its trailing newline.
pub open spec fn line_content(s: Seq<char>, k: int) -> Seq<char> {
    line_content_at(s, line_start(s, k))
}

/// Letter classification of line `k`: the ordinal of its case-folded
/// first character, or -1 if the line does not exist or does not start
/// with an ASCII letter.
pub open spec fn line_letter(s: Seq<char>, k: int) -> int {
    if has_line(s, k) {
        letter_ord(s[line_start(s, k)])
    } else {
        -1
    }
}

/// Whether line `k` starts with an ASCII letter.
pub open spec fn line_classified(s: Seq<char>, k: int) -> bool {
    line_letter(s, k) >= 0
}

/// Number of lines before line `n` whose letter classification is `l`.
pub open spec fn count_letter_upto(s: Seq<char>, l: int, n: int) -> nat
    decreases n when n >= 0
{
    if n <= 0 {
        0
    } else {
        count_letter_upto(s, l, n - 1) + if line_letter(s, n - 1) == l {
            1nat
        } else {
            0nat
        }
    }
}

/// Number of corpus lines whose letter classification is `l`.
pub open spec fn count_letter(s: Seq<char>, l: int) -> nat {
    count_letter_upto(s, l, num_lines(s))
}

/// Number of corpus lines owned by letters before `l`: the cumulative
/// boundary of letter `l` in the global line-index space.
pub open spec fn cum_letters(s: Seq<char>, l: int) -> nat
    decreases l when l >= 0
{
    if l <= 0 {
        0
    } else {
        cum_letters(s, l - 1) + count_letter(s, l - 1)
    }
}

/// Number of lines before line `n` classified to a letter before `l`.
pub open spec fn count_lt_upto(s: Seq<char>, l: int, n: int) -> nat
    decreases n when n >= 0
{
    if n <= 0 {
        0
    } else {
        count_lt_upto(s, l, n - 1) + if 0 <= line_letter(s, n - 1) < l {
            1nat
        } else {
            0nat
        }
    }
}

/// Sum, over the letters before `l`, of their line counts before line `n`.
pub open spec fn sum_counts(s: Seq<char>, l: int, n: int) -> nat
    decreases l when l >= 0
{
    if l <= 0 {
        0
    } else {
        sum_counts(s, l - 1, n) + count_letter_upto(s, l - 1, n)
    }
}

pub proof fn lemma_count_letter_upto_bound(s: Seq<char>, l: int, n: int)
    requires
        n >= 0,
    ensures
        count_letter_upto(s, l, n) <= n,
    decreases n,
{
    if n > 0 {
        lemma_count_letter_upto_bound(s, l, n - 1);
    }
}

/// A corpus of `m` characters has at most `m` lines.
pub proof fn lemma_lines_from_bound(s: Seq<char>, pos: int)
    requires
        0 <= pos <= s.len(),
    ensures
        lines_from(s, pos) <= s.len() - pos,
    decreases s.len() - pos,
{
    if pos < s.len() {
        lemma_line_end_bounds(s, pos);
        lemma_lines_from_bound(s, line_end(s, pos));
    }
}

pub proof fn lemma_count_lt_bound(s: Seq<char>, l: int, n: int)
    requires
        n >= 0,
    ensures
        count_lt_upto(s, l, n) <= n,
    decreases n,
{
    if n > 0 {
        lemma_count_lt_bound(s, l, n - 1);
    }
}

/// One processed line changes each partial sum by exactly its own letter's
/// contribution.
proof fn lemma_sum_counts_step(s: Seq<char>, l: int, n: int)
    requires
        l >= 0,
        n >= 1,
    ensures
        sum_counts(s, l, n) == sum_counts(s, l, n - 1) + if 0 <= line_letter(s, n - 1) < l {
            1nat
        } else {
            0nat
        },
    decreases l,
{
    if l > 0 {
        lemma_sum_counts_step(s, l - 1, n);
    }
}

/// The per-letter counts, summed over the letters before `l`, count exactly
/// the lines classified before `l`.
pub proof fn lemma_sum_counts_eq_count_lt(s: Seq<char>, l: int, n: int)
    requires
        l >= 0,
        n >= 0,
    ensures
        sum_counts(s, l, n) == count_lt_upto(s, l, n),
    decreases n,
{
    if n == 0 {
        if l > 0 {
            lemma_sum_counts_zero(s, l);
        }
    } else {
        lemma_sum_counts_eq_count_lt(s, l, n - 1);
        lemma_sum_counts_step(s, l, n);
    }
}

proof fn lemma_sum_counts_zero(s: Seq<char>, l: int)
    requires
        l >= 0,
    ensures
        sum_counts(s, l, 0) == 0,
    decreases l,
{
    if l > 0 {
        lemma_sum_counts_zero(s, l - 1);
    }
}

pub proof fn lemma_count_lt_monotone(s: Seq<char>, l: int, n1: int, n2: int)
    requires
        0 <= n1 <= n2,
    ensures
        count_lt_upto(s, l, n1) <= count_lt_upto(s, l, n2),
    decreases n2,
{
    if n1 < n2 {
        lemma_count_lt_monotone(s, l, n1, n2 - 1);
    }
}

/// If no line in `[a, b)` is classified before `l`, the count does not
/// change over that range.
pub proof fn lemma_count_lt_constant(s: Seq<char>, l: int, a: int, b: int)
    requires
        0 <= a <= b,
        forall|k: int| a <= k < b ==> !(0 <= #[trigger] line_letter(s, k) < l),
    ensures
        count_lt_upto(s, l, b) == count_lt_upto(s, l, a),
    decreases b,
{
    if a < b {
        lemma_count_lt_constant(s, l, a, b - 1);
    }
}

/// If every line before `n` is classified before `l`, the count is `n`.
pub proof fn lemma_count_lt_full(s: Seq<char>, l: int, n: int)
    requires
        n >= 0,
        forall|k: int| 0 <= k < n ==> 0 <= #[trigger] line_letter(s, k) < l,
    ensures
        count_lt_upto(s, l, n) == n,
    decreases n,
{
    if n > 0 {
        lemma_count_lt_full(s, l, n - 1);
    }
}

/// ASCII whitespace, as token splitting sees it.
pub open spec fn is_space(c: char) -> bool {
    c == ' ' || c == '\t' || c == '\n' || c == '\r' || c == '\x0b' || c == '\x0c'
}

/// Whether a character is ASCII alphanumeric.
pub open spec fn is_alnum(c: char) -> bool {
    letter_ord(c) >= 0 || ('0' <= c && c <= '9')
}

/// Whether token splitting keeps a token: every character is ASCII
/// alphanumeric.
pub open spec fn token_kept(t: Seq<char>) -> bool {
    forall|i: int| 0 <= i < t.len() ==> is_alnum(#[trigger] t[i])
}

/// Position of the first non-whitespace character at or after `p`, or the
/// text's end.
pub open spec fn token_start_from(s: Seq<char>, p: int) -> int
    decreases s.len() - p when 0 <= p <= s.len()
{
    if p >= s.len() {
        s.len() as int
    } else if is_space(s[p]) {
        token_start_from(s, p + 1)
    } else {
        p
    }
}

pub proof fn lemma_token_start_bounds(s: Seq<char>, p: int)
    requires
        0 <= p <= s.len(),
    ensures
        p <= token_start_from(s, p) <= s.len(),
        token_start_from(s, p) < s.len() ==> !is_space(s[token_start_from(s, p)]),
    decreases s.len() - p,
{
    if p < s.len() && is_space(s[p]) {
        lemma_token_start_bounds(s, p + 1);
    }
}

/// Position of the first whitespace character at or after `p`, or the
/// text's end.
pub open spec fn token_end_from(s: Seq<char>, p: int) -> int
    decreases s.len() - p when 0 <= p <= s.len()
{
    if p >= s.len() {
        s.len() as int
    } else if !is_space(s[p]) {
        token_end_from(s, p + 1)
    } else {
        p
    }
}

pub proof fn lemma_token_end_bounds(s: Seq<char>, p: int)
    requires
        0 <= p <= s.len(),
    ensures
        p <= token_end_from(s, p) <= s.len(),
    decreases s.len() - p,
{
    if p < s.len() && !is_space(s[p]) {
        lemma_token_end_bounds(s, p + 1);
    }
}

/// The kept tokens of the text from position `p` on: the text is split on
/// whitespace and only the purely alphanumeric tokens remain, in order.
pub open spec fn kept_tokens_from(s: Seq<char>, p: int) -> Seq<Seq<char>>
    decreases s.len() - p when 0 <= p <= s.len() via kept_tokens_from_dec
{
    let a = token_start_from(s, p);
    if a >= s.len() {
        Seq::empty()
    } else {
        let e = token_end_from(s, a);
        let t = s.subrange(a, e);
        if token_kept(t) {
            seq![t] + kept_tokens_from(s, e)
        } else {
            kept_tokens_from(s, e)
        }
    }
}

#[via_fn]
proof fn kept_tokens_from_dec(s: Seq<char>, p: int) {
    lemma_token_start_bounds(s, p);
    let a = token_start_from(s, p);
    if a < s.len() {
        lemma_token_end_bounds(s, a + 1);
        assert(token_end_from(s, a) == token_end_from(s, a + 1));
    }
}

/// All kept tokens of the text.
pub open spec fn kept_tokens(s: Seq<char>) -> Seq<Seq<char>> {
    kept_tokens_from(s, 0)
}

/// Position just past the chunk that starts at `p`: one past the next
/// space, or the text's end if no space follows.  A chunk is what one read
/// up to and including a space delimiter returns.
pub open spec fn chunk_end(s: Seq<char>, p: int) -> int
    decreases s.len() - p when 0 <= p <= s.len()
{
    if p >= s.len() {
        s.len() as int
    } else if s[p] == ' ' {
        p + 1
    } else {
        chunk_end(s, p + 1)
    }
}

pub proof fn lemma_chunk_end_bounds(s: Seq<char>, p: int)
    requires
        0 <= p <= s.len(),
    ensures
        p <= chunk_end(s, p) <= s.len(),
        p < s.len() ==> p < chunk_end(s, p),
    decreases s.len() - p,
{
    if p < s.len() && s[p] != ' ' {
        lemma_chunk_end_bounds(s, p + 1);
    }
}

/// Newlines turned into spaces, all other characters unchanged.
pub open spec fn replace_newlines(t: Seq<char>) -> Seq<char> {
    t.map_values(|c: char| if c == '\n' { ' ' } else { c })
}

/// The word a chunk yields, if any: the chunk with its newlines turned
/// into spaces and surrounding whitespace trimmed away; a chunk that holds
/// only whitespace, or any character outside ASCII, yields nothing.
pub open spec fn chunk_word(t: Seq<char>) -> Option<Seq<char>> {
    let a = token_start_from(t, 0);
    if a >= t.len() {
        Option::None
    } else if !is_ascii_chars(t) {
        Option::None
    } else {
        Option::Some(replace_newlines(t.subrange(a, trim_end_in(t, t.len() as int))))
    }
}

/// End of the trimmed region of `t` when scanning back from `e`: one past
/// the last non-whitespace character before `e`, or 0 if there is none.
pub open spec fn trim_end_in(t: Seq<char>, e: int) -> int
    decreases e when 0 <= e <= t.len()
{
    if e <= 0 {
        0
    } else if is_space(t[e - 1]) {
        trim_end_in(t, e - 1)
    } else {
        e
    }
}

pub proof fn lemma_trim_end_bounds(t: Seq<char>, e: int)
    requires
        0 <= e <= t.len(),
    ensures
        0 <= trim_end_in(t, e) <= e,
        trim_end_in(t, e) > 0 ==> !is_space(t[trim_end_in(t, e) - 1]),
    decreases e,
{
    if e > 0 && is_space(t[e - 1]) {
        lemma_trim_end_bounds(t, e - 1);
    }
}

/// The first word that the chunks from position `p` on yield, with the
/// position just past its chunk; `None` when no chunk from `p` on yields a
/// word.
pub open spec fn next_chunk_word(s: Seq<char>, p: int) -> Option<(Seq<char>, int)>
    decreases s.len() - p when 0 <= p <= s.len() via next_chunk_word_dec
{
    if p >= s.len() {
        Option::None
    } else {
        let e = chunk_end(s, p);
        match chunk_word(s.subrange(p, e)) {
            Option::Some(w) => Option::Some((w, e)),
            Option::None => next_chunk_word(s, e),
        }
    }
}

#[via_fn]
proof fn next_chunk_word_dec(s: Seq<char>, p: int) {
    if p < s.len() {
        lemma_chunk_end_bounds(s, p);
    }
}

/// Whether the corpus holds at least one eligible word: the documented
/// precondition of the constraint filter.
pub open spec fn has_eligible(s: Seq<char>) -> bool {
    exists|k: int| 0 <= k < num_lines(s) && is_eligible(#[trigger] line_content(s, k))
}

/// A line holding an eligible word starts with an ASCII letter, so it is
/// classified.
pub proof fn lemma_eligible_classified(s: Seq<char>, k: int)
    requires
        0 <= k < num_lines(s),
        is_eligible(line_content(s, k)),
    ensures
        line_classified(s, k),
{
    lemma_line_index(s, k);
    let st = line_start(s, k);
    lemma_line_end_bounds(s, st);
    let content = line_content(s, k);
    assert(content[0] == s[st]);
    assert(letter_ord(content[0]) >= 0);
}

/// A corpus in the format the samplers assume: every line starts with an
/// ASCII letter, except that the very last line may be empty (a trailing
/// newline at end-of-file).
pub open spec fn wellformed(s: Seq<char>) -> bool {
    &&& forall|k: int| 0 <= k < num_lines(s) - 1 ==> #[trigger] line_classified(s, k)
    &&& (num_lines(s) > 0 && !line_classified(s, num_lines(s) - 1) ==> line_content(
        s,
        num_lines(s) - 1,
    ).len() == 0)
}

/// The corpus lines are sorted, case-insensitively, by their first letter.
pub open spec fn sorted_by_letter(s: Seq<char>) -> bool {
    forall|j: int, k: int|
        #![trigger line_letter(s, j), line_letter(s, k)]
        0 <= j <= k < num_lines(s) && line_classified(s, j) && line_classified(s, k)
            ==> line_letter(s, j) <= line_letter(s, k)
}

/// Number of classified corpus lines: the size of the global line-index
/// space that sampling draws from.
pub open spec fn classified_lines(s: Seq<char>) -> nat {
    count_lt_upto(s, 26, num_lines(s))
}

proof fn lemma_cum_is_sum(s: Seq<char>, l: int)
    requires
        l >= 0,
    ensures
        cum_letters(s, l) == sum_counts(s, l, num_lines(s)),
    decreases l,
{
    if l > 0 {
        lemma_cum_is_sum(s, l - 1);
    }
}

/// The cumulative boundary of letter `l` counts the lines classified
/// before `l`.
pub proof fn lemma_cum_is_count_lt(s: Seq<char>, l: int)
    requires
        l >= 0,
    ensures
        cum_letters(s, l) == count_lt_upto(s, l, num_lines(s)),
{
    lemma_cum_is_sum(s, l);
    lemma_sum_counts_eq_count_lt(s, l, num_lines(s));
}

pub proof fn lemma_cum_monotone(s: Seq<char>, l1: int, l2: int)
    requires
        0 <= l1 <= l2,
    ensures
        cum_letters(s, l1) <= cum_letters(s, l2),
    decreases l2,
{
    if l1 < l2 {
        lemma_cum_monotone(s, l1, l2 - 1);
    }
}

/// In a wellformed corpus the classified lines form a prefix: line `k` is
/// classified exactly when `k` lies below the classified-line count.
pub proof fn lemma_classified_prefix(s: Seq<char>, k: int)
    requires
        wellformed(s),
        0 <= k < num_lines(s),
    ensures
        line_classified(s, k) <==> k < classified_lines(s),
        classified_lines(s) <= num_lines(s),
{
    let n = num_lines(s);
    lemma_count_lt_bound(s, 26, n);
    if line_classified(s, n - 1) {
        assert forall|j: int| 0 <= j < n implies 0 <= #[trigger] line_letter(s, j) < 26 by {
            assert(line_classified(s, j));
        }
        lemma_count_lt_full(s, 26, n);
    } else {
        assert forall|j: int| 0 <= j < n - 1 implies 0 <= #[trigger] line_letter(s, j) < 26 by {
            assert(line_classified(s, j));
        }
        lemma_count_lt_full(s, 26, n - 1);
        assert(count_lt_upto(s, 26, n) == count_lt_upto(s, 26, n - 1) + 0nat);
    }
}

/// The boundary law of the cumulative array in a wellformed, sorted
/// corpus: line `k` is classified before letter `l` exactly when `k` lies
/// below the boundary of `l`.
pub proof fn lemma_letter_boundary(s: Seq<char>, l: int, k: int)
    requires
        wellformed(s),
        sorted_by_letter(s),
        0 <= l <= 26,
        0 <= k < classified_lines(s),
    ensures
        line_letter(s, k) < l <==> k < cum_letters(s, l),
{
    let n = num_lines(s);
    lemma_count_lt_bound(s, 26, n);
    lemma_classified_prefix(s, k);
    lemma_cum_is_count_lt(s, l);
    if line_letter(s, k) < l {
        assert forall|j: int| 0 <= j < k + 1 implies 0 <= #[trigger] line_letter(s, j) < l by {
            lemma_classified_prefix(s, j);
            assert(line_letter(s, j) <= line_letter(s, k));
        }
        lemma_count_lt_full(s, l, k + 1);
        lemma_count_lt_monotone(s, l, k + 1, n);
    } else {
        assert forall|j: int| k <= j < n implies !(0 <= #[trigger] line_letter(s, j) < l) by {
            if line_classified(s, j) {
                assert(line_letter(s, k) <= line_letter(s, j));
            }
        }
        lemma_count_lt_constant(s, l, k, n);
        lemma_count_lt_bound(s, l, k);
    }
}

/// Every global index inside letter `l`'s interval belongs to a line that
/// is classified with letter `l`.
pub proof fn lemma_block_of_index(s: Seq<char>, l: int, i: int)
    requires
        wellformed(s),
        sorted_by_letter(s),
        0 <= l < 26,
        cum_letters(s, l) <= i < cum_letters(s, l + 1),
    ensures
        i < classified_lines(s),
        line_classified(s, i),
        line_letter(s, i) == l,
{
    lemma_cum_monotone(s, l + 1, 26);
    lemma_cum_is_count_lt(s, 26);
    assert(i < classified_lines(s));
    lemma_count_lt_bound(s, 26, num_lines(s));
    lemma_classified_prefix(s, i);
    lemma_letter_boundary(s, l, i);
    lemma_letter_boundary(s, l + 1, i);
}

/// Index of the first line before line `n` classified with letter `l`,
/// or `n` if there is none.
pub open spec fn first_line_with(s: Seq<char>, l: int, n: int) -> int
    decreases n when n >= 0
{
    if n <= 0 {
        0
    } else {
        let f = first_line_with(s, l, n - 1);
        if f < n - 1 {
            f
        } else if line_letter(s, n - 1) == l {
            n - 1
        } else {
            n
        }
    }
}

pub proof fn lemma_first_line_with(s: Seq<char>, l: int, n: int)
    requires
        n >= 0,
    ensures
        0 <= first_line_with(s, l, n) <= n,
        first_line_with(s, l, n) < n ==> line_letter(s, first_line_with(s, l, n)) == l,
        forall|j: int| 0 <= j < first_line_with(s, l, n) ==> #[trigger] line_letter(s, j) != l,
    decreases n,
{
    if n > 0 {
        lemma_first_line_with(s, l, n - 1);
    }
}

pub proof fn lemma_count_pos_iff_first(s: Seq<char>, l: int, n: int)
    requires
        n >= 0,
    ensures
        count_letter_upto(s, l, n) > 0 <==> first_line_with(s, l, n) < n,
    decreases n,
{
    if n > 0 {
        lemma_count_pos_iff_first(s, l, n - 1);
    }
}

/// In a wellformed, sorted corpus, the first line of a letter that has any
/// lines sits exactly at the letter's cumulative boundary.
pub proof fn lemma_first_is_cum(s: Seq<char>, l: int)
    requires
        wellformed(s),
        sorted_by_letter(s),
        0 <= l < 26,
        count_letter(s, l) > 0,
    ensures
        first_line_with(s, l, num_lines(s)) == cum_letters(s, l),
        cum_letters(s, l) < cum_letters(s, l + 1),
{
    let n = num_lines(s);
    let c = cum_letters(s, l) as int;
    let f = first_line_with(s, l, n);
    lemma_count_pos_iff_first(s, l, n);
    lemma_first_line_with(s, l, n);
    lemma_block_of_index(s, l, c);
    assert(line_letter(s, c) == l);
    assert(f <= c);
    lemma_cum_monotone(s, l + 1, 26);
    lemma_cum_is_count_lt(s, 26);
    lemma_letter_boundary(s, l, f);
}

} // verus!

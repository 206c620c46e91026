//! Stats from a typing test.

use vstd::prelude::*;

verus! {

/// Stores stats from a typing test.  The start and end instants are
/// carried as nanosecond readings of a monotonic clock.
#[derive(Clone)]
pub struct ToipeResults {
    /// number of words in given text
    pub total_words: usize,
    /// number of chars typed including those typed before being cleared
    /// (by backspace or ctrl-w)
    pub total_chars_typed: usize,
    /// number of chars in given text
    pub total_chars_in_text: usize,
    /// number of wrongly typed characters including those that were cleared
    /// (by backspace or ctrl-w)
    pub total_char_errors: usize,
    /// number of chars in given text that were correctly typed at the end
    /// of the test
    pub final_chars_typed_correctly: usize,
    /// number of chars in given text that were wrongly typed at the end of
    /// the test
    pub final_uncorrected_errors: usize,
    /// clock reading when the test started, in nanoseconds
    pub started_at_ns: u64,
    /// clock reading when the test ended, in nanoseconds
    pub ended_at_ns: u64,
}

impl ToipeResults {
    /// Duration of the test in nanoseconds: the time between the user
    /// pressing the first key and them typing the last letter, or zero if
    /// the clock readings are out of order.
    pub fn duration(&self) -> (d: u64)
        ensures
            d == if self.ended_at_ns >= self.started_at_ns {
                self.ended_at_ns - self.started_at_ns
            } else {
                0
            },
    {
        if self.ended_at_ns >= self.started_at_ns {
            self.ended_at_ns - self.started_at_ns
        } else {
            0
        }
    }
}

} // verus!

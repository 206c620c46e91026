//! A terminal typing-test library: its core selects words from a sorted,
//! ASCII, newline-separated word corpus held in memory.
//!
//! The central piece is the indexed word sampler: it builds a per-letter
//! index over the corpus in one pass, then serves uniformly drawn words by
//! resolving a random global line index to a letter block with binary search
//! and scanning to the target line.

pub mod book;
pub mod config;
pub mod corpus;
pub mod results;
pub mod textgen;
pub mod tui;
pub mod wordlists;

use vstd::prelude::*;

verus! {

/// Represents any error caught in Toipe.
#[derive(Debug)]
pub struct ToipeError {
    pub msg: String,
}

impl ToipeError {
    /// Builds an error carrying the given message.
    pub fn from_msg(msg: String) -> (r: Self)
        ensures
            r == (ToipeError { msg }),
    {
        ToipeError { msg }
    }
}

} // verus!

//! Configuration for Toipe.
//!
//! Designed for command-line arguments, but can be used as a library too.

use vstd::prelude::*;
use vstd::string::*;

use crate::wordlists::BuiltInWordlist;

verus! {

/// Main configuration for Toipe.
pub struct ToipeConfig {
    /// Word list name.
    pub wordlist: BuiltInWordlist,
    /// Path to custom word list file.
    ///
    /// This choice takes precedence over `wordlist`.
    pub wordlist_file: Option<String>,
    /// Number of words to show on each test.
    pub num_words: usize,
    /// Read full text sequentially.
    pub use_sequential_words: bool,
    /// Whether to include punctuation.
    pub punctuation: bool,
}

impl ToipeConfig {
    /// Name of the text used for typing test: the custom file if one is
    /// set, else the built-in word list's command-line name.
    pub fn text_name(&self) -> (r: String)
        ensures
            r@ == match self.wordlist_file {
                Option::Some(f) => "custom file `"@ + f@ + "`"@,
                Option::None => self.wordlist.spec_cli_name(),
            },
    {
        if let Some(wordlist_file) = &self.wordlist_file {
            let mut name = String::from_str("custom file `");
            name.append(wordlist_file.as_str());
            name.append("`");
            name
        } else {
            String::from_str(self.wordlist.cli_name())
        }
    }
}

} // verus!

use toipe::config::ToipeConfig;
use toipe::results::ToipeResults;
use toipe::textgen::{RawWordSelector, WordSelector};
use toipe::tui::{CursorPos, HasLength, LinePos, Text};
use toipe::wordlists::{BuiltInWordlist, OS_WORDLIST_PATH};
use toipe::ToipeError;

#[test]
fn duration_subtracts_clock_readings() {
    let results = ToipeResults {
        total_words: 0,
        total_chars_typed: 100,
        total_chars_in_text: 120,
        total_char_errors: 10,
        final_chars_typed_correctly: 80,
        final_uncorrected_errors: 2,
        started_at_ns: 5_000_000_000,
        ended_at_ns: 15_000_000_000,
    };
    assert_eq!(results.duration(), 10_000_000_000);
}

#[test]
fn duration_saturates_on_reversed_readings() {
    let results = ToipeResults {
        total_words: 0,
        total_chars_typed: 0,
        total_chars_in_text: 0,
        total_char_errors: 0,
        final_chars_typed_correctly: 0,
        final_uncorrected_errors: 0,
        started_at_ns: 7,
        ended_at_ns: 3,
    };
    assert_eq!(results.duration(), 0);
}

fn config_with(wordlist: BuiltInWordlist, wordlist_file: Option<String>) -> ToipeConfig {
    ToipeConfig {
        wordlist,
        wordlist_file,
        num_words: 30,
        use_sequential_words: false,
        punctuation: false,
    }
}

#[test]
fn text_name_prefers_custom_file() {
    let config = config_with(BuiltInWordlist::Top250, Some("mylist.txt".to_string()));
    assert_eq!(config.text_name(), "custom file `mylist.txt`");
}

#[test]
fn text_name_uses_wordlist_name() {
    assert_eq!(config_with(BuiltInWordlist::Top250, None).text_name(), "top250");
    assert_eq!(config_with(BuiltInWordlist::Top25000, None).text_name(), "top25000");
    assert_eq!(
        config_with(BuiltInWordlist::CommonlyMisspelled, None).text_name(),
        "commonly-misspelled"
    );
    assert_eq!(config_with(BuiltInWordlist::OS, None).text_name(), "os");
}

#[test]
fn wordlist_contents() {
    assert!(BuiltInWordlist::Top250.contents().is_some());
    assert!(BuiltInWordlist::CommonlyMisspelled.contents().is_some());
    assert!(BuiltInWordlist::OS.contents().is_none());
    assert_eq!(OS_WORDLIST_PATH, "/usr/share/dict/words");
}

#[test]
fn built_in_wordlists_are_distinct() {
    let lists = [
        BuiltInWordlist::Top250,
        BuiltInWordlist::Top500,
        BuiltInWordlist::Top1000,
        BuiltInWordlist::Top2500,
        BuiltInWordlist::Top5000,
        BuiltInWordlist::Top10000,
        BuiltInWordlist::Top25000,
        BuiltInWordlist::CommonlyMisspelled,
    ];
    let contents: Vec<&str> = lists.iter().map(|w| w.contents().unwrap()).collect();
    for i in 0..contents.len() {
        for j in 0..i {
            assert_ne!(contents[i], contents[j]);
        }
    }
    // the larger variants hold more words
    assert!(contents[0].lines().count() < contents[2].lines().count());
    assert!(contents[2].lines().count() < contents[6].lines().count());
}

#[test]
fn built_in_wordlists_feed_the_sampler() {
    // every built-in list is a usable corpus: sorted, ASCII, and full of
    // eligible words
    for wordlist in [
        BuiltInWordlist::Top250,
        BuiltInWordlist::Top500,
        BuiltInWordlist::Top1000,
        BuiltInWordlist::Top2500,
        BuiltInWordlist::Top5000,
        BuiltInWordlist::Top10000,
        BuiltInWordlist::Top25000,
        BuiltInWordlist::CommonlyMisspelled,
    ] {
        let contents = wordlist.contents().unwrap();
        assert!(contents.is_ascii());
        let words: Vec<&str> = contents.lines().collect();
        let mut sorted = words.clone();
        sorted.sort();
        assert_eq!(words, sorted);
        let mut sel = RawWordSelector::from_string(contents.to_string()).unwrap();
        for _ in 0..20 {
            let w = sel.new_word().unwrap();
            assert!(words.contains(&w.as_str()));
        }
    }
}

#[test]
fn text_keeps_its_string() {
    let text = Text::new("hello".to_string());
    assert_eq!(text.raw_text().as_str(), "hello");
    assert_eq!(text.text().as_str(), "hello");
    assert_eq!(text.length(), 5);
}

#[test]
fn slice_of_texts_sums_lengths() {
    let texts = vec![Text::new("ab".to_string()), Text::new("cde".to_string())];
    assert_eq!(texts.as_slice().length(), 5);
}

#[test]
fn cursor_moves_through_lines() {
    let mut cursor = CursorPos::new();
    cursor.lines.push(LinePos { y: 3, x: 5, length: 3 });
    cursor.lines.push(LinePos { y: 4, x: 2, length: 2 });
    assert_eq!(cursor.cur_pos(), (5, 3));
    assert_eq!(cursor.next(), (6, 3));
    assert_eq!(cursor.next(), (7, 3));
    // end of first line: moves to the second
    assert_eq!(cursor.next(), (2, 4));
    assert_eq!(cursor.next(), (3, 4));
    // end of everything: stays put
    assert_eq!(cursor.next(), (3, 4));
    assert_eq!(cursor.prev(), (2, 4));
    // start of second line: moves back to the last char of the first
    assert_eq!(cursor.prev(), (7, 3));
    assert_eq!(cursor.prev(), (6, 3));
    assert_eq!(cursor.prev(), (5, 3));
    // start of everything: stays put
    assert_eq!(cursor.prev(), (5, 3));
}

#[test]
fn error_carries_message() {
    let err = ToipeError::from_msg("something broke".to_string());
    assert_eq!(err.msg, "something broke");
}

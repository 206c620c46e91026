use toipe::book::BookSelector;
use toipe::textgen::{is_eligible_word, RawWordSelector, SequentialFileWordSelector, WordSelector};

fn raw_selector(corpus: &str) -> RawWordSelector {
    RawWordSelector::from_string(corpus.to_string()).unwrap()
}

// A corpus with known per-letter line counts: 'a' has 3 lines, 'b' has 2,
// 'c' has 0 and 'd' has 1, so the cumulative boundaries are [0, 3, 5, 5, 6].
const BOUNDARY_CORPUS: &str = "ant\nape\naxe\nbee\nbug\ndog\n";

#[test]
fn boundary_resolution() {
    let sel = raw_selector(BOUNDARY_CORPUS);
    // indices 0..3 belong to 'a', 3..5 to 'b', and 5 to 'd' (never to 'c',
    // which owns an empty interval)
    for i in 0..3 {
        assert_eq!(sel.word_at_index(i).as_bytes()[0], b'a');
    }
    for i in 3..5 {
        assert_eq!(sel.word_at_index(i).as_bytes()[0], b'b');
    }
    assert_eq!(sel.word_at_index(5), "dog");
}

#[test]
fn word_retrieval_round_trip() {
    let sel = raw_selector(BOUNDARY_CORPUS);
    // resolving a global index returns the corresponding line verbatim
    assert_eq!(sel.word_at_index(0), "ant");
    assert_eq!(sel.word_at_index(3), "bee");
    assert_eq!(sel.word_at_index(5), "dog");
    let all = ["ant", "ape", "axe", "bee", "bug", "dog"];
    for (i, expected) in all.iter().enumerate() {
        assert_eq!(sel.word_at_index(i), *expected);
    }
}

#[test]
fn word_retrieval_without_trailing_newline() {
    // the last line may lack a trailing newline
    let sel = raw_selector("ant\nbee");
    assert_eq!(sel.word_at_index(0), "ant");
    assert_eq!(sel.word_at_index(1), "bee");
}

#[test]
fn filter_accepts_fully_eligible_corpus() {
    // every word satisfies the length and alphabet constraints, so every
    // draw must be accepted
    let mut sel = raw_selector(BOUNDARY_CORPUS);
    let words: Vec<&str> = BOUNDARY_CORPUS.split_whitespace().collect();
    for _ in 0..50 {
        let w = sel.new_word().unwrap();
        assert!(words.contains(&w.as_str()));
    }
}

#[test]
fn filter_rejects_ineligible_words() {
    // only "dog" is eligible: "aa" would be fine but "a" is too short,
    // "cat3" holds a digit and "superlongword" is too long
    let mut sel = raw_selector("a\ncat3\ndog\nsuperlongword\n");
    for _ in 0..30 {
        assert_eq!(sel.new_word().unwrap(), "dog");
    }
}

#[test]
fn sampled_words_are_lowercased() {
    let mut sel = raw_selector("APPLE\nArt\nbAnAnA\n");
    let mut seen = std::collections::BTreeSet::new();
    for _ in 0..60 {
        let w = sel.new_word().unwrap();
        assert!(w.chars().all(|c| c.is_ascii_lowercase()));
        seen.insert(w);
    }
    for w in seen {
        assert!(["apple", "art", "banana"].contains(&w.as_str()));
    }
}

#[test]
fn eligibility_check() {
    assert!(is_eligible_word("dog"));
    assert!(is_eligible_word("DOG"));
    assert!(is_eligible_word("of"));
    assert!(is_eligible_word("grateful"));
    assert!(!is_eligible_word("a"));
    assert!(!is_eligible_word(""));
    assert!(!is_eligible_word("cat3"));
    assert!(!is_eligible_word("superlongword"));
    assert!(!is_eligible_word("dog "));
    assert!(!is_eligible_word("do-g"));
}

#[test]
fn new_words_returns_requested_count() {
    let mut sel = raw_selector(BOUNDARY_CORPUS);
    let words = sel.new_words(7).unwrap();
    assert_eq!(words.len(), 7);
    let all: Vec<&str> = BOUNDARY_CORPUS.split_whitespace().collect();
    for w in &words {
        assert!(all.contains(&w.as_str()));
    }
}

#[test]
fn sequential_selector_order() {
    let mut sel = SequentialFileWordSelector::from_string("This is a test.".to_string());
    // "test." holds a '.', so it is filtered out; the rest come in order
    assert_eq!(sel.new_word().unwrap(), "This");
    assert_eq!(sel.new_word().unwrap(), "is");
    assert_eq!(sel.new_word().unwrap(), "a");
    let err = sel.new_word().unwrap_err();
    assert_eq!(err.msg, "No more words available");
}

#[test]
fn sequential_selector_filters_tokens() {
    let mut sel =
        SequentialFileWordSelector::from_string("hello,  world\n42 ok\tmixed!case end".to_string());
    assert_eq!(sel.new_word().unwrap(), "world");
    assert_eq!(sel.new_word().unwrap(), "42");
    assert_eq!(sel.new_word().unwrap(), "ok");
    assert_eq!(sel.new_word().unwrap(), "end");
    assert!(sel.new_word().is_err());
}

#[test]
fn sequential_selector_skips_non_ascii_tokens() {
    // non-ASCII tokens fall to the alphanumeric filter; the stream goes on
    let mut sel =
        SequentialFileWordSelector::from_string("h\u{e9}llo world caf\u{e9} ok".to_string());
    assert_eq!(sel.new_word().unwrap(), "world");
    assert_eq!(sel.new_word().unwrap(), "ok");
    assert!(sel.new_word().is_err());
}

#[test]
fn zero_words_is_served_without_a_call() {
    let mut sel = SequentialFileWordSelector::from_string(String::new());
    assert_eq!(sel.new_words(0).unwrap(), Vec::<String>::new());
}

#[test]
fn sequential_selector_fails_fast_on_exhaustion() {
    let mut sel = SequentialFileWordSelector::from_string("one two".to_string());
    assert!(sel.new_words(3).is_err());
    let mut sel = SequentialFileWordSelector::from_string("one two three".to_string());
    let words = sel.new_words(3).unwrap();
    assert_eq!(words, vec!["one", "two", "three"]);
}

#[test]
fn book_selector_serves_tokens_in_order() {
    let mut sel = BookSelector::from_string("This is a test.".to_string()).unwrap();
    assert_eq!(sel.new_word().unwrap(), "This");
    assert_eq!(sel.new_word().unwrap(), "is");
    assert_eq!(sel.new_word().unwrap(), "a");
    assert_eq!(sel.new_word().unwrap(), "test.");
    let err = sel.new_word().unwrap_err();
    assert_eq!(err.msg, "unexpected end of file");
}

#[test]
fn book_selector_replaces_newlines_inside_chunks() {
    // a newline between two words without a space joins them in one chunk;
    // the newline comes out as a space
    let mut sel = BookSelector::from_string("This is a test.\nhello world!".to_string()).unwrap();
    assert_eq!(sel.new_word().unwrap(), "This");
    assert_eq!(sel.new_word().unwrap(), "is");
    assert_eq!(sel.new_word().unwrap(), "a");
    assert_eq!(sel.new_word().unwrap(), "test. hello");
    assert_eq!(sel.new_word().unwrap(), "world!");
    assert!(sel.new_word().is_err());
}

#[test]
fn book_selector_skips_non_ascii_tokens() {
    // a token holding a character outside ASCII is skipped, without
    // terminating the stream
    let mut sel = BookSelector::from_string("caf\u{e9} is \u{2014} nice".to_string()).unwrap();
    assert_eq!(sel.new_word().unwrap(), "is");
    assert_eq!(sel.new_word().unwrap(), "nice");
    assert!(sel.new_word().is_err());
}

#[test]
fn book_selector_skips_blank_chunks() {
    let mut sel = BookSelector::from_string("   one    two  ".to_string()).unwrap();
    assert_eq!(sel.new_word().unwrap(), "one");
    assert_eq!(sel.new_word().unwrap(), "two");
    assert!(sel.new_word().is_err());
}

#[test]
fn book_selector_raw_chunks() {
    let mut sel = BookSelector::from_string("ab cd\nef".to_string()).unwrap();
    assert_eq!(sel.next(), Some("ab ".to_string()));
    assert_eq!(sel.next(), Some("cd\nef".to_string()));
    assert_eq!(sel.next(), None);
}

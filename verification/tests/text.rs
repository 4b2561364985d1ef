use typing_game::text::{
    generate_text, sentence_text, spaced_text, words_suffice, TestMode, DEFAULT_WORD_COUNT,
    TIMED_WORD_COUNT,
};
use typing_game::words::split_words;

fn list(words: &[&str]) -> Vec<String> {
    words.iter().map(|w| w.to_string()).collect()
}

fn text(chars: Vec<char>) -> String {
    chars.into_iter().collect()
}

#[test]
fn a_sentence_is_an_entry_of_the_list() {
    let words = list(&["alpha", "beta gamma"]);
    for _ in 0..50 {
        let drawn = text(generate_text(&words, &TestMode::Sentence, None));
        assert!(words.contains(&drawn));
    }
}

#[test]
fn the_draw_reaches_every_entry() {
    let words = list(&["a", "b"]);
    let mut seen = vec![false, false];
    for _ in 0..200 {
        let drawn = text(generate_text(&words, &TestMode::Sentence, None));
        seen[if drawn == "a" { 0 } else { 1 }] = true;
    }
    assert_eq!(seen, vec![true, true]);
}

#[test]
fn a_sentence_without_words_says_so() {
    assert_eq!(text(generate_text(&Vec::new(), &TestMode::Sentence, None)), "No words found.");
    assert_eq!(text(sentence_text(None)), "No words found.");
    assert_eq!(text(sentence_text(Some(&"beta gamma".to_string()))), "beta gamma");
}

#[test]
fn a_counted_text_has_its_words() {
    let words = list(&["alpha", "beta", "gamma"]);
    for target in [1usize, 2, 7] {
        let drawn = text(generate_text(&words, &TestMode::WordsCount, Some(target)));
        let parts = split_words(&drawn);
        assert_eq!(parts.len(), target);
        assert!(parts.iter().all(|p| words.contains(p)));
        assert_eq!(parts.join(" "), drawn);
    }
}

#[test]
fn a_counted_text_has_ten_words_by_default() {
    let drawn = text(generate_text(&list(&["ab"]), &TestMode::WordsCount, None));
    assert_eq!(drawn, ["ab"; 10].join(" "));
    assert_eq!(DEFAULT_WORD_COUNT, 10);
}

#[test]
fn a_timed_text_has_fifty_words() {
    let drawn = text(generate_text(&list(&["ab"]), &TestMode::WordsTimed, Some(3)));
    assert_eq!(drawn, ["ab"; 50].join(" "));
    assert_eq!(TIMED_WORD_COUNT, 50);
}

#[test]
fn a_text_of_no_words_is_empty() {
    assert_eq!(text(generate_text(&Vec::new(), &TestMode::WordsCount, Some(0))), "");
    assert_eq!(text(generate_text(&list(&["ab"]), &TestMode::WordsCount, Some(0))), "");
}

#[test]
fn words_are_spaced_and_split_back() {
    let words = list(&["one", "two", "three"]);
    let picks: Vec<&String> = vec![&words[2], &words[0], &words[0]];
    let spaced = text(spaced_text(&picks));
    assert_eq!(spaced, "three one one");
    assert_eq!(split_words(&spaced), list(&["three", "one", "one"]));
    assert_eq!(text(spaced_text(&Vec::new())), "");
    assert_eq!(text(spaced_text(&vec![&words[1]])), "two");
}

#[test]
fn what_the_word_list_has_to_hold() {
    let none = Vec::new();
    let some = list(&["a"]);
    assert!(words_suffice(&none, &TestMode::Sentence, None));
    assert!(words_suffice(&none, &TestMode::WordsCount, Some(0)));
    assert!(!words_suffice(&none, &TestMode::WordsCount, None));
    assert!(!words_suffice(&none, &TestMode::WordsCount, Some(4)));
    assert!(!words_suffice(&none, &TestMode::WordsTimed, Some(0)));
    assert!(words_suffice(&some, &TestMode::WordsTimed, None));
    assert!(words_suffice(&some, &TestMode::WordsCount, Some(4)));
}

#[test]
fn there_is_something_to_type() {
    for mode in [TestMode::Sentence, TestMode::WordsCount, TestMode::WordsTimed] {
        assert!(!generate_text(&list(&["x", "y z"]), &mode, None).is_empty());
    }
}

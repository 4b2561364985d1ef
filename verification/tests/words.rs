use typing_game::strings::{chars_of, first_char, push_decimal, singleton, string_of};
use typing_game::words::{is_white_space, split_words, words_of_files};

#[test]
fn white_space_is_that_of_the_standard_library() {
    for code in 0..=0x10ffffu32 {
        if let Some(c) = char::from_u32(code) {
            assert_eq!(is_white_space(c), c.is_whitespace(), "{:?}", c);
        }
    }
}

#[test]
fn words_are_those_of_the_standard_library() {
    let texts = [
        "",
        " ",
        "one",
        "one two",
        "  one\ttwo \r\n three\n",
        "caf\u{e9}\u{a0}\u{fc}ber\u{3000}\u{8d8a}\u{2028}end",
        "zero\u{200b}width",
    ];
    for text in texts {
        let expected: Vec<String> = text.split_whitespace().map(|s| s.trim().to_string()).collect();
        assert_eq!(split_words(text), expected);
    }
}

#[test]
fn white_space_divides_words() {
    let mut parts = split_words("a bc");
    parts.extend(split_words("d"));
    assert_eq!(split_words("a bc\nd"), parts);
    assert_eq!(split_words("solid"), vec!["solid".to_string()]);
}

#[test]
fn files_make_up_one_list() {
    let contents = vec!["one two\n".to_string(), "   ".to_string(), "three".to_string()];
    assert_eq!(
        words_of_files(&contents),
        Some(vec!["one".to_string(), "two".to_string(), "three".to_string()])
    );
}

#[test]
fn words_of_a_list_are_solid() {
    let list = words_of_files(&vec![" x \u{85}yz\u{b}".to_string()]).unwrap();
    for word in list {
        assert!(!word.is_empty());
        assert_eq!(word.trim(), word);
    }
}

#[test]
fn no_file_gives_no_list() {
    assert_eq!(words_of_files(&Vec::new()), None);
}

#[test]
fn files_without_words_give_no_list() {
    assert_eq!(words_of_files(&vec!["".to_string(), " \n\t".to_string()]), None);
}

#[test]
fn characters_and_strings() {
    assert_eq!(chars_of("a\u{e9}z"), vec!['a', '\u{e9}', 'z']);
    assert_eq!(string_of(&vec!['a', '\u{e9}', 'z']), "a\u{e9}z");
    assert_eq!(string_of(&Vec::new()), "");
    assert_eq!(singleton('\u{8d8a}'), "\u{8d8a}");
    assert_eq!(first_char("xyz"), Some('x'));
    assert_eq!(first_char(""), None);
}

#[test]
fn numbers_are_written_in_decimal() {
    for n in [0u32, 7, 9, 10, 99, 100, 1203, u32::MAX] {
        let mut s = "n=".to_string();
        push_decimal(&mut s, n);
        assert_eq!(s, format!("n={}", n));
    }
}

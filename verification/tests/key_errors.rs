use typing_game::key_errors::{
    latest_values, leading_values, CharMap, CountRow, KeyErrorStats, PreviousRow, TypedRow,
};

fn count(expected: &str, total: u32) -> CountRow {
    CountRow { expected_char: expected.to_string(), total_errors: total }
}

fn before(expected: &str, previous: Option<&str>) -> PreviousRow {
    PreviousRow {
        expected_char: expected.to_string(),
        previous_char: previous.map(|s| s.to_string()),
    }
}

fn instead(expected: &str, typed: &str) -> TypedRow {
    TypedRow { expected_char: expected.to_string(), typed_char: typed.to_string() }
}

#[test]
fn a_map_from_characters() {
    let mut map: CharMap<u32> = CharMap::new();
    assert_eq!(map.get('a'), None);
    map.insert('a', 1);
    map.insert('\u{10ffff}', 2);
    map.insert('a', 3);
    assert_eq!(map.get('a'), Some(&3));
    assert_eq!(map.get('\u{10ffff}'), Some(&2));
    assert_eq!(map.get('b'), None);
}

#[test]
fn the_first_row_on_a_character_leads() {
    let counts = vec![count("a", 9), count("b", 4)];
    let previous = vec![
        before("a", Some("x")),
        before("a", None),
        before("b", None),
        before("b", Some("y")),
    ];
    let typed = vec![instead("a", "s"), instead("a", "q"), instead("b", "v")];
    assert!(KeyErrorStats::rows_legible(&counts, &previous, &typed));
    let stats = KeyErrorStats::from_rows(&counts, &previous, &typed);
    assert_eq!(stats.char_error_counts.get('a'), Some(&9));
    assert_eq!(stats.char_error_counts.get('b'), Some(&4));
    assert_eq!(stats.char_error_counts.get('c'), None);
    assert_eq!(stats.most_common_prev_char.get('a'), Some(&Some('x')));
    assert_eq!(stats.most_common_prev_char.get('b'), Some(&None));
    assert_eq!(stats.most_common_prev_char.get('c'), None);
    assert_eq!(stats.most_common_typed_char.get('a'), Some(&'s'));
    assert_eq!(stats.most_common_typed_char.get('b'), Some(&'v'));
}

#[test]
fn a_later_run_replaces_the_leader() {
    let map = leading_values(&vec![('a', 1u32), ('a', 2), ('b', 3), ('a', 4), ('a', 5)]);
    assert_eq!(map.get('a'), Some(&4));
    assert_eq!(map.get('b'), Some(&3));
    assert_eq!(map.get('c'), None);
}

#[test]
fn the_leader_is_the_most_common() {
    let totals = [('a', 's', 8u32), ('a', 'q', 8), ('a', 'z', 1), ('b', 'v', 2), ('b', 'n', 1)];
    let pairs: Vec<(char, char)> = totals.iter().map(|t| (t.0, t.1)).collect();
    let map = leading_values(&pairs);
    for c in ['a', 'b'] {
        let most = totals.iter().filter(|t| t.0 == c).map(|t| t.2).max().unwrap();
        let leader = *map.get(c).unwrap();
        assert!(totals.contains(&(c, leader, most)));
    }
}

#[test]
fn the_last_count_of_a_character_holds() {
    let map = latest_values(&vec![('a', 1u32), ('b', 2), ('a', 3)]);
    assert_eq!(map.get('a'), Some(&3));
    assert_eq!(map.get('b'), Some(&2));
}

#[test]
fn key_rows_name_their_first_character() {
    let stats = KeyErrorStats::from_rows(
        &vec![count("ab", 1)],
        &vec![before("cd", Some("")), before("ef", Some("gh"))],
        &vec![instead("ij", "kl")],
    );
    assert_eq!(stats.char_error_counts.get('a'), Some(&1));
    assert_eq!(stats.most_common_prev_char.get('c'), Some(&None));
    assert_eq!(stats.most_common_prev_char.get('e'), Some(&Some('g')));
    assert_eq!(stats.most_common_typed_char.get('i'), Some(&'k'));
}

#[test]
fn key_rows_that_cannot_be_read() {
    let legible = |c: &str, p: &str, t: &str, u: &str| {
        KeyErrorStats::rows_legible(&vec![count(c, 1)], &vec![before(p, None)], &vec![instead(t, u)])
    };
    assert!(legible("a", "a", "a", "b"));
    assert!(!legible("", "a", "a", "b"));
    assert!(!legible("a", "", "a", "b"));
    assert!(!legible("a", "a", "", "b"));
    assert!(!legible("a", "a", "a", ""));
}

#[test]
fn empty_statistics_tell_nothing() {
    let stats = KeyErrorStats::empty();
    assert_eq!(stats.char_error_counts.get('a'), None);
    assert_eq!(stats.most_common_prev_char.get('a'), None);
    assert_eq!(stats.most_common_typed_char.get('a'), None);
}

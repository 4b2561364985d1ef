use typing_game::stats::{ErrorRow, Mistake, Stats};

fn mistake(previous: Option<char>, expected: char, typed: char) -> Mistake {
    Mistake { previous, expected, typed }
}

fn row(previous: Option<&str>, expected: &str, typed: &str, count: u32) -> ErrorRow {
    ErrorRow {
        previous_char: previous.map(|s| s.to_string()),
        expected_char: expected.to_string(),
        typed_char: typed.to_string(),
        error_count: count,
    }
}

fn flat(rows: Vec<ErrorRow>) -> Vec<(Option<String>, String, String, u32)> {
    let mut flat: Vec<_> = rows
        .into_iter()
        .map(|r| (r.previous_char, r.expected_char, r.typed_char, r.error_count))
        .collect();
    flat.sort();
    flat
}

#[test]
fn counts_start_at_nought_and_add_up() {
    let mut stats = Stats::new();
    let m = mistake(Some('a'), 'b', 'c');
    assert_eq!(stats.count(m), 0);
    stats.add_count(m, 2);
    stats.add_count(m, 3);
    assert_eq!(stats.count(m), 5);
}

#[test]
fn mistakes_are_told_apart() {
    let mut stats = Stats::new();
    let top = '\u{10ffff}';
    let all = [
        mistake(None, 'b', 'c'),
        mistake(Some('\0'), 'b', 'c'),
        mistake(Some('b'), 'c', 'b'),
        mistake(Some('c'), 'b', 'b'),
        mistake(Some(top), top, top),
        mistake(None, top, top),
        mistake(None, '\0', '\0'),
    ];
    for (i, m) in all.iter().enumerate() {
        stats.add_count(*m, i as u32 + 1);
    }
    for (i, m) in all.iter().enumerate() {
        assert_eq!(stats.count(*m), i as u32 + 1);
    }
    assert_eq!(stats.to_rows().len(), all.len());
}

#[test]
fn rows_on_one_mistake_are_summed() {
    let rows = vec![
        row(None, "b", "c", 2),
        row(Some("a"), "b", "c", 7),
        row(None, "b", "c", 4),
    ];
    assert!(Stats::rows_loadable(&rows));
    let stats = Stats::from_rows(&rows);
    assert_eq!(stats.count(mistake(None, 'b', 'c')), 6);
    assert_eq!(stats.count(mistake(Some('a'), 'b', 'c')), 7);
    assert_eq!(stats.count(mistake(Some('b'), 'b', 'c')), 0);
}

#[test]
fn fields_name_their_first_character() {
    let rows = vec![row(Some(""), "bx", "cy", 1), row(Some("az"), "b", "c", 2)];
    let stats = Stats::from_rows(&rows);
    assert_eq!(stats.count(mistake(None, 'b', 'c')), 1);
    assert_eq!(stats.count(mistake(Some('a'), 'b', 'c')), 2);
}

#[test]
fn a_row_with_count_nought_makes_an_entry() {
    let stats = Stats::from_rows(&vec![row(None, "b", "c", 0)]);
    assert_eq!(flat(stats.to_rows()), vec![(None, "b".to_string(), "c".to_string(), 0)]);
}

#[test]
fn rows_that_cannot_be_read() {
    assert!(!Stats::rows_loadable(&vec![row(None, "", "c", 1)]));
    assert!(!Stats::rows_loadable(&vec![row(None, "b", "", 1)]));
    assert!(!Stats::rows_loadable(&vec![row(None, "b", "c", u32::MAX), row(None, "b", "c", 1)]));
    assert!(Stats::rows_loadable(&vec![row(None, "b", "c", u32::MAX), row(None, "b", "d", 1)]));
    assert!(Stats::rows_loadable(&Vec::new()));
}

#[test]
fn counts_survive_the_table() {
    let mut stats = Stats::new();
    stats.add_count(mistake(None, 'b', 'c'), 3);
    stats.add_count(mistake(Some(' '), '\u{e9}', 'x'), u32::MAX);
    let rows = stats.to_rows();
    assert_eq!(
        flat(stats.to_rows()),
        vec![
            (None, "b".to_string(), "c".to_string(), 3),
            (Some(" ".to_string()), "\u{e9}".to_string(), "x".to_string(), u32::MAX),
        ]
    );
    assert!(Stats::rows_loadable(&rows));
    assert_eq!(flat(Stats::from_rows(&rows).to_rows()), flat(rows));
}

#[test]
fn two_tables_add_up() {
    let a = vec![row(None, "b", "c", 2), row(Some("q"), "b", "c", 1)];
    let b = vec![row(None, "b", "c", 5)];
    let m = mistake(None, 'b', 'c');
    let apart = Stats::from_rows(&a).count(m) + Stats::from_rows(&b).count(m);
    let both: Vec<ErrorRow> = a.into_iter().chain(b).collect();
    assert_eq!(Stats::from_rows(&both).count(m), apart);
}

#[test]
fn counts_written_over_a_table() {
    let mut stats = Stats::new();
    let first = mistake(None, 'b', 'c');
    let later = mistake(Some('a'), 'b', 'c');
    stats.add_count(first, 3);
    stats.add_count(later, 4);
    let mut table = vec![row(None, "b", "c", 2)];
    table.extend(stats.to_rows());
    let read = Stats::from_rows(&table);
    assert_eq!(read.count(first), 5);
    assert_eq!(read.count(later), 4);
}

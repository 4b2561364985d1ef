use rusqlite::{Connection, Result};

use typing_game::key_errors::{CountRow, KeyErrorStats, PreviousRow, TypedRow};
use typing_game::stats::{ErrorRow, Mistake, Stats};

fn table(rows: &[ErrorRow]) -> Connection {
    let conn = Connection::open_in_memory().unwrap();
    conn.execute(
        "CREATE TABLE error_stats (
            previous_char  TEXT,
            expected_char  TEXT NOT NULL,
            typed_char     TEXT NOT NULL,
            error_count    INTEGER NOT NULL,
            PRIMARY KEY (previous_char, expected_char, typed_char)
        )",
        (),
    )
    .unwrap();
    save(&conn, rows);
    conn
}

fn save(conn: &Connection, rows: &[ErrorRow]) {
    for row in rows {
        conn.execute(
            "INSERT OR REPLACE INTO error_stats (previous_char, expected_char, typed_char, error_count)
                 VALUES (?1, ?2, ?3, ?4)",
            (&row.previous_char, &row.expected_char, &row.typed_char, row.error_count),
        )
        .unwrap();
    }
}

fn read_stats(conn: &Connection) -> Stats {
    let rows = conn
        .prepare("SELECT previous_char, expected_char, typed_char, error_count FROM error_stats")
        .unwrap()
        .query_map((), |row| {
            Ok(ErrorRow {
                previous_char: row.get(0)?,
                expected_char: row.get(1)?,
                typed_char: row.get(2)?,
                error_count: row.get(3)?,
            })
        })
        .unwrap()
        .collect::<Result<Vec<_>>>()
        .unwrap();
    assert!(Stats::rows_loadable(&rows));
    Stats::from_rows(&rows)
}

fn read_key_errors(conn: &Connection) -> KeyErrorStats {
    let counts = conn
        .prepare("SELECT expected_char, SUM(error_count) FROM error_stats GROUP BY expected_char")
        .unwrap()
        .query_map((), |row| {
            Ok(CountRow { expected_char: row.get(0)?, total_errors: row.get(1)? })
        })
        .unwrap()
        .collect::<Result<Vec<_>>>()
        .unwrap();
    let previous = conn
        .prepare(
            "SELECT expected_char, previous_char, SUM(error_count) AS total_errors
             FROM error_stats GROUP BY expected_char, previous_char
             ORDER BY expected_char, total_errors DESC;",
        )
        .unwrap()
        .query_map((), |row| {
            Ok(PreviousRow { expected_char: row.get(0)?, previous_char: row.get(1)? })
        })
        .unwrap()
        .collect::<Result<Vec<_>>>()
        .unwrap();
    let typed = conn
        .prepare(
            "SELECT expected_char, typed_char, SUM(error_count) AS total_errors
             FROM error_stats GROUP BY expected_char, typed_char
             ORDER BY expected_char, total_errors DESC;",
        )
        .unwrap()
        .query_map((), |row| {
            Ok(TypedRow { expected_char: row.get(0)?, typed_char: row.get(1)? })
        })
        .unwrap()
        .collect::<Result<Vec<_>>>()
        .unwrap();
    assert!(KeyErrorStats::rows_legible(&counts, &previous, &typed));
    KeyErrorStats::from_rows(&counts, &previous, &typed)
}

fn some_counts() -> Stats {
    let mut stats = Stats::new();
    for (previous, expected, typed, count) in [
        (None, 'a', 's', 3u32),
        (None, 'a', 'q', 4),
        (Some('x'), 'a', 's', 6),
        (Some('y'), 'a', 'q', 1),
        (Some('a'), 'b', 'v', 2),
        (Some('c'), 'b', 'n', 5),
        (None, '\u{e9}', 'e', 1),
        (Some('a'), '\u{10348}', 'z', 0),
        (Some(' '), '\u{ffee}', 'z', 9),
    ] {
        stats.add_count(Mistake { previous, expected, typed }, count);
    }
    stats
}

fn sum(stats: &Stats, kind: impl Fn(&ErrorRow) -> bool) -> u32 {
    stats.to_rows().iter().filter(|row| kind(row)).map(|row| row.error_count).sum()
}

#[test]
fn error_counts_agree_with_the_counts() {
    let conn = table(&some_counts().to_rows());
    let stats = read_stats(&conn);
    let keys = read_key_errors(&conn);
    for c in ['a', 'b', '\u{e9}', '\u{10348}', '\u{ffee}'] {
        let expected = sum(&stats, |row| row.expected_char == c.to_string());
        assert_eq!(keys.char_error_counts.get(c), Some(&expected));
    }
    assert_eq!(keys.char_error_counts.get('a'), Some(&14));
    assert_eq!(keys.char_error_counts.get('z'), None);
}

#[test]
fn leaders_have_the_largest_sums() {
    let conn = table(&some_counts().to_rows());
    let stats = read_stats(&conn);
    let keys = read_key_errors(&conn);
    for c in ['a', 'b', '\u{e9}', '\u{10348}', '\u{ffee}'] {
        let on = c.to_string();
        let before = |p: Option<String>| {
            sum(&stats, |row| row.expected_char == on && row.previous_char == p)
        };
        let instead = |t: String| sum(&stats, |row| row.expected_char == on && row.typed_char == t);
        let previous = *keys.most_common_prev_char.get(c).unwrap();
        let typed = *keys.most_common_typed_char.get(c).unwrap();
        for row in stats.to_rows() {
            assert!(before(previous.map(|p| p.to_string())) >= before(row.previous_char));
            assert!(instead(typed.to_string()) >= instead(row.typed_char));
        }
    }
    assert_eq!(keys.most_common_prev_char.get('a'), Some(&None));
    assert_eq!(keys.most_common_typed_char.get('a'), Some(&'s'));
    assert_eq!(keys.most_common_prev_char.get('z'), None);
    assert_eq!(keys.most_common_typed_char.get('z'), None);
}

#[test]
fn counts_come_back_from_the_database() {
    let conn = table(&some_counts().to_rows());
    let read = read_stats(&conn);
    for row in some_counts().to_rows() {
        let m = Mistake {
            previous: row.previous_char.as_ref().and_then(|s| s.chars().next()),
            expected: row.expected_char.chars().next().unwrap(),
            typed: row.typed_char.chars().next().unwrap(),
        };
        assert_eq!(read.count(m), row.error_count);
    }
}

#[test]
fn a_second_save_keeps_rows_without_a_previous_character() {
    let conn = table(&some_counts().to_rows());
    save(&conn, &some_counts().to_rows());
    let read = read_stats(&conn);
    assert_eq!(read.count(Mistake { previous: None, expected: 'a', typed: 's' }), 6);
    assert_eq!(read.count(Mistake { previous: Some('x'), expected: 'a', typed: 's' }), 6);
    assert_eq!(read.count(Mistake { previous: Some('c'), expected: 'b', typed: 'n' }), 5);
}

#[test]
fn what_is_read_back_after_a_save_over_other_rows() {
    let held = |previous, expected, typed| Mistake { previous, expected, typed };
    let mut old = Stats::new();
    old.add_count(held(Some('x'), 'a', 's'), 7);
    old.add_count(held(Some('x'), 'b', 's'), 8);
    old.add_count(held(None, 'a', 's'), 9);
    old.add_count(held(None, 'b', 's'), 10);
    let conn = table(&old.to_rows());
    let mut new = Stats::new();
    new.add_count(held(Some('x'), 'a', 's'), 1);
    new.add_count(held(None, 'a', 's'), 2);
    new.add_count(held(Some('y'), 'a', 's'), 3);
    save(&conn, &new.to_rows());
    let read = read_stats(&conn);
    assert_eq!(read.count(held(Some('x'), 'a', 's')), 1);
    assert_eq!(read.count(held(Some('x'), 'b', 's')), 8);
    assert_eq!(read.count(held(None, 'a', 's')), 11);
    assert_eq!(read.count(held(None, 'b', 's')), 10);
    assert_eq!(read.count(held(Some('y'), 'a', 's')), 3);
    assert_eq!(read.to_rows().len(), 5);
}

#[test]
fn counts_outlive_a_game() {
    let conn = table(&some_counts().to_rows());
    let mut stats = read_stats(&conn);
    let m = Mistake { previous: Some('x'), expected: 'a', typed: 's' };
    let fresh = Mistake { previous: Some('q'), expected: 'u', typed: 'i' };
    stats.add_count(m, 1);
    stats.add_count(fresh, 1);
    save(&conn, &stats.to_rows());
    let read = read_stats(&conn);
    assert_eq!(read.count(m), 7);
    assert_eq!(read.count(fresh), 1);
}

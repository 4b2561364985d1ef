use typing_game::game::{Action, AppMode, AppState, KeyCode, KeyPress, LifetimeStats};
use typing_game::key_errors::{CountRow, KeyErrorStats};
use typing_game::score::{Accuracy, Pace};
use typing_game::stats::{Mistake, Stats};
use typing_game::text::TestMode;

fn game(text: &str) -> AppState {
    AppState::with_text(text.chars().collect(), Stats::new(), None, None, None)
}

fn plain(code: KeyCode) -> KeyPress {
    KeyPress { code, control: false }
}

fn key(c: char) -> KeyPress {
    plain(KeyCode::Char(c))
}

fn control(c: char) -> KeyPress {
    KeyPress { code: KeyCode::Char(c), control: true }
}

fn type_all(app: &mut AppState, keys: &str, now: u128) -> Action {
    let mut action = Action::Nothing;
    for c in keys.chars() {
        assert!(app.room_for(key(c)));
        action = app.handle_key(key(c), now);
    }
    action
}

fn typed(app: &AppState) -> String {
    app.typed.iter().collect()
}

fn replay(record: &str) -> String {
    let mut s = String::new();
    for c in record.chars() {
        if c == '\u{8}' {
            s.pop();
        } else {
            s.push(c);
        }
    }
    s
}

#[test]
fn the_game_opens_with_a_sentence() {
    let words = vec!["alpha".to_string(), "beta".to_string()];
    let app = AppState::new(Stats::new(), Some(words.clone()), None, None);
    assert!(words.contains(&app.text.iter().collect::<String>()));
    assert_eq!(app.available_words, words);
    assert_eq!(app.test_mode, TestMode::Sentence);
    assert_eq!(app.word_count_target, None);
    assert_eq!(app.mode, AppMode::Typing);
    assert!(!app.finished && app.typed.is_empty() && app.raw_keystrokes.is_empty());
    assert_eq!((app.start_time, app.duration, app.selected_char), (None, None, None));
}

#[test]
fn the_game_opens_without_anything() {
    let app = AppState::new(Stats::new(), None, None, None);
    assert_eq!(app.text.iter().collect::<String>(), "No words found.");
    assert_eq!(app.available_words, vec!["No words found.".to_string()]);
    assert_eq!(app.lifetime_stats.total_sessions, 0);
    assert_eq!(app.lifetime_stats.average_wpm, "0.00");
    assert_eq!(app.lifetime_stats.average_accuracy, "0.00");
    assert_eq!(app.key_error_stats.char_error_counts.get('a'), None);
}

#[test]
fn faultless_typing_finishes_the_text() {
    let mut app = game("ab c");
    assert_eq!(type_all(&mut app, "ab ", 100), Action::Nothing);
    assert!(!app.finished);
    assert_eq!(type_all(&mut app, "c", 250), Action::Complete);
    assert!(app.finished);
    assert_eq!(app.start_time, Some(100));
    assert_eq!(app.duration, None);
    app.complete(1_100);
    assert_eq!(app.duration, Some(1_000));
    assert_eq!(app.accuracy(), Some(Accuracy { correct: 4, typed: 4 }));
    assert_eq!(app.wpm(), Some(Pace { chars: 4, nanos: 1_000 }));
    assert!(app.stats.to_rows().is_empty());
}

#[test]
fn mistakes_are_counted_with_what_stands_before() {
    let mut app = game("abab");
    type_all(&mut app, "xb", 0);
    app.handle_key(plain(KeyCode::Backspace), 0);
    type_all(&mut app, "ybz", 0);
    assert_eq!(app.stats.count(Mistake { previous: None, expected: 'a', typed: 'x' }), 1);
    assert_eq!(app.stats.count(Mistake { previous: Some('a'), expected: 'b', typed: 'y' }), 1);
    assert_eq!(app.stats.count(Mistake { previous: Some('b'), expected: 'a', typed: 'b' }), 1);
    assert_eq!(app.stats.count(Mistake { previous: Some('a'), expected: 'b', typed: 'z' }), 1);
    assert_eq!(app.stats.to_rows().len(), 4);
    assert!(app.finished);
    assert_eq!(app.accuracy(), Some(Accuracy { correct: 0, typed: 4 }));
}

#[test]
fn backspace_takes_back_but_forgets_nothing() {
    let mut app = game("abc");
    type_all(&mut app, "a", 5);
    type_all(&mut app, "x", 6);
    app.handle_key(plain(KeyCode::Backspace), 7);
    assert_eq!(typed(&app), "a");
    assert_eq!(app.raw_keystrokes, "ax\u{8}");
    assert_eq!(app.stats.count(Mistake { previous: Some('a'), expected: 'b', typed: 'x' }), 1);
    assert_eq!(app.start_time, Some(5));
}

#[test]
fn backspace_on_nothing_is_recorded() {
    let mut app = game("abc");
    assert_eq!(app.handle_key(plain(KeyCode::Backspace), 3), Action::Nothing);
    assert_eq!(typed(&app), "");
    assert_eq!(app.raw_keystrokes, "\u{8}");
    assert_eq!(app.start_time, None);
}

#[test]
fn the_record_tells_what_is_typed() {
    let mut app = game("hello there");
    for press in [
        plain(KeyCode::Backspace),
        key('h'),
        key('e'),
        plain(KeyCode::Backspace),
        plain(KeyCode::Backspace),
        plain(KeyCode::Backspace),
        key('x'),
        key('y'),
    ] {
        app.handle_key(press, 0);
        assert_eq!(replay(&app.raw_keystrokes), typed(&app));
    }
    assert_eq!(typed(&app), "xy");
}

#[test]
fn a_finished_text_is_closed() {
    let mut app = game("ab");
    type_all(&mut app, "ax", 1);
    app.complete(9);
    for press in [key('q'), plain(KeyCode::Backspace), plain(KeyCode::Left), key('b')] {
        assert_eq!(app.handle_key(press, 50), Action::Nothing);
    }
    assert_eq!(typed(&app), "ax");
    assert_eq!(app.raw_keystrokes, "ax");
    assert_eq!((app.start_time, app.duration, app.finished), (Some(1), Some(8), true));
    assert_eq!(app.stats.to_rows().len(), 1);
}

#[test]
fn an_empty_text_is_never_finished() {
    let mut app = game("");
    assert_eq!(type_all(&mut app, "abc", 0), Action::Nothing);
    assert!(!app.finished);
    assert_eq!(typed(&app), "abc");
    assert!(app.stats.to_rows().is_empty());
    assert_eq!(app.accuracy(), Some(Accuracy { correct: 0, typed: 3 }));
}

#[test]
fn control_c_quits_in_either_mode() {
    let mut app = game("c");
    assert_eq!(app.handle_key(control('c'), 0), Action::Quit);
    assert_eq!(typed(&app), "");
    app.handle_key(control('s'), 0);
    assert_eq!(app.handle_key(control('c'), 0), Action::Quit);
    assert_eq!(app.mode, AppMode::Stats);
}

#[test]
fn other_control_characters_are_typed() {
    let mut app = game("xyz");
    app.handle_key(control('x'), 0);
    assert_eq!(typed(&app), "x");
}

#[test]
fn control_s_switches_and_drops_the_selection() {
    let mut app = game("ab");
    type_all(&mut app, "a", 4);
    app.handle_key(control('s'), 5);
    assert_eq!(app.mode, AppMode::Stats);
    app.handle_key(plain(KeyCode::Right), 5);
    assert_eq!(app.selected_char, Some('a'));
    app.handle_key(control('s'), 6);
    assert_eq!((app.mode, app.selected_char), (AppMode::Typing, None));
    assert_eq!(typed(&app), "a");
    assert_eq!(app.raw_keystrokes, "a");
}

#[test]
fn the_alphabet_is_a_ring() {
    let mut app = game("ab");
    app.handle_key(control('s'), 0);
    app.handle_key(plain(KeyCode::Left), 0);
    assert_eq!(app.selected_char, Some('a'));
    app.handle_key(plain(KeyCode::Left), 0);
    assert_eq!(app.selected_char, Some('z'));
    app.handle_key(plain(KeyCode::Right), 0);
    assert_eq!(app.selected_char, Some('a'));
    for expected in ('b'..='z').chain(['a']) {
        app.handle_key(plain(KeyCode::Right), 0);
        assert_eq!(app.selected_char, Some(expected));
    }
}

#[test]
fn a_selection_outside_the_alphabet_stays() {
    let mut app = game("ab");
    app.handle_key(control('s'), 0);
    app.selected_char = Some('A');
    app.handle_key(plain(KeyCode::Right), 0);
    app.handle_key(plain(KeyCode::Left), 0);
    assert_eq!(app.selected_char, Some('A'));
}

#[test]
fn keys_do_not_type_on_the_statistics_screen() {
    let mut app = game("ab");
    app.handle_key(control('s'), 0);
    for press in [key('a'), plain(KeyCode::Backspace), plain(KeyCode::Other)] {
        assert_eq!(app.handle_key(press, 0), Action::Nothing);
    }
    assert_eq!((typed(&app).as_str(), app.raw_keystrokes.as_str()), ("", ""));
    assert_eq!(app.start_time, None);
}

#[test]
fn arrows_do_not_select_while_typing() {
    let mut app = game("ab");
    app.handle_key(plain(KeyCode::Left), 0);
    app.handle_key(plain(KeyCode::Right), 0);
    assert_eq!(app.selected_char, None);
}

#[test]
fn escape_asks_for_a_new_text() {
    let mut app = game("ab");
    type_all(&mut app, "x", 2);
    assert_eq!(app.handle_key(plain(KeyCode::Esc), 3), Action::Reset);
    assert_eq!(typed(&app), "x");
    let stats = KeyErrorStats::from_rows(
        &vec![CountRow { expected_char: "a".to_string(), total_errors: 3 }],
        &Vec::new(),
        &Vec::new(),
    );
    let lifetime = LifetimeStats {
        total_sessions: 2,
        average_wpm: "31.50".to_string(),
        average_accuracy: "97.25".to_string(),
    };
    app.reset_to("new".chars().collect(), Some(lifetime), Some(stats));
    assert_eq!(app.text, vec!['n', 'e', 'w']);
    assert_eq!((typed(&app).as_str(), app.raw_keystrokes.as_str()), ("", ""));
    assert_eq!((app.start_time, app.duration, app.finished), (None, None, false));
    assert_eq!(app.lifetime_stats.total_sessions, 2);
    assert_eq!(app.key_error_stats.char_error_counts.get('a'), Some(&3));
    assert_eq!(app.stats.count(Mistake { previous: None, expected: 'a', typed: 'x' }), 1);
}

#[test]
fn a_reset_draws_from_the_word_list_and_keeps_the_mode() {
    let mut app = AppState::with_text(
        vec!['q'],
        Stats::new(),
        Some(vec!["solo".to_string()]),
        None,
        None,
    );
    app.handle_key(control('s'), 0);
    app.handle_key(plain(KeyCode::Right), 0);
    app.reset(None, None);
    assert_eq!(app.text.iter().collect::<String>(), "solo");
    assert_eq!((app.mode, app.selected_char), (AppMode::Stats, None));
    assert_eq!(app.lifetime_stats.average_wpm, "0.00");
    app.test_mode = TestMode::WordsCount;
    app.word_count_target = Some(3);
    app.reset(None, None);
    assert_eq!(app.text.iter().collect::<String>(), "solo solo solo");
}

#[test]
fn a_full_count_has_no_room() {
    let mut stats = Stats::new();
    let m = Mistake { previous: None, expected: 'a', typed: 'x' };
    stats.add_count(m, u32::MAX);
    let mut app = AppState::with_text(vec!['a', 'b'], stats, None, None, None);
    assert!(!app.room_for(key('x')));
    assert!(app.room_for(key('a')));
    assert!(app.room_for(key('y')));
    assert!(app.room_for(control('c')));
    app.handle_key(control('s'), 0);
    assert!(app.room_for(key('x')));
}

#[test]
fn the_clock_is_started_once() {
    let mut app = game("abc");
    app.handle_key(key('a'), 10);
    app.handle_key(key('b'), 20);
    assert_eq!(app.start_time, Some(10));
}

#[test]
fn a_clock_that_goes_backwards_measures_nothing() {
    let mut app = game("a");
    assert_eq!(app.handle_key(key('a'), 10), Action::Complete);
    app.complete(4);
    assert_eq!(app.duration, Some(0));
    assert_eq!(app.wpm(), None);
}

#[test]
fn figures_of_an_untyped_text() {
    let app = game("abc");
    assert_eq!(app.accuracy(), None);
    assert_eq!(app.wpm(), None);
}

#[test]
fn accuracy_counts_right_places() {
    let mut app = game("abcdef");
    type_all(&mut app, "axcx", 0);
    assert_eq!(app.accuracy(), Some(Accuracy { correct: 2, typed: 4 }));
}

#[test]
fn full_accuracy_is_a_beginning_of_the_text() {
    let mut app = game("abcdef");
    type_all(&mut app, "abc", 0);
    assert_eq!(app.accuracy(), Some(Accuracy { correct: 3, typed: 3 }));
}

#[test]
fn the_record_of_a_session() {
    let mut app = game("ab");
    type_all(&mut app, "x", 1_000_000);
    app.handle_key(plain(KeyCode::Backspace), 2_000_000);
    type_all(&mut app, "ab", 3_000_000);
    let open = app.session_record();
    assert_eq!(open.duration_ms, None);
    app.complete(13_999_999);
    let record = app.session_record();
    assert_eq!(record.target_text, "ab");
    assert_eq!(record.typed_text, "x\u{8}ab");
    assert_eq!(record.duration_ms, Some(12));
}

#[test]
fn long_durations_wrap_in_milliseconds() {
    let mut app = game("a");
    app.duration = Some((u64::MAX as u128 + 6) * 1_000_000 + 999_999);
    assert_eq!(app.session_record().duration_ms, Some(5));
}

fn sound(app: &AppState) -> bool {
    app.finished == (!app.text.is_empty() && app.typed.len() == app.text.len())
        && (app.text.is_empty() || app.typed.len() <= app.text.len())
        && (app.typed.is_empty() || app.start_time.is_some())
        && (app.duration.is_none() || app.finished)
        && app.selected_char.map_or(true, |c| ('a'..='z').contains(&c))
}

#[test]
fn every_state_of_a_game_is_sound() {
    let keys = [
        key('a'),
        plain(KeyCode::Backspace),
        key('b'),
        control('s'),
        plain(KeyCode::Left),
        key('a'),
        plain(KeyCode::Right),
        control('s'),
        plain(KeyCode::Esc),
        plain(KeyCode::Other),
    ];
    let mut app = game("abc");
    let mut choice: usize = 7;
    let mut completed = 0;
    for now in 0..5_000u128 {
        choice = (choice * 1103515245 + 12345) % 2147483648;
        let errors: u32 = app.stats.to_rows().iter().map(|r| r.error_count).sum();
        let was_finished = app.finished;
        match app.handle_key(keys[(choice / 65536) % keys.len()], now) {
            Action::Complete => {
                assert!(!was_finished && app.finished);
                app.complete(now + 1);
                assert!(app.duration.is_some());
                completed += 1;
            }
            Action::Reset => app.reset_to(vec!['a', 'b', 'c'], None, None),
            Action::Nothing => assert_eq!(was_finished, app.finished),
            Action::Quit => panic!("no key of the list quits"),
        }
        assert!(sound(&app));
        assert_eq!(app.finished, app.duration.is_some());
        assert_eq!(app.start_time.is_some(), app.raw_keystrokes.chars().any(|c| c != '\u{8}'));
        let after: u32 = app.stats.to_rows().iter().map(|r| r.error_count).sum();
        assert!(after == errors || after == errors + 1);
    }
    assert!(completed > 0);
}

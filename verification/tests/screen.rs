use typing_game::game::{AppState, KeyCode, KeyPress, LifetimeStats};
use typing_game::key_errors::{CountRow, KeyErrorStats, PreviousRow, TypedRow};
use typing_game::screen::{ui, Color, PaneSize, Screen, Span};
use typing_game::stats::Stats;

fn press(app: &mut AppState, code: KeyCode, control: bool) {
    app.handle_key(KeyPress { code, control }, 0);
}

fn game(text: &str, typed: &str) -> AppState {
    let mut app = AppState::with_text(text.chars().collect(), Stats::new(), None, None, None);
    for c in typed.chars() {
        press(&mut app, KeyCode::Char(c), false);
    }
    app
}

fn key_errors() -> KeyErrorStats {
    let count = |c: &str, n: u32| CountRow { expected_char: c.to_string(), total_errors: n };
    KeyErrorStats::from_rows(
        &vec![count("a", 11), count("b", 10), count("c", 6), count("d", 5), count("e", 1), count("f", 0)],
        &vec![
            PreviousRow { expected_char: "a".to_string(), previous_char: Some("q".to_string()) },
            PreviousRow { expected_char: "b".to_string(), previous_char: None },
        ],
        &vec![TypedRow { expected_char: "a".to_string(), typed_char: "s".to_string() }],
    )
}

fn stats_game() -> AppState {
    let lifetime = LifetimeStats {
        total_sessions: 12,
        average_wpm: "31.50".to_string(),
        average_accuracy: "97.25".to_string(),
    };
    let mut app = AppState::with_text(
        vec!['a'],
        Stats::new(),
        None,
        Some(lifetime),
        Some(key_errors()),
    );
    press(&mut app, KeyCode::Char('s'), true);
    app
}

#[test]
fn the_text_is_marked() {
    match ui(&game("abc", "ax"), "", "") {
        Screen::Typing { split, text, footer } => {
            assert_eq!(split, (PaneSize::Min(0), PaneSize::Length(3)));
            assert_eq!(text.title, "Text to Type");
            assert_eq!(
                text.spans,
                vec![
                    Span { content: 'a', fg: Some(Color::Green), bg: None },
                    Span { content: 'b', fg: Some(Color::Red), bg: Some(Color::DarkGray) },
                    Span { content: 'c', fg: Some(Color::Gray), bg: None },
                ]
            );
            assert_eq!(footer.title, "Instructions");
            assert_eq!(
                footer.body,
                "Start typing the text above. Press 'Esc' to restart or 'Ctrl-C' to quit."
            );
        }
        Screen::Stats { .. } => panic!("the text should be shown"),
    }
}

#[test]
fn a_finished_text_shows_its_results() {
    match ui(&game("ab", "ax"), "42.00", "50.00") {
        Screen::Typing { split, text, footer } => {
            assert_eq!(split, (PaneSize::Percentage(50), PaneSize::Percentage(50)));
            assert_eq!(text.spans.len(), 2);
            assert_eq!(footer.title, "Results");
            assert_eq!(
                footer.body,
                "Finished!\nWPM: 42.00\nAccuracy: 50.00%\n\nPress 'Esc' to try another line or 'Ctrl-C' to quit."
            );
        }
        Screen::Stats { .. } => panic!("the text should be shown"),
    }
}

#[test]
fn green_is_what_accuracy_counts() {
    let app = game("abcdef", "axcdy");
    let correct = app.accuracy().unwrap().correct;
    match ui(&app, "", "") {
        Screen::Typing { text, .. } => {
            let green = text.spans.iter().filter(|s| s.fg == Some(Color::Green)).count();
            assert_eq!(green, correct);
            assert_eq!(green, 3);
        }
        Screen::Stats { .. } => panic!("the text should be shown"),
    }
}

#[test]
fn the_statistics_show_figures_and_alphabet() {
    match ui(&stats_game(), "", "") {
        Screen::Stats { split, lifetime, rest, alphabet, details } => {
            assert_eq!(split, (PaneSize::Percentage(50), PaneSize::Percentage(50)));
            assert_eq!(rest, (PaneSize::Length(3), PaneSize::Min(0)));
            assert_eq!(lifetime.title, "Lifetime Statistics");
            assert_eq!(
                lifetime.body,
                "Lifetime Statistics:\n\nTotal Sessions: 12\nAverage WPM: 31.50\nAverage Accuracy: 97.25%\n\nPress 'Ctrl-S' to return to typing."
            );
            assert_eq!(alphabet.title, "Error Frequency (a-z)");
            assert_eq!(alphabet.spans.len(), 52);
            let letters: String = alphabet.spans.iter().map(|s| s.content).collect();
            assert_eq!(letters, "a b c d e f g h i j k l m n o p q r s t u v w x y z ");
            let colors: Vec<Option<Color>> =
                alphabet.spans.iter().step_by(2).take(7).map(|s| s.fg).collect();
            assert_eq!(
                colors,
                vec![
                    Some(Color::Red),
                    Some(Color::Yellow),
                    Some(Color::Yellow),
                    Some(Color::Green),
                    Some(Color::Green),
                    Some(Color::Gray),
                    Some(Color::Gray),
                ]
            );
            assert!(alphabet.spans.iter().all(|s| s.bg.is_none()));
            assert_eq!(alphabet.spans[1], Span { content: ' ', fg: None, bg: None });
            assert_eq!(details.title, "Instructions");
            assert_eq!(
                details.body,
                "Use Left/Right arrow keys to select a character for details."
            );
        }
        Screen::Typing { .. } => panic!("the statistics should be shown"),
    }
}

#[test]
fn a_selected_letter_shows_its_details() {
    let mut app = stats_game();
    press(&mut app, KeyCode::Right, false);
    match ui(&app, "", "") {
        Screen::Stats { alphabet, details, .. } => {
            assert_eq!(
                alphabet.spans[0],
                Span { content: 'a', fg: Some(Color::Red), bg: Some(Color::DarkGray) }
            );
            assert_eq!(alphabet.spans.iter().filter(|s| s.bg.is_some()).count(), 1);
            assert_eq!(details.title, "Character Details");
            assert_eq!(
                details.body,
                "Details for 'a':\n\nTotal Errors: 11\nMost common char before: q\nMost common char typed instead: s"
            );
        }
        Screen::Typing { .. } => panic!("the statistics should be shown"),
    }
}

#[test]
fn details_that_are_not_known() {
    let mut app = stats_game();
    for expected in [
        "Details for 'b':\n\nTotal Errors: 10\nMost common char before: N/A\nMost common char typed instead: N/A",
        "Details for 'c':\n\nTotal Errors: 6\nMost common char before: N/A\nMost common char typed instead: N/A",
    ] {
        if app.selected_char.is_none() {
            press(&mut app, KeyCode::Right, false);
        }
        press(&mut app, KeyCode::Right, false);
        match ui(&app, "", "") {
            Screen::Stats { details, .. } => assert_eq!(details.body, expected),
            Screen::Typing { .. } => panic!("the statistics should be shown"),
        }
    }
}

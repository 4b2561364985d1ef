//! What the screen shows of the game.

use vstd::prelude::*;

use crate::game::letter;
use crate::game::AppMode;
use crate::game::AppState;
use crate::game::AppView;
use crate::game::LifetimeView;
use crate::key_errors::KeyErrorView;
use crate::score::agreeing;
use crate::score::common_len;
use crate::score::correct_chars;
use crate::strings::decimal;
use crate::strings::push_decimal;

verus! {

/// The colours that the screen uses.
#[derive(Clone, Copy, PartialEq, Eq, Structural, Debug)]
pub enum Color {
    Green,
    Red,
    Yellow,
    Gray,
    DarkGray,
}

/// A character with its colours; none stands for that of the terminal.
#[derive(Clone, Copy, PartialEq, Eq, Structural, Debug)]
pub struct Span {
    pub content: char,
    pub fg: Option<Color>,
    pub bg: Option<Color>,
}

/// How high a part of the screen is: a share in percent, at least a number of
/// lines, or exactly a number of lines.
#[derive(Clone, Copy, PartialEq, Eq, Structural, Debug)]
pub enum PaneSize {
    Percentage(u16),
    Min(u16),
    Length(u16),
}

/// A bordered part of the screen with coloured characters in it.
#[derive(Debug)]
pub struct SpanPanel {
    pub title: String,
    pub spans: Vec<Span>,
}

/// A bordered part of the screen with plain text in it.
#[derive(Debug)]
pub struct TextPanel {
    pub title: String,
    pub body: String,
}

/// The screen, from top to bottom.
#[derive(Debug)]
pub enum Screen {
    /// The text to type above the results or instructions.
    Typing { split: (PaneSize, PaneSize), text: SpanPanel, footer: TextPanel },
    /// The lifetime figures above the rest, which is the alphabet above the
    /// details of a letter or instructions.
    Stats {
        split: (PaneSize, PaneSize),
        lifetime: TextPanel,
        rest: (PaneSize, PaneSize),
        alphabet: SpanPanel,
        details: TextPanel,
    },
}

/// What a `SpanPanel` holds.
#[verifier::ext_equal]
pub struct SpanPanelView {
    pub title: Seq<char>,
    pub spans: Seq<Span>,
}

/// What a `TextPanel` holds.
#[verifier::ext_equal]
pub struct TextPanelView {
    pub title: Seq<char>,
    pub body: Seq<char>,
}

/// What a `Screen` holds.
#[verifier::ext_equal]
pub enum ScreenView {
    Typing { split: (PaneSize, PaneSize), text: SpanPanelView, footer: TextPanelView },
    Stats {
        split: (PaneSize, PaneSize),
        lifetime: TextPanelView,
        rest: (PaneSize, PaneSize),
        alphabet: SpanPanelView,
        details: TextPanelView,
    },
}

impl View for SpanPanel {
    type V = SpanPanelView;

    open spec fn view(&self) -> SpanPanelView {
        SpanPanelView { title: self.title@, spans: self.spans@ }
    }
}

impl View for TextPanel {
    type V = TextPanelView;

    open spec fn view(&self) -> TextPanelView {
        TextPanelView { title: self.title@, body: self.body@ }
    }
}

impl View for Screen {
    type V = ScreenView;

    open spec fn view(&self) -> ScreenView {
        match *self {
            Screen::Typing { split, text, footer } => ScreenView::Typing {
                split,
                text: text@,
                footer: footer@,
            },
            Screen::Stats { split, lifetime, rest, alphabet, details } => ScreenView::Stats {
                split,
                lifetime: lifetime@,
                rest,
                alphabet: alphabet@,
                details: details@,
            },
        }
    }
}

/// How a character of the text is shown: green where it is typed right, red on
/// dark gray where it is typed wrong, gray where it is still to be typed.
pub open spec fn mark(text: Seq<char>, typed: Seq<char>, i: int) -> Span {
    if i >= typed.len() {
        Span { content: text[i], fg: Some(Color::Gray), bg: None }
    } else if typed[i] == text[i] {
        Span { content: text[i], fg: Some(Color::Green), bg: None }
    } else {
        Span { content: text[i], fg: Some(Color::Red), bg: Some(Color::DarkGray) }
    }
}

/// How the text is shown.
pub open spec fn marks(text: Seq<char>, typed: Seq<char>) -> Seq<Span> {
    Seq::new(text.len(), |i: int| mark(text, typed, i))
}

/// The colour for a number of mistakes.
pub open spec fn frequency(errors: nat) -> Color {
    if errors > 10 {
        Color::Red
    } else if errors > 5 {
        Color::Yellow
    } else if errors > 0 {
        Color::Green
    } else {
        Color::Gray
    }
}

/// How often a character was missed.
pub open spec fn errors_on(stats: KeyErrorView, c: char) -> nat {
    if stats.char_error_counts.contains_key(c) {
        stats.char_error_counts[c] as nat
    } else {
        0
    }
}

/// How a letter of the alphabet is shown: in the colour for its mistakes, and
/// on dark gray where it is selected.
pub open spec fn letter_span(app: AppView, c: char) -> Span {
    Span {
        content: c,
        fg: Some(frequency(errors_on(app.key_error_stats, c))),
        bg: if app.selected_char == Some(c) {
            Some(Color::DarkGray)
        } else {
            None
        },
    }
}

/// A space in the colours of the terminal.
pub open spec fn gap() -> Span {
    Span { content: ' ', fg: None, bg: None }
}

/// The first `n` letters of the alphabet, each with a space after it.
pub open spec fn letters(app: AppView, n: nat) -> Seq<Span> {
    Seq::new(
        2 * n,
        |k: int|
            if k % 2 == 0 {
                letter_span(app, letter(k / 2))
            } else {
                gap()
            },
    )
}

/// A character, or a note that there is none.
pub open spec fn or_none(c: Option<char>) -> Seq<char> {
    match c {
        Some(c) => seq![c],
        None => "N/A"@,
    }
}

/// The character most often before a missed one.
pub open spec fn common_previous(stats: KeyErrorView, c: char) -> Option<char> {
    if stats.most_common_prev_char.contains_key(c) {
        stats.most_common_prev_char[c]
    } else {
        None
    }
}

/// The character most often typed instead of a missed one.
pub open spec fn common_typed(stats: KeyErrorView, c: char) -> Option<char> {
    if stats.most_common_typed_char.contains_key(c) {
        Some(stats.most_common_typed_char[c])
    } else {
        None
    }
}

/// What is told of a selected character.
pub open spec fn details_body(stats: KeyErrorView, c: char) -> Seq<char> {
    "Details for '"@.push(c) + "':\n\nTotal Errors: "@ + decimal(errors_on(stats, c))
        + "\nMost common char before: "@ + or_none(common_previous(stats, c))
        + "\nMost common char typed instead: "@ + or_none(common_typed(stats, c))
}

/// What is told of all sessions.
pub open spec fn lifetime_body(stats: LifetimeView) -> Seq<char> {
    "Lifetime Statistics:\n\nTotal Sessions: "@ + decimal(stats.total_sessions)
        + "\nAverage WPM: "@ + stats.average_wpm + "\nAverage Accuracy: "@ + stats.average_accuracy
        + "%\n\nPress 'Ctrl-S' to return to typing."@
}

/// What is told of a finished text.
pub open spec fn results_body(wpm: Seq<char>, accuracy: Seq<char>) -> Seq<char> {
    "Finished!\nWPM: "@ + wpm + "\nAccuracy: "@ + accuracy
        + "%\n\nPress 'Esc' to try another line or 'Ctrl-C' to quit."@
}

/// What the screen shows. `wpm` and `accuracy` are the figures of a finished
/// text, written out.
pub open spec fn screen_of(app: AppView, wpm: Seq<char>, accuracy: Seq<char>) -> ScreenView {
    match app.mode {
        AppMode::Typing => ScreenView::Typing {
            split: if app.finished {
                (PaneSize::Percentage(50), PaneSize::Percentage(50))
            } else {
                (PaneSize::Min(0), PaneSize::Length(3))
            },
            text: SpanPanelView { title: "Text to Type"@, spans: marks(app.text, app.typed) },
            footer: if app.finished {
                TextPanelView { title: "Results"@, body: results_body(wpm, accuracy) }
            } else {
                TextPanelView {
                    title: "Instructions"@,
                    body:
                        "Start typing the text above. Press 'Esc' to restart or 'Ctrl-C' to quit."@,
                }
            },
        },
        AppMode::Stats => ScreenView::Stats {
            split: (PaneSize::Percentage(50), PaneSize::Percentage(50)),
            lifetime: TextPanelView {
                title: "Lifetime Statistics"@,
                body: lifetime_body(app.lifetime_stats),
            },
            rest: (PaneSize::Length(3), PaneSize::Min(0)),
            alphabet: SpanPanelView { title: "Error Frequency (a-z)"@, spans: letters(app, 26) },
            details: match app.selected_char {
                Some(c) => TextPanelView {
                    title: "Character Details"@,
                    body: details_body(app.key_error_stats, c),
                },
                None => TextPanelView {
                    title: "Instructions"@,
                    body: "Use Left/Right arrow keys to select a character for details."@,
                },
            },
        },
    }
}

fn text_panel(title: &str, body: String) -> (panel: TextPanel)
    ensures
        panel@ == (TextPanelView { title: title@, body: body@ }),
{
    TextPanel { title: title.to_owned(), body }
}

/// The marked text.
fn marked_text(app: &AppState) -> (spans: Vec<Span>)
    ensures
        spans@ == marks(app@.text, app@.typed),
{
    let mut spans: Vec<Span> = Vec::new();
    let ghost all = marks(app@.text, app@.typed);
    for i in 0..app.text.len()
        invariant
            all == marks(app@.text, app@.typed),
            spans@ == all.take(i as int),
    {
        let content = app.text[i];
        let span = if i >= app.typed.len() {
            Span { content, fg: Some(Color::Gray), bg: None }
        } else if app.typed[i] == content {
            Span { content, fg: Some(Color::Green), bg: None }
        } else {
            Span { content, fg: Some(Color::Red), bg: Some(Color::DarkGray) }
        };
        assert(span == all[i as int]);
        spans.push(span);
        assert(spans@ == all.take(i + 1));
    }
    assert(all.take(all.len() as int) == all);
    spans
}

/// How often a character was missed.
fn error_count(app: &AppState, c: char) -> (n: u32)
    ensures
        n == errors_on(app@.key_error_stats, c),
{
    match app.key_error_stats.char_error_counts.get(c) {
        Some(n) => *n,
        None => 0,
    }
}

/// The coloured alphabet.
fn coloured_alphabet(app: &AppState) -> (spans: Vec<Span>)
    ensures
        spans@ == letters(app@, 26),
{
    let mut spans: Vec<Span> = Vec::new();
    for i in 0..26u8
        invariant
            spans@ == letters(app@, i as nat),
    {
        let c = (97 + i) as char;
        let errors: u32 = error_count(app, c);
        let color = if errors > 10 {
            Color::Red
        } else if errors > 5 {
            Color::Yellow
        } else if errors > 0 {
            Color::Green
        } else {
            Color::Gray
        };
        let selected: bool = match app.selected_char {
            Some(s) => s == c,
            None => false,
        };
        let bg = if selected {
            Some(Color::DarkGray)
        } else {
            None
        };
        spans.push(Span { content: c, fg: Some(color), bg });
        spans.push(Span { content: ' ', fg: None, bg: None });
        assert(spans@ == letters(app@, (i + 1) as nat));
    }
    spans
}

fn push_or_none(s: &mut String, c: Option<char>)
    ensures
        final(s)@ == old(s)@ + or_none(c),
{
    match c {
        Some(c) => {
            s.push(c);
            assert(s@ == old(s)@ + seq![c]);
        },
        None => {
            s.append("N/A");
        },
    }
}

fn details_text(app: &AppState, c: char) -> (body: String)
    ensures
        body@ == details_body(app@.key_error_stats, c),
{
    let previous: Option<char> = match app.key_error_stats.most_common_prev_char.get(c) {
        Some(previous) => *previous,
        None => None,
    };
    let typed: Option<char> = match app.key_error_stats.most_common_typed_char.get(c) {
        Some(typed) => Some(*typed),
        None => None,
    };
    let mut body = "Details for '".to_owned();
    body.push(c);
    body.append("':\n\nTotal Errors: ");
    push_decimal(&mut body, error_count(app, c));
    body.append("\nMost common char before: ");
    push_or_none(&mut body, previous);
    body.append("\nMost common char typed instead: ");
    push_or_none(&mut body, typed);
    body
}

fn lifetime_text(app: &AppState) -> (body: String)
    ensures
        body@ == lifetime_body(app@.lifetime_stats),
{
    let mut body = "Lifetime Statistics:\n\nTotal Sessions: ".to_owned();
    push_decimal(&mut body, app.lifetime_stats.total_sessions);
    body.append("\nAverage WPM: ");
    body.append(app.lifetime_stats.average_wpm.as_str());
    body.append("\nAverage Accuracy: ");
    body.append(app.lifetime_stats.average_accuracy.as_str());
    body.append("%\n\nPress 'Ctrl-S' to return to typing.");
    body
}

fn results_text(wpm: &str, accuracy: &str) -> (body: String)
    ensures
        body@ == results_body(wpm@, accuracy@),
{
    let mut body = "Finished!\nWPM: ".to_owned();
    body.append(wpm);
    body.append("\nAccuracy: ");
    body.append(accuracy);
    body.append("%\n\nPress 'Esc' to try another line or 'Ctrl-C' to quit.");
    body
}

/// What the screen shows. `wpm` and `accuracy` are the figures of a finished
/// text, written out with two decimals.
pub fn ui(app: &AppState, wpm: &str, accuracy: &str) -> (screen: Screen)
    ensures
        screen@ == screen_of(app@, wpm@, accuracy@),
{
    match app.mode {
        AppMode::Typing => {
            let text = SpanPanel { title: "Text to Type".to_owned(), spans: marked_text(app) };
            if app.finished {
                Screen::Typing {
                    split: (PaneSize::Percentage(50), PaneSize::Percentage(50)),
                    text,
                    footer: text_panel("Results", results_text(wpm, accuracy)),
                }
            } else {
                Screen::Typing {
                    split: (PaneSize::Min(0), PaneSize::Length(3)),
                    text,
                    footer: text_panel(
                        "Instructions",
                        "Start typing the text above. Press 'Esc' to restart or 'Ctrl-C' to quit.".to_owned(),
                    ),
                }
            }
        },
        AppMode::Stats => {
            let details = match app.selected_char {
                Some(c) => text_panel("Character Details", details_text(app, c)),
                None => text_panel(
                    "Instructions",
                    "Use Left/Right arrow keys to select a character for details.".to_owned(),
                ),
            };
            Screen::Stats {
                split: (PaneSize::Percentage(50), PaneSize::Percentage(50)),
                lifetime: text_panel("Lifetime Statistics", lifetime_text(app)),
                rest: (PaneSize::Length(3), PaneSize::Min(0)),
                alphabet: SpanPanel {
                    title: "Error Frequency (a-z)".to_owned(),
                    spans: coloured_alphabet(app),
                },
                details,
            }
        },
    }
}

/// How many of the first `n` characters are shown in green.
pub open spec fn greens(spans: Seq<Span>, n: nat) -> nat
    decreases n,
{
    if n == 0 {
        0
    } else {
        greens(spans, (n - 1) as nat) + if spans[n - 1].fg == Some(Color::Green) {
            1nat
        } else {
            0
        }
    }
}

proof fn lemma_greens(text: Seq<char>, typed: Seq<char>, n: nat)
    requires
        n <= text.len(),
    ensures
        greens(marks(text, typed), n) == agreeing(
            typed,
            text,
            if n < typed.len() {
                n
            } else {
                typed.len()
            },
        ),
    decreases n,
{
    if n > 0 {
        lemma_greens(text, typed, (n - 1) as nat);
    }
}

/// The screen shows as many green characters as the accuracy counts right.
pub proof fn law_green_is_what_accuracy_counts(text: Seq<char>, typed: Seq<char>)
    ensures
        greens(marks(text, typed), text.len()) == correct_chars(typed, text),
{
    lemma_greens(text, typed, text.len());
    assert(common_len(typed, text) == if text.len() < typed.len() {
        text.len()
    } else {
        typed.len()
    });
}

/// Nothing of the alphabet is highlighted but the selected letter.
pub proof fn law_only_the_selection_is_highlighted(app: AppView, k: int)
    requires
        0 <= k < letters(app, 26).len(),
    ensures
        letters(app, 26)[k].bg is Some <==> k % 2 == 0 && app.selected_char == Some(letter(k / 2)),
{
}

/// Each character of the text is shown at its place, by itself: gray where
/// nothing is typed yet, green where it is typed right, and red on dark gray
/// where it is typed wrong, whatever happens at other places.
pub proof fn law_each_character_is_marked_by_itself(text: Seq<char>, typed: Seq<char>, i: int)
    ensures
        marks(text, typed).len() == text.len(),
        0 <= i < text.len() ==> {
            let span = marks(text, typed)[i];
            &&& span.content == text[i]
            &&& span.fg == Some(Color::Gray) <==> i >= typed.len()
            &&& span.fg == Some(Color::Green) <==> i < typed.len() && typed[i] == text[i]
            &&& span.fg == Some(Color::Red) <==> i < typed.len() && typed[i] != text[i]
            &&& span.bg == Some(Color::DarkGray) <==> i < typed.len() && typed[i] != text[i]
            &&& span.bg is None <==> i >= typed.len() || typed[i] == text[i]
        },
{
}

/// The alphabet is shown from `a` to `z`, with a plain space behind each letter.
pub proof fn law_alphabet_is_shown_in_order(app: AppView, k: int)
    ensures
        letters(app, 26).len() == 52,
        0 <= k < 26 ==> {
            let span = letters(app, 26)[2 * k];
            let space = letters(app, 26)[2 * k + 1];
            &&& span.content as int == 'a' as int + k
            &&& space.content == ' '
            &&& space.fg is None
            &&& space.bg is None
        },
{
}

/// Each letter is shown in the colour for its own mistakes: red above ten,
/// yellow above five, green above none, else gray. It is on dark gray where it
/// is the selected one.
pub proof fn law_letters_are_coloured_by_their_mistakes(app: AppView, k: int)
    requires
        0 <= k < 26,
    ensures
        ({
            let span = letters(app, 26)[2 * k];
            let counts = app.key_error_stats.char_error_counts;
            let n = if counts.contains_key(span.content) {
                counts[span.content] as int
            } else {
                0
            };
            &&& span.fg == Some(Color::Red) <==> n > 10
            &&& span.fg == Some(Color::Yellow) <==> 5 < n <= 10
            &&& span.fg == Some(Color::Green) <==> 0 < n <= 5
            &&& span.fg == Some(Color::Gray) <==> n == 0
            &&& span.bg == Some(Color::DarkGray) <==> app.selected_char == Some(span.content)
            &&& span.bg is None <==> app.selected_char != Some(span.content)
        }),
{
}

/// The details of a character name the one most often before it and the one
/// most often typed instead, wherever the statistics have them and however few
/// or many mistakes there are. `N/A` stands only for one that they do not have.
pub proof fn law_details_name_what_the_statistics_have(
    stats: KeyErrorView,
    c: char,
    p: char,
    t: char,
)
    ensures
        ({
            let before = stats.most_common_prev_char;
            let instead = stats.most_common_typed_char;
            let n = if stats.char_error_counts.contains_key(c) {
                stats.char_error_counts[c] as nat
            } else {
                0
            };
            let head = "Details for '"@ + seq![c] + "':\n\nTotal Errors: "@ + decimal(n)
                + "\nMost common char before: "@;
            let link = "\nMost common char typed instead: "@;
            let has_before = before.contains_key(c) && before[c] == Some(p);
            let no_before = !before.contains_key(c) || before[c] is None;
            let has_instead = instead.contains_key(c) && instead[c] == t;
            let no_instead = !instead.contains_key(c);
            let body = details_body(stats, c);
            &&& has_before && has_instead ==> body == head + seq![p] + link + seq![t]
            &&& has_before && no_instead ==> body == head + seq![p] + link + "N/A"@
            &&& no_before && has_instead ==> body == head + "N/A"@ + link + seq![t]
            &&& no_before && no_instead ==> body == head + "N/A"@ + link + "N/A"@
        }),
{
    assert("Details for '"@ + seq![c] =~= "Details for '"@.push(c));
}

/// The number of mistakes has no part in the characters that the details name.
pub proof fn law_details_name_the_same_for_any_count(
    stats: KeyErrorView,
    other: KeyErrorView,
    c: char,
)
    requires
        stats.most_common_prev_char == other.most_common_prev_char,
        stats.most_common_typed_char == other.most_common_typed_char,
    ensures
        exists|head: Seq<char>, other_head: Seq<char>, tail: Seq<char>|
            #![trigger head + tail, other_head + tail]
            {
                &&& details_body(stats, c) == head + tail
                &&& details_body(other, c) == other_head + tail
                &&& tail.len() >= 2 + "\nMost common char before: "@.len()
                    + "\nMost common char typed instead: "@.len()
                &&& tail.take("\nMost common char before: "@.len() as int)
                    == "\nMost common char before: "@
            },
{
    let opening = "Details for '"@.push(c) + "':\n\nTotal Errors: "@;
    let head = opening + decimal(errors_on(stats, c));
    let other_head = opening + decimal(errors_on(other, c));
    let label = "\nMost common char before: "@;
    let tail = label + or_none(common_previous(stats, c)) + "\nMost common char typed instead: "@
        + or_none(common_typed(stats, c));
    reveal_strlit("N/A");
    assert(details_body(stats, c) =~= head + tail);
    assert(details_body(other, c) =~= other_head + tail);
    assert(tail.take(label.len() as int) =~= label);
}

/// The lifetime figures are told as they are.
pub proof fn law_lifetime_figures_are_told(stats: LifetimeView)
    ensures
        lifetime_body(stats) == "Lifetime Statistics:\n\nTotal Sessions: "@ + decimal(
            stats.total_sessions,
        ) + "\nAverage WPM: "@ + stats.average_wpm + "\nAverage Accuracy: "@
            + stats.average_accuracy + "%\n\nPress 'Ctrl-S' to return to typing."@,
{
}

/// The results are told as they are.
pub proof fn law_results_are_told(wpm: Seq<char>, accuracy: Seq<char>)
    ensures
        results_body(wpm, accuracy) == "Finished!\nWPM: "@ + wpm + "\nAccuracy: "@ + accuracy
            + "%\n\nPress 'Esc' to try another line or 'Ctrl-C' to quit."@,
{
}

/// While typing, the screen shows the marked text. Below it stand the results
/// once the text is finished, and instructions before.
pub proof fn law_screen_while_typing(app: AppView, wpm: Seq<char>, accuracy: Seq<char>)
    requires
        app.mode == AppMode::Typing,
    ensures
        ({
            let screen = screen_of(app, wpm, accuracy);
            &&& screen is Typing
            &&& screen->text.title == "Text to Type"@
            &&& screen->text.spans == marks(app.text, app.typed)
            &&& app.finished ==> {
                &&& screen->Typing_split == (PaneSize::Percentage(50), PaneSize::Percentage(50))
                &&& screen->footer.title == "Results"@
                &&& screen->footer.body == results_body(wpm, accuracy)
            }
            &&& !app.finished ==> {
                &&& screen->Typing_split == (PaneSize::Min(0), PaneSize::Length(3))
                &&& screen->footer.title == "Instructions"@
                &&& screen->footer.body
                    == "Start typing the text above. Press 'Esc' to restart or 'Ctrl-C' to quit."@
            }
        }),
{
}

/// With the statistics, the screen shows the lifetime figures above the
/// alphabet, and below these the details of the selected letter, or
/// instructions where none is selected.
pub proof fn law_screen_with_statistics(app: AppView, wpm: Seq<char>, accuracy: Seq<char>)
    requires
        app.mode == AppMode::Stats,
    ensures
        ({
            let screen = screen_of(app, wpm, accuracy);
            &&& screen is Stats
            &&& screen->Stats_split == (PaneSize::Percentage(50), PaneSize::Percentage(50))
            &&& screen->lifetime.title == "Lifetime Statistics"@
            &&& screen->lifetime.body == lifetime_body(app.lifetime_stats)
            &&& screen->rest == (PaneSize::Length(3), PaneSize::Min(0))
            &&& screen->alphabet.title == "Error Frequency (a-z)"@
            &&& screen->alphabet.spans == letters(app, 26)
            &&& app.selected_char is Some ==> {
                &&& screen->details.title == "Character Details"@
                &&& screen->details.body == details_body(
                    app.key_error_stats,
                    app.selected_char->0,
                )
            }
            &&& app.selected_char is None ==> {
                &&& screen->details.title == "Instructions"@
                &&& screen->details.body
                    == "Use Left/Right arrow keys to select a character for details."@
            }
        }),
{
}

/// A screen is seen whole.
pub proof fn law_screen_is_seen_whole(screen: Screen)
    ensures
        screen@ is Typing <==> screen is Typing,
        screen is Typing ==> {
            &&& screen@->Typing_split == screen->Typing_split
            &&& screen@->text.title == screen->text.title@
            &&& screen@->text.spans == screen->text.spans@
            &&& screen@->footer.title == screen->footer.title@
            &&& screen@->footer.body == screen->footer.body@
        },
        screen is Stats ==> {
            &&& screen@->Stats_split == screen->Stats_split
            &&& screen@->lifetime.title == screen->lifetime.title@
            &&& screen@->lifetime.body == screen->lifetime.body@
            &&& screen@->rest == screen->rest
            &&& screen@->alphabet.title == screen->alphabet.title@
            &&& screen@->alphabet.spans == screen->alphabet.spans@
            &&& screen@->details.title == screen->details.title@
            &&& screen@->details.body == screen->details.body@
        },
{
}

} // verus!

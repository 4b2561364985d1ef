//! The state of the game, and what a key press does to it.

use vstd::prelude::*;

use crate::key_errors::empty_key_errors;
use crate::key_errors::KeyErrorStats;
use crate::key_errors::KeyErrorView;
use crate::stats::count_in;
use crate::stats::Mistake;
use crate::stats::Stats;
use crate::text::can_generate;
use crate::text::generate_text;
use crate::text::may_generate;
use crate::text::TestMode;
use crate::words::views;

verus! {

/// What the screen is for.
#[derive(Clone, Copy, PartialEq, Eq, Structural, Debug)]
pub enum AppMode {
    Typing,
    Stats,
}

/// A key, as far as the game tells keys apart.
#[derive(Clone, Copy, PartialEq, Eq, Structural, Debug)]
pub enum KeyCode {
    Char(char),
    Backspace,
    Esc,
    Left,
    Right,
    Other,
}

/// A key that was pressed, with or without the control key held down.
#[derive(Clone, Copy, PartialEq, Eq, Structural, Debug)]
pub struct KeyPress {
    pub code: KeyCode,
    pub control: bool,
}

/// What is left to do after a key press.
#[derive(Clone, Copy, PartialEq, Eq, Structural, Debug)]
pub enum Action {
    /// Nothing but to show the new state.
    Nothing,
    /// The game is over.
    Quit,
    /// A new text is wanted: see `AppState::reset`.
    Reset,
    /// The text has been typed to its end: see `AppState::complete`.
    Complete,
}

/// What the table of sessions amounts to. The averages are written out with
/// two decimals.
#[derive(Debug)]
pub struct LifetimeStats {
    pub total_sessions: u32,
    pub average_wpm: String,
    pub average_accuracy: String,
}

/// What `LifetimeStats` holds.
#[verifier::ext_equal]
pub struct LifetimeView {
    pub total_sessions: nat,
    pub average_wpm: Seq<char>,
    pub average_accuracy: Seq<char>,
}

impl View for LifetimeStats {
    type V = LifetimeView;

    open spec fn view(&self) -> LifetimeView {
        LifetimeView {
            total_sessions: self.total_sessions as nat,
            average_wpm: self.average_wpm@,
            average_accuracy: self.average_accuracy@,
        }
    }
}

/// The figures of a player who has no session.
pub open spec fn no_lifetime() -> LifetimeView {
    LifetimeView { total_sessions: 0, average_wpm: "0.00"@, average_accuracy: "0.00"@ }
}

impl LifetimeStats {
    /// The figures of a player who has no session.
    pub fn none() -> (stats: LifetimeStats)
        ensures
            stats@ == no_lifetime(),
    {
        LifetimeStats {
            total_sessions: 0,
            average_wpm: "0.00".to_owned(),
            average_accuracy: "0.00".to_owned(),
        }
    }
}

/// The state of the game. Points in time are nanoseconds since some fixed
/// moment, the duration is in nanoseconds.
pub struct AppState {
    pub text: Vec<char>,
    pub typed: Vec<char>,
    pub raw_keystrokes: String,
    pub start_time: Option<u128>,
    pub duration: Option<u128>,
    pub finished: bool,
    pub stats: Stats,
    pub mode: AppMode,
    pub lifetime_stats: LifetimeStats,
    pub key_error_stats: KeyErrorStats,
    pub selected_char: Option<char>,
    pub available_words: Vec<String>,
    pub test_mode: TestMode,
    pub word_count_target: Option<usize>,
}

/// What the state of the game holds.
#[verifier::ext_equal]
pub struct AppView {
    pub text: Seq<char>,
    pub typed: Seq<char>,
    pub raw_keystrokes: Seq<char>,
    pub start_time: Option<u128>,
    pub duration: Option<u128>,
    pub finished: bool,
    pub stats: Map<Mistake, nat>,
    pub mode: AppMode,
    pub lifetime_stats: LifetimeView,
    pub key_error_stats: KeyErrorView,
    pub selected_char: Option<char>,
    pub available_words: Seq<Seq<char>>,
    pub test_mode: TestMode,
    pub word_count_target: Option<usize>,
}

impl View for AppState {
    type V = AppView;

    open spec fn view(&self) -> AppView {
        AppView {
            text: self.text@,
            typed: self.typed@,
            raw_keystrokes: self.raw_keystrokes@,
            start_time: self.start_time,
            duration: self.duration,
            finished: self.finished,
            stats: self.stats@,
            mode: self.mode,
            lifetime_stats: self.lifetime_stats@,
            key_error_stats: self.key_error_stats@,
            selected_char: self.selected_char,
            available_words: views(self.available_words@),
            test_mode: self.test_mode,
            word_count_target: self.word_count_target,
        }
    }
}

/// The keystroke that stands for the backspace key in the record of
/// keystrokes.
pub const ERASE: char = '\u{8}';

/// The `i`-th letter of the alphabet, counted from nought.
pub open spec fn letter(i: int) -> char {
    (97 + i) as char
}

/// One of the letters from `a` to `z`.
pub open spec fn is_letter(c: char) -> bool {
    'a' <= c <= 'z'
}

/// The letter that is `steps` places after `c` in the alphabet, which starts
/// again at `a` after `z`.
pub open spec fn letter_after(c: char, steps: int) -> char {
    letter((c as int - 97 + steps) % 26)
}

/// The selection after a step through the alphabet. With nothing selected the
/// step selects the first letter; a selection outside the alphabet stays.
pub open spec fn stepped(selected: Option<char>, steps: int) -> Option<char> {
    match selected {
        None => Some('a'),
        Some(c) => if is_letter(c) {
            Some(letter_after(c, steps))
        } else {
            Some(c)
        },
    }
}

impl KeyPress {
    /// The key press that ends the game.
    pub open spec fn is_quit(self) -> bool {
        self.control && self.code == KeyCode::Char('c')
    }

    /// The key press that goes to the statistics and back.
    pub open spec fn is_switch(self) -> bool {
        self.control && self.code == KeyCode::Char('s')
    }

    /// The character that a key press types, unless it is a command.
    pub open spec fn types(self) -> Option<char> {
        match self.code {
            KeyCode::Char(c) => if self.is_quit() || self.is_switch() {
                None
            } else {
                Some(c)
            },
            _ => None,
        }
    }
}

impl AppView {
    /// The mistake that typing `c` would be, if it would be one: where there
    /// is still text to type, any other character than the one that is due.
    pub open spec fn mistake(self, c: char) -> Option<Mistake> {
        let pos = self.typed.len() as int;
        if pos < self.text.len() && c != self.text[pos] {
            Some(
                Mistake {
                    previous: if pos > 0 {
                        Some(self.text[pos - 1])
                    } else {
                        None
                    },
                    expected: self.text[pos],
                    typed: c,
                },
            )
        } else {
            None
        }
    }

    /// The mistake that a key press counts, if it counts one.
    pub open spec fn counted(self, press: KeyPress) -> Option<Mistake> {
        match press.types() {
            Some(c) => if self.mode is Typing && !self.finished {
                self.mistake(c)
            } else {
                None
            },
            None => None,
        }
    }

    /// The mistake that a key press counts can still be counted.
    pub open spec fn has_room(self, press: KeyPress) -> bool {
        self.counted(press) matches Some(m) ==> count_in(self.stats, m) < u32::MAX
    }

    /// The state after a character was typed.
    pub open spec fn after_char(self, c: char, now: u128) -> AppView {
        if self.finished {
            self
        } else {
            AppView {
                start_time: match self.start_time {
                    Some(start) => Some(start),
                    None => Some(now),
                },
                raw_keystrokes: self.raw_keystrokes.push(c),
                stats: match self.mistake(c) {
                    Some(m) => self.stats.insert(m, count_in(self.stats, m) + 1),
                    None => self.stats,
                },
                typed: self.typed.push(c),
                finished: self.typed.len() + 1 == self.text.len(),
                ..self
            }
        }
    }

    /// The state after the backspace key.
    pub open spec fn after_backspace(self) -> AppView {
        if self.finished {
            self
        } else {
            AppView {
                raw_keystrokes: self.raw_keystrokes.push(ERASE),
                typed: if self.typed.len() > 0 {
                    self.typed.drop_last()
                } else {
                    self.typed
                },
                ..self
            }
        }
    }

    /// The state after a change between typing and statistics.
    pub open spec fn after_switch(self) -> AppView {
        AppView {
            mode: match self.mode {
                AppMode::Typing => AppMode::Stats,
                AppMode::Stats => AppMode::Typing,
            },
            selected_char: None,
            ..self
        }
    }

    /// The state after a key press. A press that asks for an action of its own
    /// leaves the state to that action.
    pub open spec fn after_key(self, press: KeyPress, now: u128) -> AppView {
        if press.is_quit() {
            self
        } else if press.is_switch() {
            self.after_switch()
        } else {
            match (self.mode, press.code) {
                (AppMode::Typing, KeyCode::Char(c)) => self.after_char(c, now),
                (AppMode::Typing, KeyCode::Backspace) => self.after_backspace(),
                (AppMode::Stats, KeyCode::Left) => AppView {
                    selected_char: stepped(self.selected_char, -1),
                    ..self
                },
                (AppMode::Stats, KeyCode::Right) => AppView {
                    selected_char: stepped(self.selected_char, 1),
                    ..self
                },
                _ => self,
            }
        }
    }

    /// What is left to do after a key press.
    pub open spec fn action(self, press: KeyPress) -> Action {
        if press.is_quit() {
            Action::Quit
        } else if press.code is Esc {
            Action::Reset
        } else if press.types() is Some && self.mode is Typing && !self.finished
            && self.typed.len() + 1 == self.text.len() {
            Action::Complete
        } else {
            Action::Nothing
        }
    }

    /// The state once the time is taken at the end of the text. A clock that
    /// went backwards has measured no time.
    pub open spec fn completed(self, now: u128) -> AppView {
        AppView {
            duration: match self.start_time {
                Some(start) => Some(
                    if now >= start {
                        (now - start) as u128
                    } else {
                        0
                    },
                ),
                None => None,
            },
            ..self
        }
    }

    /// The state with a new text. The counts, the mode and the word list stay.
    pub open spec fn restarted(
        self,
        text: Seq<char>,
        lifetime_stats: Option<LifetimeView>,
        key_error_stats: Option<KeyErrorView>,
    ) -> AppView {
        AppView {
            text,
            typed: Seq::empty(),
            raw_keystrokes: Seq::empty(),
            start_time: None,
            duration: None,
            finished: false,
            selected_char: None,
            lifetime_stats: match lifetime_stats {
                Some(stats) => stats,
                None => no_lifetime(),
            },
            key_error_stats: match key_error_stats {
                Some(stats) => stats,
                None => empty_key_errors(),
            },
            ..self
        }
    }
}

/// The word list of a game that has been given none.
pub open spec fn word_list(words: Option<Seq<Seq<char>>>) -> Seq<Seq<char>> {
    match words {
        Some(list) => list,
        None => seq!["No words found."@],
    }
}

/// The state at the start of the game.
pub open spec fn opening(
    text: Seq<char>,
    stats: Map<Mistake, nat>,
    words: Option<Seq<Seq<char>>>,
    lifetime_stats: Option<LifetimeView>,
    key_error_stats: Option<KeyErrorView>,
) -> AppView {
    AppView {
        text,
        typed: Seq::empty(),
        raw_keystrokes: Seq::empty(),
        start_time: None,
        duration: None,
        finished: false,
        stats,
        mode: AppMode::Typing,
        lifetime_stats: match lifetime_stats {
            Some(stats) => stats,
            None => no_lifetime(),
        },
        key_error_stats: match key_error_stats {
            Some(stats) => stats,
            None => empty_key_errors(),
        },
        selected_char: None,
        available_words: word_list(words),
        test_mode: TestMode::Sentence,
        word_count_target: None,
    }
}

/// What an optional word list holds.
pub open spec fn words_view(words: Option<Vec<String>>) -> Option<Seq<Seq<char>>> {
    match words {
        Some(list) => Some(views(list@)),
        None => None,
    }
}

/// What optional lifetime figures hold.
pub open spec fn lifetime_view(stats: Option<LifetimeStats>) -> Option<LifetimeView> {
    match stats {
        Some(s) => Some(s@),
        None => None,
    }
}

/// What optional key statistics hold.
pub open spec fn key_error_view(stats: Option<KeyErrorStats>) -> Option<KeyErrorView> {
    match stats {
        Some(s) => Some(s@),
        None => None,
    }
}

/// The selection after a step of `places` letters through the alphabet.
fn step_selection(selected: Option<char>, places: u8) -> (next: Option<char>)
    requires
        places < 26,
    ensures
        next == stepped(selected, places as int),
{
    match selected {
        None => Some('a'),
        Some(c) => if 'a' <= c && c <= 'z' {
            let place: u8 = (c as u8 - 97 + places) % 26;
            Some((97 + place) as char)
        } else {
            Some(c)
        },
    }
}

/// A step back is a step forward through the rest of the alphabet.
proof fn lemma_step_back(selected: Option<char>)
    ensures
        stepped(selected, -1) == stepped(selected, 25),
{
}

impl KeyPress {
    fn quits(&self) -> (b: bool)
        ensures
            b == self.is_quit(),
    {
        self.control && matches!(self.code, KeyCode::Char('c'))
    }

    fn switches(&self) -> (b: bool)
        ensures
            b == self.is_switch(),
    {
        self.control && matches!(self.code, KeyCode::Char('s'))
    }
}

impl AppState {
    /// The state at the start of the game, with the given text.
    pub fn with_text(
        text: Vec<char>,
        stats: Stats,
        words: Option<Vec<String>>,
        lifetime_stats: Option<LifetimeStats>,
        key_error_stats: Option<KeyErrorStats>,
    ) -> (app: AppState)
        ensures
            app@ == opening(
                text@,
                stats@,
                words_view(words),
                lifetime_view(lifetime_stats),
                key_error_view(key_error_stats),
            ),
    {
        let available_words = available(words);
        AppState {
            text,
            typed: Vec::new(),
            raw_keystrokes: String::new(),
            start_time: None,
            duration: None,
            finished: false,
            stats,
            mode: AppMode::Typing,
            lifetime_stats: match lifetime_stats {
                Some(stats) => stats,
                None => LifetimeStats::none(),
            },
            key_error_stats: match key_error_stats {
                Some(stats) => stats,
                None => KeyErrorStats::empty(),
            },
            selected_char: None,
            available_words,
            test_mode: TestMode::Sentence,
            word_count_target: None,
        }
    }

    /// The state at the start of the game, with a text drawn from the word
    /// list. `words`, `lifetime_stats` and `key_error_stats` are what could be
    /// read of them.
    pub fn new(
        stats: Stats,
        words: Option<Vec<String>>,
        lifetime_stats: Option<LifetimeStats>,
        key_error_stats: Option<KeyErrorStats>,
    ) -> (app: AppState)
        ensures
            may_generate(word_list(words_view(words)), TestMode::Sentence, None, app@.text),
            app@ == opening(
                app@.text,
                stats@,
                words_view(words),
                lifetime_view(lifetime_stats),
                key_error_view(key_error_stats),
            ),
    {
        let available_words = available(words);
        let text = generate_text(&available_words, &TestMode::Sentence, None);
        AppState::with_text(text, stats, Some(available_words), lifetime_stats, key_error_stats)
    }

    /// Sets the given text.
    pub fn reset_to(
        &mut self,
        text: Vec<char>,
        lifetime_stats: Option<LifetimeStats>,
        key_error_stats: Option<KeyErrorStats>,
    )
        ensures
            final(self)@ == old(self)@.restarted(
                text@,
                lifetime_view(lifetime_stats),
                key_error_view(key_error_stats),
            ),
    {
        self.text = text;
        self.typed.clear();
        self.raw_keystrokes = String::new();
        self.start_time = None;
        self.duration = None;
        self.finished = false;
        self.selected_char = None;
        self.lifetime_stats = match lifetime_stats {
            Some(stats) => stats,
            None => LifetimeStats::none(),
        };
        self.key_error_stats = match key_error_stats {
            Some(stats) => stats,
            None => KeyErrorStats::empty(),
        };
    }

    /// Sets a new text, drawn from the word list.
    pub fn reset(
        &mut self,
        lifetime_stats: Option<LifetimeStats>,
        key_error_stats: Option<KeyErrorStats>,
    )
        requires
            can_generate(
                old(self)@.available_words,
                old(self)@.test_mode,
                old(self)@.word_count_target,
            ),
        ensures
            may_generate(
                old(self)@.available_words,
                old(self)@.test_mode,
                old(self)@.word_count_target,
                final(self)@.text,
            ),
            final(self)@ == old(self)@.restarted(
                final(self)@.text,
                lifetime_view(lifetime_stats),
                key_error_view(key_error_stats),
            ),
    {
        let text = generate_text(&self.available_words, &self.test_mode, self.word_count_target);
        self.reset_to(text, lifetime_stats, key_error_stats);
    }

    /// The mistake that typing a character would be.
    fn mistake(&self, c: char) -> (m: Option<Mistake>)
        ensures
            m == self@.mistake(c),
    {
        let pos: usize = self.typed.len();
        if pos < self.text.len() {
            let expected = self.text[pos];
            if c != expected {
                let previous = if pos > 0 {
                    Some(self.text[pos - 1])
                } else {
                    None
                };
                return Some(Mistake { previous, expected, typed: c });
            }
        }
        None
    }

    /// Whether a key press leaves every count within its type.
    pub fn room_for(&self, press: KeyPress) -> (b: bool)
        ensures
            b == self@.has_room(press),
    {
        if press.quits() || press.switches() || self.finished {
            return true;
        }
        match (self.mode, press.code) {
            (AppMode::Typing, KeyCode::Char(c)) => match self.mistake(c) {
                Some(m) => self.stats.count(m) < u32::MAX,
                None => true,
            },
            _ => true,
        }
    }

    /// Takes a character that was typed. The result tells whether it was the
    /// last one of the text.
    fn type_char(&mut self, c: char, now: u128) -> (last: bool)
        requires
            old(self)@.mistake(c) matches Some(m) ==> old(self)@.finished || count_in(
                old(self)@.stats,
                m,
            ) < u32::MAX,
        ensures
            final(self)@ == old(self)@.after_char(c, now),
            last == (!old(self)@.finished && old(self)@.typed.len() + 1 == old(self)@.text.len()),
    {
        if self.finished {
            return false;
        }
        if self.start_time.is_none() {
            self.start_time = Some(now);
        }
        self.raw_keystrokes.push(c);
        if let Some(m) = self.mistake(c) {
            self.stats.add_count(m, 1);
        }
        self.typed.push(c);
        if self.typed.len() == self.text.len() {
            self.finished = true;
        }
        self.finished
    }

    /// Takes a press of the backspace key.
    fn erase(&mut self)
        ensures
            final(self)@ == old(self)@.after_backspace(),
    {
        if !self.finished {
            self.raw_keystrokes.push(ERASE);
            self.typed.pop();
        }
    }

    /// Takes a key press, at the time `now`, and tells what is left to do.
    pub fn handle_key(&mut self, press: KeyPress, now: u128) -> (action: Action)
        requires
            old(self)@.has_room(press),
        ensures
            final(self)@ == old(self)@.after_key(press, now),
            action == old(self)@.action(press),
    {
        if press.quits() {
            return Action::Quit;
        }
        if press.switches() {
            self.mode = match self.mode {
                AppMode::Typing => AppMode::Stats,
                AppMode::Stats => AppMode::Typing,
            };
            self.selected_char = None;
            return Action::Nothing;
        }
        if let KeyCode::Esc = press.code {
            return Action::Reset;
        }
        match (self.mode, press.code) {
            (AppMode::Typing, KeyCode::Char(c)) => {
                if self.type_char(c, now) {
                    return Action::Complete;
                }
            },
            (AppMode::Typing, KeyCode::Backspace) => {
                self.erase();
            },
            (AppMode::Stats, KeyCode::Left) => {
                proof {
                    lemma_step_back(self.selected_char);
                }
                self.selected_char = step_selection(self.selected_char, 25);
            },
            (AppMode::Stats, KeyCode::Right) => {
                self.selected_char = step_selection(self.selected_char, 1);
            },
            _ => {},
        }
        Action::Nothing
    }

    /// Takes the time at the end of the text.
    pub fn complete(&mut self, now: u128)
        ensures
            final(self)@ == old(self)@.completed(now),
    {
        self.duration = match self.start_time {
            Some(start) => Some(
                if now >= start {
                    now - start
                } else {
                    0
                },
            ),
            None => None,
        };
    }
}

/// The word list of the game.
fn available(words: Option<Vec<String>>) -> (list: Vec<String>)
    ensures
        views(list@) == word_list(words_view(words)),
{
    match words {
        Some(list) => list,
        None => {
            let mut list: Vec<String> = Vec::new();
            list.push("No words found.".to_owned());
            assert(views(list@) == seq!["No words found."@]);
            list
        },
    }
}

} // verus!

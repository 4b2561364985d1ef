//! What holds of the game as a whole, whatever keys are pressed.

use vstd::prelude::*;

use crate::game::is_letter;
use crate::game::key_error_view;
use crate::game::letter_after;
use crate::game::lifetime_view;
use crate::game::no_lifetime;
use crate::game::opening;
use crate::game::stepped;
use crate::game::word_list;
use crate::game::words_view;
use crate::game::Action;
use crate::game::AppMode;
use crate::game::AppState;
use crate::game::AppView;
use crate::game::KeyCode;
use crate::game::KeyPress;
use crate::game::LifetimeStats;
use crate::game::LifetimeView;
use crate::game::ERASE;
use crate::key_errors::KeyErrorStats;
use crate::key_errors::KeyErrorView;
use crate::stats::count_in;
use crate::stats::Mistake;
use crate::text::TestMode;
use crate::words::views;

verus! {

impl AppView {
    /// What every state of a game satisfies: it is finished exactly when there
    /// is a text and all of it is typed, nothing is typed past the end of a
    /// text, the clock runs from the first character on, only a finished text
    /// has a duration, and only letters are selected.
    pub open spec fn sound(self) -> bool {
        &&& self.finished <==> self.text.len() > 0 && self.typed.len() == self.text.len()
        &&& self.text.len() > 0 ==> self.typed.len() <= self.text.len()
        &&& self.typed.len() > 0 ==> self.start_time is Some
        &&& self.duration is Some ==> self.finished
        &&& self.selected_char matches Some(c) ==> is_letter(c)
    }
}

/// What can happen in a game.
pub enum Step {
    /// A key is pressed at some time.
    Key { press: KeyPress, now: u128 },
    /// The time is taken at the end of the text.
    Complete { now: u128 },
    /// A new text is set.
    Restart {
        text: Seq<char>,
        lifetime_stats: Option<LifetimeView>,
        key_error_stats: Option<KeyErrorView>,
    },
}

/// The state after a step.
pub open spec fn after_step(app: AppView, step: Step) -> AppView {
    match step {
        Step::Key { press, now } => app.after_key(press, now),
        Step::Complete { now } => app.completed(now),
        Step::Restart { text, lifetime_stats, key_error_stats } => app.restarted(
            text,
            lifetime_stats,
            key_error_stats,
        ),
    }
}

/// Whether a step may follow: the time is taken of a finished text only.
pub open spec fn may_follow(app: AppView, step: Step) -> bool {
    step is Complete ==> app.finished
}

/// The state after a sequence of steps.
pub open spec fn after_steps(app: AppView, steps: Seq<Step>) -> AppView
    decreases steps.len(),
{
    if steps.len() == 0 {
        app
    } else {
        after_step(after_steps(app, steps.drop_last()), steps.last())
    }
}

/// Whether each of the steps may follow those before it.
pub open spec fn a_game(app: AppView, steps: Seq<Step>) -> bool
    decreases steps.len(),
{
    steps.len() == 0 || (a_game(app, steps.drop_last()) && may_follow(
        after_steps(app, steps.drop_last()),
        steps.last(),
    ))
}

/// Every step keeps a sound state sound.
pub proof fn law_step_keeps_the_state_sound(app: AppView, step: Step)
    requires
        app.sound(),
        may_follow(app, step),
    ensures
        after_step(app, step).sound(),
{
}

/// Every state that a game can reach from its opening is sound.
pub proof fn law_every_game_is_sound(
    text: Seq<char>,
    stats: Map<Mistake, nat>,
    words: Option<Seq<Seq<char>>>,
    lifetime_stats: Option<LifetimeView>,
    key_error_stats: Option<KeyErrorView>,
    steps: Seq<Step>,
)
    requires
        a_game(opening(text, stats, words, lifetime_stats, key_error_stats), steps),
    ensures
        after_steps(opening(text, stats, words, lifetime_stats, key_error_stats), steps).sound(),
    decreases steps.len(),
{
    let app = opening(text, stats, words, lifetime_stats, key_error_stats);
    if steps.len() > 0 {
        law_every_game_is_sound(
            text,
            stats,
            words,
            lifetime_stats,
            key_error_stats,
            steps.drop_last(),
        );
        law_step_keeps_the_state_sound(after_steps(app, steps.drop_last()), steps.last());
    }
}

/// The last of the steps was a key press that finished the text, so that the
/// time is to be taken next.
pub open spec fn owes_time(app: AppView, steps: Seq<Step>) -> bool {
    steps.len() > 0 && (steps.last() matches Step::Key { press, now } && after_steps(
        app,
        steps.drop_last(),
    ).action(press) is Complete)
}

/// The time is taken right after each key press that finishes a text, and at
/// no other point.
pub open spec fn a_timed_game(app: AppView, steps: Seq<Step>) -> bool
    decreases steps.len(),
{
    steps.len() == 0 || (a_timed_game(app, steps.drop_last()) && (steps.last() is Complete
        <==> owes_time(app, steps.drop_last())))
}

/// What holds of a timed game after every step, from a state that is sound and
/// has a duration exactly if it is finished.
proof fn lemma_timed_game(app: AppView, steps: Seq<Step>)
    requires
        app.sound(),
        app.finished <==> app.duration is Some,
        a_timed_game(app, steps),
    ensures
        a_game(app, steps),
        after_steps(app, steps).sound(),
        after_steps(app, steps).finished <==> after_steps(app, steps).duration is Some || owes_time(
            app,
            steps,
        ),
        owes_time(app, steps) ==> after_steps(app, steps).duration is None,
    decreases steps.len(),
{
    if steps.len() > 0 {
        let earlier = steps.drop_last();
        lemma_timed_game(app, earlier);
        law_step_keeps_the_state_sound(after_steps(app, earlier), steps.last());
    }
}

/// In a game whose time is taken as it is asked for, a text has a duration
/// exactly when it is finished, save for the moment between the last key press
/// and the reading of the clock.
pub proof fn law_duration_exactly_when_finished(
    text: Seq<char>,
    stats: Map<Mistake, nat>,
    words: Option<Seq<Seq<char>>>,
    lifetime_stats: Option<LifetimeView>,
    key_error_stats: Option<KeyErrorView>,
    steps: Seq<Step>,
)
    requires
        a_timed_game(opening(text, stats, words, lifetime_stats, key_error_stats), steps),
        !owes_time(opening(text, stats, words, lifetime_stats, key_error_stats), steps),
    ensures
        ({
            let app = after_steps(
                opening(text, stats, words, lifetime_stats, key_error_stats),
                steps,
            );
            &&& app.sound()
            &&& app.finished <==> app.duration is Some
        }),
{
    lemma_timed_game(opening(text, stats, words, lifetime_stats, key_error_stats), steps);
}

/// The record of keystrokes holds a character, not only backspaces.
pub open spec fn holds_a_character(keystrokes: Seq<char>) -> bool {
    exists|i: int| 0 <= i < keystrokes.len() && #[trigger] keystrokes[i] != ERASE
}

/// A step keeps the clock in agreement with the record: it runs exactly when
/// the record holds a character. Left out is a step that types the very
/// character that stands for the backspace key.
pub proof fn law_clock_agrees_after_step(app: AppView, step: Step)
    requires
        app.start_time is Some <==> holds_a_character(app.raw_keystrokes),
        !types_erase(step),
    ensures
        after_step(app, step).start_time is Some <==> holds_a_character(
            after_step(app, step).raw_keystrokes,
        ),
{
    let next = after_step(app, step);
    let record = app.raw_keystrokes;
    if next.raw_keystrokes.len() > record.len() {
        let added = next.raw_keystrokes.last();
        assert(next.raw_keystrokes == record.push(added));
        assert(next.raw_keystrokes[record.len() as int] == added);
        if holds_a_character(record) {
            let i = choose|i: int| 0 <= i < record.len() && #[trigger] record[i] != ERASE;
            assert(next.raw_keystrokes[i] != ERASE);
        }
        if holds_a_character(next.raw_keystrokes) && added == ERASE {
            let i = choose|i: int|
                0 <= i < next.raw_keystrokes.len() && #[trigger] next.raw_keystrokes[i] != ERASE;
            assert(record[i] != ERASE);
        }
    }
}

/// In every game, the clock runs exactly when the record of keystrokes holds a
/// character.
pub proof fn law_clock_runs_from_the_first_character(
    text: Seq<char>,
    stats: Map<Mistake, nat>,
    words: Option<Seq<Seq<char>>>,
    lifetime_stats: Option<LifetimeView>,
    key_error_stats: Option<KeyErrorView>,
    steps: Seq<Step>,
)
    requires
        forall|i: int| 0 <= i < steps.len() ==> !types_erase(#[trigger] steps[i]),
    ensures
        ({
            let app = after_steps(
                opening(text, stats, words, lifetime_stats, key_error_stats),
                steps,
            );
            app.start_time is Some <==> holds_a_character(app.raw_keystrokes)
        }),
    decreases steps.len(),
{
    let app = opening(text, stats, words, lifetime_stats, key_error_stats);
    if steps.len() > 0 {
        let earlier = steps.drop_last();
        assert forall|i: int| 0 <= i < earlier.len() implies !types_erase(#[trigger] earlier[i]) by {
            assert(!types_erase(steps[i]));
        }
        law_clock_runs_from_the_first_character(
            text,
            stats,
            words,
            lifetime_stats,
            key_error_stats,
            earlier,
        );
        assert(!types_erase(steps[steps.len() - 1]));
        law_clock_agrees_after_step(after_steps(app, earlier), steps.last());
    }
}

/// What a record of keystrokes comes to: each character is added at the end,
/// and each backspace takes the last one away, if there is one.
pub open spec fn replay(keystrokes: Seq<char>) -> Seq<char>
    decreases keystrokes.len(),
{
    if keystrokes.len() == 0 {
        Seq::empty()
    } else {
        let before = replay(keystrokes.drop_last());
        if keystrokes.last() != ERASE {
            before.push(keystrokes.last())
        } else if before.len() > 0 {
            before.drop_last()
        } else {
            before
        }
    }
}

/// A step types the character that stands for the backspace key in the record.
pub open spec fn types_erase(step: Step) -> bool {
    step matches Step::Key { press, now } && press.types() == Some(ERASE)
}

/// A step keeps the record of keystrokes and what is typed in agreement,
/// unless it types the very character that stands for the backspace key.
pub proof fn law_record_agrees_after_step(app: AppView, step: Step)
    requires
        replay(app.raw_keystrokes) == app.typed,
        !types_erase(step),
    ensures
        replay(after_step(app, step).raw_keystrokes) == after_step(app, step).typed,
{
    let next = after_step(app, step);
    if next.raw_keystrokes.len() > app.raw_keystrokes.len() {
        assert(next.raw_keystrokes.drop_last() == app.raw_keystrokes);
    }
}

/// In every game, what is typed can be told from the record of keystrokes.
pub proof fn law_record_tells_what_is_typed(
    text: Seq<char>,
    stats: Map<Mistake, nat>,
    words: Option<Seq<Seq<char>>>,
    lifetime_stats: Option<LifetimeView>,
    key_error_stats: Option<KeyErrorView>,
    steps: Seq<Step>,
)
    requires
        forall|i: int| 0 <= i < steps.len() ==> !types_erase(#[trigger] steps[i]),
    ensures
        ({
            let app = after_steps(
                opening(text, stats, words, lifetime_stats, key_error_stats),
                steps,
            );
            replay(app.raw_keystrokes) == app.typed
        }),
    decreases steps.len(),
{
    let app = opening(text, stats, words, lifetime_stats, key_error_stats);
    if steps.len() > 0 {
        let earlier = steps.drop_last();
        assert forall|i: int| 0 <= i < earlier.len() implies !types_erase(#[trigger] earlier[i]) by {
            assert(!types_erase(steps[i]));
        }
        law_record_tells_what_is_typed(
            text,
            stats,
            words,
            lifetime_stats,
            key_error_stats,
            earlier,
        );
        assert(!types_erase(steps[steps.len() - 1]));
        law_record_agrees_after_step(after_steps(app, earlier), steps.last());
    }
}

/// The game asks for the time exactly when a key press finishes the text.
pub proof fn law_time_is_taken_at_the_end(app: AppView, press: KeyPress, now: u128)
    ensures
        app.action(press) is Complete <==> !app.finished && app.after_key(press, now).finished,
{
}

/// A text that is finished in the course of a game has a duration once the
/// time is taken, and with a clock that runs forward it is the time since the
/// first character.
pub proof fn law_finished_text_is_timed(app: AppView, now: u128)
    requires
        app.sound(),
        app.finished,
    ensures
        app.start_time is Some,
        app.completed(now).duration is Some,
        now >= app.start_time->0 ==> app.start_time->0 + app.completed(now).duration->0 == now,
{
}

/// A finished text stays as it is: no key press changes what is typed, the
/// record, the clock or the counts.
pub proof fn law_finished_text_is_closed(app: AppView, press: KeyPress, now: u128)
    requires
        app.finished,
    ensures
        ({
            let next = app.after_key(press, now);
            &&& next.finished
            &&& next.text == app.text
            &&& next.typed == app.typed
            &&& next.raw_keystrokes == app.raw_keystrokes
            &&& next.start_time == app.start_time
            &&& next.duration == app.duration
            &&& next.stats == app.stats
        }),
{
}

/// The backspace key takes back a typed character, unless that one finished
/// the text. The record keeps both keystrokes, and a mistake stays counted.
pub proof fn law_backspace_takes_back(app: AppView, c: char, now: u128)
    requires
        !app.finished,
        app.typed.len() + 1 != app.text.len(),
    ensures
        ({
            let typed = app.after_char(c, now);
            let back = typed.after_backspace();
            &&& back.typed == app.typed
            &&& !back.finished
            &&& back.raw_keystrokes == app.raw_keystrokes + seq![c, ERASE]
            &&& back.stats == typed.stats
            &&& back.start_time == typed.start_time
        }),
{
    let back = app.after_char(c, now).after_backspace();
    assert(back.typed == app.typed);
    assert(back.raw_keystrokes == app.raw_keystrokes + seq![c, ERASE]);
}

/// The clock is started once: no key press moves the start.
pub proof fn law_clock_is_started_once(app: AppView, press: KeyPress, now: u128)
    requires
        app.start_time is Some,
    ensures
        app.after_key(press, now).start_time == app.start_time,
{
}

/// A key press counts its mistake once and leaves every other count alone.
pub proof fn law_one_mistake_is_counted_once(
    app: AppView,
    press: KeyPress,
    now: u128,
    m: Mistake,
)
    ensures
        count_in(app.after_key(press, now).stats, m) == count_in(app.stats, m) + if app.counted(
            press,
        ) == Some(m) {
            1int
        } else {
            0
        },
{
}

/// No step of a game lowers a count or loses an entry.
pub proof fn law_counts_never_fall(app: AppView, steps: Seq<Step>, m: Mistake)
    ensures
        count_in(after_steps(app, steps).stats, m) >= count_in(app.stats, m),
        app.stats.contains_key(m) ==> after_steps(app, steps).stats.contains_key(m),
    decreases steps.len(),
{
    if steps.len() > 0 {
        let earlier = steps.drop_last();
        law_counts_never_fall(app, earlier, m);
        if let Step::Key { press, now } = steps.last() {
            law_one_mistake_is_counted_once(after_steps(app, earlier), press, now, m);
        }
    }
}

/// The state after typing the first `n` characters of the text.
pub open spec fn after_typing(app: AppView, n: nat, now: u128) -> AppView
    decreases n,
{
    if n == 0 {
        app
    } else {
        after_typing(app, (n - 1) as nat, now).after_char(app.text[n - 1], now)
    }
}

/// Typing the text as it stands counts no mistake, and finishes it with its
/// last character.
pub proof fn law_faultless_typing(app: AppView, n: nat, now: u128)
    requires
        app.typed.len() == 0,
        !app.finished,
        n <= app.text.len(),
    ensures
        after_typing(app, n, now).typed == app.text.take(n as int),
        after_typing(app, n, now).text == app.text,
        after_typing(app, n, now).stats == app.stats,
        after_typing(app, n, now).finished <==> n > 0 && n == app.text.len(),
    decreases n,
{
    if n > 0 {
        law_faultless_typing(app, (n - 1) as nat, now);
        assert(app.text.take(n as int) == app.text.take(n - 1).push(app.text[n - 1]));
    } else {
        assert(app.typed == app.text.take(0));
    }
}

/// Going to the statistics and back leaves everything but the selection.
pub proof fn law_switching_back(app: AppView)
    ensures
        app.after_switch().after_switch() == (AppView { selected_char: None, ..app }),
{
}

/// Steps through the alphabet add up, and twenty-six of them lead back.
pub proof fn law_alphabet_is_a_ring(c: char, a: int, b: int)
    requires
        is_letter(c),
    ensures
        is_letter(letter_after(c, a)),
        letter_after(letter_after(c, a), b) == letter_after(c, a + b),
        letter_after(c, 0) == c,
        letter_after(c, 26) == c,
{
}

/// Left and right undo each other on a selected letter.
pub proof fn law_left_and_right_undo_each_other(c: char)
    requires
        is_letter(c),
    ensures
        stepped(stepped(Some(c), 1), -1) == Some(c),
        stepped(stepped(Some(c), -1), 1) == Some(c),
{
    law_alphabet_is_a_ring(c, 1, -1);
    law_alphabet_is_a_ring(c, -1, 1);
}

/// A character typed into an unfinished text is added to what is typed and to
/// the record. It starts the clock unless that runs, and finishes the text
/// exactly if it is the last one. But for the counts, nothing else changes.
pub proof fn law_typed_character_is_taken(app: AppView, c: char, control: bool, now: u128)
    requires
        app.mode == AppMode::Typing,
        !app.finished,
        !(control && (c == 'c' || c == 's')),
    ensures
        ({
            let next = app.after_key(KeyPress { code: KeyCode::Char(c), control }, now);
            next == (AppView {
                typed: app.typed.push(c),
                raw_keystrokes: app.raw_keystrokes.push(c),
                start_time: Some(
                    if app.start_time is Some {
                        app.start_time->0
                    } else {
                        now
                    },
                ),
                finished: app.typed.len() + 1 == app.text.len(),
                stats: next.stats,
                ..app
            })
        }),
{
}

/// A character other than the one that is due, whichever it is, raises the
/// count of its mistake by one: that of the character before it in the text, if
/// there is one, the character due and the one typed. No other count changes.
pub proof fn law_wrong_character_is_counted(
    app: AppView,
    c: char,
    control: bool,
    now: u128,
    other: Mistake,
)
    requires
        app.mode == AppMode::Typing,
        !app.finished,
        !(control && (c == 'c' || c == 's')),
        app.typed.len() < app.text.len(),
        c != app.text[app.typed.len() as int],
    ensures
        ({
            let pos = app.typed.len() as int;
            let m = Mistake {
                previous: if pos > 0 {
                    Some(app.text[pos - 1])
                } else {
                    None
                },
                expected: app.text[pos],
                typed: c,
            };
            let before = app.stats;
            let after = app.after_key(KeyPress { code: KeyCode::Char(c), control }, now).stats;
            &&& after.contains_key(m)
            &&& before.contains_key(m) ==> after[m] == before[m] + 1
            &&& !before.contains_key(m) ==> after[m] == 1
            &&& other != m ==> (after.contains_key(other) <==> before.contains_key(other))
            &&& other != m && before.contains_key(other) ==> after[other] == before[other]
        }),
{
}

/// The character that is due counts as no mistake, nor does any character past
/// the end of the text.
pub proof fn law_right_character_counts_nothing(app: AppView, c: char, control: bool, now: u128)
    requires
        app.mode == AppMode::Typing,
        !(control && (c == 'c' || c == 's')),
        app.typed.len() >= app.text.len() || c == app.text[app.typed.len() as int],
    ensures
        app.after_key(KeyPress { code: KeyCode::Char(c), control }, now).stats == app.stats,
{
}

/// The backspace key is recorded and takes the last typed character away, if
/// there is one. Nothing else changes.
pub proof fn law_backspace_is_taken(app: AppView, control: bool, now: u128)
    requires
        app.mode == AppMode::Typing,
        !app.finished,
    ensures
        app.after_key(KeyPress { code: KeyCode::Backspace, control }, now) == (AppView {
            typed: app.typed.take(
                if app.typed.len() > 0 {
                    app.typed.len() - 1
                } else {
                    0
                },
            ),
            raw_keystrokes: app.raw_keystrokes.push('\u{8}'),
            ..app
        }),
{
    let next = app.after_key(KeyPress { code: KeyCode::Backspace, control }, now);
    assert(next.typed == app.typed.take(
        if app.typed.len() > 0 {
            app.typed.len() - 1
        } else {
            0
        },
    ));
}

/// Control and `s` goes to the statistics and back, in any state, and drops the
/// selection. Nothing else changes.
pub proof fn law_control_s_switches(app: AppView, now: u128)
    ensures
        ({
            let next = app.after_key(KeyPress { code: KeyCode::Char('s'), control: true }, now);
            &&& next.mode != app.mode
            &&& next == (AppView { mode: next.mode, selected_char: None, ..app })
        }),
{
}

/// These keys change nothing by themselves: control and `c`, escape, the keys
/// that mean nothing, the arrows while typing, typing and backspace once the
/// text is finished, and typing and backspace on the statistics screen.
pub proof fn law_keys_that_change_nothing(app: AppView, press: KeyPress, now: u128)
    requires
        !(press.control && press.code == KeyCode::Char('s')),
        ({
            ||| press.control && press.code == KeyCode::Char('c')
            ||| press.code == KeyCode::Esc
            ||| press.code == KeyCode::Other
            ||| app.mode == AppMode::Typing && (press.code == KeyCode::Left || press.code
                == KeyCode::Right)
            ||| app.mode == AppMode::Typing && app.finished
            ||| app.mode == AppMode::Stats && press.code != KeyCode::Left && press.code
                != KeyCode::Right
        }),
    ensures
        app.after_key(press, now) == app,
{
}

/// An arrow key on the statistics screen moves the selection and nothing else:
/// to the first letter where nothing is selected, to the next letter or the one
/// before, and from the last to the first or back.
pub proof fn law_arrows_move_the_selection(app: AppView, control: bool, now: u128)
    requires
        app.mode == AppMode::Stats,
    ensures
        ({
            let right = app.after_key(KeyPress { code: KeyCode::Right, control }, now);
            let left = app.after_key(KeyPress { code: KeyCode::Left, control }, now);
            &&& right == (AppView { selected_char: right.selected_char, ..app })
            &&& left == (AppView { selected_char: left.selected_char, ..app })
            &&& right.selected_char is Some && left.selected_char is Some
            &&& app.selected_char is None ==> right.selected_char->0 == 'a'
                && left.selected_char->0 == 'a'
            &&& app.selected_char is Some ==> {
                let c = app.selected_char->0;
                &&& 'a' <= c < 'z' ==> right.selected_char->0 as int == c as int + 1
                &&& c == 'z' ==> right.selected_char->0 == 'a'
                &&& 'a' < c <= 'z' ==> left.selected_char->0 as int == c as int - 1
                &&& c == 'a' ==> left.selected_char->0 == 'z'
                &&& !('a' <= c <= 'z') ==> right.selected_char->0 == c && left.selected_char->0
                    == c
            }
        }),
{
    if let Some(c) = app.selected_char {
        if 'a' <= c && c <= 'z' {
            law_alphabet_is_a_ring(c, 1, -1);
        }
    }
}

/// Escape asks for a new text, in either mode, whether the text is finished or
/// not, with the control key or without.
pub proof fn law_escape_asks_for_a_new_text(app: AppView, control: bool)
    ensures
        app.action(KeyPress { code: KeyCode::Esc, control }) == Action::Reset,
{
}

/// What each key press asks for: control and `c` to quit, escape for a new
/// text, the last character of a text to take the time, and any other nothing.
pub proof fn law_what_a_key_asks_for(app: AppView, press: KeyPress)
    ensures
        app.action(press) == Action::Quit <==> press.control && press.code == KeyCode::Char('c'),
        app.action(press) == Action::Reset <==> press.code == KeyCode::Esc,
        app.action(press) == Action::Complete <==> {
            &&& app.mode == AppMode::Typing
            &&& !app.finished
            &&& app.typed.len() + 1 == app.text.len()
            &&& press.code is Char
            &&& !(press.control && press.code == KeyCode::Char('c'))
            &&& !(press.control && press.code == KeyCode::Char('s'))
        },
{
}

/// A key press is refused room only where it is a mistake whose count is at the
/// limit of thirty-two bits.
pub proof fn law_when_there_is_room(app: AppView, press: KeyPress)
    ensures
        !app.has_room(press) <==> {
            let pos = app.typed.len() as int;
            let m = Mistake {
                previous: if pos > 0 {
                    Some(app.text[pos - 1])
                } else {
                    None
                },
                expected: app.text[pos],
                typed: press.code->0,
            };
            &&& app.mode == AppMode::Typing
            &&& !app.finished
            &&& press.code is Char
            &&& !(press.control && (press.code->0 == 'c' || press.code->0 == 's'))
            &&& pos < app.text.len()
            &&& press.code->0 != app.text[pos]
            &&& app.stats.contains_key(m)
            &&& app.stats[m] >= 0xffff_ffff
        },
{
}

/// Taking the time sets the duration to the time since the start, which is
/// nought for a clock that went backwards, and changes nothing else.
pub proof fn law_time_since_the_start(app: AppView, now: u128)
    ensures
        ({
            let next = app.completed(now);
            &&& next == (AppView { duration: next.duration, ..app })
            &&& next.duration is Some <==> app.start_time is Some
            &&& app.start_time is Some && now >= app.start_time->0 ==> next.duration->0 == now
                - app.start_time->0
            &&& app.start_time is Some && now < app.start_time->0 ==> next.duration->0 == 0
        }),
{
}

/// A new text starts from nothing typed, nothing recorded, no clock and no
/// selection, with the statistics that could be read. The counts, the screen,
/// the word list and the kind of text stay.
pub proof fn law_new_text_starts_afresh(
    app: AppView,
    text: Seq<char>,
    lifetime_stats: Option<LifetimeView>,
    key_error_stats: Option<KeyErrorView>,
)
    ensures
        ({
            let next = app.restarted(text, lifetime_stats, key_error_stats);
            &&& next.text == text
            &&& next.typed.len() == 0
            &&& next.raw_keystrokes.len() == 0
            &&& next.start_time is None
            &&& next.duration is None
            &&& !next.finished
            &&& next.selected_char is None
            &&& lifetime_stats is Some ==> next.lifetime_stats == lifetime_stats->0
            &&& key_error_stats is Some ==> next.key_error_stats == key_error_stats->0
            &&& lifetime_stats is None ==> next.lifetime_stats.total_sessions == 0
                && next.lifetime_stats.average_wpm == "0.00"@
                && next.lifetime_stats.average_accuracy == "0.00"@
            &&& key_error_stats is None ==> forall|c: char|
                #![trigger next.key_error_stats.char_error_counts.contains_key(c)]
                !next.key_error_stats.char_error_counts.contains_key(c)
                    && !next.key_error_stats.most_common_prev_char.contains_key(c)
                    && !next.key_error_stats.most_common_typed_char.contains_key(c)
            &&& next.stats == app.stats
            &&& next.mode == app.mode
            &&& next.available_words == app.available_words
            &&& next.test_mode == app.test_mode
            &&& next.word_count_target == app.word_count_target
        }),
{
}

/// The game opens for typing a sentence, with nothing typed, the given counts,
/// and the words and statistics that could be read.
pub proof fn law_opening_of_the_game(
    text: Seq<char>,
    stats: Map<Mistake, nat>,
    words: Option<Seq<Seq<char>>>,
    lifetime_stats: Option<LifetimeView>,
    key_error_stats: Option<KeyErrorView>,
)
    ensures
        ({
            let app = opening(text, stats, words, lifetime_stats, key_error_stats);
            &&& app.text == text
            &&& app.typed.len() == 0
            &&& app.raw_keystrokes.len() == 0
            &&& app.start_time is None
            &&& app.duration is None
            &&& !app.finished
            &&& app.stats == stats
            &&& app.mode == AppMode::Typing
            &&& app.selected_char is None
            &&& words is Some ==> app.available_words == words->0
            &&& words is None ==> app.available_words == seq!["No words found."@]
            &&& app.test_mode == TestMode::Sentence
            &&& app.word_count_target is None
            &&& lifetime_stats is Some ==> app.lifetime_stats == lifetime_stats->0
            &&& key_error_stats is Some ==> app.key_error_stats == key_error_stats->0
            &&& lifetime_stats is None ==> app.lifetime_stats.total_sessions == 0
                && app.lifetime_stats.average_wpm == "0.00"@ && app.lifetime_stats.average_accuracy
                == "0.00"@
            &&& key_error_stats is None ==> forall|c: char|
                #![trigger app.key_error_stats.char_error_counts.contains_key(c)]
                !app.key_error_stats.char_error_counts.contains_key(c)
                    && !app.key_error_stats.most_common_prev_char.contains_key(c)
                    && !app.key_error_stats.most_common_typed_char.contains_key(c)
            &&& word_list(words) == app.available_words
        }),
{
}

/// The figures of a player without a session are nought.
pub proof fn law_no_session_no_figures()
    ensures
        no_lifetime().total_sessions == 0,
        no_lifetime().average_wpm == "0.00"@,
        no_lifetime().average_accuracy == "0.00"@,
{
}

/// The state of the game is seen whole.
pub proof fn law_state_is_seen_whole(app: AppState)
    ensures
        app@.text == app.text@,
        app@.typed == app.typed@,
        app@.raw_keystrokes == app.raw_keystrokes@,
        app@.start_time == app.start_time,
        app@.duration == app.duration,
        app@.finished == app.finished,
        app@.stats == app.stats@,
        app@.mode == app.mode,
        app@.lifetime_stats.total_sessions == app.lifetime_stats.total_sessions,
        app@.lifetime_stats.average_wpm == app.lifetime_stats.average_wpm@,
        app@.lifetime_stats.average_accuracy == app.lifetime_stats.average_accuracy@,
        app@.key_error_stats == app.key_error_stats@,
        app@.selected_char == app.selected_char,
        app@.available_words == views(app.available_words@),
        app@.test_mode == app.test_mode,
        app@.word_count_target == app.word_count_target,
{
}

/// What could be read is seen whole, and what could not is seen as missing.
pub proof fn law_what_was_read_is_seen_whole(
    words: Option<Vec<String>>,
    lifetime_stats: Option<LifetimeStats>,
    key_error_stats: Option<KeyErrorStats>,
)
    ensures
        words_view(words) is Some <==> words is Some,
        words is Some ==> words_view(words)->0 == views(words->0@),
        lifetime_view(lifetime_stats) is Some <==> lifetime_stats is Some,
        lifetime_stats is Some ==> lifetime_view(lifetime_stats)->0 == lifetime_stats->0@,
        key_error_view(key_error_stats) is Some <==> key_error_stats is Some,
        key_error_stats is Some ==> key_error_view(key_error_stats)->0 == key_error_stats->0@,
{
}

} // verus!

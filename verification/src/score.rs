//! How well a text was typed, and the record that is kept of it.

use vstd::prelude::*;

use crate::game::AppState;
use crate::strings::string_of;

verus! {

/// How many of the typed characters are right. The share of these in all
/// typed characters is the accuracy.
#[derive(Clone, Copy, PartialEq, Eq, Structural, Debug)]
pub struct Accuracy {
    pub correct: usize,
    pub typed: usize,
}

/// The characters of the text, and the nanoseconds that it took. Five
/// characters count as a word.
#[derive(Clone, Copy, PartialEq, Eq, Structural, Debug)]
pub struct Pace {
    pub chars: usize,
    pub nanos: u128,
}

/// What is kept of a session, but for the figures derived from it.
#[derive(Debug)]
pub struct SessionRecord {
    pub target_text: String,
    pub typed_text: String,
    pub duration_ms: Option<u64>,
}

/// How many of the first `n` places hold the same character in both sequences.
pub open spec fn agreeing(a: Seq<char>, b: Seq<char>, n: nat) -> nat
    decreases n,
{
    if n == 0 {
        0
    } else {
        agreeing(a, b, (n - 1) as nat) + if a[n - 1] == b[n - 1] {
            1nat
        } else {
            0
        }
    }
}

/// How many places there are in both sequences.
pub open spec fn common_len(a: Seq<char>, b: Seq<char>) -> nat {
    if a.len() < b.len() {
        a.len()
    } else {
        b.len()
    }
}

/// How many of the typed characters are those of the text.
pub open spec fn correct_chars(typed: Seq<char>, text: Seq<char>) -> nat {
    agreeing(typed, text, common_len(typed, text))
}

/// Whole milliseconds in a number of nanoseconds, modulo two to the power of
/// sixty-four.
pub open spec fn millis(nanos: u128) -> u64 {
    ((nanos / 1_000_000) % 0x1_0000_0000_0000_0000) as u64
}

proof fn lemma_agreeing_bound(a: Seq<char>, b: Seq<char>, n: nat)
    ensures
        agreeing(a, b, n) <= n,
    decreases n,
{
    if n > 0 {
        lemma_agreeing_bound(a, b, (n - 1) as nat);
    }
}

impl AppState {
    /// The pace at which the text was typed; none as long as it is not typed,
    /// or where it took no time.
    pub fn wpm(&self) -> (pace: Option<Pace>)
        ensures
            pace is Some <==> self@.duration is Some && self@.duration->0 > 0,
            pace matches Some(p) ==> p.chars == self@.text.len() && Some(p.nanos) == self@.duration,
    {
        match self.duration {
            Some(nanos) => if nanos == 0 {
                None
            } else {
                Some(Pace { chars: self.text.len(), nanos })
            },
            None => None,
        }
    }

    /// How many of the typed characters are right; none where nothing is
    /// typed, which counts as all right.
    pub fn accuracy(&self) -> (accuracy: Option<Accuracy>)
        ensures
            accuracy is None <==> self@.typed.len() == 0,
            accuracy matches Some(a) ==> a.correct == correct_chars(self@.typed, self@.text)
                && a.typed == self@.typed.len(),
    {
        if self.typed.is_empty() {
            return None;
        }
        let len: usize = if self.typed.len() < self.text.len() {
            self.typed.len()
        } else {
            self.text.len()
        };
        let mut correct: usize = 0;
        for i in 0..len
            invariant
                len <= self.typed@.len(),
                len <= self.text@.len(),
                correct == agreeing(self.typed@, self.text@, i as nat),
                correct <= i,
        {
            if self.typed[i] == self.text[i] {
                correct = correct + 1;
            }
        }
        Some(Accuracy { correct, typed: self.typed.len() })
    }

    /// The record of the session: the text, every keystroke in its order, and
    /// the time it took in milliseconds.
    pub fn session_record(&self) -> (record: SessionRecord)
        ensures
            record.target_text@ == self@.text,
            record.typed_text@ == self@.raw_keystrokes,
            record.duration_ms == (match self@.duration {
                Some(nanos) => Some(millis(nanos)),
                None => None,
            }),
    {
        SessionRecord {
            target_text: string_of(&self.text),
            typed_text: self.raw_keystrokes.clone(),
            duration_ms: match self.duration {
                Some(nanos) => Some(((nanos / 1_000_000) % 0x1_0000_0000_0000_0000) as u64),
                None => None,
            },
        }
    }
}

/// No more characters are right than are typed.
pub proof fn law_accuracy_is_a_share(typed: Seq<char>, text: Seq<char>)
    ensures
        correct_chars(typed, text) <= typed.len(),
{
    lemma_agreeing_bound(typed, text, common_len(typed, text));
}

proof fn lemma_all_agree(a: Seq<char>, b: Seq<char>, n: nat)
    ensures
        agreeing(a, b, n) == n <==> forall|i: int| 0 <= i < n ==> a[i] == b[i],
    decreases n,
{
    if n > 0 {
        lemma_all_agree(a, b, (n - 1) as nat);
        lemma_agreeing_bound(a, b, (n - 1) as nat);
        if agreeing(a, b, n) == n {
            assert(a[n - 1] == b[n - 1]);
        }
    }
}

/// All typed characters are right exactly where what is typed is a beginning
/// of the text.
pub proof fn law_full_accuracy_is_a_beginning(typed: Seq<char>, text: Seq<char>)
    ensures
        correct_chars(typed, text) == typed.len() <==> typed.is_prefix_of(text),
{
    let n = common_len(typed, text);
    lemma_all_agree(typed, text, n);
    lemma_agreeing_bound(typed, text, n);
    if typed.is_prefix_of(text) {
        assert forall|i: int| 0 <= i < n implies typed[i] == text[i] by {
            assert(typed[i] == text.subrange(0, typed.len() as int)[i]);
        }
    }
    if correct_chars(typed, text) == typed.len() {
        assert(typed =~= text.subrange(0, typed.len() as int));
    }
}

proof fn lemma_agreeing_places(a: Seq<char>, b: Seq<char>, n: nat)
    ensures
        Set::new(|i: int| 0 <= i < n && a[i] == b[i]).finite(),
        Set::new(|i: int| 0 <= i < n && a[i] == b[i]).len() == agreeing(a, b, n),
    decreases n,
{
    let places = Set::new(|i: int| 0 <= i < n && a[i] == b[i]);
    if n == 0 {
        assert(places =~= Set::empty());
    } else {
        let m: nat = (n - 1) as nat;
        let fewer = Set::new(|i: int| 0 <= i < m && a[i] == b[i]);
        lemma_agreeing_places(a, b, m);
        if a[n - 1] == b[n - 1] {
            assert(places =~= fewer.insert(n - 1));
        } else {
            assert(places =~= fewer);
        }
    }
}

/// The number of right characters is that of the places at which what is typed
/// and the text hold the same character, whatever stands at other places.
pub proof fn law_right_is_the_same_character_at_the_place(typed: Seq<char>, text: Seq<char>)
    ensures
        Set::new(
            |i: int| 0 <= i < typed.len() && i < text.len() && typed[i] == text[i],
        ).finite(),
        correct_chars(typed, text) == Set::new(
            |i: int| 0 <= i < typed.len() && i < text.len() && typed[i] == text[i],
        ).len(),
{
    let n = common_len(typed, text);
    lemma_agreeing_places(typed, text, n);
    assert(Set::new(
        |i: int| 0 <= i < typed.len() && i < text.len() && typed[i] == text[i],
    ) =~= Set::new(|i: int| 0 <= i < n && typed[i] == text[i]));
}

proof fn lemma_agreeing_local(a: Seq<char>, b: Seq<char>, c: Seq<char>, d: Seq<char>, n: nat)
    requires
        forall|i: int| 0 <= i < n ==> a[i] == c[i] && b[i] == d[i],
    ensures
        agreeing(a, b, n) == agreeing(c, d, n),
    decreases n,
{
    if n > 0 {
        lemma_agreeing_local(a, b, c, d, (n - 1) as nat);
    }
}

/// One more typed character counts by itself: it raises the number of right
/// characters by one exactly where it is the one due, whatever was typed
/// before, and typing past the end of the text raises it never.
pub proof fn law_each_character_counts_by_itself(typed: Seq<char>, text: Seq<char>, c: char)
    ensures
        typed.len() < text.len() && c == text[typed.len() as int] ==> correct_chars(
            typed.push(c),
            text,
        ) == correct_chars(typed, text) + 1,
        typed.len() < text.len() && c != text[typed.len() as int] ==> correct_chars(
            typed.push(c),
            text,
        ) == correct_chars(typed, text),
        typed.len() >= text.len() ==> correct_chars(typed.push(c), text) == correct_chars(
            typed,
            text,
        ),
        typed.len() == 0 ==> correct_chars(typed, text) == 0,
{
    lemma_agreeing_local(typed, text, typed.push(c), text, common_len(typed, text));
}

/// The text that is still to be typed has no part in the number of right
/// characters.
pub proof fn law_what_is_to_be_typed_counts_nothing(
    typed: Seq<char>,
    text: Seq<char>,
    more: Seq<char>,
)
    requires
        typed.len() <= text.len(),
    ensures
        correct_chars(typed, text + more) == correct_chars(typed, text),
{
    lemma_agreeing_local(typed, text, typed, text + more, typed.len());
}

/// Milliseconds are whole and rounded down, as long as they fit.
pub proof fn law_milliseconds_are_rounded_down(nanos: u128)
    requires
        nanos < 0x1_0000_0000_0000_0000 * 1_000_000,
    ensures
        millis(nanos) * 1_000_000 <= nanos < (millis(nanos) + 1) * 1_000_000,
{
}

/// Milliseconds start anew once they do not fit.
pub proof fn law_milliseconds_start_anew(nanos: u128, later: u128)
    requires
        later == nanos + 0x1_0000_0000_0000_0000 * 1_000_000,
    ensures
        millis(later) == millis(nanos),
{
}

} // verus!

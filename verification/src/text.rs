//! The text that the player has to type: words drawn at random from the word
//! list.

use rand::rngs::ThreadRng;
use rand::seq::IndexedRandom;
use vstd::prelude::*;

use crate::strings::chars_of;
use crate::words::law_solid_text_is_one_word;
use crate::words::law_white_space_divides;
use crate::words::solid;
use crate::words::views;
use crate::words::words_of;

verus! {

/// How a text is made up.
#[derive(Clone, Copy, PartialEq, Eq, Structural, Debug)]
pub enum TestMode {
    /// One entry of the word list.
    Sentence,
    /// A number of words long enough for a timed test.
    WordsTimed,
    /// A given number of words.
    WordsCount,
}

/// The number of words of a counted text, unless another one is asked for.
pub const DEFAULT_WORD_COUNT: usize = 10;

/// The number of words of a timed text.
pub const TIMED_WORD_COUNT: usize = 50;

/// A handle on the random number generator of the current thread; opaque.
#[verifier::external_type_specification]
#[verifier::external_body]
pub struct ExThreadRng(ThreadRng);

/// `ThreadRng::default`: a handle on the thread's generator. Nothing is
/// claimed of the numbers that it gives. On its first use in a thread it
/// panics where the operating system has no entropy to seed it with. No input
/// decides that.
#[verifier::external_body]
fn thread_generator() -> ThreadRng {
    ThreadRng::default()
}

/// `IndexedRandom::choose` on a slice of strings: one of the strings, drawn at
/// random, or nothing where there is none. Which one is drawn is left open. The
/// generator seeds itself anew from time to time, and a draw panics where the
/// operating system has no entropy for that. No input decides it.
#[verifier::external_body]
fn draw_one<'a>(words: &'a Vec<String>, rng: &mut ThreadRng) -> (choice: Option<&'a String>)
    ensures
        choice is None <==> words@.len() == 0,
        choice matches Some(word) ==> words@.contains(*word),
{
    words.choose(rng)
}

/// The given words with one space between neighbours.
pub open spec fn spaced(words: Seq<Seq<char>>) -> Seq<char>
    decreases words.len(),
{
    if words.len() == 0 {
        Seq::empty()
    } else if words.len() == 1 {
        words[0]
    } else {
        spaced(words.drop_last()).push(' ') + words.last()
    }
}

/// What the entries of a list of drawn words hold.
pub open spec fn drawn(picks: Seq<&String>) -> Seq<Seq<char>> {
    Seq::new(picks.len(), |i: int| picks[i]@)
}

/// The text that a single draw from the word list gives.
pub open spec fn sentence(choice: Option<Seq<char>>) -> Seq<char> {
    match choice {
        Some(entry) => entry,
        None => "No words found."@,
    }
}

/// How many entries of the word list a text of the given mode takes.
pub open spec fn word_count(mode: TestMode, target: Option<usize>) -> nat {
    match mode {
        TestMode::Sentence => 1,
        TestMode::WordsTimed => TIMED_WORD_COUNT as nat,
        TestMode::WordsCount => match target {
            Some(count) => count as nat,
            None => DEFAULT_WORD_COUNT as nat,
        },
    }
}

/// `picks` are `count` entries of the word list.
pub open spec fn picked(words: Seq<Seq<char>>, count: nat, picks: Seq<Seq<char>>) -> bool {
    &&& picks.len() == count
    &&& forall|i: int| 0 <= i < picks.len() ==> words.contains(#[trigger] picks[i])
}

/// Whether a word list has what a text of the given mode takes. A sentence
/// does without, words drawn one by one do not.
pub open spec fn can_generate(
    words: Seq<Seq<char>>,
    mode: TestMode,
    target: Option<usize>,
) -> bool {
    mode is Sentence || words.len() > 0 || word_count(mode, target) == 0
}

/// The texts that may come out of the draw.
pub open spec fn may_generate(
    words: Seq<Seq<char>>,
    mode: TestMode,
    target: Option<usize>,
    text: Seq<char>,
) -> bool {
    if mode is Sentence {
        if words.len() == 0 {
            text == sentence(None)
        } else {
            exists|i: int| 0 <= i < words.len() && text == sentence(Some(#[trigger] words[i]))
        }
    } else {
        exists|picks: Seq<Seq<char>>| #[trigger]
            picked(words, word_count(mode, target), picks) && text == spaced(picks)
    }
}

/// Whether a word list has what a text of the given mode takes.
pub fn words_suffice(
    available_words: &Vec<String>,
    test_mode: &TestMode,
    word_count_target: Option<usize>,
) -> (b: bool)
    ensures
        b == can_generate(views(available_words@), *test_mode, word_count_target),
{
    if !available_words.is_empty() {
        return true;
    }
    match test_mode {
        TestMode::Sentence => true,
        TestMode::WordsTimed => false,
        TestMode::WordsCount => matches!(word_count_target, Some(0)),
    }
}

/// The text for the outcome of a single draw.
pub fn sentence_text(choice: Option<&String>) -> (text: Vec<char>)
    ensures
        text@ == sentence(
            match choice {
                Some(entry) => Some(entry@),
                None => None,
            },
        ),
{
    match choice {
        Some(entry) => chars_of(entry.as_str()),
        None => chars_of("No words found."),
    }
}

/// The text for words drawn one by one, in the order of the draw.
pub fn spaced_text(picks: &Vec<&String>) -> (text: Vec<char>)
    ensures
        text@ == spaced(drawn(picks@)),
{
    let mut text: Vec<char> = Vec::new();
    let ghost words = drawn(picks@);
    for i in 0..picks.len()
        invariant
            words == drawn(picks@),
            text@ == spaced(words.take(i as int)),
    {
        if i > 0 {
            text.push(' ');
        }
        let mut word = chars_of(picks[i].as_str());
        text.append(&mut word);
        assert(words.take(i + 1).drop_last() == words.take(i as int));
        assert(text@ == spaced(words.take(i + 1)));
    }
    assert(words.take(words.len() as int) == words);
    text
}

/// Draws `count` entries of the word list, each from the whole list.
fn draw<'a>(words: &'a Vec<String>, count: usize, rng: &mut ThreadRng) -> (picks: Vec<&'a String>)
    requires
        count == 0 || words@.len() > 0,
    ensures
        picked(views(words@), count as nat, drawn(picks@)),
{
    let mut picks: Vec<&'a String> = Vec::new();
    for i in 0..count
        invariant
            count == 0 || words@.len() > 0,
            picked(views(words@), i as nat, drawn(picks@)),
    {
        let ghost before = drawn(picks@);
        let word = draw_one(words, rng).unwrap();
        picks.push(word);
        assert(drawn(picks@) == before.push(word@));
        assert(views(words@).contains(word@)) by {
            let k = choose|k: int| 0 <= k < words@.len() && words@[k] == *word;
            assert(views(words@)[k] == word@);
        }
    }
    picks
}

/// A text of the given mode, drawn at random from the word list.
pub fn generate_text(
    available_words: &Vec<String>,
    test_mode: &TestMode,
    word_count_target: Option<usize>,
) -> (text: Vec<char>)
    requires
        can_generate(views(available_words@), *test_mode, word_count_target),
    ensures
        may_generate(views(available_words@), *test_mode, word_count_target, text@),
{
    let mut rng = thread_generator();
    let ghost words = views(available_words@);
    match test_mode {
        TestMode::Sentence => {
            let choice = draw_one(available_words, &mut rng);
            let text = sentence_text(choice);
            assert(may_generate(words, *test_mode, word_count_target, text@)) by {
                if let Some(entry) = choice {
                    let k = choose|k: int| 0 <= k < available_words@.len() && available_words@[k] == *entry;
                    assert(text@ == sentence(Some(words[k])));
                }
            }
            text
        },
        TestMode::WordsCount => {
            let target_count: usize = match word_count_target {
                Some(count) => count,
                None => DEFAULT_WORD_COUNT,
            };
            let picks = draw(available_words, target_count, &mut rng);
            assert(picked(words, word_count(*test_mode, word_count_target), drawn(picks@)));
            spaced_text(&picks)
        },
        TestMode::WordsTimed => {
            let picks = draw(available_words, TIMED_WORD_COUNT, &mut rng);
            assert(picked(words, word_count(*test_mode, word_count_target), drawn(picks@)));
            spaced_text(&picks)
        },
    }
}

/// Words put next to each other with a space between them can be told apart
/// again.
pub proof fn law_spaced_words_split_back(words: Seq<Seq<char>>)
    requires
        forall|i: int| 0 <= i < words.len() ==> solid(#[trigger] words[i]),
    ensures
        words_of(spaced(words)) == words,
    decreases words.len(),
{
    if words.len() == 1 {
        law_solid_text_is_one_word(words[0]);
        assert(words_of(spaced(words)) == words);
    } else if words.len() > 1 {
        let earlier = words.drop_last();
        assert forall|i: int| 0 <= i < earlier.len() implies solid(#[trigger] earlier[i]) by {
            assert(solid(words[i]));
        }
        law_spaced_words_split_back(earlier);
        assert(solid(words[words.len() - 1]));
        law_solid_text_is_one_word(words.last());
        law_white_space_divides(spaced(earlier), ' ', words.last());
        assert(words_of(spaced(words)) == words);
    }
}

/// A text made of words drawn one by one from a list of proper words has
/// exactly as many words as its mode says, and each of them is in the list.
pub proof fn law_counted_text_has_its_words(
    words: Seq<Seq<char>>,
    mode: TestMode,
    target: Option<usize>,
    text: Seq<char>,
)
    requires
        forall|i: int| 0 <= i < words.len() ==> solid(#[trigger] words[i]),
        words.len() > 0,
        may_generate(words, mode, target, text),
    ensures
        words_of(text).len() == word_count(mode, target),
        forall|i: int| 0 <= i < words_of(text).len() ==> words.contains(#[trigger] words_of(text)[i]),
{
    if mode is Sentence {
        let i = choose|i: int| 0 <= i < words.len() && text == sentence(Some(#[trigger] words[i]));
        law_solid_text_is_one_word(words[i]);
    } else {
        let picks = choose|picks: Seq<Seq<char>>| #[trigger]
            picked(words, word_count(mode, target), picks) && text == spaced(picks);
        assert forall|i: int| 0 <= i < picks.len() implies solid(#[trigger] picks[i]) by {
            assert(words.contains(picks[i]));
        }
        law_spaced_words_split_back(picks);
    }
}

/// No text comes out empty where no entry of the word list is empty, unless it
/// is a text of no words: there is something to type, and so an end to reach.
pub proof fn law_there_is_something_to_type(
    words: Seq<Seq<char>>,
    mode: TestMode,
    target: Option<usize>,
    text: Seq<char>,
)
    requires
        forall|i: int| 0 <= i < words.len() ==> (#[trigger] words[i]).len() > 0,
        word_count(mode, target) > 0,
        may_generate(words, mode, target, text),
    ensures
        text.len() > 0,
{
    reveal_strlit("No words found.");
    if !(mode is Sentence) {
        let picks = choose|picks: Seq<Seq<char>>| #[trigger]
            picked(words, word_count(mode, target), picks) && text == spaced(picks);
        assert(words.contains(picks[picks.len() - 1]));
    }
}

/// Two groups of words are put together with one space between them, a single
/// word is left as it is, and no words make no text.
pub proof fn law_spaced_adds_up(a: Seq<Seq<char>>, b: Seq<Seq<char>>, word: Seq<char>)
    ensures
        a.len() > 0 && b.len() > 0 ==> spaced(a + b) == spaced(a) + seq![' '] + spaced(b),
        spaced(seq![word]) == word,
        spaced(Seq::empty()) == Seq::<char>::empty(),
    decreases b.len(),
{
    if a.len() > 0 && b.len() == 1 {
        assert((a + b).drop_last() == a);
        assert(spaced(a + b) == spaced(a) + seq![' '] + spaced(b));
    } else if a.len() > 0 && b.len() > 1 {
        law_spaced_adds_up(a, b.drop_last(), word);
        assert((a + b).drop_last() == a + b.drop_last());
        assert(spaced(a + b) == spaced(a) + seq![' '] + spaced(b));
    }
}

/// Every drawn word is seen, in its place and whole.
pub proof fn law_draws_are_seen_whole(picks: Seq<&String>)
    ensures
        drawn(picks).len() == picks.len(),
        forall|i: int| 0 <= i < picks.len() ==> #[trigger] drawn(picks)[i] == picks[i]@,
{
}

/// A sentence is the entry that was drawn, and a note where there is none.
pub proof fn law_sentence_is_the_entry(entry: Seq<char>)
    ensures
        sentence(Some(entry)) == entry,
        sentence(None) == "No words found."@,
{
}

/// A sentence is an entry of the word list, any entry may come, and only an
/// empty list gives the note instead.
pub proof fn law_sentence_comes_from_the_list(
    words: Seq<Seq<char>>,
    target: Option<usize>,
    text: Seq<char>,
)
    ensures
        words.len() > 0 ==> (may_generate(words, TestMode::Sentence, target, text)
            <==> words.contains(text)),
        words.len() == 0 ==> (may_generate(words, TestMode::Sentence, target, text) <==> text
            == "No words found."@),
{
    if words.len() > 0 && words.contains(text) {
        let i = choose|i: int| 0 <= i < words.len() && words[i] == text;
        assert(text == sentence(Some(words[i])));
    }
}

/// A text of drawn words is made of exactly as many entries of the word list as
/// were asked for, ten where no number was given and fifty in a timed test,
/// with spaces between them; and any such draw may come.
pub proof fn law_words_come_from_the_list(
    words: Seq<Seq<char>>,
    mode: TestMode,
    target: Option<usize>,
    text: Seq<char>,
)
    requires
        mode != TestMode::Sentence,
    ensures
        may_generate(words, mode, target, text) <==> exists|picks: Seq<Seq<char>>|
            #![trigger spaced(picks)]
            {
                &&& picks.len() == if mode == TestMode::WordsTimed {
                    50
                } else if target is Some {
                    target->0 as int
                } else {
                    10
                }
                &&& forall|i: int| 0 <= i < picks.len() ==> words.contains(#[trigger] picks[i])
                &&& text == spaced(picks)
            },
{
    if may_generate(words, mode, target, text) {
        let picks = choose|picks: Seq<Seq<char>>| #[trigger]
            picked(words, word_count(mode, target), picks) && text == spaced(picks);
        assert(text == spaced(picks));
    }
    if exists|picks: Seq<Seq<char>>|
        #![trigger spaced(picks)]
        {
            &&& picks.len() == word_count(mode, target)
            &&& forall|i: int| 0 <= i < picks.len() ==> words.contains(#[trigger] picks[i])
            &&& text == spaced(picks)
        } {
        let picks = choose|picks: Seq<Seq<char>>|
            #![trigger spaced(picks)]
            {
                &&& picks.len() == word_count(mode, target)
                &&& forall|i: int| 0 <= i < picks.len() ==> words.contains(#[trigger] picks[i])
                &&& text == spaced(picks)
            };
        assert(picked(words, word_count(mode, target), picks));
    }
}

/// A text can be drawn unless words are to be drawn from an empty list.
pub proof fn law_when_a_text_can_be_drawn(
    words: Seq<Seq<char>>,
    mode: TestMode,
    target: Option<usize>,
)
    ensures
        can_generate(words, mode, target) <==> words.len() > 0 || mode == TestMode::Sentence || (
        mode == TestMode::WordsCount && target == Some(0usize)),
{
}

} // verus!

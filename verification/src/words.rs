//! The word list: the words of the texts that the game may set.

use vstd::prelude::*;

verus! {

/// What each string of a sequence holds.
pub open spec fn views(strings: Seq<String>) -> Seq<Seq<char>> {
    Seq::new(strings.len(), |i: int| strings[i]@)
}

/// The characters with the Unicode property `White_Space`.
pub open spec fn white_space(c: char) -> bool {
    ||| '\u{9}' <= c <= '\u{d}'
    ||| c == '\u{20}'
    ||| c == '\u{85}'
    ||| c == '\u{a0}'
    ||| c == '\u{1680}'
    ||| '\u{2000}' <= c <= '\u{200a}'
    ||| c == '\u{2028}'
    ||| c == '\u{2029}'
    ||| c == '\u{202f}'
    ||| c == '\u{205f}'
    ||| c == '\u{3000}'
}

/// Whether a character separates words.
pub fn is_white_space(c: char) -> (b: bool)
    ensures
        b == white_space(c),
{
    ('\u{9}' <= c && c <= '\u{d}') || c == '\u{20}' || c == '\u{85}' || c == '\u{a0}' || c
        == '\u{1680}' || ('\u{2000}' <= c && c <= '\u{200a}') || c == '\u{2028}' || c == '\u{2029}'
        || c == '\u{202f}' || c == '\u{205f}' || c == '\u{3000}'
}

/// The words of a text. A character that is no white space lengthens the word
/// that the character before it belongs to, or else begins a word.
pub open spec fn words_of(s: Seq<char>) -> Seq<Seq<char>>
    decreases s.len(),
{
    if s.len() == 0 {
        Seq::empty()
    } else {
        let before = s.drop_last();
        let words = words_of(before);
        if white_space(s.last()) {
            words
        } else if before.len() == 0 || white_space(before.last()) {
            words.push(seq![s.last()])
        } else {
            words.drop_last().push(words.last().push(s.last()))
        }
    }
}

/// A text that does not end in white space has a last word.
proof fn lemma_open_word(s: Seq<char>)
    requires
        s.len() > 0,
        !white_space(s.last()),
    ensures
        words_of(s).len() > 0,
{
}

/// Has a character, and no white space.
pub open spec fn solid(word: Seq<char>) -> bool {
    &&& word.len() > 0
    &&& forall|j: int| 0 <= j < word.len() ==> !white_space(#[trigger] word[j])
}

/// Every word of a text has a character, and none of its characters is white
/// space.
pub proof fn law_words_are_solid(s: Seq<char>)
    ensures
        forall|i: int| 0 <= i < words_of(s).len() ==> solid(#[trigger] words_of(s)[i]),
        forall|i: int| 0 <= i < words_of(s).len() ==> (#[trigger] words_of(s)[i]).len() > 0,
        forall|i: int, j: int|
            0 <= i < words_of(s).len() && 0 <= j < words_of(s)[i].len() ==> !white_space(
                #[trigger] words_of(s)[i][j],
            ),
    decreases s.len(),
{
    if s.len() > 0 {
        law_words_are_solid(s.drop_last());
        if s.len() > 1 && !white_space(s.drop_last().last()) {
            lemma_open_word(s.drop_last());
        }
    }
    assert forall|i: int, j: int|
        0 <= i < words_of(s).len() && 0 <= j < words_of(s)[i].len() implies !white_space(
        #[trigger] words_of(s)[i][j],
    ) by {
        assert(solid(words_of(s)[i]));
    }
}

/// White space divides a text: the words of the whole are those of the part
/// before it, followed by those of the part after it.
pub proof fn law_white_space_divides(a: Seq<char>, c: char, b: Seq<char>)
    requires
        white_space(c),
    ensures
        words_of(a.push(c) + b) == words_of(a) + words_of(b),
    decreases b.len(),
{
    let s = a.push(c) + b;
    if b.len() == 0 {
        assert(s == a.push(c));
        assert(s.drop_last() == a);
        assert(words_of(a) + words_of(b) == words_of(a));
    } else {
        law_white_space_divides(a, c, b.drop_last());
        assert(s.drop_last() == a.push(c) + b.drop_last());
        if b.len() > 1 && !white_space(b.drop_last().last()) {
            lemma_open_word(b.drop_last());
        }
        assert(words_of(s) == words_of(a) + words_of(b));
    }
}

/// A text with no white space in it is one word.
pub proof fn law_solid_text_is_one_word(s: Seq<char>)
    requires
        s.len() > 0,
        forall|i: int| 0 <= i < s.len() ==> !white_space(#[trigger] s[i]),
    ensures
        words_of(s) == seq![s],
    decreases s.len(),
{
    if s.len() > 1 {
        law_solid_text_is_one_word(s.drop_last());
        assert(s.drop_last().last() == s[s.len() - 2]);
        assert(s.drop_last().push(s.last()) == s);
    } else {
        assert(s == seq![s.last()]);
        assert(words_of(s.drop_last()) == Seq::<Seq<char>>::empty());
    }
    assert(words_of(s) == seq![s]);
}

/// The words of a text, in order.
pub fn split_words(s: &str) -> (words: Vec<String>)
    ensures
        views(words@) == words_of(s@),
{
    let mut words: Vec<String> = Vec::new();
    let mut word = String::new();
    let mut open: bool = false;
    assert(views(words@) == words_of(s@.take(0)));
    for c in it: s.chars()
        invariant
            it.seq() == s@,
            open == (it.index() > 0 && !white_space(s@[it.index() - 1])),
            !open ==> word@ == Seq::<char>::empty() && views(words@) == words_of(
                s@.take(it.index()),
            ),
            open ==> views(words@).push(word@) == words_of(s@.take(it.index())),
    {
        let ghost part = s@.take(it.index() + 1);
        let ghost closed = views(words@);
        let ghost before = word@;
        assert(part.drop_last() == s@.take(it.index()));
        if is_white_space(c) {
            if open {
                words.push(word);
                assert(views(words@) == closed.push(before));
                word = String::new();
                open = false;
            }
        } else {
            word.push(c);
            assert(closed.push(word@) == words_of(part)) by {
                if open {
                    assert(closed.push(before).drop_last() == closed);
                    assert(closed.push(before).last() == before);
                } else {
                    assert(word@ == seq![c]);
                }
            }
            open = true;
        }
    }
    assert(s@.take(s@.len() as int) == s@);
    if open {
        let ghost closed = views(words@);
        let ghost last = word@;
        words.push(word);
        assert(views(words@) == closed.push(last));
    }
    words
}

/// The words of several texts, one text after the other.
pub open spec fn all_words(texts: Seq<Seq<char>>) -> Seq<Seq<char>>
    decreases texts.len(),
{
    if texts.len() == 0 {
        Seq::empty()
    } else {
        all_words(texts.drop_last()) + words_of(texts.last())
    }
}

/// No word of a word list is empty or has white space in it, so trimming a
/// word of the list leaves it as it is.
pub proof fn law_word_list_is_solid(texts: Seq<Seq<char>>)
    ensures
        forall|i: int| 0 <= i < all_words(texts).len() ==> solid(#[trigger] all_words(texts)[i]),
    decreases texts.len(),
{
    if texts.len() > 0 {
        law_word_list_is_solid(texts.drop_last());
        law_words_are_solid(texts.last());
        let earlier = all_words(texts.drop_last());
        assert forall|i: int| 0 <= i < all_words(texts).len() implies solid(
            #[trigger] all_words(texts)[i],
        ) by {
            if i < earlier.len() {
                assert(solid(earlier[i]));
            } else {
                assert(solid(words_of(texts.last())[i - earlier.len()]));
            }
        }
    }
}

/// The word list that the given files make up. There is none where the files
/// hold no word, or where there is no file.
pub fn words_of_files(contents: &Vec<String>) -> (words: Option<Vec<String>>)
    ensures
        words is Some <==> all_words(views(contents@)).len() > 0,
        words matches Some(list) ==> views(list@) == all_words(views(contents@)),
{
    let mut list: Vec<String> = Vec::new();
    let ghost texts = views(contents@);
    assert(views(list@) == all_words(texts.take(0)));
    for i in 0..contents.len()
        invariant
            texts == views(contents@),
            views(list@) == all_words(texts.take(i as int)),
    {
        let ghost before = views(list@);
        let mut more = split_words(contents[i].as_str());
        let ghost added = views(more@);
        list.append(&mut more);
        assert(views(list@) == before + added);
        assert(texts.take(i + 1).drop_last() == texts.take(i as int));
    }
    assert(texts.take(texts.len() as int) == texts);
    if list.len() == 0 {
        None
    } else {
        Some(list)
    }
}

/// A text of no characters has no words.
pub proof fn law_empty_text_has_no_words()
    ensures
        words_of(Seq::empty()) == Seq::<Seq<char>>::empty(),
{
}

/// Every string is seen, in its place and whole.
pub proof fn law_strings_are_seen_whole(strings: Seq<String>)
    ensures
        views(strings).len() == strings.len(),
        forall|i: int| 0 <= i < strings.len() ==> #[trigger] views(strings)[i] == strings[i]@,
{
}

/// The word list of some files and then some more is that of the former
/// followed by that of the latter. No file has no words, and one file has the
/// words of its text: so no word of any file is left out.
pub proof fn law_files_add_up(a: Seq<Seq<char>>, b: Seq<Seq<char>>, s: Seq<char>)
    ensures
        all_words(a + b) == all_words(a) + all_words(b),
        all_words(seq![s]) == words_of(s),
        all_words(Seq::empty()) == Seq::<Seq<char>>::empty(),
    decreases b.len(),
{
    assert(seq![s].drop_last() == Seq::<Seq<char>>::empty());
    assert(all_words(seq![s]) == all_words(seq![s].drop_last()) + words_of(s));
    assert(all_words(seq![s]) == words_of(s));
    if b.len() == 0 {
        assert(a + b == a);
        assert(all_words(a) + all_words(b) == all_words(a));
    } else {
        law_files_add_up(a, b.drop_last(), s);
        assert((a + b).drop_last() == a + b.drop_last());
        assert(all_words(a + b) == all_words(a) + all_words(b));
    }
}

/// Every word of every file is in the word list.
pub proof fn law_every_word_of_every_file(texts: Seq<Seq<char>>, i: int, j: int)
    requires
        0 <= i < texts.len(),
        0 <= j < words_of(texts[i]).len(),
    ensures
        all_words(texts).contains(words_of(texts[i])[j]),
{
    let head = texts.take(i);
    let tail = texts.skip(i + 1);
    let file = seq![texts[i]];
    law_files_add_up(head, file, texts[i]);
    law_files_add_up(head + file, tail, texts[i]);
    assert(head + file + tail == texts);
    assert(all_words(texts)[all_words(head).len() + j] == words_of(texts[i])[j]);
}

/// The characters that divide words: of the ASCII characters those from tab to
/// carriage return and the space, and of the others these nineteen.
pub proof fn law_which_characters_divide_words(c: char)
    ensures
        c < '\u{80}' ==> (white_space(c) <==> c == '\t' || c == '\n' || c == '\u{b}' || c
            == '\u{c}' || c == '\r' || c == ' '),
        c >= '\u{80}' ==> (white_space(c) <==> set![
            0x85int,
            0xa0,
            0x1680,
            0x2000,
            0x2001,
            0x2002,
            0x2003,
            0x2004,
            0x2005,
            0x2006,
            0x2007,
            0x2008,
            0x2009,
            0x200a,
            0x2028,
            0x2029,
            0x202f,
            0x205f,
            0x3000,
        ].contains(c as int)),
{
}

} // verus!

//! What the statistics screen tells of each character: how often it was missed,
//! what stands before it most often when it is, and what is typed instead.

use std::collections::HashMap;
use vstd::prelude::*;

use crate::strings::first_char;
use crate::strings::first_of;

verus! {

/// A map from characters.
pub struct CharMap<V> {
    map: HashMap<u32, V>,
}

impl<V> View for CharMap<V> {
    type V = Map<char, V>;

    closed spec fn view(&self) -> Map<char, V> {
        Map::new(
            |c: char| self.map@.contains_key(c as u32),
            |c: char| self.map@[c as u32],
        )
    }
}

proof fn lemma_codes_differ(a: char, b: char)
    requires
        a != b,
    ensures
        a as u32 != b as u32,
{
}

impl<V> CharMap<V> {
    /// A map with no entry.
    pub fn new() -> (map: CharMap<V>)
        ensures
            map@ == Map::<char, V>::empty(),
    {
        let map = CharMap { map: HashMap::new() };
        assert(map@ == Map::<char, V>::empty());
        map
    }

    /// Sets what a character is mapped to.
    pub fn insert(&mut self, c: char, value: V)
        ensures
            final(self)@ == old(self)@.insert(c, value),
    {
        broadcast use vstd::std_specs::hash::group_hash_axioms;

        self.map.insert(c as u32, value);
        assert forall|other: char| other != c implies #[trigger] self@.contains_key(other) == old(
            self,
        )@.contains_key(other) && (self@.contains_key(other) ==> self@[other] == old(
            self,
        )@[other]) by {
            lemma_codes_differ(other, c);
        }
        assert(self@ == old(self)@.insert(c, value));
    }

    /// What a character is mapped to.
    pub fn get(&self, c: char) -> (value: Option<&V>)
        ensures
            value == (if self@.contains_key(c) {
                Some(&self@[c])
            } else {
                None
            }),
    {
        broadcast use vstd::std_specs::hash::group_hash_axioms;

        self.map.get(&(c as u32))
    }
}

/// How often a character was missed.
pub struct CountRow {
    pub expected_char: String,
    pub total_errors: u32,
}

/// A character that stands before a missed one. Of the rows on one missed
/// character the first tells what comes before it most often.
pub struct PreviousRow {
    pub expected_char: String,
    pub previous_char: Option<String>,
}

/// A character typed instead of a missed one. Of the rows on one missed
/// character the first tells what is typed most often.
pub struct TypedRow {
    pub expected_char: String,
    pub typed_char: String,
}

/// Per missed character: how often it was missed, the character most often
/// before it, which may be none, and the one most often typed instead.
pub struct KeyErrorStats {
    pub char_error_counts: CharMap<u32>,
    pub most_common_prev_char: CharMap<Option<char>>,
    pub most_common_typed_char: CharMap<char>,
}

/// What `KeyErrorStats` holds.
#[verifier::ext_equal]
pub struct KeyErrorView {
    pub char_error_counts: Map<char, u32>,
    pub most_common_prev_char: Map<char, Option<char>>,
    pub most_common_typed_char: Map<char, char>,
}

impl View for KeyErrorStats {
    type V = KeyErrorView;

    open spec fn view(&self) -> KeyErrorView {
        KeyErrorView {
            char_error_counts: self.char_error_counts@,
            most_common_prev_char: self.most_common_prev_char@,
            most_common_typed_char: self.most_common_typed_char@,
        }
    }
}

/// The last value that is given for each character.
pub open spec fn latest<V>(pairs: Seq<(char, V)>) -> Map<char, V>
    decreases pairs.len(),
{
    if pairs.len() == 0 {
        Map::empty()
    } else {
        latest(pairs.drop_last()).insert(pairs.last().0, pairs.last().1)
    }
}

/// A pair begins a run where the pair before it is on another character.
pub open spec fn begins_run<V>(pairs: Seq<(char, V)>, i: int) -> bool {
    i == 0 || pairs[i - 1].0 != pairs[i].0
}

/// The value that begins the last run of each character.
pub open spec fn leaders<V>(pairs: Seq<(char, V)>) -> Map<char, V>
    decreases pairs.len(),
{
    if pairs.len() == 0 {
        Map::empty()
    } else if begins_run(pairs, pairs.len() - 1) {
        leaders(pairs.drop_last()).insert(pairs.last().0, pairs.last().1)
    } else {
        leaders(pairs.drop_last())
    }
}

/// All pairs on one character stand next to each other.
pub open spec fn grouped<V>(pairs: Seq<(char, V)>) -> bool {
    forall|i: int, j: int, k: int|
        0 <= i <= j <= k < pairs.len() && (#[trigger] pairs[i]).0 == (#[trigger] pairs[k]).0
            ==> (#[trigger] pairs[j]).0 == pairs[i].0
}

/// The first pair on a character.
pub open spec fn first_on<V>(pairs: Seq<(char, V)>, i: int) -> bool {
    &&& 0 <= i < pairs.len()
    &&& forall|j: int| 0 <= j < i ==> (#[trigger] pairs[j]).0 != pairs[i].0
}

/// Exactly the characters that a pair is on have a leading value.
pub proof fn law_each_character_has_a_leader<V>(pairs: Seq<(char, V)>, c: char)
    ensures
        leaders(pairs).contains_key(c) <==> exists|i: int|
            0 <= i < pairs.len() && (#[trigger] pairs[i]).0 == c,
    decreases pairs.len(),
{
    if pairs.len() > 0 {
        let earlier = pairs.drop_last();
        law_each_character_has_a_leader(earlier, c);
        if exists|i: int| 0 <= i < earlier.len() && (#[trigger] earlier[i]).0 == c {
            let i = choose|i: int| 0 <= i < earlier.len() && (#[trigger] earlier[i]).0 == c;
            assert(pairs[i].0 == c);
        }
        if exists|i: int| 0 <= i < pairs.len() && (#[trigger] pairs[i]).0 == c {
            let i = choose|i: int| 0 <= i < pairs.len() && (#[trigger] pairs[i]).0 == c;
            if i < earlier.len() {
                assert(earlier[i].0 == c);
            } else if !begins_run(pairs, i) {
                assert(earlier[i - 1].0 == c);
            }
        }
    }
}

/// Where the pairs are grouped by character, the first pair on a character
/// leads.
pub proof fn law_first_of_group_leads<V>(pairs: Seq<(char, V)>, i: int)
    requires
        grouped(pairs),
        first_on(pairs, i),
    ensures
        leaders(pairs).contains_key(pairs[i].0),
        leaders(pairs)[pairs[i].0] == pairs[i].1,
    decreases pairs.len(),
{
    let last = pairs.len() - 1;
    let earlier = pairs.drop_last();
    if i == last {
        assert(i > 0 ==> pairs[i - 1].0 != pairs[i].0);
    } else {
        assert(grouped(earlier)) by {
            assert forall|a: int, b: int, c: int|
                0 <= a <= b <= c < earlier.len() && (#[trigger] earlier[a]).0 == (
                #[trigger] earlier[c]).0 implies (#[trigger] earlier[b]).0 == earlier[a].0 by {
                assert(pairs[a].0 == pairs[c].0);
                assert(pairs[b].0 == pairs[a].0);
            }
        }
        assert(first_on(earlier, i)) by {
            assert forall|j: int| 0 <= j < i implies (#[trigger] earlier[j]).0 != earlier[i].0 by {
                assert(pairs[j].0 != pairs[i].0);
            }
        }
        law_first_of_group_leads(earlier, i);
        if pairs[last].0 == pairs[i].0 {
            assert(pairs[last - 1].0 == pairs[i].0);
        }
    }
}

/// Where the pairs are grouped by character, and within each group stand in
/// descending order of some totals, the leading value is one with the largest
/// total: the most common one.
pub proof fn law_leader_is_most_common<V>(pairs: Seq<(char, V)>, totals: Seq<nat>, c: char)
    requires
        grouped(pairs),
        totals.len() == pairs.len(),
        forall|i: int, j: int|
            0 <= i < j < pairs.len() && (#[trigger] pairs[i]).0 == (#[trigger] pairs[j]).0
                ==> totals[i] >= totals[j],
        leaders(pairs).contains_key(c),
    ensures
        exists|i: int|
            #![trigger pairs[i]]
            {
                &&& 0 <= i < pairs.len()
                &&& pairs[i] == (c, leaders(pairs)[c])
                &&& forall|j: int|
                    0 <= j < pairs.len() && (#[trigger] pairs[j]).0 == c ==> totals[i] >= totals[j]
            },
{
    law_each_character_has_a_leader(pairs, c);
    let k = choose|k: int| 0 <= k < pairs.len() && (#[trigger] pairs[k]).0 == c;
    lemma_first_on(pairs, k);
    let i = choose|i: int| #[trigger] first_on(pairs, i) && pairs[i].0 == c;
    law_first_of_group_leads(pairs, i);
    assert(pairs[i] == (c, leaders(pairs)[c]));
    assert forall|j: int| 0 <= j < pairs.len() && (#[trigger] pairs[j]).0 == c implies totals[i]
        >= totals[j] by {
        if j < i {
            assert(pairs[j].0 != pairs[i].0);
        }
    }
}

proof fn lemma_first_on<V>(pairs: Seq<(char, V)>, k: int)
    requires
        0 <= k < pairs.len(),
    ensures
        exists|i: int| #[trigger] first_on(pairs, i) && pairs[i].0 == pairs[k].0,
    decreases k,
{
    if !first_on(pairs, k) {
        let j = choose|j: int| 0 <= j < k && (#[trigger] pairs[j]).0 == pairs[k].0;
        lemma_first_on(pairs, j);
    }
}

/// Maps each character to the last value given for it.
pub fn latest_values<V: Copy>(pairs: &Vec<(char, V)>) -> (map: CharMap<V>)
    ensures
        map@ == latest(pairs@),
{
    let mut map: CharMap<V> = CharMap::new();
    for i in 0..pairs.len()
        invariant
            map@ == latest(pairs@.take(i as int)),
    {
        let (c, value) = pairs[i];
        map.insert(c, value);
        assert(pairs@.take(i + 1).drop_last() == pairs@.take(i as int));
    }
    assert(pairs@.take(pairs@.len() as int) == pairs@);
    map
}

/// Maps each character to the value that begins its last run.
pub fn leading_values<V: Copy>(pairs: &Vec<(char, V)>) -> (map: CharMap<V>)
    ensures
        map@ == leaders(pairs@),
{
    let mut map: CharMap<V> = CharMap::new();
    let mut current: Option<char> = None;
    for i in 0..pairs.len()
        invariant
            map@ == leaders(pairs@.take(i as int)),
            current == (if i > 0 {
                Some(pairs@[i - 1].0)
            } else {
                None
            }),
    {
        let (c, value) = pairs[i];
        let same: bool = match current {
            Some(before) => before == c,
            None => false,
        };
        if !same {
            map.insert(c, value);
            current = Some(c);
        }
        assert(pairs@.take(i + 1).drop_last() == pairs@.take(i as int));
    }
    assert(pairs@.take(pairs@.len() as int) == pairs@);
    map
}

/// Each count row names its character.
pub open spec fn counts_legible(rows: Seq<CountRow>) -> bool {
    forall|i: int| 0 <= i < rows.len() ==> (#[trigger] rows[i]).expected_char@.len() > 0
}

/// Each row on what comes before names the missed character.
pub open spec fn previous_legible(rows: Seq<PreviousRow>) -> bool {
    forall|i: int| 0 <= i < rows.len() ==> (#[trigger] rows[i]).expected_char@.len() > 0
}

/// Each row on what is typed instead names both characters.
pub open spec fn typed_legible(rows: Seq<TypedRow>) -> bool {
    forall|i: int|
        0 <= i < rows.len() ==> (#[trigger] rows[i]).expected_char@.len() > 0
            && rows[i].typed_char@.len() > 0
}

/// Count rows as pairs of a missed character and its count.
pub open spec fn count_pairs(rows: Seq<CountRow>) -> Seq<(char, u32)> {
    Seq::new(rows.len(), |i: int| (rows[i].expected_char@[0], rows[i].total_errors))
}

/// Rows as pairs of a missed character and the one before it, if there is one.
pub open spec fn previous_pairs(rows: Seq<PreviousRow>) -> Seq<(char, Option<char>)> {
    Seq::new(
        rows.len(),
        |i: int|
            (
                rows[i].expected_char@[0],
                match rows[i].previous_char {
                    Some(s) => first_of(s@),
                    None => None,
                },
            ),
    )
}

/// Rows as pairs of a missed character and the one typed instead.
pub open spec fn typed_pairs(rows: Seq<TypedRow>) -> Seq<(char, char)> {
    Seq::new(rows.len(), |i: int| (rows[i].expected_char@[0], rows[i].typed_char@[0]))
}

fn read_counts(rows: &Vec<CountRow>) -> (pairs: Option<Vec<(char, u32)>>)
    ensures
        pairs is Some <==> counts_legible(rows@),
        pairs matches Some(list) ==> list@ == count_pairs(rows@),
{
    let mut pairs: Vec<(char, u32)> = Vec::new();
    for i in 0..rows.len()
        invariant
            counts_legible(rows@.take(i as int)),
            pairs@ == count_pairs(rows@.take(i as int)),
    {
        match first_char(rows[i].expected_char.as_str()) {
            Some(c) => {
                pairs.push((c, rows[i].total_errors));
            },
            None => {
                return None;
            },
        }
        assert(pairs@ == count_pairs(rows@.take(i + 1)));
        assert(rows@.take(i + 1) == rows@.take(i as int).push(rows@[i as int]));
    }
    assert(rows@.take(rows@.len() as int) == rows@);
    Some(pairs)
}

fn read_previous(rows: &Vec<PreviousRow>) -> (pairs: Option<Vec<(char, Option<char>)>>)
    ensures
        pairs is Some <==> previous_legible(rows@),
        pairs matches Some(list) ==> list@ == previous_pairs(rows@),
{
    let mut pairs: Vec<(char, Option<char>)> = Vec::new();
    for i in 0..rows.len()
        invariant
            previous_legible(rows@.take(i as int)),
            pairs@ == previous_pairs(rows@.take(i as int)),
    {
        let previous: Option<char> = match &rows[i].previous_char {
            Some(s) => first_char(s.as_str()),
            None => None,
        };
        match first_char(rows[i].expected_char.as_str()) {
            Some(c) => {
                pairs.push((c, previous));
            },
            None => {
                return None;
            },
        }
        assert(pairs@ == previous_pairs(rows@.take(i + 1)));
        assert(rows@.take(i + 1) == rows@.take(i as int).push(rows@[i as int]));
    }
    assert(rows@.take(rows@.len() as int) == rows@);
    Some(pairs)
}

fn read_typed(rows: &Vec<TypedRow>) -> (pairs: Option<Vec<(char, char)>>)
    ensures
        pairs is Some <==> typed_legible(rows@),
        pairs matches Some(list) ==> list@ == typed_pairs(rows@),
{
    let mut pairs: Vec<(char, char)> = Vec::new();
    for i in 0..rows.len()
        invariant
            typed_legible(rows@.take(i as int)),
            pairs@ == typed_pairs(rows@.take(i as int)),
    {
        let expected = first_char(rows[i].expected_char.as_str());
        let typed = first_char(rows[i].typed_char.as_str());
        match (expected, typed) {
            (Some(c), Some(t)) => {
                pairs.push((c, t));
            },
            _ => {
                return None;
            },
        }
        assert(pairs@ == typed_pairs(rows@.take(i + 1)));
        assert(rows@.take(i + 1) == rows@.take(i as int).push(rows@[i as int]));
    }
    assert(rows@.take(rows@.len() as int) == rows@);
    Some(pairs)
}

impl KeyErrorStats {
    /// Statistics that tell nothing of any character.
    pub fn empty() -> (stats: KeyErrorStats)
        ensures
            stats@ == empty_key_errors(),
    {
        KeyErrorStats {
            char_error_counts: CharMap::new(),
            most_common_prev_char: CharMap::new(),
            most_common_typed_char: CharMap::new(),
        }
    }

    /// Whether each row names the characters that it has to name.
    pub fn rows_legible(
        counts: &Vec<CountRow>,
        previous: &Vec<PreviousRow>,
        typed: &Vec<TypedRow>,
    ) -> (b: bool)
        ensures
            b == (counts_legible(counts@) && previous_legible(previous@) && typed_legible(typed@)),
    {
        read_counts(counts).is_some() && read_previous(previous).is_some() && read_typed(
            typed,
        ).is_some()
    }

    /// The statistics that the rows of the three queries give.
    pub fn from_rows(
        counts: &Vec<CountRow>,
        previous: &Vec<PreviousRow>,
        typed: &Vec<TypedRow>,
    ) -> (stats: KeyErrorStats)
        requires
            counts_legible(counts@),
            previous_legible(previous@),
            typed_legible(typed@),
        ensures
            stats@ == key_errors_of(counts@, previous@, typed@),
    {
        KeyErrorStats {
            char_error_counts: latest_values(&read_counts(counts).unwrap()),
            most_common_prev_char: leading_values(&read_previous(previous).unwrap()),
            most_common_typed_char: leading_values(&read_typed(typed).unwrap()),
        }
    }
}

/// What the statistics hold that the rows of the three queries give.
pub open spec fn key_errors_of(
    counts: Seq<CountRow>,
    previous: Seq<PreviousRow>,
    typed: Seq<TypedRow>,
) -> KeyErrorView {
    KeyErrorView {
        char_error_counts: latest(count_pairs(counts)),
        most_common_prev_char: leaders(previous_pairs(previous)),
        most_common_typed_char: leaders(typed_pairs(typed)),
    }
}

/// What statistics hold that tell nothing.
pub open spec fn empty_key_errors() -> KeyErrorView {
    KeyErrorView {
        char_error_counts: Map::empty(),
        most_common_prev_char: Map::empty(),
        most_common_typed_char: Map::empty(),
    }
}

/// Later pairs prevail over earlier ones, one pair gives its value, and no pair
/// gives none.
pub proof fn law_later_pairs_prevail<V>(a: Seq<(char, V)>, b: Seq<(char, V)>, c: char, value: V)
    ensures
        latest(a + b) == latest(a).union_prefer_right(latest(b)),
        latest(seq![(c, value)]) == Map::<char, V>::empty().insert(c, value),
        latest(Seq::<(char, V)>::empty()) == Map::<char, V>::empty(),
    decreases b.len(),
{
    let one = seq![(c, value)];
    assert(latest(one.drop_last()) == Map::<char, V>::empty());
    assert(one.last() == (c, value));
    assert(latest(one) == latest(one.drop_last()).insert(c, value));
    if b.len() == 0 {
        assert(a + b == a);
        assert(latest(a).union_prefer_right(latest(b)) =~= latest(a));
    } else {
        law_later_pairs_prevail(a, b.drop_last(), c, value);
        assert((a + b).drop_last() == a + b.drop_last());
        assert(latest(a + b) =~= latest(a).union_prefer_right(latest(b)));
    }
}

/// A run of pairs on one character is led by its first pair.
pub proof fn law_run_is_led_by_its_first<V>(pairs: Seq<(char, V)>)
    requires
        pairs.len() > 0,
        forall|i: int| 0 <= i < pairs.len() ==> (#[trigger] pairs[i]).0 == pairs[0].0,
    ensures
        leaders(pairs) == Map::<char, V>::empty().insert(pairs[0].0, pairs[0].1),
    decreases pairs.len(),
{
    let earlier = pairs.drop_last();
    if pairs.len() > 1 {
        assert forall|i: int| 0 <= i < earlier.len() implies (#[trigger] earlier[i]).0
            == earlier[0].0 by {
            assert(pairs[i].0 == pairs[0].0);
        }
        law_run_is_led_by_its_first(earlier);
        assert(pairs[pairs.len() - 2].0 == pairs[0].0);
        assert(pairs[pairs.len() - 1].0 == pairs[0].0);
    } else {
        assert(leaders(earlier) == Map::<char, V>::empty());
        assert(begins_run(pairs, 0));
    }
}

/// Where a new run begins, what is led there prevails over what was led before,
/// and all else stays. No pair leads nothing.
pub proof fn law_runs_add_up<V>(a: Seq<(char, V)>, b: Seq<(char, V)>)
    requires
        a.len() == 0 || b.len() == 0 || a[a.len() - 1].0 != b[0].0,
    ensures
        leaders(a + b) == leaders(a).union_prefer_right(leaders(b)),
        leaders(Seq::<(char, V)>::empty()) == Map::<char, V>::empty(),
    decreases b.len(),
{
    if b.len() == 0 {
        assert(a + b == a);
        assert(leaders(a).union_prefer_right(leaders(b)) =~= leaders(a));
    } else {
        let earlier = b.drop_last();
        law_runs_add_up(a, earlier);
        assert((a + b).drop_last() == a + earlier);
        let last = (a + b).len() - 1;
        assert((a + b)[last] == b[b.len() - 1]);
        if b.len() > 1 {
            assert((a + b)[last - 1] == b[b.len() - 2]);
        } else if a.len() > 0 {
            assert((a + b)[last - 1] == a[a.len() - 1]);
        }
        assert(leaders(a + b) =~= leaders(a).union_prefer_right(leaders(b)));
    }
}

/// Rows are legible exactly if each field that has to name a character does.
pub proof fn law_when_rows_are_legible(
    counts: Seq<CountRow>,
    previous: Seq<PreviousRow>,
    typed: Seq<TypedRow>,
)
    ensures
        counts_legible(counts) <==> forall|i: int|
            0 <= i < counts.len() ==> (#[trigger] counts[i]).expected_char@.len() > 0,
        previous_legible(previous) <==> forall|i: int|
            0 <= i < previous.len() ==> (#[trigger] previous[i]).expected_char@.len() > 0,
        typed_legible(typed) <==> forall|i: int|
            0 <= i < typed.len() ==> (#[trigger] typed[i]).expected_char@.len() > 0
                && typed[i].typed_char@.len() > 0,
{
}

/// Every row gives its pair: the character that it begins with, and its count,
/// or the character that the other field begins with. A field for the previous
/// character that is missing or empty gives none.
pub proof fn law_every_row_gives_its_pair(
    counts: Seq<CountRow>,
    previous: Seq<PreviousRow>,
    typed: Seq<TypedRow>,
)
    ensures
        count_pairs(counts).len() == counts.len(),
        forall|i: int|
            0 <= i < counts.len() ==> #[trigger] count_pairs(counts)[i] == (
                counts[i].expected_char@[0],
                counts[i].total_errors,
            ),
        previous_pairs(previous).len() == previous.len(),
        forall|i: int|
            0 <= i < previous.len() ==> {
                let (c, before) = #[trigger] previous_pairs(previous)[i];
                &&& c == previous[i].expected_char@[0]
                &&& before is Some <==> previous[i].previous_char is Some
                    && previous[i].previous_char->0@.len() > 0
                &&& before is Some ==> before->0 == previous[i].previous_char->0@[0]
            },
        typed_pairs(typed).len() == typed.len(),
        forall|i: int|
            0 <= i < typed.len() ==> #[trigger] typed_pairs(typed)[i] == (
                typed[i].expected_char@[0],
                typed[i].typed_char@[0],
            ),
{
}

/// The statistics take the last count of each character and the leading value
/// of each of the other two queries, and empty ones tell nothing of any
/// character.
pub proof fn law_statistics_come_from_the_rows(
    counts: Seq<CountRow>,
    previous: Seq<PreviousRow>,
    typed: Seq<TypedRow>,
    c: char,
)
    ensures
        key_errors_of(counts, previous, typed).char_error_counts == latest(count_pairs(counts)),
        key_errors_of(counts, previous, typed).most_common_prev_char == leaders(
            previous_pairs(previous),
        ),
        key_errors_of(counts, previous, typed).most_common_typed_char == leaders(
            typed_pairs(typed),
        ),
        !empty_key_errors().char_error_counts.contains_key(c),
        !empty_key_errors().most_common_prev_char.contains_key(c),
        !empty_key_errors().most_common_typed_char.contains_key(c),
{
}

/// The statistics are seen whole.
pub proof fn law_statistics_are_seen_whole(stats: KeyErrorStats)
    ensures
        stats@.char_error_counts == stats.char_error_counts@,
        stats@.most_common_prev_char == stats.most_common_prev_char@,
        stats@.most_common_typed_char == stats.most_common_typed_char@,
{
}

} // verus!

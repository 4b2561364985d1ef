//! How the statistics per key agree with the counts of mistakes: both are read
//! from one table, the counts row by row, the statistics through queries that
//! group and add up its rows. And what of the counts is read back once they are
//! written to that table.

use vstd::prelude::*;

use crate::key_errors::count_pairs;
use crate::key_errors::counts_legible;
use crate::key_errors::grouped;
use crate::key_errors::key_errors_of;
use crate::key_errors::latest;
use crate::key_errors::law_each_character_has_a_leader;
use crate::key_errors::law_leader_is_most_common;
use crate::key_errors::leaders;
use crate::key_errors::previous_legible;
use crate::key_errors::previous_pairs;
use crate::key_errors::typed_legible;
use crate::key_errors::typed_pairs;
use crate::key_errors::CountRow;
use crate::key_errors::PreviousRow;
use crate::key_errors::TypedRow;
use crate::screen::errors_on;
use crate::stats::count_in;
use crate::stats::lemma_listed_total;
use crate::stats::lemma_tally_last;
use crate::stats::lemma_unmentioned;
use crate::stats::lists;
use crate::stats::mentioned;
use crate::stats::mistake_of;
use crate::stats::row_of;
use crate::stats::tally;
use crate::stats::total;
use crate::stats::ErrorRowView;
use crate::stats::Mistake;

verus! {

/// The sum of the counts of the given mistakes.
pub open spec fn sum_of(counts: Map<Mistake, nat>, mistakes: Set<Mistake>) -> nat
    decreases mistakes.len(),
    when mistakes.finite()
{
    if mistakes.len() == 0 {
        0
    } else {
        let m = mistakes.choose();
        counts[m] + sum_of(counts, mistakes.remove(m))
    }
}

/// The sum of the counts of all mistakes of a kind.
pub open spec fn sum_where(counts: Map<Mistake, nat>, kind: spec_fn(Mistake) -> bool) -> nat {
    sum_of(counts, counts.dom().filter(kind))
}

/// How often a character was missed.
pub open spec fn missed(counts: Map<Mistake, nat>, expected: char) -> nat {
    sum_where(counts, |m: Mistake| m.expected == expected)
}

/// How often a character was missed after another one, or at the start.
pub open spec fn missed_after(
    counts: Map<Mistake, nat>,
    expected: char,
    previous: Option<char>,
) -> nat {
    sum_where(counts, |m: Mistake| m.expected == expected && m.previous == previous)
}

/// How often another character was typed instead of the one due.
pub open spec fn missed_as(counts: Map<Mistake, nat>, expected: char, typed: char) -> nat {
    sum_where(counts, |m: Mistake| m.expected == expected && m.typed == typed)
}

/// There is an entry for a mistake on the given character.
pub open spec fn ever_missed(counts: Map<Mistake, nat>, expected: char) -> bool {
    exists|m: Mistake| #[trigger] counts.contains_key(m) && m.expected == expected
}

proof fn lemma_sum_remove(counts: Map<Mistake, nat>, mistakes: Set<Mistake>, m: Mistake)
    requires
        mistakes.finite(),
        mistakes.contains(m),
    ensures
        sum_of(counts, mistakes) == counts[m] + sum_of(counts, mistakes.remove(m)),
    decreases mistakes.len(),
{
    let c = mistakes.choose();
    assert(mistakes.len() > 0);
    assert(mistakes.contains(c));
    if c != m {
        lemma_sum_remove(counts, mistakes.remove(c), m);
        lemma_sum_remove(counts, mistakes.remove(m), c);
        assert(mistakes.remove(c).remove(m) == mistakes.remove(m).remove(c));
    }
}

proof fn lemma_sum_agrees(a: Map<Mistake, nat>, b: Map<Mistake, nat>, mistakes: Set<Mistake>)
    requires
        mistakes.finite(),
        forall|m: Mistake| #[trigger] mistakes.contains(m) ==> a[m] == b[m],
    ensures
        sum_of(a, mistakes) == sum_of(b, mistakes),
    decreases mistakes.len(),
{
    if mistakes.len() > 0 {
        let c = mistakes.choose();
        assert(mistakes.contains(c));
        lemma_sum_agrees(a, b, mistakes.remove(c));
    }
}

/// What adding to a count does to a sum.
proof fn lemma_sum_where_added(
    counts: Map<Mistake, nat>,
    kind: spec_fn(Mistake) -> bool,
    m: Mistake,
    n: nat,
)
    requires
        counts.dom().finite(),
    ensures
        sum_where(counts.insert(m, count_in(counts, m) + n), kind) == sum_where(counts, kind)
            + if kind(m) {
            n
        } else {
            0
        },
{
    let next = counts.insert(m, count_in(counts, m) + n);
    let before = counts.dom().filter(kind);
    let after = next.dom().filter(kind);
    if !kind(m) {
        assert(after == before);
        lemma_sum_agrees(counts, next, before);
    } else {
        assert(after.remove(m) == before.remove(m));
        lemma_sum_remove(next, after, m);
        lemma_sum_agrees(counts, next, before.remove(m));
        if counts.contains_key(m) {
            lemma_sum_remove(counts, before, m);
        } else {
            assert(before.remove(m) == before);
        }
    }
}

/// The sum of the counts of all rows of a kind.
pub open spec fn row_sum(table: Seq<ErrorRowView>, kind: spec_fn(ErrorRowView) -> bool) -> nat
    decreases table.len(),
{
    if table.len() == 0 {
        0
    } else {
        row_sum(table.drop_last(), kind) + if kind(table.last()) {
            table.last().error_count
        } else {
            0
        }
    }
}

/// Adding up rows is adding up the counts that they amount to.
proof fn lemma_row_sum(
    table: Seq<ErrorRowView>,
    rows: spec_fn(ErrorRowView) -> bool,
    kind: spec_fn(Mistake) -> bool,
)
    requires
        forall|i: int|
            0 <= i < table.len() ==> rows(#[trigger] table[i]) == kind(mistake_of(table[i])),
    ensures
        tally(table).dom().finite(),
        sum_where(tally(table), kind) == row_sum(table, rows),
    decreases table.len(),
{
    if table.len() == 0 {
        assert(tally(table).dom() == Set::<Mistake>::empty());
        assert(tally(table).dom().filter(kind) == Set::<Mistake>::empty());
    } else {
        let earlier = table.drop_last();
        assert forall|i: int| 0 <= i < earlier.len() implies rows(#[trigger] earlier[i]) == kind(
            mistake_of(earlier[i]),
        ) by {
            assert(rows(table[i]) == kind(mistake_of(table[i])));
        }
        lemma_row_sum(earlier, rows, kind);
        lemma_tally_last(table);
        lemma_sum_where_added(
            tally(earlier),
            kind,
            mistake_of(table.last()),
            table.last().error_count,
        );
        assert(rows(table[table.len() - 1]) == kind(mistake_of(table[table.len() - 1])));
    }
}

/// Each row is one that the game writes: its fields are single characters.
pub open spec fn written(table: Seq<ErrorRowView>) -> bool {
    forall|i: int|
        0 <= i < table.len() ==> #[trigger] table[i] == row_of(
            mistake_of(table[i]),
            table[i].error_count,
        )
}

/// The rows that keep the counts are such rows.
pub proof fn law_listed_rows_are_written(table: Seq<ErrorRowView>, counts: Map<Mistake, nat>)
    requires
        lists(table, counts),
    ensures
        written(table),
{
    assert forall|i: int| 0 <= i < table.len() implies #[trigger] table[i] == row_of(
        mistake_of(table[i]),
        table[i].error_count,
    ) by {
        assert(table[i] == row_of(mistake_of(table[i]), counts[mistake_of(table[i])]));
    }
}

/// The answer names each group of rows once, and nothing else. `key` tells the
/// group of a row.
pub open spec fn names_groups<K>(
    table: Seq<ErrorRowView>,
    key: spec_fn(ErrorRowView) -> K,
    answer: Seq<K>,
) -> bool {
    &&& forall|i: int|
        0 <= i < answer.len() ==> exists|k: int|
            0 <= k < table.len() && key(#[trigger] table[k]) == #[trigger] answer[i]
    &&& forall|i: int, j: int|
        0 <= i < j < answer.len() ==> #[trigger] answer[i] != #[trigger] answer[j]
    &&& forall|k: int|
        0 <= k < table.len() ==> answer.contains(key(#[trigger] table[k]))
}

/// The sum of the counts of a group of rows.
pub open spec fn group_sum<K>(
    table: Seq<ErrorRowView>,
    key: spec_fn(ErrorRowView) -> K,
    group: K,
) -> nat {
    row_sum(table, |r: ErrorRowView| key(r) == group)
}

/// The order of texts: that of the first characters that differ, and a text
/// comes before its continuations.
pub open spec fn text_le(a: Seq<char>, b: Seq<char>) -> bool
    decreases a.len(),
{
    a.len() == 0 || (b.len() > 0 && (a[0] < b[0] || (a[0] == b[0] && text_le(
        a.drop_first(),
        b.drop_first(),
    ))))
}

/// The answer is in the order of the missed character, and for each of these
/// in descending order of the sums.
pub open spec fn ranked<V>(
    table: Seq<ErrorRowView>,
    key: spec_fn(ErrorRowView) -> (Seq<char>, V),
    answer: Seq<(Seq<char>, V)>,
) -> bool {
    forall|i: int, j: int|
        0 <= i < j < answer.len() ==> text_le((#[trigger] answer[i]).0, (#[trigger] answer[j]).0)
            && (answer[i].0 == answer[j].0 ==> group_sum(table, key, answer[i]) >= group_sum(
            table,
            key,
            answer[j],
        ))
}

/// Rows grouped by the character that was due.
pub open spec fn by_expected() -> spec_fn(ErrorRowView) -> Seq<char> {
    |r: ErrorRowView| r.expected_char
}

/// Rows grouped by the character that was due and the one before it.
pub open spec fn by_previous() -> spec_fn(ErrorRowView) -> (Seq<char>, Option<Seq<char>>) {
    |r: ErrorRowView| (r.expected_char, r.previous_char)
}

/// Rows grouped by the character that was due and the one typed instead.
pub open spec fn by_typed() -> spec_fn(ErrorRowView) -> (Seq<char>, Seq<char>) {
    |r: ErrorRowView| (r.expected_char, r.typed_char)
}

/// The query for the counts:
/// `SELECT expected_char, SUM(error_count) .. GROUP BY expected_char`.
pub open spec fn counts_answer(table: Seq<ErrorRowView>, rows: Seq<CountRow>) -> bool {
    &&& names_groups(
        table,
        by_expected(),
        Seq::new(rows.len(), |i: int| rows[i].expected_char@),
    )
    &&& forall|i: int|
        0 <= i < rows.len() ==> (#[trigger] rows[i]).total_errors == group_sum(
            table,
            by_expected(),
            rows[i].expected_char@,
        )
}

/// The groups that rows on what comes before are about.
pub open spec fn previous_groups(rows: Seq<PreviousRow>) -> Seq<(Seq<char>, Option<Seq<char>>)> {
    Seq::new(
        rows.len(),
        |i: int|
            (
                rows[i].expected_char@,
                match rows[i].previous_char {
                    Some(s) => Some(s@),
                    None => None,
                },
            ),
    )
}

/// The query for what comes before: `SELECT expected_char, previous_char, ..
/// GROUP BY expected_char, previous_char`, with the sum of `error_count` as
/// `total_errors`, and `ORDER BY expected_char, total_errors DESC`.
pub open spec fn previous_answer(table: Seq<ErrorRowView>, rows: Seq<PreviousRow>) -> bool {
    &&& names_groups(table, by_previous(), previous_groups(rows))
    &&& ranked(table, by_previous(), previous_groups(rows))
}

/// The groups that rows on what is typed instead are about.
pub open spec fn typed_groups(rows: Seq<TypedRow>) -> Seq<(Seq<char>, Seq<char>)> {
    Seq::new(rows.len(), |i: int| (rows[i].expected_char@, rows[i].typed_char@))
}

/// The query for what is typed instead: `SELECT expected_char, typed_char, ..
/// GROUP BY expected_char, typed_char`, with the sum of `error_count` as
/// `total_errors`, and `ORDER BY expected_char, total_errors DESC`.
pub open spec fn typed_answer(table: Seq<ErrorRowView>, rows: Seq<TypedRow>) -> bool {
    &&& names_groups(table, by_typed(), typed_groups(rows))
    &&& ranked(table, by_typed(), typed_groups(rows))
}

proof fn lemma_latest<V>(pairs: Seq<(char, V)>, i: int)
    requires
        0 <= i < pairs.len(),
        forall|j: int| i < j < pairs.len() ==> (#[trigger] pairs[j]).0 != pairs[i].0,
    ensures
        latest(pairs).contains_key(pairs[i].0),
        latest(pairs)[pairs[i].0] == pairs[i].1,
    decreases pairs.len(),
{
    if i < pairs.len() - 1 {
        let earlier = pairs.drop_last();
        assert forall|j: int| i < j < earlier.len() implies (#[trigger] earlier[j]).0
            != earlier[i].0 by {
            assert(pairs[j].0 != pairs[i].0);
        }
        lemma_latest(earlier, i);
        assert(pairs[pairs.len() - 1].0 != pairs[i].0);
    }
}

proof fn lemma_latest_keys<V>(pairs: Seq<(char, V)>, c: char)
    requires
        latest(pairs).contains_key(c),
    ensures
        exists|i: int| 0 <= i < pairs.len() && (#[trigger] pairs[i]).0 == c,
    decreases pairs.len(),
{
    if pairs.last().0 == c {
        assert(pairs[pairs.len() - 1].0 == c);
    } else {
        lemma_latest_keys(pairs.drop_last(), c);
        let i = choose|i: int|
            0 <= i < pairs.drop_last().len() && (#[trigger] pairs.drop_last()[i]).0 == c;
        assert(pairs[i].0 == c);
    }
}

/// A character has an entry exactly where a row is on it.
proof fn lemma_ever_missed(table: Seq<ErrorRowView>, e: char)
    ensures
        ever_missed(tally(table), e) <==> exists|k: int|
            0 <= k < table.len() && mistake_of(#[trigger] table[k]).expected == e,
{
    if ever_missed(tally(table), e) {
        let m = choose|m: Mistake| #[trigger] tally(table).contains_key(m) && m.expected == e;
        assert(mentioned(table, m));
    }
    if exists|k: int| 0 <= k < table.len() && mistake_of(#[trigger] table[k]).expected == e {
        let k = choose|k: int| 0 <= k < table.len() && mistake_of(#[trigger] table[k]).expected == e;
        assert(tally(table).contains_key(mistake_of(table[k])));
    }
}

/// The statistics agree with the counts on how often a character was missed:
/// what the counts query gives for it is the sum over all its mistakes, and it
/// gives something exactly for the characters with an entry.
pub proof fn law_error_counts_agree(
    table: Seq<ErrorRowView>,
    counts: Seq<CountRow>,
    previous: Seq<PreviousRow>,
    typed: Seq<TypedRow>,
    e: char,
)
    requires
        written(table),
        counts_answer(table, counts),
    ensures
        counts_legible(counts),
        key_errors_of(counts, previous, typed).char_error_counts.contains_key(e) <==> ever_missed(
            tally(table),
            e,
        ),
        errors_on(key_errors_of(counts, previous, typed), e) == missed(tally(table), e),
{
    let groups = Seq::new(counts.len(), |i: int| counts[i].expected_char@);
    let pairs = count_pairs(counts);
    assert forall|i: int| 0 <= i < counts.len() implies (#[trigger] counts[i]).expected_char@
        == seq![pairs[i].0] && exists|k: int|
        0 <= k < table.len() && mistake_of(#[trigger] table[k]).expected == pairs[i].0 by {
        let k = choose|k: int|
            0 <= k < table.len() && by_expected()(#[trigger] table[k]) == groups[i];
        assert(table[k] == row_of(mistake_of(table[k]), table[k].error_count));
        assert(mistake_of(table[k]).expected == pairs[i].0);
    }
    lemma_ever_missed(table, e);
    let rows = |r: ErrorRowView| by_expected()(r) == seq![e];
    let kind = |m: Mistake| m.expected == e;
    assert forall|k: int| 0 <= k < table.len() implies rows(#[trigger] table[k]) == kind(
        mistake_of(table[k]),
    ) by {
        assert(table[k] == row_of(mistake_of(table[k]), table[k].error_count));
        assert(seq![mistake_of(table[k]).expected][0] == mistake_of(table[k]).expected);
        assert(seq![e][0] == e);
    }
    lemma_row_sum(table, rows, kind);
    if ever_missed(tally(table), e) {
        let k = choose|k: int| 0 <= k < table.len() && mistake_of(#[trigger] table[k]).expected == e;
        assert(rows(table[k]));
        assert(groups.contains(by_expected()(table[k])));
        let i = choose|i: int| 0 <= i < groups.len() && groups[i] == by_expected()(table[k]);
        assert(counts[i].expected_char@ == seq![e]);
        assert(pairs[i].0 == e);
        assert forall|j: int| i < j < pairs.len() implies (#[trigger] pairs[j]).0 != pairs[i].0 by {
            assert(groups[i] != groups[j]);
            assert(counts[j].expected_char@ == seq![pairs[j].0]);
        }
        lemma_latest(pairs, i);
        assert(counts[i].total_errors == group_sum(table, by_expected(), seq![e]));
    } else {
        if latest(pairs).contains_key(e) {
            lemma_latest_keys(pairs, e);
            let i = choose|i: int| 0 <= i < pairs.len() && (#[trigger] pairs[i]).0 == e;
            assert(counts[i].expected_char@ == seq![pairs[i].0]);
        }
        assert(tally(table).dom().filter(kind) == Set::<Mistake>::empty());
    }
}

/// The sum of a group of rows is that of the mistakes that its rows are about.
proof fn lemma_group_sum<K>(
    table: Seq<ErrorRowView>,
    key: spec_fn(ErrorRowView) -> K,
    group: K,
    kind: spec_fn(Mistake) -> bool,
)
    requires
        forall|k: int|
            0 <= k < table.len() ==> (key(#[trigger] table[k]) == group) == kind(
                mistake_of(table[k]),
            ),
    ensures
        group_sum(table, key, group) == sum_where(tally(table), kind),
{
    lemma_row_sum(table, |r: ErrorRowView| key(r) == group, kind);
}

/// A group that no row belongs to adds up to nought.
proof fn lemma_no_group<K>(
    table: Seq<ErrorRowView>,
    key: spec_fn(ErrorRowView) -> K,
    group: K,
)
    requires
        forall|k: int| 0 <= k < table.len() ==> key(#[trigger] table[k]) != group,
    ensures
        group_sum(table, key, group) == 0,
    decreases table.len(),
{
    if table.len() > 0 {
        let earlier = table.drop_last();
        assert forall|k: int| 0 <= k < earlier.len() implies key(#[trigger] earlier[k]) != group by {
            assert(key(table[k]) != group);
        }
        lemma_no_group(earlier, key, group);
        assert(key(table[table.len() - 1]) != group);
    }
}

/// The leading value of a character is that of a group with the largest sum.
proof fn lemma_leading_group<V, W>(
    table: Seq<ErrorRowView>,
    key: spec_fn(ErrorRowView) -> (Seq<char>, V),
    groups: Seq<(Seq<char>, V)>,
    pairs: Seq<(char, W)>,
    e: char,
) -> (i: int)
    requires
        names_groups(table, key, groups),
        ranked(table, key, groups),
        pairs.len() == groups.len(),
        forall|i: int| 0 <= i < pairs.len() ==> (#[trigger] groups[i]).0 == seq![pairs[i].0],
        leaders(pairs).contains_key(e),
    ensures
        0 <= i < pairs.len(),
        pairs[i] == (e, leaders(pairs)[e]),
        forall|group: (Seq<char>, V)|
            group.0 == seq![e] ==> group_sum(table, key, groups[i]) >= #[trigger] group_sum(
                table,
                key,
                group,
            ),
{
    let totals = Seq::new(groups.len(), |i: int| group_sum(table, key, groups[i]));
    assert forall|i: int, j: int| 0 <= i < j < pairs.len() implies (#[trigger] pairs[i]).0 as int
        <= (#[trigger] pairs[j]).0 as int && (pairs[i].0 == pairs[j].0 ==> totals[i]
        >= totals[j]) by {
        assert(text_le(groups[i].0, groups[j].0));
        assert(groups[i].0[0] == pairs[i].0);
        assert(groups[j].0[0] == pairs[j].0);
    }
    assert(grouped(pairs));
    law_leader_is_most_common(pairs, totals, e);
    let i = choose|i: int|
        #![trigger pairs[i]]
        {
            &&& 0 <= i < pairs.len()
            &&& pairs[i] == (e, leaders(pairs)[e])
            &&& forall|j: int|
                0 <= j < pairs.len() && (#[trigger] pairs[j]).0 == e ==> totals[i] >= totals[j]
        };
    assert forall|group: (Seq<char>, V)| group.0 == seq![e] implies group_sum(table, key, groups[i])
        >= #[trigger] group_sum(table, key, group) by {
        if exists|k: int| 0 <= k < table.len() && key(#[trigger] table[k]) == group {
            let k = choose|k: int| 0 <= k < table.len() && key(#[trigger] table[k]) == group;
            assert(groups.contains(key(table[k])));
            let j = choose|j: int| 0 <= j < groups.len() && groups[j] == group;
            assert(groups[j].0[0] == pairs[j].0);
            assert(seq![e][0] == e);
            assert(totals[i] >= totals[j]);
        } else {
            lemma_no_group(table, key, group);
        }
    }
    i
}

/// A character as the table has it.
pub open spec fn field(c: Option<char>) -> Option<Seq<char>> {
    match c {
        Some(c) => Some(seq![c]),
        None => None,
    }
}

/// The rows of a group on what comes before are those of its mistakes.
proof fn lemma_previous_sum(table: Seq<ErrorRowView>, e: char, p: Option<char>)
    requires
        written(table),
    ensures
        group_sum(table, by_previous(), (seq![e], field(p))) == missed_after(tally(table), e, p),
{
    let group = (seq![e], field(p));
    let kind = |m: Mistake| m.expected == e && m.previous == p;
    assert forall|k: int| 0 <= k < table.len() implies (by_previous()(
        #[trigger] table[k],
    ) == group) == kind(mistake_of(table[k])) by {
        let m = mistake_of(table[k]);
        assert(table[k] == row_of(m, table[k].error_count));
        assert(seq![m.expected][0] == m.expected);
        assert(seq![e][0] == e);
        if let Some(c) = m.previous {
            assert(seq![c][0] == c);
        }
        if let Some(c) = p {
            assert(seq![c][0] == c);
        }
    }
    lemma_group_sum(table, by_previous(), group, kind);
}

/// The rows of a group on what is typed instead are those of its mistakes.
proof fn lemma_typed_sum(table: Seq<ErrorRowView>, e: char, t: char)
    requires
        written(table),
    ensures
        group_sum(table, by_typed(), (seq![e], seq![t])) == missed_as(tally(table), e, t),
{
    let group = (seq![e], seq![t]);
    let kind = |m: Mistake| m.expected == e && m.typed == t;
    assert forall|k: int| 0 <= k < table.len() implies (by_typed()(
        #[trigger] table[k],
    ) == group) == kind(mistake_of(table[k])) by {
        let m = mistake_of(table[k]);
        assert(table[k] == row_of(m, table[k].error_count));
        assert(seq![m.expected][0] == m.expected);
        assert(seq![m.typed][0] == m.typed);
        assert(seq![e][0] == e);
        assert(seq![t][0] == t);
    }
    lemma_group_sum(table, by_typed(), group, kind);
}

/// The row that stands for a group on what comes before, and what it says.
proof fn lemma_previous_group(table: Seq<ErrorRowView>, previous: Seq<PreviousRow>, i: int) -> (k:
    int)
    requires
        written(table),
        names_groups(table, by_previous(), previous_groups(previous)),
        0 <= i < previous.len(),
    ensures
        0 <= k < table.len(),
        mistake_of(table[k]).expected == previous_pairs(previous)[i].0,
        mistake_of(table[k]).previous == previous_pairs(previous)[i].1,
        previous_groups(previous)[i] == (
            seq![previous_pairs(previous)[i].0],
            field(previous_pairs(previous)[i].1),
        ),
{
    let group = previous_groups(previous)[i];
    let k = choose|k: int| 0 <= k < table.len() && by_previous()(#[trigger] table[k]) == group;
    let m = mistake_of(table[k]);
    assert(table[k] == row_of(m, table[k].error_count));
    assert(seq![m.expected][0] == m.expected);
    if let Some(c) = m.previous {
        assert(seq![c][0] == c);
    }
    k
}

/// The statistics agree with the counts on what comes before a missed
/// character: they name something exactly for the characters with an entry,
/// and after nothing else was the character missed more often.
pub proof fn law_previous_is_most_common(
    table: Seq<ErrorRowView>,
    counts: Seq<CountRow>,
    previous: Seq<PreviousRow>,
    typed: Seq<TypedRow>,
    e: char,
)
    requires
        written(table),
        previous_answer(table, previous),
    ensures
        previous_legible(previous),
        ({
            let named = key_errors_of(counts, previous, typed).most_common_prev_char;
            &&& named.contains_key(e) <==> ever_missed(tally(table), e)
            &&& named.contains_key(e) ==> exists|m: Mistake| #[trigger]
                tally(table).contains_key(m) && m.expected == e && m.previous == named[e]
            &&& named.contains_key(e) ==> forall|p: Option<char>|
                missed_after(tally(table), e, named[e]) >= #[trigger] missed_after(
                    tally(table),
                    e,
                    p,
                )
        }),
{
    let groups = previous_groups(previous);
    let pairs = previous_pairs(previous);
    let named = leaders(pairs);
    assert forall|i: int| 0 <= i < previous.len() implies (#[trigger] groups[i]) == (
        seq![pairs[i].0],
        field(pairs[i].1),
    ) by {
        lemma_previous_group(table, previous, i);
    }
    assert forall|i: int| 0 <= i < previous.len() implies (
    #[trigger] previous[i]).expected_char@.len() > 0 by {
        assert(groups[i].0 == seq![pairs[i].0]);
    }
    lemma_ever_missed(table, e);
    law_each_character_has_a_leader(pairs, e);
    if ever_missed(tally(table), e) {
        let k = choose|k: int| 0 <= k < table.len() && mistake_of(#[trigger] table[k]).expected == e;
        assert(table[k] == row_of(mistake_of(table[k]), table[k].error_count));
        assert(groups.contains(by_previous()(table[k])));
        let i = choose|i: int| 0 <= i < groups.len() && groups[i] == by_previous()(table[k]);
        assert(groups[i].0[0] == pairs[i].0);
        assert(pairs[i].0 == e);
    }
    if named.contains_key(e) {
        let i = lemma_leading_group(table, by_previous(), groups, pairs, e);
        assert(groups[i] == (seq![e], field(named[e])));
        let k = lemma_previous_group(table, previous, i);
        assert(tally(table).contains_key(mistake_of(table[k])));
        lemma_previous_sum(table, e, named[e]);
        assert forall|p: Option<char>|
            missed_after(tally(table), e, named[e]) >= #[trigger] missed_after(
                tally(table),
                e,
                p,
            ) by {
            lemma_previous_sum(table, e, p);
            assert(group_sum(table, by_previous(), groups[i]) >= group_sum(
                table,
                by_previous(),
                (seq![e], field(p)),
            ));
        }
    }
}

/// The row that stands for a group on what is typed instead, and what it says.
proof fn lemma_typed_group(table: Seq<ErrorRowView>, typed: Seq<TypedRow>, i: int) -> (k: int)
    requires
        written(table),
        names_groups(table, by_typed(), typed_groups(typed)),
        0 <= i < typed.len(),
    ensures
        0 <= k < table.len(),
        mistake_of(table[k]).expected == typed_pairs(typed)[i].0,
        mistake_of(table[k]).typed == typed_pairs(typed)[i].1,
        typed_groups(typed)[i] == (seq![typed_pairs(typed)[i].0], seq![typed_pairs(typed)[i].1]),
{
    let group = typed_groups(typed)[i];
    let k = choose|k: int| 0 <= k < table.len() && by_typed()(#[trigger] table[k]) == group;
    let m = mistake_of(table[k]);
    assert(table[k] == row_of(m, table[k].error_count));
    assert(seq![m.expected][0] == m.expected);
    assert(seq![m.typed][0] == m.typed);
    k
}

/// The statistics agree with the counts on what is typed instead of a missed
/// character: they name something exactly for the characters with an entry,
/// and nothing else was typed more often instead.
pub proof fn law_typed_is_most_common(
    table: Seq<ErrorRowView>,
    counts: Seq<CountRow>,
    previous: Seq<PreviousRow>,
    typed: Seq<TypedRow>,
    e: char,
)
    requires
        written(table),
        typed_answer(table, typed),
    ensures
        typed_legible(typed),
        ({
            let named = key_errors_of(counts, previous, typed).most_common_typed_char;
            &&& named.contains_key(e) <==> ever_missed(tally(table), e)
            &&& named.contains_key(e) ==> exists|m: Mistake| #[trigger]
                tally(table).contains_key(m) && m.expected == e && m.typed == named[e]
            &&& named.contains_key(e) ==> forall|t: char|
                missed_as(tally(table), e, named[e]) >= #[trigger] missed_as(tally(table), e, t)
        }),
{
    let groups = typed_groups(typed);
    let pairs = typed_pairs(typed);
    let named = leaders(pairs);
    assert forall|i: int| 0 <= i < typed.len() implies (#[trigger] groups[i]) == (
        seq![pairs[i].0],
        seq![pairs[i].1],
    ) by {
        lemma_typed_group(table, typed, i);
    }
    assert forall|i: int| 0 <= i < typed.len() implies (#[trigger] typed[i]).expected_char@.len()
        > 0 && typed[i].typed_char@.len() > 0 by {
        assert(groups[i] == (seq![pairs[i].0], seq![pairs[i].1]));
    }
    lemma_ever_missed(table, e);
    law_each_character_has_a_leader(pairs, e);
    if ever_missed(tally(table), e) {
        let k = choose|k: int| 0 <= k < table.len() && mistake_of(#[trigger] table[k]).expected == e;
        assert(table[k] == row_of(mistake_of(table[k]), table[k].error_count));
        assert(groups.contains(by_typed()(table[k])));
        let i = choose|i: int| 0 <= i < groups.len() && groups[i] == by_typed()(table[k]);
        assert(groups[i].0[0] == pairs[i].0);
        assert(pairs[i].0 == e);
    }
    if named.contains_key(e) {
        let i = lemma_leading_group(table, by_typed(), groups, pairs, e);
        assert(groups[i] == (seq![e], seq![named[e]]));
        let k = lemma_typed_group(table, typed, i);
        assert(tally(table).contains_key(mistake_of(table[k])));
        lemma_typed_sum(table, e, named[e]);
        assert forall|t: char|
            missed_as(tally(table), e, named[e]) >= #[trigger] missed_as(tally(table), e, t) by {
            lemma_typed_sum(table, e, t);
            assert(group_sum(table, by_typed(), groups[i]) >= group_sum(
                table,
                by_typed(),
                (seq![e], seq![t]),
            ));
        }
    }
}

/// A row that is written takes the place of another one: its previous
/// character is there, and all three characters are the same. The table's key
/// is made of these, and a missing character equals nothing, not even another
/// missing one.
pub open spec fn replaces(row: ErrorRowView, other: ErrorRowView) -> bool {
    &&& row.previous_char is Some
    &&& row.previous_char == other.previous_char
    &&& row.expected_char == other.expected_char
    &&& row.typed_char == other.typed_char
}

/// The table after one row is written: `INSERT OR REPLACE INTO error_stats ..`
/// under `PRIMARY KEY (previous_char, expected_char, typed_char)`.
pub open spec fn put(table: Seq<ErrorRowView>, row: ErrorRowView) -> Seq<ErrorRowView> {
    table.filter(|other: ErrorRowView| !replaces(row, other)).push(row)
}

/// The table after rows are written one by one.
pub open spec fn saved(table: Seq<ErrorRowView>, rows: Seq<ErrorRowView>) -> Seq<ErrorRowView>
    decreases rows.len(),
{
    if rows.len() == 0 {
        table
    } else {
        put(saved(table, rows.drop_last()), rows.last())
    }
}

/// No two rows are about the same mistake.
spec fn distinct(rows: Seq<ErrorRowView>) -> bool {
    forall|i: int, j: int|
        0 <= i < j < rows.len() ==> mistake_of(#[trigger] rows[i]) != mistake_of(#[trigger] rows[j])
}

/// Among rows that the game writes, a row replaces those on its own mistake, if
/// that has a previous character, and no others.
proof fn lemma_replaces(m: Mistake, a: nat, n: Mistake, b: nat)
    ensures
        replaces(row_of(m, a), row_of(n, b)) <==> m.previous is Some && m == n,
{
    assert(seq![m.expected][0] == m.expected);
    assert(seq![n.expected][0] == n.expected);
    assert(seq![m.typed][0] == m.typed);
    assert(seq![n.typed][0] == n.typed);
    if let Some(c) = m.previous {
        assert(seq![c][0] == c);
    }
    if let Some(c) = n.previous {
        assert(seq![c][0] == c);
    }
}

/// What a row added at the end does to the mistakes that a table mentions.
proof fn lemma_mentioned_push(table: Seq<ErrorRowView>, row: ErrorRowView, m: Mistake)
    ensures
        mentioned(table.push(row), m) <==> mentioned(table, m) || mistake_of(row) == m,
{
    let all = table.push(row);
    assert(all[table.len() as int] == row);
    if mentioned(table, m) {
        let i = choose|i: int| 0 <= i < table.len() && mistake_of(#[trigger] table[i]) == m;
        assert(all[i] == table[i]);
    }
    if mentioned(all, m) {
        let i = choose|i: int| 0 <= i < all.len() && mistake_of(#[trigger] all[i]) == m;
        if i < table.len() {
            assert(table[i] == all[i]);
        }
    }
}

/// What is left of a table once the rows are gone that a written row replaces.
proof fn lemma_kept(table: Seq<ErrorRowView>, row: ErrorRowView, m: Mistake)
    requires
        written(table),
        row == row_of(mistake_of(row), row.error_count),
    ensures
        ({
            let kept = table.filter(|other: ErrorRowView| !replaces(row, other));
            let gone = mistake_of(row).previous is Some && mistake_of(row) == m;
            &&& written(kept)
            &&& total(kept, m) == if gone {
                0
            } else {
                total(table, m)
            }
            &&& mentioned(kept, m) <==> mentioned(table, m) && !gone
        }),
    decreases table.len(),
{
    reveal(Seq::filter);
    let stays = |other: ErrorRowView| !replaces(row, other);
    if table.len() > 0 {
        let earlier = table.drop_last();
        let last = table.last();
        assert forall|i: int| 0 <= i < earlier.len() implies #[trigger] earlier[i] == row_of(
            mistake_of(earlier[i]),
            earlier[i].error_count,
        ) by {
            assert(table[i] == row_of(mistake_of(table[i]), table[i].error_count));
        }
        lemma_kept(earlier, row, m);
        assert(table[table.len() - 1] == row_of(mistake_of(last), last.error_count));
        lemma_replaces(mistake_of(row), row.error_count, mistake_of(last), last.error_count);
        assert(earlier.push(last) == table);
        lemma_mentioned_push(earlier, last, m);
        let before = earlier.filter(stays);
        if stays(last) {
            assert(before.push(last).drop_last() == before);
            lemma_mentioned_push(before, last, m);
        }
    }
}

/// What a save does to the total of a mistake.
proof fn lemma_saved(table: Seq<ErrorRowView>, rows: Seq<ErrorRowView>, m: Mistake)
    requires
        written(table),
        written(rows),
        distinct(rows),
    ensures
        written(saved(table, rows)),
        total(saved(table, rows), m) == total(rows, m) + if m.previous is Some && mentioned(
            rows,
            m,
        ) {
            0
        } else {
            total(table, m)
        },
        mentioned(saved(table, rows), m) <==> mentioned(table, m) || mentioned(rows, m),
    decreases rows.len(),
{
    if rows.len() > 0 {
        let earlier = rows.drop_last();
        let row = rows.last();
        assert forall|i: int| 0 <= i < earlier.len() implies #[trigger] earlier[i] == row_of(
            mistake_of(earlier[i]),
            earlier[i].error_count,
        ) && mistake_of(earlier[i]) != mistake_of(row) by {
            assert(rows[i] == row_of(mistake_of(rows[i]), rows[i].error_count));
            assert(mistake_of(rows[i]) != mistake_of(rows[rows.len() - 1]));
        }
        assert(distinct(earlier)) by {
            assert forall|i: int, j: int| 0 <= i < j < earlier.len() implies mistake_of(
                #[trigger] earlier[i],
            ) != mistake_of(#[trigger] earlier[j]) by {
                assert(mistake_of(rows[i]) != mistake_of(rows[j]));
            }
        }
        lemma_saved(table, earlier, m);
        let before = saved(table, earlier);
        let kept = before.filter(|other: ErrorRowView| !replaces(row, other));
        assert(rows[rows.len() - 1] == row_of(mistake_of(row), row.error_count));
        lemma_kept(before, row, m);
        assert(kept.push(row).drop_last() == kept);
        assert(earlier.push(row) == rows);
        lemma_mentioned_push(kept, row, m);
        lemma_mentioned_push(earlier, row, m);
        lemma_unmentioned(earlier, m);
    }
}

/// What is read back after the counts were written over a table. A mistake with
/// a previous character and an entry has its count again. Any other keeps the
/// rows that the table had on it, and these are added to its count.
pub proof fn law_counts_read_back_after_a_save(
    table: Seq<ErrorRowView>,
    rows: Seq<ErrorRowView>,
    counts: Map<Mistake, nat>,
    m: Mistake,
)
    requires
        written(table),
        lists(rows, counts),
    ensures
        written(saved(table, rows)),
        count_in(tally(saved(table, rows)), m) == count_in(counts, m) + if m.previous is Some
            && counts.contains_key(m) {
            0
        } else {
            total(table, m)
        },
        tally(saved(table, rows)).contains_key(m) <==> counts.contains_key(m) || mentioned(
            table,
            m,
        ),
{
    law_listed_rows_are_written(rows, counts);
    lemma_listed_total(rows, counts, m);
    lemma_saved(table, rows, m);
    lemma_unmentioned(saved(table, rows), m);
}

/// A game that reads its counts from a table, loses no entry and writes them
/// over the same table reads back what it wrote, of every mistake with a
/// previous character.
pub proof fn law_counts_outlive_the_game(
    table: Seq<ErrorRowView>,
    rows: Seq<ErrorRowView>,
    counts: Map<Mistake, nat>,
    m: Mistake,
)
    requires
        written(table),
        lists(rows, counts),
        tally(table).contains_key(m) ==> counts.contains_key(m),
        m.previous is Some,
    ensures
        count_in(tally(saved(table, rows)), m) == count_in(counts, m),
        tally(saved(table, rows)).contains_key(m) <==> counts.contains_key(m),
{
    law_counts_read_back_after_a_save(table, rows, counts, m);
    lemma_unmentioned(table, m);
}

} // verus!

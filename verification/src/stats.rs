//! How often which mistake was made, and the rows that keep these counts from
//! one run of the game to the next.

use std::collections::HashMap;
use vstd::prelude::*;

use crate::strings::first_char;
use crate::strings::first_of;
use crate::strings::singleton;

verus! {

/// A wrong character and where it was typed: the character of the text before
/// it, if there is one, the character that was due, and the one typed instead.
#[derive(Clone, Copy, Debug)]
pub struct Mistake {
    pub previous: Option<char>,
    pub expected: char,
    pub typed: char,
}

/// The number that stands for the character before a mistake: its code, or the
/// number past the last code where there is none.
spec fn previous_code(previous: Option<char>) -> int {
    match previous {
        Some(c) => c as int,
        None => 0x11_0000,
    }
}

/// The number under which a mistake is filed: three codes of 21 bits each.
spec fn code(m: Mistake) -> int {
    previous_code(m.previous) * 0x400_0000_0000 + m.expected as int * 0x20_0000 + m.typed as int
}

proof fn lemma_char_range(c: char)
    ensures
        0 <= c as int <= 0x10_ffff,
{
}

proof fn lemma_code_range(m: Mistake)
    ensures
        0 <= previous_code(m.previous) <= 0x11_0000,
        0 <= code(m) <= u64::MAX,
{
    if let Some(c) = m.previous {
        lemma_char_range(c);
    }
}

proof fn lemma_code_injective(a: Mistake, b: Mistake)
    requires
        code(a) == code(b),
    ensures
        a == b,
{
    lemma_code_range(a);
    lemma_code_range(b);
    assert(a.typed as int == b.typed as int);
    assert(a.expected as int == b.expected as int);
    assert(previous_code(a.previous) == previous_code(b.previous));
    assert(a.previous == b.previous) by {
        if let Some(c) = a.previous {
            lemma_char_range(c);
        }
        if let Some(c) = b.previous {
            lemma_char_range(c);
        }
    }
}

fn file_number(m: &Mistake) -> (n: u64)
    ensures
        n == code(*m),
{
    proof {
        lemma_code_range(*m);
    }
    let previous: u64 = match m.previous {
        Some(c) => c as u64,
        None => 0x11_0000,
    };
    previous * 0x400_0000_0000 + m.expected as u64 * 0x20_0000 + m.typed as u64
}

/// The number of times each mistake was made. A mistake that was never met has
/// no entry.
pub struct Stats {
    counts: HashMap<u64, (Mistake, u32)>,
}

impl View for Stats {
    type V = Map<Mistake, nat>;

    closed spec fn view(&self) -> Map<Mistake, nat> {
        Map::new(
            |m: Mistake| self.counts@.contains_key(code(m) as u64),
            |m: Mistake| self.counts@[code(m) as u64].1 as nat,
        )
    }
}

/// The count of a mistake, which is nought where there is no entry.
pub open spec fn count_in(counts: Map<Mistake, nat>, m: Mistake) -> nat {
    if counts.contains_key(m) {
        counts[m]
    } else {
        0
    }
}

impl Stats {
    /// Each entry is filed under the number of its mistake.
    #[verifier::type_invariant]
    spec fn filed(&self) -> bool {
        forall|k: u64| #[trigger]
            self.counts@.contains_key(k) ==> code(self.counts@[k].0) == k
    }

    /// Counts with no entry.
    pub fn new() -> (stats: Stats)
        ensures
            stats@ == Map::<Mistake, nat>::empty(),
    {
        let stats = Stats { counts: HashMap::new() };
        assert(stats@ == Map::<Mistake, nat>::empty());
        stats
    }

    /// How often a mistake was made.
    pub fn count(&self, m: Mistake) -> (n: u32)
        ensures
            n == count_in(self@, m),
    {
        broadcast use vstd::std_specs::hash::group_hash_axioms;

        match self.counts.get(&file_number(&m)) {
            Some(entry) => entry.1,
            None => 0,
        }
    }

    /// Adds to the count of a mistake, and makes an entry for it where there
    /// is none.
    pub fn add_count(&mut self, m: Mistake, n: u32)
        requires
            count_in(old(self)@, m) + n <= u32::MAX,
        ensures
            final(self)@ == old(self)@.insert(m, count_in(old(self)@, m) + n as nat),
    {
        broadcast use vstd::std_specs::hash::group_hash_axioms;

        proof {
            use_type_invariant(&*self);
        }
        let total: u32 = self.count(m) + n;
        let mut counts: HashMap<u64, (Mistake, u32)> = HashMap::new();
        std::mem::swap(&mut counts, &mut self.counts);
        counts.insert(file_number(&m), (m, total));
        self.counts = counts;
        assert(self@ == old(self)@.insert(m, total as nat)) by {
            assert forall|other: Mistake| (#[trigger] code(other)) as u64 == code(m) as u64 implies other
                == m by {
                lemma_code_range(other);
                lemma_code_range(m);
                lemma_code_injective(other, m);
            }
        }
    }
}

/// A row of the table that keeps the counts.
pub struct ErrorRow {
    pub previous_char: Option<String>,
    pub expected_char: String,
    pub typed_char: String,
    pub error_count: u32,
}

/// What a row of the table says.
pub struct ErrorRowView {
    pub previous_char: Option<Seq<char>>,
    pub expected_char: Seq<char>,
    pub typed_char: Seq<char>,
    pub error_count: nat,
}

impl View for ErrorRow {
    type V = ErrorRowView;

    open spec fn view(&self) -> ErrorRowView {
        ErrorRowView {
            previous_char: match self.previous_char {
                Some(s) => Some(s@),
                None => None,
            },
            expected_char: self.expected_char@,
            typed_char: self.typed_char@,
            error_count: self.error_count as nat,
        }
    }
}

/// What each row of a table says.
pub open spec fn row_views(rows: Seq<ErrorRow>) -> Seq<ErrorRowView> {
    Seq::new(rows.len(), |i: int| rows[i]@)
}

/// The mistake that a row is about. A field names the character that it begins
/// with.
pub open spec fn mistake_of(row: ErrorRowView) -> Mistake {
    Mistake {
        previous: match row.previous_char {
            Some(s) => first_of(s),
            None => None,
        },
        expected: row.expected_char[0],
        typed: row.typed_char[0],
    }
}

/// The row for a mistake that was made `n` times.
pub open spec fn row_of(m: Mistake, n: nat) -> ErrorRowView {
    ErrorRowView {
        previous_char: match m.previous {
            Some(c) => Some(seq![c]),
            None => None,
        },
        expected_char: seq![m.expected],
        typed_char: seq![m.typed],
        error_count: n,
    }
}

/// Some row is about the given mistake.
pub open spec fn mentioned(rows: Seq<ErrorRowView>, m: Mistake) -> bool {
    exists|i: int| 0 <= i < rows.len() && mistake_of(#[trigger] rows[i]) == m
}

/// The sum of the counts of all rows about a mistake.
pub open spec fn total(rows: Seq<ErrorRowView>, m: Mistake) -> nat
    decreases rows.len(),
{
    if rows.len() == 0 {
        0
    } else {
        total(rows.drop_last(), m) + if mistake_of(rows.last()) == m {
            rows.last().error_count
        } else {
            0
        }
    }
}

/// The counts that a table amounts to.
pub open spec fn tally(rows: Seq<ErrorRowView>) -> Map<Mistake, nat> {
    Map::new(|m: Mistake| mentioned(rows, m), |m: Mistake| total(rows, m))
}

/// Every row names the character that was due and the one typed instead.
pub open spec fn legible(rows: Seq<ErrorRowView>) -> bool {
    forall|i: int|
        0 <= i < rows.len() ==> (#[trigger] rows[i]).expected_char.len() > 0
            && rows[i].typed_char.len() > 0
}

/// Every row is legible, and no count outgrows its type.
pub open spec fn loadable(rows: Seq<ErrorRowView>) -> bool {
    &&& legible(rows)
    &&& forall|m: Mistake| #[trigger] total(rows, m) <= u32::MAX
}

/// The rows say of each mistake with an entry how often it was made, each in
/// one row, and nothing else. Their order is left open.
pub open spec fn lists(rows: Seq<ErrorRowView>, counts: Map<Mistake, nat>) -> bool {
    &&& forall|i: int|
        0 <= i < rows.len() ==> counts.contains_key(mistake_of(#[trigger] rows[i])) && rows[i]
            == row_of(mistake_of(rows[i]), counts[mistake_of(rows[i])])
    &&& forall|i: int, j: int|
        0 <= i < j < rows.len() ==> mistake_of(#[trigger] rows[i]) != mistake_of(#[trigger] rows[j])
    &&& forall|m: Mistake| #[trigger] counts.contains_key(m) ==> mentioned(rows, m)
}

/// What the last row does to the counts of a table.
pub(crate) proof fn lemma_tally_last(rows: Seq<ErrorRowView>)
    requires
        rows.len() > 0,
    ensures
        tally(rows) == tally(rows.drop_last()).insert(
            mistake_of(rows.last()),
            count_in(tally(rows.drop_last()), mistake_of(rows.last())) + rows.last().error_count,
        ),
{
    let m = mistake_of(rows.last());
    let earlier = rows.drop_last();
    lemma_unmentioned(earlier, m);
    assert forall|other: Mistake| mentioned(rows, other) == (other == m || mentioned(
        earlier,
        other,
    )) by {
        if mentioned(earlier, other) {
            let i = choose|i: int| 0 <= i < earlier.len() && mistake_of(#[trigger] earlier[i]) == other;
            assert(rows[i] == earlier[i]);
        }
        if mentioned(rows, other) && other != m {
            let i = choose|i: int| 0 <= i < rows.len() && mistake_of(#[trigger] rows[i]) == other;
            assert(rows[i] == earlier[i]);
        }
        assert(mistake_of(rows[rows.len() - 1]) == m);
    }
    assert(tally(rows) =~= tally(earlier).insert(
        m,
        count_in(tally(earlier), m) + rows.last().error_count,
    ));
}

pub(crate) proof fn lemma_unmentioned(rows: Seq<ErrorRowView>, m: Mistake)
    ensures
        !mentioned(rows, m) ==> total(rows, m) == 0,
    decreases rows.len(),
{
    if rows.len() > 0 {
        let earlier = rows.drop_last();
        lemma_unmentioned(earlier, m);
        if !mentioned(rows, m) {
            assert(mistake_of(rows[rows.len() - 1]) != m);
            assert forall|i: int| 0 <= i < earlier.len() implies mistake_of(#[trigger] earlier[i])
                != m by {
                assert(mistake_of(rows[i]) != m);
            }
        }
    }
}

/// The rows of two tables add up.
pub proof fn law_tables_add_up(a: Seq<ErrorRowView>, b: Seq<ErrorRowView>, m: Mistake)
    ensures
        total(a + b, m) == total(a, m) + total(b, m),
        mentioned(a + b, m) <==> mentioned(a, m) || mentioned(b, m),
    decreases b.len(),
{
    if b.len() == 0 {
        assert(a + b == a);
    } else {
        law_tables_add_up(a, b.drop_last(), m);
        assert((a + b).drop_last() == a + b.drop_last());
    }
    if mentioned(a, m) {
        let i = choose|i: int| 0 <= i < a.len() && mistake_of(#[trigger] a[i]) == m;
        assert((a + b)[i] == a[i]);
    }
    if mentioned(b, m) {
        let i = choose|i: int| 0 <= i < b.len() && mistake_of(#[trigger] b[i]) == m;
        assert((a + b)[a.len() + i] == b[i]);
    }
    if mentioned(a + b, m) {
        let i = choose|i: int| 0 <= i < (a + b).len() && mistake_of(#[trigger] (a + b)[i]) == m;
        if i < a.len() {
            assert(a[i] == (a + b)[i]);
        } else {
            assert(b[i - a.len()] == (a + b)[i]);
        }
    }
}

/// The total of rows no two of which are about the same mistake.
proof fn lemma_single_row(rows: Seq<ErrorRowView>, i: int)
    requires
        0 <= i < rows.len(),
        forall|j: int, k: int|
            0 <= j < k < rows.len() ==> mistake_of(#[trigger] rows[j]) != mistake_of(
                #[trigger] rows[k],
            ),
    ensures
        total(rows, mistake_of(rows[i])) == rows[i].error_count,
    decreases rows.len(),
{
    let m = mistake_of(rows[i]);
    let earlier = rows.drop_last();
    if i == rows.len() - 1 {
        assert forall|j: int| 0 <= j < earlier.len() implies mistake_of(#[trigger] earlier[j]) != m by {
            assert(earlier[j] == rows[j]);
            assert(rows[i] == rows[rows.len() - 1]);
        }
        lemma_unmentioned(earlier, m);
    } else {
        assert(mistake_of(rows[rows.len() - 1]) != m);
        assert forall|j: int, k: int| 0 <= j < k < earlier.len() implies mistake_of(
            #[trigger] earlier[j],
        ) != mistake_of(#[trigger] earlier[k]) by {
            assert(mistake_of(rows[j]) != mistake_of(rows[k]));
        }
        assert(earlier[i] == rows[i]);
        lemma_single_row(earlier, i);
    }
}

/// Rows that list counts have these as their totals.
pub(crate) proof fn lemma_listed_total(rows: Seq<ErrorRowView>, counts: Map<Mistake, nat>, m: Mistake)
    requires
        lists(rows, counts),
    ensures
        total(rows, m) == count_in(counts, m),
        mentioned(rows, m) <==> counts.contains_key(m),
{
    lemma_unmentioned(rows, m);
    if mentioned(rows, m) {
        let i = choose|i: int| 0 <= i < rows.len() && mistake_of(#[trigger] rows[i]) == m;
        lemma_single_row(rows, i);
        assert(counts.contains_key(mistake_of(rows[i])));
    }
}

/// Counts that are written to an empty table are read back as they were.
pub proof fn law_counts_survive_the_table(counts: Map<Mistake, nat>, rows: Seq<ErrorRowView>)
    requires
        lists(rows, counts),
        forall|m: Mistake| #[trigger] counts.contains_key(m) ==> counts[m] <= u32::MAX,
    ensures
        loadable(rows),
        tally(rows) == counts,
{
    assert forall|m: Mistake| #[trigger] total(rows, m) <= u32::MAX by {
        lemma_listed_total(rows, counts, m);
    }
    assert forall|m: Mistake| #[trigger] tally(rows).contains_key(m) == counts.contains_key(m) && (
    counts.contains_key(m) ==> tally(rows)[m] == counts[m]) by {
        lemma_listed_total(rows, counts, m);
    }
    assert(tally(rows) =~= counts);
}

/// Counts that are written to a table that keeps some rows of its own are read
/// back as they were, but for what the kept rows add to them. Where no row on
/// a mistake is kept, its count is read back as it was.
pub proof fn law_counts_written_over_a_table(
    kept: Seq<ErrorRowView>,
    rows: Seq<ErrorRowView>,
    counts: Map<Mistake, nat>,
    m: Mistake,
)
    requires
        lists(rows, counts),
    ensures
        count_in(tally(kept + rows), m) == total(kept, m) + count_in(counts, m),
        !mentioned(kept, m) ==> count_in(tally(kept + rows), m) == count_in(counts, m),
{
    law_tables_add_up(kept, rows, m);
    lemma_listed_total(rows, counts, m);
    lemma_unmentioned(kept, m);
    lemma_unmentioned(kept + rows, m);
}

/// The mistake that a legible row is about.
fn read_mistake(row: &ErrorRow) -> (m: Option<Mistake>)
    ensures
        m is Some <==> row@.expected_char.len() > 0 && row@.typed_char.len() > 0,
        m matches Some(mistake) ==> mistake == mistake_of(row@),
{
    let previous = match &row.previous_char {
        Some(s) => first_char(s.as_str()),
        None => None,
    };
    match (first_char(row.expected_char.as_str()), first_char(row.typed_char.as_str())) {
        (Some(expected), Some(typed)) => Some(Mistake { previous, expected, typed }),
        _ => None,
    }
}

/// The total of a part of a table is at most that of the whole.
proof fn lemma_total_of_part(rows: Seq<ErrorRowView>, n: int, m: Mistake)
    requires
        0 <= n <= rows.len(),
    ensures
        total(rows.take(n), m) <= total(rows, m),
{
    law_tables_add_up(rows.take(n), rows.skip(n), m);
    assert(rows.take(n) + rows.skip(n) == rows);
}

/// The counts that a table amounts to, if it can be read.
fn read_rows(rows: &Vec<ErrorRow>) -> (stats: Option<Stats>)
    ensures
        stats is Some <==> loadable(row_views(rows@)),
        stats matches Some(s) ==> s@ == tally(row_views(rows@)),
{
    let mut stats = Stats::new();
    let ghost all = row_views(rows@);
    assert(stats@ == tally(all.take(0)));
    for i in 0..rows.len()
        invariant
            all == row_views(rows@),
            stats@ == tally(all.take(i as int)),
            loadable(all.take(i as int)),
    {
        let ghost seen = all.take(i as int);
        let ghost now = all.take(i + 1);
        assert(now.drop_last() == seen);
        assert(now.last() == all[i as int]);
        match read_mistake(&rows[i]) {
            None => {
                assert(!legible(all));
                return None;
            },
            Some(m) => {
                proof {
                    lemma_tally_last(now);
                    lemma_unmentioned(seen, m);
                    lemma_total_of_part(all, i + 1, m);
                }
                let count: u32 = rows[i].error_count;
                if stats.count(m) > u32::MAX - count {
                    assert(total(all, m) > u32::MAX);
                    return None;
                }
                stats.add_count(m, count);
                assert forall|j: int| 0 <= j < now.len() implies (
                #[trigger] now[j]).expected_char.len() > 0 && now[j].typed_char.len() > 0 by {
                    if j < i {
                        assert(now[j] == seen[j]);
                    }
                }
                assert forall|other: Mistake| #[trigger] total(now, other) <= u32::MAX by {
                    assert(total(seen, other) <= u32::MAX);
                }
            },
        }
    }
    assert(all.take(all.len() as int) == all);
    Some(stats)
}

impl Stats {
    /// Whether a table can be read: each row names its characters, and no sum
    /// outgrows a count.
    pub fn rows_loadable(rows: &Vec<ErrorRow>) -> (b: bool)
        ensures
            b == loadable(row_views(rows@)),
    {
        read_rows(rows).is_some()
    }

    /// The counts that the rows of the table amount to.
    pub fn from_rows(rows: &Vec<ErrorRow>) -> (stats: Stats)
        requires
            loadable(row_views(rows@)),
        ensures
            stats@ == tally(row_views(rows@)),
    {
        read_rows(rows).unwrap()
    }

    /// The rows that keep the counts, in no particular order. Read back, they
    /// give the counts again.
    pub fn to_rows(&self) -> (rows: Vec<ErrorRow>)
        ensures
            lists(row_views(rows@), self@),
            loadable(row_views(rows@)),
            tally(row_views(rows@)) == self@,
    {
        broadcast use vstd::std_specs::hash::group_hash_axioms;

        proof {
            use_type_invariant(self);
        }
        let mut rows: Vec<ErrorRow> = Vec::new();
        let counts = self.counts.iter();
        let ghost entries = vstd::std_specs::iter::IteratorSpec::remaining(&counts);
        for (_, entry) in it: counts
            invariant
                it.seq() == entries,
                rows@.len() == it.index(),
                forall|j: int|
                    0 <= j < rows@.len() ==> (#[trigger] rows@[j])@ == row_of(
                        entries[j].1.0,
                        entries[j].1.1 as nat,
                    ),
        {
            let m = entry.0;
            let previous_char = match m.previous {
                Some(c) => Some(singleton(c)),
                None => None,
            };
            rows.push(
                ErrorRow {
                    previous_char,
                    expected_char: singleton(m.expected),
                    typed_char: singleton(m.typed),
                    error_count: entry.1,
                },
            );
        }
        proof {
            let said = row_views(rows@);
            assert forall|i: int| 0 <= i < said.len() implies (#[trigger] said[i]) == row_of(
                entries[i].1.0,
                entries[i].1.1 as nat,
            ) && mistake_of(said[i]) == entries[i].1.0 && code(entries[i].1.0) == *entries[i].0
                && self@.contains_key(mistake_of(said[i])) && self@[mistake_of(said[i])]
                == entries[i].1.1 by {
                assert(rows@[i]@ == said[i]);
                assert(self.counts@.contains_key(*entries[i].0));
            }
            assert forall|i: int, j: int| 0 <= i < j < said.len() implies mistake_of(
                #[trigger] said[i],
            ) != mistake_of(#[trigger] said[j]) by {
                assert(self.counts@.contains_key(*entries[i].0));
                assert(self.counts@.contains_key(*entries[j].0));
            }
            assert forall|m: Mistake| #[trigger] self@.contains_key(m) implies mentioned(said, m) by {
                let k = code(m) as u64;
                assert(self.counts@.contains_key(k));
                assert(entries.contains((&k, &self.counts@[k])));
                let i = choose|i: int|
                    0 <= i < entries.len() && entries[i] == (&k, &self.counts@[k]);
                lemma_code_range(m);
                lemma_code_injective(m, self.counts@[k].0);
                assert(mistake_of(said[i]) == m);
            }
            law_counts_survive_the_table(self@, said);
        }
        rows
    }
}

/// The count of a mistake is that of its entry, and nought without one.
pub proof fn law_count_is_that_of_the_entry(counts: Map<Mistake, nat>, m: Mistake)
    ensures
        counts.contains_key(m) ==> count_in(counts, m) == counts[m],
        !counts.contains_key(m) ==> count_in(counts, m) == 0,
{
}

/// Adding to the count of a mistake raises it by just that, makes an entry, and
/// touches no other mistake.
pub proof fn law_adding_raises_one_count(
    counts: Map<Mistake, nat>,
    m: Mistake,
    n: nat,
    other: Mistake,
)
    ensures
        ({
            let next = counts.insert(m, count_in(counts, m) + n);
            &&& next.contains_key(m)
            &&& count_in(next, m) == count_in(counts, m) + n
            &&& other != m ==> (next.contains_key(other) <==> counts.contains_key(other))
            &&& other != m ==> count_in(next, other) == count_in(counts, other)
        }),
{
}

/// Every row of a table is seen, in its place and whole.
pub proof fn law_rows_are_seen_whole(rows: Seq<ErrorRow>)
    ensures
        row_views(rows).len() == rows.len(),
        forall|i: int|
            0 <= i < rows.len() ==> {
                let seen = #[trigger] row_views(rows)[i];
                &&& seen.previous_char is Some <==> rows[i].previous_char is Some
                &&& rows[i].previous_char is Some ==> seen.previous_char->0
                    == rows[i].previous_char->0@
                &&& seen.expected_char == rows[i].expected_char@
                &&& seen.typed_char == rows[i].typed_char@
                &&& seen.error_count == rows[i].error_count
            },
{
}

/// A row is about the mistake whose characters its fields begin with. A field
/// for the previous character that is missing or empty names none.
pub proof fn law_row_names_first_characters(row: ErrorRowView)
    ensures
        mistake_of(row).expected == row.expected_char[0],
        mistake_of(row).typed == row.typed_char[0],
        mistake_of(row).previous is Some <==> row.previous_char is Some
            && row.previous_char->0.len() > 0,
        mistake_of(row).previous is Some ==> mistake_of(row).previous->0
            == row.previous_char->0[0],
{
}

/// The row for a mistake holds its characters, each alone in its field, and its
/// count, and is about that mistake.
pub proof fn law_row_holds_its_mistake(m: Mistake, n: nat)
    ensures
        row_of(m, n).expected_char == seq![m.expected],
        row_of(m, n).typed_char == seq![m.typed],
        row_of(m, n).previous_char is Some <==> m.previous is Some,
        m.previous is Some ==> row_of(m, n).previous_char->0 == seq![m.previous->0],
        row_of(m, n).error_count == n,
        mistake_of(row_of(m, n)) == m,
{
}

/// A table of one row amounts to the count of that row, and a table without
/// rows to nothing.
pub proof fn law_one_row_amounts_to_its_count(row: ErrorRowView)
    ensures
        tally(seq![row]) == Map::<Mistake, nat>::empty().insert(mistake_of(row), row.error_count),
        tally(Seq::empty()) == Map::<Mistake, nat>::empty(),
{
    let table = seq![row];
    assert(table.drop_last() == Seq::<ErrorRowView>::empty());
    assert(tally(Seq::<ErrorRowView>::empty()) =~= Map::<Mistake, nat>::empty());
    lemma_tally_last(table);
    assert(tally(table) =~= Map::<Mistake, nat>::empty().insert(mistake_of(row), row.error_count));
}

/// Two tables together have an entry where one of them has, and the counts of
/// both added: so no row of a table is left out.
pub proof fn law_amounts_add_up(a: Seq<ErrorRowView>, b: Seq<ErrorRowView>, m: Mistake)
    ensures
        tally(a + b).contains_key(m) <==> tally(a).contains_key(m) || tally(b).contains_key(m),
        tally(a).contains_key(m) && tally(b).contains_key(m) ==> tally(a + b)[m] == tally(a)[m]
            + tally(b)[m],
        tally(a).contains_key(m) && !tally(b).contains_key(m) ==> tally(a + b)[m] == tally(a)[m],
        !tally(a).contains_key(m) && tally(b).contains_key(m) ==> tally(a + b)[m] == tally(b)[m],
{
    law_tables_add_up(a, b, m);
    lemma_unmentioned(a, m);
    lemma_unmentioned(b, m);
}

/// A table can be read exactly if every row names the two characters that it
/// has to name and no count of what it amounts to outgrows thirty-two bits.
pub proof fn law_when_a_table_can_be_read(rows: Seq<ErrorRowView>)
    ensures
        loadable(rows) <==> {
            &&& forall|i: int|
                0 <= i < rows.len() ==> (#[trigger] rows[i]).expected_char.len() > 0
                    && rows[i].typed_char.len() > 0
            &&& forall|m: Mistake| #[trigger]
                tally(rows).contains_key(m) ==> tally(rows)[m] <= 0xffff_ffff
        },
{
    if forall|m: Mistake| #[trigger]
        tally(rows).contains_key(m) ==> tally(rows)[m] <= 0xffff_ffff {
        assert forall|m: Mistake| #[trigger] total(rows, m) <= u32::MAX by {
            lemma_unmentioned(rows, m);
            if mentioned(rows, m) {
                assert(tally(rows).contains_key(m));
            }
        }
    }
    if loadable(rows) {
        assert forall|m: Mistake| #[trigger] tally(rows).contains_key(m) implies tally(rows)[m]
            <= 0xffff_ffff by {
            assert(total(rows, m) <= u32::MAX);
        }
    }
}

/// Rows that list counts have one row for each entry, with its characters and
/// its count, and no row besides.
pub proof fn law_listed_rows(rows: Seq<ErrorRowView>, counts: Map<Mistake, nat>)
    requires
        lists(rows, counts),
    ensures
        forall|i: int|
            0 <= i < rows.len() ==> {
                let row = #[trigger] rows[i];
                &&& row.expected_char.len() == 1
                &&& row.typed_char.len() == 1
                &&& row.previous_char is Some ==> row.previous_char->0.len() == 1
                &&& counts.contains_key(mistake_of(row))
                &&& row.error_count == counts[mistake_of(row)]
            },
        forall|i: int, j: int|
            0 <= i < j < rows.len() ==> mistake_of(#[trigger] rows[i]) != mistake_of(
                #[trigger] rows[j],
            ),
        forall|m: Mistake| #[trigger]
            counts.contains_key(m) ==> exists|i: int|
                0 <= i < rows.len() && mistake_of(#[trigger] rows[i]) == m,
{
    assert forall|i: int| 0 <= i < rows.len() implies {
        let row = #[trigger] rows[i];
        &&& row.expected_char.len() == 1
        &&& row.typed_char.len() == 1
        &&& row.previous_char is Some ==> row.previous_char->0.len() == 1
        &&& counts.contains_key(mistake_of(row))
        &&& row.error_count == counts[mistake_of(row)]
    } by {
        assert(rows[i] == row_of(mistake_of(rows[i]), counts[mistake_of(rows[i])]));
    }
    assert forall|m: Mistake| #[trigger] counts.contains_key(m) implies exists|i: int|
        0 <= i < rows.len() && mistake_of(#[trigger] rows[i]) == m by {
        assert(mentioned(rows, m));
    }
}

} // verus!

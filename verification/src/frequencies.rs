//! Categorical statistics: how often each value of a column occurs, ranked.
//!
//! Values are counted in the order in which they are first seen, and ranked
//! by count, the larger first. Among values that occur equally often the one
//! seen first comes first.

use vstd::prelude::*;
use crate::text::{trim, trimmed, views_of};

verus! {

/// A share of a whole, to be read as a percentage: a hundred times `part`
/// over `whole`, and zero where `whole` is zero.
#[derive(Debug, Clone, Copy, PartialEq, Eq, Structural)]
pub struct Percentage {
    pub part: usize,
    pub whole: usize,
}

/// How often one value occurs in a column.
#[derive(Debug, Clone)]
pub struct CategoricalValueFrequency {
    /// The value.
    pub value: String,
    /// How many times it occurs.
    pub count: usize,
    /// Its share of the values that hold something.
    pub percentage: Percentage,
}

/// The statistics of a categorical column.
#[derive(Debug, Clone)]
pub struct CategoricalColumnStatistics {
    /// How many different values occur.
    pub unique_value_count: usize,
    /// Every value with its count, ranked.
    pub value_frequencies: Vec<CategoricalValueFrequency>,
    /// The share of empty values among all values.
    pub missing_percentage: Percentage,
    /// The value at the head of the ranking, if any value occurs.
    pub mode_value: Option<String>,
    /// The share of the mode among the values that hold something.
    pub mode_percentage: Percentage,
}

/// A value and its count, as a mathematical value.
pub struct FrequencyEntry {
    pub value: Seq<char>,
    pub count: nat,
}

impl View for CategoricalValueFrequency {
    type V = FrequencyEntry;

    open spec fn view(&self) -> FrequencyEntry {
        FrequencyEntry { value: self.value@, count: self.count as nat }
    }
}

/// The ranking as a sequence of mathematical entries.
pub open spec fn entries_of(frequencies: Seq<CategoricalValueFrequency>) -> Seq<FrequencyEntry> {
    frequencies.map_values(|frequency: CategoricalValueFrequency| frequency@)
}

/// The values of a column that hold something, trimmed, in column order.
pub open spec fn present_values(values: Seq<Seq<char>>) -> Seq<Seq<char>>
    decreases values.len(),
{
    if values.len() == 0 {
        Seq::<Seq<char>>::empty()
    } else {
        let before = present_values(values.drop_last());
        let content = trim(values.last());
        if content.len() > 0 {
            before.push(content)
        } else {
            before
        }
    }
}

/// How many values of a column are empty once trimmed.
pub open spec fn missing_count(values: Seq<Seq<char>>) -> nat {
    (values.len() - present_values(values).len()) as nat
}

/// How many times `value` occurs among `present`.
pub open spec fn occurrences(present: Seq<Seq<char>>, value: Seq<char>) -> nat
    decreases present.len(),
{
    if present.len() == 0 {
        0
    } else {
        occurrences(present.drop_last(), value) + if present.last() == value {
            1nat
        } else {
            0nat
        }
    }
}

/// The different values among `present`, each once, in the order in which
/// they are first seen.
pub open spec fn distinct_values(present: Seq<Seq<char>>) -> Seq<Seq<char>>
    decreases present.len(),
{
    if present.len() == 0 {
        Seq::<Seq<char>>::empty()
    } else {
        let before = distinct_values(present.drop_last());
        if before.contains(present.last()) {
            before
        } else {
            before.push(present.last())
        }
    }
}

/// The sum of the counts of a ranking.
pub open spec fn frequency_total(entries: Seq<FrequencyEntry>) -> nat
    decreases entries.len(),
{
    if entries.len() == 0 {
        0
    } else {
        frequency_total(entries.drop_last()) + entries.last().count
    }
}

/// The order of the ranking: the larger count first, and among equal counts
/// the value that was seen first.
pub open spec fn ranks_before(
    first_seen: Seq<Seq<char>>,
    earlier: FrequencyEntry,
    later: FrequencyEntry,
) -> bool {
    earlier.count > later.count || (earlier.count == later.count && first_seen.index_of(
        earlier.value,
    ) < first_seen.index_of(later.value))
}

/// Whether the ranking holds an entry for `value`.
pub open spec fn holds_value(entries: Seq<FrequencyEntry>, value: Seq<char>) -> bool {
    exists|a: int| 0 <= a < entries.len() && (#[trigger] entries[a]).value == value
}

/// Whether `entries` is the ranking of the values `present`: one entry for
/// each different value, with the number of its occurrences, in ranking
/// order.
pub open spec fn is_ranking(present: Seq<Seq<char>>, entries: Seq<FrequencyEntry>) -> bool {
    let first_seen = distinct_values(present);
    &&& entries.len() == first_seen.len()
    &&& forall|a: int|
        0 <= a < entries.len() ==> first_seen.contains((#[trigger] entries[a]).value)
            && entries[a].count == occurrences(present, entries[a].value)
    &&& forall|j: int|
        0 <= j < first_seen.len() ==> holds_value(entries, #[trigger] first_seen[j])
    &&& forall|a: int, b: int|
        0 <= a < b < entries.len() ==> ranks_before(
            first_seen,
            #[trigger] entries[a],
            #[trigger] entries[b],
        )
}

/// No value is listed twice among the distinct values, and each of them
/// occurs.
pub proof fn lemma_distinct_values(present: Seq<Seq<char>>)
    ensures
        distinct_values(present).no_duplicates(),
        distinct_values(present).len() <= present.len(),
        forall|value: Seq<char>| #[trigger]
            distinct_values(present).contains(value) <==> present.contains(value),
        forall|value: Seq<char>|
            !distinct_values(present).contains(value) ==> #[trigger] occurrences(present, value)
                == 0,
        forall|value: Seq<char>| #[trigger] occurrences(present, value) <= present.len(),
    decreases present.len(),
{
    if present.len() > 0 {
        let shorter = present.drop_last();
        lemma_distinct_values(shorter);
        let before = distinct_values(shorter);
        assert forall|value: Seq<char>| #[trigger]
            distinct_values(present).contains(value) <==> present.contains(value) by {
            if present.contains(value) {
                let i = choose|i: int| 0 <= i < present.len() && present[i] == value;
                if i < shorter.len() {
                    assert(shorter[i] == value);
                    assert(shorter.contains(value));
                    assert(before.contains(value));
                    let j = choose|j: int| 0 <= j < before.len() && before[j] == value;
                    assert(distinct_values(present)[j] == value);
                } else {
                    assert(value == present.last());
                    if before.contains(value) {
                    } else {
                        assert(distinct_values(present)[before.len() as int] == value);
                    }
                }
            }
            if distinct_values(present).contains(value) {
                let j = choose|j: int|
                    0 <= j < distinct_values(present).len() && distinct_values(present)[j] == value;
                if j < before.len() {
                    assert(before[j] == value);
                    assert(before.contains(value));
                    assert(shorter.contains(value));
                    let i = choose|i: int| 0 <= i < shorter.len() && shorter[i] == value;
                    assert(present[i] == value);
                } else {
                    assert(present[present.len() - 1] == value);
                }
            }
        }
        assert forall|value: Seq<char>| #[trigger]
            occurrences(present, value) <= present.len() by {
            assert(occurrences(shorter, value) <= shorter.len());
        }
        assert forall|value: Seq<char>| !distinct_values(present).contains(value) implies (
        #[trigger] occurrences(present, value)) == 0 by {
            assert(!present.contains(value));
            if before.contains(value) {
                assert(shorter.contains(value));
                let i = choose|i: int| 0 <= i < shorter.len() && shorter[i] == value;
                assert(present[i] == value);
            }
            assert(occurrences(shorter, value) == 0);
            if present.last() == value {
                assert(present[present.len() - 1] == value);
            }
        }
    }
}

/// Putting an entry into a ranking adds its count to the total.
pub proof fn lemma_total_after_insert(entries: Seq<FrequencyEntry>, at: int, entry: FrequencyEntry)
    requires
        0 <= at <= entries.len(),
    ensures
        frequency_total(entries.insert(at, entry)) == frequency_total(entries) + entry.count,
    decreases entries.len(),
{
    let longer = entries.insert(at, entry);
    if at == entries.len() {
        assert(longer == entries.push(entry));
        assert(longer.drop_last() == entries);
    } else {
        assert(longer.drop_last() == entries.drop_last().insert(at, entry));
        assert(longer.last() == entries.last());
        lemma_total_after_insert(entries.drop_last(), at, entry);
    }
}

/// Raising one count of a ranking by one raises the total by one.
pub proof fn lemma_total_after_increment(entries: Seq<FrequencyEntry>, at: int)
    requires
        0 <= at < entries.len(),
    ensures
        frequency_total(
            entries.update(
                at,
                FrequencyEntry { value: entries[at].value, count: entries[at].count + 1 },
            ),
        ) == frequency_total(entries) + 1,
    decreases entries.len(),
{
    let raised = FrequencyEntry { value: entries[at].value, count: entries[at].count + 1 };
    let after = entries.update(at, raised);
    if at == entries.len() - 1 {
        assert(after.drop_last() == entries.drop_last());
    } else {
        assert(after.drop_last() == entries.drop_last().update(at, raised));
        lemma_total_after_increment(entries.drop_last(), at);
    }
}

/// The values of a column counted in the order in which they are first seen.
pub struct ValueTally {
    /// The different values, each once.
    pub values: Vec<String>,
    /// For each of them, the number of its occurrences.
    pub counts: Vec<usize>,
    /// How many values of the column are empty.
    pub missing: usize,
    /// How many values of the column hold something.
    pub present: usize,
}

/// The tally as a sequence of entries.
pub open spec fn tally_entries(values: Seq<String>, counts: Seq<usize>) -> Seq<FrequencyEntry> {
    Seq::new(values.len(), |j: int| FrequencyEntry { value: values[j]@, count: counts[j] as nat })
}

/// Where `wanted` stands first among `values`, if it stands there at all.
#[verifier::loop_isolation(false)]
pub fn find_value(values: &Vec<String>, wanted: &String) -> (found: Option<usize>)
    ensures
        match found {
            Some(j) => j < values.len() && values[j as int]@ == wanted@ && forall|k: int|
                0 <= k < j ==> (#[trigger] values[k])@ != wanted@,
            None => !views_of(values@).contains(wanted@),
        },
{
    let mut j: usize = 0;
    while j < values.len()
        invariant
            j <= values.len(),
            forall|k: int| 0 <= k < j ==> (#[trigger] values[k])@ != wanted@,
        decreases values.len() - j,
    {
        if values[j] == *wanted {
            return Some(j);
        }
        j += 1;
    }
    assert forall|k: int| 0 <= k < views_of(values@).len() implies views_of(values@)[k]
        != wanted@ by {
        assert(views_of(values@)[k] == values[k]@);
    }
    None
}

/// Counts the values of a column: every different value that holds
/// something, with the number of its occurrences, and the empty ones.
#[verifier::loop_isolation(false)]
pub fn tally_values(column_values: &Vec<String>) -> (tally: ValueTally)
    ensures
        views_of(tally.values@) == distinct_values(present_values(views_of(column_values@))),
        tally.counts.len() == tally.values.len(),
        forall|j: int|
            0 <= j < tally.values.len() ==> (#[trigger] tally.counts[j]) == occurrences(
                present_values(views_of(column_values@)),
                tally.values[j]@,
            ),
        tally.present == present_values(views_of(column_values@)).len(),
        tally.missing == missing_count(views_of(column_values@)),
        tally.present + tally.missing == column_values.len(),
        frequency_total(tally_entries(tally.values@, tally.counts@)) == tally.present,
{
    let ghost all = views_of(column_values@);
    let mut values: Vec<String> = Vec::new();
    let mut counts: Vec<usize> = Vec::new();
    let mut missing: usize = 0;
    let mut present: usize = 0;
    let mut i: usize = 0;
    proof {
        assert(tally_entries(values@, counts@) == Seq::<FrequencyEntry>::empty());
    }
    while i < column_values.len()
        invariant
            i <= column_values.len(),
            views_of(values@) == distinct_values(present_values(all.take(i as int))),
            counts.len() == values.len(),
            forall|j: int|
                0 <= j < values.len() ==> (#[trigger] counts[j]) == occurrences(
                    present_values(all.take(i as int)),
                    values[j]@,
                ),
            present == present_values(all.take(i as int)).len(),
            present + missing == i,
            frequency_total(tally_entries(values@, counts@)) == present,
        decreases column_values.len() - i,
    {
        let ghost seen = present_values(all.take(i as int));
        let ghost first_seen = distinct_values(seen);
        let ghost entries = tally_entries(values@, counts@);
        proof {
            assert(all.take(i + 1).drop_last() == all.take(i as int));
            assert(all.take(i + 1).last() == column_values@[i as int]@);
            lemma_distinct_values(seen);
        }
        let content = trimmed(column_values[i].as_str());
        if content.as_str().is_empty() {
            missing += 1;
        } else {
            let ghost longer = seen.push(content@);
            proof {
                assert(longer.drop_last() == seen);
                assert(longer.last() == content@);
            }
            match find_value(&values, &content) {
                Some(j) => {
                    proof {
                        assert(views_of(values@)[j as int] == content@);
                        assert(first_seen.contains(content@));
                        lemma_total_after_increment(entries, j as int);
                    }
                    let raised = counts[j] + 1;
                    counts.set(j, raised);
                    proof {
                        assert(tally_entries(values@, counts@) == entries.update(
                            j as int,
                            FrequencyEntry { value: entries[j as int].value, count: entries[j
                                as int].count + 1 },
                        ));
                        assert forall|k: int| 0 <= k < values.len() implies (#[trigger] counts[k])
                            == occurrences(longer, values[k]@) by {
                            if k != j {
                                assert(views_of(values@)[k] != views_of(values@)[j as int]);
                            }
                        }
                    }
                },
                None => {
                    let ghost earlier = views_of(values@);
                    proof {
                        assert(occurrences(seen, content@) == 0);
                    }
                    values.push(content);
                    counts.push(1);
                    proof {
                        assert(views_of(values@) == earlier.push(content@));
                        assert(tally_entries(values@, counts@) == entries.push(
                            FrequencyEntry { value: content@, count: 1 },
                        ));
                        assert(tally_entries(values@, counts@).drop_last() == entries);
                        assert forall|k: int| 0 <= k < values.len() implies (#[trigger] counts[k])
                            == occurrences(longer, values[k]@) by {
                            if k < earlier.len() {
                                assert(earlier[k] == values[k]@);
                                assert(earlier.contains(values[k]@));
                            }
                        }
                    }
                },
            }
            present += 1;
        }
        i += 1;
    }
    assert(all.take(column_values.len() as int) == all);
    ValueTally { values, counts, missing, present }
}

/// Ranks the values of a tally: the larger count first, and among equal
/// counts the value that stands first in the tally. Each entry gets its share
/// of `total`.
#[verifier::loop_isolation(false)]
pub fn rank_frequencies(values: &Vec<String>, counts: &Vec<usize>, total: usize) -> (ranking: Vec<
    CategoricalValueFrequency,
>)
    requires
        values.len() == counts.len(),
        views_of(values@).no_duplicates(),
    ensures
        ranking.len() == values.len(),
        forall|a: int|
            0 <= a < ranking.len() ==> {
                let at = views_of(values@).index_of((#[trigger] ranking[a]).value@);
                &&& views_of(values@).contains(ranking[a].value@)
                &&& ranking[a].count == counts[at]
                &&& ranking[a].percentage == (Percentage { part: counts[at], whole: total })
            },
        forall|j: int|
            0 <= j < values.len() ==> holds_value(entries_of(ranking@), #[trigger] values[j]@),
        forall|a: int, b: int|
            0 <= a < b < ranking.len() ==> ranks_before(
                views_of(values@),
                (#[trigger] ranking[a])@,
                (#[trigger] ranking[b])@,
            ),
        frequency_total(entries_of(ranking@)) == frequency_total(tally_entries(values@, counts@)),
{
    let ghost first_seen = views_of(values@);
    let ghost table = tally_entries(values@, counts@);
    let mut ranking: Vec<CategoricalValueFrequency> = Vec::new();
    // For each place of the ranking, the place of its value in the tally, and
    // the other way round.
    let ghost mut origin: Seq<int> = Seq::empty();
    let ghost mut place: Seq<int> = Seq::empty();
    let mut k: usize = 0;
    proof {
        assert(entries_of(ranking@) == Seq::<FrequencyEntry>::empty());
        assert(table.take(0) == Seq::<FrequencyEntry>::empty());
    }
    while k < values.len()
        invariant
            k <= values.len(),
            ranking.len() == k,
            origin.len() == k,
            place.len() == k,
            forall|a: int|
                0 <= a < k ==> 0 <= (#[trigger] origin[a]) < k && ranking[a].value@
                    == values[origin[a]]@ && ranking[a].count == counts[origin[a]]
                    && ranking[a].percentage == (Percentage {
                    part: counts[origin[a]],
                    whole: total,
                }),
            forall|j: int| 0 <= j < k ==> 0 <= (#[trigger] place[j]) < k && origin[place[j]] == j,
            forall|a: int, b: int|
                0 <= a < b < k ==> (#[trigger] ranking[a]).count > (#[trigger] ranking[b]).count
                    || (ranking[a].count == ranking[b].count && origin[a] < origin[b]),
            frequency_total(entries_of(ranking@)) == frequency_total(table.take(k as int)),
        decreases values.len() - k,
    {
        let count = counts[k];
        let mut at: usize = 0;
        while at < ranking.len() && ranking[at].count >= count
            invariant
                at <= ranking.len(),
                forall|a: int| 0 <= a < at ==> (#[trigger] ranking[a]).count >= count,
            decreases ranking.len() - at,
        {
            at += 1;
        }
        let entry = CategoricalValueFrequency {
            value: values[k].clone(),
            count,
            percentage: Percentage { part: count, whole: total },
        };
        let ghost old_ranking = ranking@;
        let ghost old_origin = origin;
        let ghost old_place = place;
        ranking.insert(at, entry);
        proof {
            origin = old_origin.insert(at as int, k as int);
            place = Seq::new(
                k as nat,
                |j: int|
                    if old_place[j] >= at {
                        old_place[j] + 1
                    } else {
                        old_place[j]
                    },
            ).push(at as int);
            assert forall|a: int| 0 <= a < k + 1 implies 0 <= (#[trigger] origin[a]) < k + 1
                && ranking[a].value@ == values[origin[a]]@ && ranking[a].count
                == counts[origin[a]] && ranking[a].percentage == (Percentage {
                part: counts[origin[a]],
                whole: total,
            }) by {
                if a < at {
                    assert(ranking[a] == old_ranking[a]);
                    assert(origin[a] == old_origin[a]);
                } else if a > at {
                    assert(ranking[a] == old_ranking[a - 1]);
                    assert(origin[a] == old_origin[a - 1]);
                }
            }
            assert forall|j: int| 0 <= j < k + 1 implies 0 <= (#[trigger] place[j]) < k + 1
                && origin[place[j]] == j by {
                if j < k {
                    let before = old_place[j];
                    assert(old_origin[before] == j);
                }
            }
            assert forall|a: int, b: int| 0 <= a < b < k + 1 implies (#[trigger] ranking[a]).count
                > (#[trigger] ranking[b]).count || (ranking[a].count == ranking[b].count
                && origin[a] < origin[b]) by {
                let before_a = if a < at {
                    a
                } else {
                    a - 1
                };
                let before_b = if b < at {
                    b
                } else {
                    b - 1
                };
                if a != at {
                    assert(ranking[a] == old_ranking[before_a]);
                    assert(origin[a] == old_origin[before_a]);
                }
                if b != at {
                    assert(ranking[b] == old_ranking[before_b]);
                    assert(origin[b] == old_origin[before_b]);
                }
                if a == at {
                    // What follows the new entry counts less than it does.
                    assert(at < old_ranking.len());
                    assert(old_ranking[at as int].count < count);
                    if before_b > at {
                        assert(old_ranking[at as int].count >= old_ranking[before_b].count);
                    }
                } else if b == at {
                    assert(old_ranking[a].count >= count);
                    assert(old_origin[a] < k);
                }
            }
            assert(entries_of(ranking@) == entries_of(old_ranking).insert(at as int, entry@));
            lemma_total_after_insert(entries_of(old_ranking), at as int, entry@);
            assert(table.take(k + 1).drop_last() == table.take(k as int));
            assert(table.take(k + 1).last() == entry@);
        }
        k += 1;
    }
    proof {
        assert(table.take(values.len() as int) == table);
        assert forall|a: int| 0 <= a < ranking.len() implies {
            let found = first_seen.index_of((#[trigger] ranking[a]).value@);
            &&& first_seen.contains(ranking[a].value@)
            &&& ranking[a].count == counts[found]
            &&& ranking[a].percentage == (Percentage { part: counts[found], whole: total })
        } by {
            lemma_place_of_value(first_seen, origin[a]);
            assert(first_seen[origin[a]] == ranking[a].value@);
        }
        assert forall|j: int| 0 <= j < values.len() implies holds_value(
            entries_of(ranking@),
            #[trigger] values[j]@,
        ) by {
            let a = place[j];
            assert(origin[a] == j);
            assert(entries_of(ranking@)[a].value == values[j]@);
        }
        assert forall|a: int, b: int| 0 <= a < b < ranking.len() implies ranks_before(
            first_seen,
            (#[trigger] ranking[a])@,
            (#[trigger] ranking[b])@,
        ) by {
            lemma_place_of_value(first_seen, origin[a]);
            lemma_place_of_value(first_seen, origin[b]);
            assert(first_seen[origin[a]] == ranking[a].value@);
            assert(first_seen[origin[b]] == ranking[b].value@);
        }
    }
    ranking
}

/// In a sequence without duplicates every value is found at its own place.
pub proof fn lemma_place_of_value(values: Seq<Seq<char>>, at: int)
    requires
        values.no_duplicates(),
        0 <= at < values.len(),
    ensures
        values.contains(values[at]),
        values.index_of(values[at]) == at,
{
    assert(values.contains(values[at]));
    let found = values.index_of(values[at]);
    assert(0 <= found < values.len() && values[found] == values[at]);
}

/// What the statistics of a categorical column are for the values given.
pub open spec fn describes_categories(
    values: Seq<Seq<char>>,
    statistics: CategoricalColumnStatistics,
) -> bool {
    let present = present_values(values);
    let entries = entries_of(statistics.value_frequencies@);
    &&& is_ranking(present, entries)
    &&& statistics.unique_value_count == distinct_values(present).len()
    &&& forall|a: int|
        0 <= a < statistics.value_frequencies.len() ==> (
        #[trigger] statistics.value_frequencies[a]).percentage == (Percentage {
            part: statistics.value_frequencies[a].count,
            whole: present.len() as usize,
        })
    &&& statistics.missing_percentage == (Percentage {
        part: missing_count(values) as usize,
        whole: values.len() as usize,
    })
    &&& frequency_total(entries) + missing_count(values) == values.len()
    &&& match statistics.mode_value {
        Some(mode) => entries.len() > 0 && mode@ == entries[0].value && statistics.mode_percentage
            == statistics.value_frequencies[0].percentage,
        None => entries.len() == 0 && statistics.mode_percentage == (Percentage {
            part: 0,
            whole: 0,
        }),
    }
}

/// The statistics of a categorical column: its different values ranked by
/// how often they occur, the most frequent of them, and the share of empty
/// values.
pub fn calculate_categorical_statistics(column_values: &Vec<String>) -> (statistics:
    CategoricalColumnStatistics)
    ensures
        describes_categories(views_of(column_values@), statistics),
{
    let ghost values = views_of(column_values@);
    let ghost present = present_values(values);
    let tally = tally_values(column_values);
    proof {
        lemma_distinct_values(present);
    }
    let value_frequencies = rank_frequencies(&tally.values, &tally.counts, tally.present);
    let ghost entries = entries_of(value_frequencies@);
    proof {
        let first_seen = distinct_values(present);
        assert forall|a: int| 0 <= a < entries.len() implies first_seen.contains(
            (#[trigger] entries[a]).value,
        ) && entries[a].count == occurrences(present, entries[a].value) by {
            let found = first_seen.index_of(value_frequencies[a].value@);
            assert(first_seen.contains(value_frequencies[a].value@));
            assert(first_seen[found] == tally.values[found]@);
        }
        assert forall|j: int| 0 <= j < first_seen.len() implies holds_value(
            entries,
            #[trigger] first_seen[j],
        ) by {
            assert(first_seen[j] == tally.values[j]@);
        }
        assert forall|a: int, b: int| 0 <= a < b < entries.len() implies ranks_before(
            first_seen,
            #[trigger] entries[a],
            #[trigger] entries[b],
        ) by {
            assert(entries[a] == value_frequencies[a]@);
            assert(entries[b] == value_frequencies[b]@);
        }
    }
    let (mode_value, mode_percentage) = if value_frequencies.len() > 0 {
        (Some(value_frequencies[0].value.clone()), value_frequencies[0].percentage)
    } else {
        (None, Percentage { part: 0, whole: 0 })
    };
    CategoricalColumnStatistics {
        unique_value_count: tally.values.len(),
        value_frequencies,
        missing_percentage: Percentage { part: tally.missing, whole: column_values.len() },
        mode_value,
        mode_percentage,
    }
}

/// The values of a column have one ranking only.
pub proof fn lemma_ranking_unique(
    present: Seq<Seq<char>>,
    first: Seq<FrequencyEntry>,
    second: Seq<FrequencyEntry>,
)
    requires
        is_ranking(present, first),
        is_ranking(present, second),
    ensures
        first == second,
{
    lemma_rankings_agree(present, first, second, first.len() as int);
    assert(first =~= second);
}

/// Two rankings of the same values agree in their first `count` entries.
proof fn lemma_rankings_agree(
    present: Seq<Seq<char>>,
    first: Seq<FrequencyEntry>,
    second: Seq<FrequencyEntry>,
    count: int,
)
    requires
        is_ranking(present, first),
        is_ranking(present, second),
        0 <= count <= first.len(),
    ensures
        forall|k: int| 0 <= k < count ==> first[k] == second[k],
    decreases count,
{
    if count > 0 {
        lemma_rankings_agree(present, first, second, count - 1);
        let i = count - 1;
        let first_seen = distinct_values(present);
        let x = first[i].value;
        let y = second[i].value;
        // Each ranking holds the value that the other has at this place.
        assert(first_seen.contains(x));
        let jx = choose|j: int| 0 <= j < first_seen.len() && first_seen[j] == x;
        assert(holds_value(second, first_seen[jx]));
        let b = choose|b: int| 0 <= b < second.len() && (#[trigger] second[b]).value == x;
        assert(first_seen.contains(y));
        let jy = choose|j: int| 0 <= j < first_seen.len() && first_seen[j] == y;
        assert(holds_value(first, first_seen[jy]));
        let a = choose|a: int| 0 <= a < first.len() && (#[trigger] first[a]).value == y;
        if b < i {
            // The value would stand twice in the first ranking.
            assert(first[b] == second[b]);
            assert(ranks_before(first_seen, first[b], first[i]));
        } else if a < i {
            assert(first[a] == second[a]);
            assert(ranks_before(first_seen, second[a], second[i]));
        } else if b > i && a > i {
            // Each value would come before the other.
            assert(ranks_before(first_seen, second[i], second[b]));
            assert(ranks_before(first_seen, first[i], first[a]));
            assert(second[b].count == first[i].count);
            assert(first[a].count == second[i].count);
        } else if b == i {
            assert(second[i].count == first[i].count);
        } else {
            assert(first[i].count == second[i].count);
        }
    }
}

} // verus!

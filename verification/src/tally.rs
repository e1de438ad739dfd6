//! Counting how often each text occurs in a list, and ranking the counts.

use vstd::prelude::*;
use crate::lexical::{
    lemma_text_before_asymmetric, lemma_text_before_chain, lemma_text_before_total, text_before, text_lt,
};
use crate::sort::{
    lemma_sorted_seq_in_order, lemma_sorted_seq_members, lemma_sorted_seq_pairwise, lemma_sorted_seq_permutes,
    sort, sorted_seq, Ranked,
};
use crate::text::{chars_of, same_text, texts};

verus! {

/// How often `key` occurs in `items`.
pub open spec fn occurrences(items: Seq<Seq<char>>, key: Seq<char>) -> nat
    decreases items.len(),
{
    if items.len() == 0 {
        0
    } else {
        occurrences(items.drop_last(), key) + if items.last() == key {
            1nat
        } else {
            0nat
        }
    }
}

/// A count as far as a `usize` can hold it.
pub open spec fn capped(n: nat) -> usize {
    if n > usize::MAX {
        usize::MAX
    } else {
        n as usize
    }
}

/// Whether `key` is the text of one of `keys`.
pub open spec fn known(keys: Seq<String>, key: Seq<char>) -> bool {
    exists|i: int| 0 <= i < keys.len() && (#[trigger] keys[i])@ == key
}

/// Whether `rows` has a row for `key`.
pub open spec fn has_row(rows: Seq<(String, usize)>, key: Seq<char>) -> bool {
    exists|i: int| 0 <= i < rows.len() && (#[trigger] rows[i]).0@ == key
}

/// `rows` counts `items`: it has one row for each text that occurs in
/// `items`, with the number of its occurrences, and no other row.
pub open spec fn counts_of(rows: Seq<(String, usize)>, items: Seq<Seq<char>>) -> bool {
    &&& forall|i: int, j: int| 0 <= i < j < rows.len() ==> differ(#[trigger] rows[i], #[trigger] rows[j])
    &&& forall|i: int| 0 <= i < rows.len() ==> counted(#[trigger] rows[i], items)
    &&& forall|k: int| 0 <= k < items.len() ==> has_row(rows, #[trigger] items[k])
}

/// Two rows are for different texts.
pub open spec fn differ(a: (String, usize), b: (String, usize)) -> bool {
    a.0@ != b.0@
}

/// The row holds the number of occurrences of its text, which is not zero.
pub open spec fn counted(row: (String, usize), items: Seq<Seq<char>>) -> bool {
    occurrences(items, row.0@) > 0 && row.1 == capped(occurrences(items, row.0@))
}

/// The order of a ranking: the higher count first, and of two rows with the
/// same count the one whose text comes first.
pub open spec fn outranks(a: (String, usize), b: (String, usize)) -> bool {
    a.1 > b.1 || (a.1 == b.1 && text_before(a.0@, b.0@))
}

impl Ranked for (String, usize) {
    open spec fn before(&self, other: &Self) -> bool {
        outranks(*self, *other)
    }

    fn is_before(&self, other: &Self) -> (r: bool) {
        self.1 > other.1 || (self.1 == other.1 && text_lt(&chars_of(self.0.as_str()), &chars_of(other.0.as_str())))
    }

    proof fn lemma_asymmetric(a: &Self, b: &Self) {
        if a.1 == b.1 {
            lemma_text_before_asymmetric(a.0@, b.0@);
        }
    }

    proof fn lemma_chain(a: &Self, b: &Self, c: &Self) {
        if a.1 == b.1 && b.1 == c.1 {
            lemma_text_before_chain(a.0@, b.0@, c.0@);
        }
    }
}

/// `rows` is a ranking: no row is outranked by a later one.
pub open spec fn ranked(rows: Seq<(String, usize)>) -> bool {
    forall|i: int, j: int| 0 <= i < j < rows.len() ==> !outranks(#[trigger] rows[j], #[trigger] rows[i])
}

/// In a ranking of rows for different texts each row outranks every later
/// one: the order of a ranking is strict, with no two rows on a par.
pub proof fn lemma_ranking_is_strict(rows: Seq<(String, usize)>, i: int, j: int)
    requires
        ranked(rows),
        forall|i: int, j: int| 0 <= i < j < rows.len() ==> differ(#[trigger] rows[i], #[trigger] rows[j]),
        0 <= i < j < rows.len(),
    ensures
        outranks(rows[i], rows[j]),
{
    assert(!outranks(rows[j], rows[i]));
    assert(differ(rows[i], rows[j]));
    if rows[i].1 == rows[j].1 && !text_before(rows[i].0@, rows[j].0@) {
        lemma_text_before_total(rows[i].0@, rows[j].0@);
    }
}

/// One more item adds one occurrence of its text.
pub proof fn lemma_occurrences_push(items: Seq<Seq<char>>, item: Seq<char>, key: Seq<char>)
    ensures
        occurrences(items.push(item), key) == occurrences(items, key) + if item == key {
            1nat
        } else {
            0nat
        },
{
    assert(items.push(item).drop_last() =~= items);
}

/// A text that does not occur has no occurrences; one that occurs has some.
pub proof fn lemma_occurrences_positive(items: Seq<Seq<char>>, key: Seq<char>)
    ensures
        occurrences(items, key) > 0 <==> exists|k: int| 0 <= k < items.len() && items[k] == key,
    decreases items.len(),
{
    if items.len() > 0 {
        lemma_occurrences_positive(items.drop_last(), key);
        if occurrences(items.drop_last(), key) > 0 {
            let k = choose|k: int| 0 <= k < items.drop_last().len() && items.drop_last()[k] == key;
            assert(items[k] == key);
        }
        if exists|k: int| 0 <= k < items.len() && items[k] == key {
            let k = choose|k: int| 0 <= k < items.len() && items[k] == key;
            if k < items.len() - 1 {
                assert(items.drop_last()[k] == key);
            }
        }
    }
}

/// Sorting the rows of a count gives the ranking of the count.
pub proof fn lemma_sorted_counts(rows: Seq<(String, usize)>, items: Seq<Seq<char>>)
    requires
        counts_of(rows, items),
    ensures
        counts_of(sorted_seq(rows), items),
        ranked(sorted_seq(rows)),
{
    let out = sorted_seq(rows);
    lemma_sorted_seq_permutes(rows);
    lemma_sorted_seq_members(rows);
    lemma_sorted_seq_in_order(rows);
    let rel = |a: (String, usize), b: (String, usize)| differ(a, b);
    assert forall|i: int, j: int| 0 <= i < j < rows.len() implies #[trigger] rel(rows[i], rows[j]) by {
        assert(differ(rows[i], rows[j]));
    }
    lemma_sorted_seq_pairwise(rows, rel);
    assert forall|i: int, j: int| 0 <= i < j < out.len() implies differ(
        #[trigger] out[i],
        #[trigger] out[j],
    ) by {
        assert(rel(out[i], out[j]));
    }
    assert forall|i: int| 0 <= i < out.len() implies counted(#[trigger] out[i], items) by {
        assert(out.contains(out[i]));
        assert(rows.contains(out[i]));
        let m = choose|m: int| 0 <= m < rows.len() && rows[m] == out[i];
        assert(counted(rows[m], items));
    }
    assert forall|k: int| 0 <= k < items.len() implies has_row(out, #[trigger] items[k]) by {
        assert(has_row(rows, items[k]));
        let m = choose|m: int| 0 <= m < rows.len() && (#[trigger] rows[m]).0@ == items[k];
        assert(rows.contains(rows[m]));
        assert(out.contains(rows[m]));
        let n = choose|n: int| 0 <= n < out.len() && out[n] == rows[m];
        assert(out[n].0@ == items[k]);
    }
    assert forall|i: int, j: int| 0 <= i < j < out.len() implies !outranks(
        #[trigger] out[j],
        #[trigger] out[i],
    ) by {
        assert(!out[j].before(&out[i]));
    }
}

/// Counts the occurrences of each text of `items`. The rows stand in the
/// order in which the texts first occur.
pub fn tally(items: &Vec<String>) -> (out: Vec<(String, usize)>)
    ensures
        counts_of(out@, texts(items@)),
{
    let ghost all = texts(items@);
    let mut keys: Vec<String> = Vec::new();
    let mut counts: Vec<usize> = Vec::new();
    let mut k: usize = 0;
    assert(all.take(0) =~= Seq::<Seq<char>>::empty());
    while k < items.len()
        invariant
            k <= items.len(),
            all == texts(items@),
            keys.len() == counts.len(),
            forall|i: int, j: int| 0 <= i < j < keys.len() ==> keys@[i]@ != keys@[j]@,
            forall|i: int|
                0 <= i < keys.len() ==> occurrences(all.take(k as int), (#[trigger] keys@[i])@) > 0
                    && counts@[i] == capped(occurrences(all.take(k as int), keys@[i]@)),
            forall|m: int| 0 <= m < k ==> known(keys@, #[trigger] all[m]),
        decreases items.len() - k,
    {
        let item = &items[k];
        let ghost seen = all.take(k as int);
        let ghost next = all.take(k + 1);
        proof {
            assert(next =~= seen.push(item@));
            assert forall|key: Seq<char>|
                occurrences(next, key) == occurrences(seen, key) + if item@ == key {
                    1nat
                } else {
                    0nat
                } by {
                lemma_occurrences_push(seen, item@, key);
            }
        }
        let wanted = chars_of(item.as_str());
        let mut at: usize = 0;
        while at < keys.len() && !same_text(&chars_of(keys[at].as_str()), &wanted)
            invariant
                at <= keys.len(),
                wanted@ == item@,
                forall|i: int| 0 <= i < at ==> (#[trigger] keys@[i])@ != item@,
            decreases keys.len() - at,
        {
            at += 1;
        }
        let ghost before = keys@;
        if at < keys.len() {
            let count = counts[at];
            let bumped = if count < usize::MAX {
                count + 1
            } else {
                count
            };
            counts.set(at, bumped);
            assert(keys@[at as int]@ == all[k as int]);
        } else {
            proof {
                lemma_occurrences_positive(seen, item@);
                if occurrences(seen, item@) > 0 {
                    let m = choose|m: int| 0 <= m < seen.len() && seen[m] == item@;
                    assert(all[m] == item@);
                }
            }
            keys.push(item.clone());
            counts.push(1);
            assert(keys@[keys.len() - 1]@ == all[k as int]);
        }
        proof {
            assert forall|m: int| 0 <= m < k + 1 implies known(keys@, #[trigger] all[m]) by {
                if m < k {
                    assert(known(before, all[m]));
                    let i = choose|i: int| 0 <= i < before.len() && (#[trigger] before[i])@ == all[m];
                    assert(keys@[i]@ == all[m]);
                }
            }
        }
        k += 1;
    }
    assert(all.take(k as int) =~= all);
    let mut out: Vec<(String, usize)> = Vec::new();
    let ghost names = keys@;
    broadcast use vstd::std_specs::vec::axiom_spec_into_iter;

    for key in it: keys.into_iter()
        invariant
            it.seq() == names,
            names.len() == counts.len(),
            out.len() == it.index(),
            forall|j: int| 0 <= j < it.index() ==> #[trigger] out@[j] == (names[j], counts@[j]),
    {
        let n = out.len();
        out.push((key, counts[n]));
    }
    proof {
        assert forall|m: int| 0 <= m < all.len() implies has_row(out@, #[trigger] all[m]) by {
            assert(known(names, all[m]));
            let i = choose|i: int| 0 <= i < names.len() && (#[trigger] names[i])@ == all[m];
            assert(out@[i].0@ == all[m]);
        }
    }
    out
}

/// The count of `items` as a ranking: the text that occurs most often first,
/// and of texts that occur equally often the one that comes first in
/// lexicographic order.
pub fn ranking(items: &Vec<String>) -> (out: Vec<(String, usize)>)
    ensures
        counts_of(out@, texts(items@)),
        ranked(out@),
{
    let mut rows = tally(items);
    proof {
        lemma_sorted_counts(rows@, texts(items@));
    }
    sort(&mut rows);
    rows
}

} // verus!

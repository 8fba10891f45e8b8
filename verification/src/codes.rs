//! Histograms of status codes: lists of `(code, count)` pairs, merged by code
//! and ordered by count.

use vstd::prelude::*;
use crate::decimal::clamp_u64;

verus! {

/// The place of the first pair of `list` with the code `code`; the length of
/// `list` where no pair has it.
pub open spec fn code_index(list: Seq<(u32, u64)>, code: u32) -> int
    decreases list.len(),
{
    if list.len() == 0 || list[0].0 == code {
        0
    } else {
        1 + code_index(list.drop_first(), code)
    }
}

/// A place is `code_index` where it holds the code, or is the end, and no
/// place before it holds the code.
pub proof fn lemma_code_index(list: Seq<(u32, u64)>, code: u32, at: int)
    requires
        0 <= at <= list.len(),
        forall|i: int| 0 <= i < at ==> list[i].0 != code,
        at < list.len() ==> list[at].0 == code,
    ensures
        code_index(list, code) == at,
    decreases at,
{
    if at > 0 {
        lemma_code_index(list.drop_first(), code, at - 1);
    }
}

/// Adds one pair to a histogram: its count goes to the pair that already has
/// its code, or the pair is appended. A count stops at `u64::MAX`.
pub open spec fn merge_entry(acc: Seq<(u32, u64)>, entry: (u32, u64)) -> Seq<(u32, u64)> {
    let at = code_index(acc, entry.0);
    if at < acc.len() {
        acc.update(at, (entry.0, clamp_u64((acc[at].1 + entry.1) as nat)))
    } else {
        acc.push(entry)
    }
}

/// Adds the pairs of `entries` to a histogram, first to last.
pub open spec fn merge_entries(acc: Seq<(u32, u64)>, entries: Seq<(u32, u64)>) -> Seq<(u32, u64)>
    decreases entries.len(),
{
    if entries.len() == 0 {
        acc
    } else {
        merge_entry(merge_entries(acc, entries.drop_last()), entries.last())
    }
}

/// Adds the pairs of `entries` to the histogram `acc`.
pub fn merge_into(acc: &mut Vec<(u32, u64)>, entries: &Vec<(u32, u64)>)
    ensures
        final(acc)@ == merge_entries(old(acc)@, entries@),
{
    let mut k: usize = 0;
    while k < entries.len()
        invariant
            k <= entries.len(),
            acc@ == merge_entries(old(acc)@, entries@.subrange(0, k as int)),
        decreases entries.len() - k,
    {
        let entry = entries[k];
        assert(entries@.subrange(0, k + 1).drop_last() == entries@.subrange(0, k as int));
        assert(entries@.subrange(0, k + 1).last() == entry);
        let mut at: usize = 0;
        while at < acc.len() && acc[at].0 != entry.0
            invariant
                at <= acc.len(),
                forall|i: int| 0 <= i < at ==> acc@[i].0 != entry.0,
            decreases acc.len() - at,
        {
            at += 1;
        }
        proof {
            lemma_code_index(acc@, entry.0, at as int);
        }
        if at < acc.len() {
            let sum = acc[at].1.saturating_add(entry.1);
            acc.set(at, (entry.0, sum));
        } else {
            acc.push(entry);
        }
        k += 1;
    }
    assert(entries@.subrange(0, entries.len() as int) == entries@);
}

/// The place of the first pair of `list` whose count is below `count`; the
/// length of `list` where there is none.
pub open spec fn first_below(list: Seq<(u32, u64)>, count: u64) -> int
    decreases list.len(),
{
    if list.len() == 0 || list[0].1 < count {
        0
    } else {
        1 + first_below(list.drop_first(), count)
    }
}

/// A place is `first_below` where its count is below `count`, or it is the
/// end, and no count before it is.
pub proof fn lemma_first_below(list: Seq<(u32, u64)>, count: u64, at: int)
    requires
        0 <= at <= list.len(),
        forall|i: int| 0 <= i < at ==> list[i].1 >= count,
        at < list.len() ==> list[at].1 < count,
    ensures
        first_below(list, count) == at,
    decreases at,
{
    if at > 0 {
        lemma_first_below(list.drop_first(), count, at - 1);
    }
}

/// Puts `entry` behind every pair whose count is at least its own.
pub open spec fn insert_by_count(sorted: Seq<(u32, u64)>, entry: (u32, u64)) -> Seq<(u32, u64)> {
    sorted.insert(first_below(sorted, entry.1), entry)
}

/// The pairs of `list` by descending count; pairs of equal count keep the
/// order they had in `list`.
pub open spec fn sorted_by_count(list: Seq<(u32, u64)>) -> Seq<(u32, u64)>
    decreases list.len(),
{
    if list.len() == 0 {
        Seq::empty()
    } else {
        insert_by_count(sorted_by_count(list.drop_last()), list.last())
    }
}

/// No pair has a higher count than a pair before it.
pub open spec fn is_descending(list: Seq<(u32, u64)>) -> bool {
    forall|i: int, j: int| 0 <= i < j < list.len() ==> list[i].1 >= list[j].1
}

/// Orders the pairs of `list` by descending count, keeping the order of pairs
/// of equal count.
pub fn sort_by_count(list: &Vec<(u32, u64)>) -> (r: Vec<(u32, u64)>)
    ensures
        r@ == sorted_by_count(list@),
{
    let mut out: Vec<(u32, u64)> = Vec::new();
    let mut k: usize = 0;
    while k < list.len()
        invariant
            k <= list.len(),
            out@ == sorted_by_count(list@.subrange(0, k as int)),
        decreases list.len() - k,
    {
        let entry = list[k];
        assert(list@.subrange(0, k + 1).drop_last() == list@.subrange(0, k as int));
        assert(list@.subrange(0, k + 1).last() == entry);
        let mut at: usize = 0;
        while at < out.len() && out[at].1 >= entry.1
            invariant
                at <= out.len(),
                forall|i: int| 0 <= i < at ==> out@[i].1 >= entry.1,
            decreases out.len() - at,
        {
            at += 1;
        }
        proof {
            lemma_first_below(out@, entry.1, at as int);
        }
        out.insert(at, entry);
        k += 1;
    }
    assert(list@.subrange(0, list.len() as int) == list@);
    out
}

/// `first_below` is a place of the list or its end; the counts before it are
/// at least `count`, and the count at it is below.
pub proof fn lemma_first_below_is_first(list: Seq<(u32, u64)>, count: u64)
    ensures
        0 <= first_below(list, count) <= list.len(),
        forall|i: int| 0 <= i < first_below(list, count) ==> list[i].1 >= count,
        first_below(list, count) < list.len() ==> list[first_below(list, count)].1 < count,
    decreases list.len(),
{
    if list.len() > 0 && list[0].1 >= count {
        let rest = list.drop_first();
        lemma_first_below_is_first(rest, count);
        assert forall|i: int| 0 <= i < first_below(list, count) implies list[i].1 >= count by {
            if i > 0 {
                assert(list[i] == rest[i - 1]);
            }
        }
    }
}

/// Sorting keeps every pair, as often as it occurred, and puts the pairs by
/// descending count.
pub proof fn lemma_sorted_by_count(list: Seq<(u32, u64)>)
    ensures
        is_descending(sorted_by_count(list)),
        sorted_by_count(list).to_multiset() == list.to_multiset(),
        sorted_by_count(list).len() == list.len(),
    decreases list.len(),
{
    broadcast use vstd::seq_lib::group_to_multiset_ensures;

    if list.len() == 0 {
        assert(sorted_by_count(list).to_multiset() =~= list.to_multiset());
    } else {
        let init = list.drop_last();
        let entry = list.last();
        let before = sorted_by_count(init);
        lemma_sorted_by_count(init);
        lemma_first_below_is_first(before, entry.1);
        let at = first_below(before, entry.1);
        let after = before.insert(at, entry);
        assert(after == sorted_by_count(list));
        assert forall|i: int, j: int| 0 <= i < j < after.len() implies after[i].1
            >= after[j].1 by {
            if j < at {
                assert(after[i] == before[i] && after[j] == before[j]);
            } else if j == at {
                assert(after[i] == before[i]);
            } else if i < at {
                assert(after[i] == before[i] && after[j] == before[j - 1]);
                if at < j - 1 {
                    assert(before[at].1 >= before[j - 1].1);
                }
            } else if i == at {
                assert(after[j] == before[j - 1]);
                if at < j - 1 {
                    assert(before[at].1 >= before[j - 1].1);
                }
            } else {
                assert(after[i] == before[i - 1] && after[j] == before[j - 1]);
            }
        }
        assert(after.remove(at) =~= before);
        assert(after[at] == entry);
        assert(before.to_multiset() =~= after.to_multiset().remove(entry));
        assert(after.contains(entry));
        assert(after.to_multiset() =~= before.to_multiset().insert(entry));
        assert(init.push(entry) =~= list);
        assert(list.to_multiset() =~= init.to_multiset().insert(entry));
    }
}

/// `code_index` is a place of the list or its end; no pair before it has the
/// code, and the pair at it has.
pub proof fn lemma_code_index_is_first(list: Seq<(u32, u64)>, code: u32)
    ensures
        0 <= code_index(list, code) <= list.len(),
        forall|i: int| 0 <= i < code_index(list, code) ==> list[i].0 != code,
        code_index(list, code) < list.len() ==> list[code_index(list, code)].0 == code,
    decreases list.len(),
{
    if list.len() > 0 && list[0].0 != code {
        let rest = list.drop_first();
        lemma_code_index_is_first(rest, code);
        assert forall|i: int| 0 <= i < code_index(list, code) implies list[i].0 != code by {
            if i > 0 {
                assert(list[i] == rest[i - 1]);
            }
        }
    }
}

/// No code occurs twice.
pub open spec fn distinct_codes(hist: Seq<(u32, u64)>) -> bool {
    forall|i: int, j: int| 0 <= i < j < hist.len() ==> hist[i].0 != hist[j].0
}

/// The count that a histogram holds for `code`; 0 where it holds none.
pub open spec fn count_in(hist: Seq<(u32, u64)>, code: u32) -> nat {
    if code_index(hist, code) < hist.len() {
        hist[code_index(hist, code)].1 as nat
    } else {
        0
    }
}

/// The counts that the pairs of `entries` give for `code`, added up.
pub open spec fn code_total(entries: Seq<(u32, u64)>, code: u32) -> nat
    decreases entries.len(),
{
    if entries.len() == 0 {
        0
    } else if entries.last().0 == code {
        code_total(entries.drop_last(), code) + entries.last().1 as nat
    } else {
        code_total(entries.drop_last(), code)
    }
}

/// Adding a pair to a histogram changes the count of its code alone, by the
/// count of the pair, and keeps the codes distinct.
pub proof fn lemma_merge_entry(acc: Seq<(u32, u64)>, entry: (u32, u64))
    requires
        distinct_codes(acc),
    ensures
        distinct_codes(merge_entry(acc, entry)),
        forall|code: u32|
            #[trigger] count_in(merge_entry(acc, entry), code) == (if code == entry.0 {
                clamp_u64(count_in(acc, code) + entry.1 as nat) as nat
            } else {
                count_in(acc, code)
            }),
{
    let merged = merge_entry(acc, entry);
    lemma_code_index_is_first(acc, entry.0);
    let at = code_index(acc, entry.0);
    assert forall|code: u32| #[trigger]
        count_in(merged, code) == (if code == entry.0 {
            clamp_u64(count_in(acc, code) + entry.1 as nat) as nat
        } else {
            count_in(acc, code)
        }) by {
        lemma_code_index_is_first(acc, code);
        let place = code_index(acc, code);
        if at < acc.len() {
            lemma_code_index(merged, code, place);
        } else if code == entry.0 {
            lemma_code_index(merged, code, place);
        } else if place < acc.len() {
            lemma_code_index(merged, code, place);
        } else {
            lemma_code_index(merged, code, place + 1);
        }
    }
}

/// A histogram that grows pair by pair from distinct codes holds, for every
/// code, what it held before and what the pairs give for it, cut off at
/// `u64::MAX`.
pub proof fn lemma_merge_entries(acc: Seq<(u32, u64)>, entries: Seq<(u32, u64)>)
    requires
        distinct_codes(acc),
    ensures
        distinct_codes(merge_entries(acc, entries)),
        forall|code: u32|
            #[trigger] count_in(merge_entries(acc, entries), code) == clamp_u64(
                count_in(acc, code) + code_total(entries, code),
            ),
    decreases entries.len(),
{
    if entries.len() == 0 {
        assert forall|code: u32| #[trigger]
            count_in(acc, code) == clamp_u64(count_in(acc, code) + code_total(entries, code)) by {}
    } else {
        let init = entries.drop_last();
        lemma_merge_entries(acc, init);
        lemma_merge_entry(merge_entries(acc, init), entries.last());
    }
}

/// The pairs of `list` whose count is `count`, in the order of `list`.
pub open spec fn with_count(list: Seq<(u32, u64)>, count: u64) -> Seq<(u32, u64)>
    decreases list.len(),
{
    if list.len() == 0 {
        Seq::empty()
    } else if list.last().1 == count {
        with_count(list.drop_last(), count).push(list.last())
    } else {
        with_count(list.drop_last(), count)
    }
}

proof fn lemma_with_count_add(a: Seq<(u32, u64)>, b: Seq<(u32, u64)>, count: u64)
    ensures
        with_count(a + b, count) == with_count(a, count) + with_count(b, count),
    decreases b.len(),
{
    if b.len() == 0 {
        assert(a + b =~= a);
        assert(with_count(a, count) + with_count(b, count) =~= with_count(a, count));
    } else {
        assert((a + b).drop_last() =~= a + b.drop_last());
        assert((a + b).last() == b.last());
        lemma_with_count_add(a, b.drop_last(), count);
        if b.last().1 == count {
            assert((with_count(a, count) + with_count(b.drop_last(), count)).push(b.last())
                =~= with_count(a, count) + with_count(b.drop_last(), count).push(b.last()));
        }
    }
}

proof fn lemma_with_count_none(list: Seq<(u32, u64)>, count: u64)
    requires
        forall|i: int| 0 <= i < list.len() ==> list[i].1 != count,
    ensures
        with_count(list, count) == Seq::<(u32, u64)>::empty(),
    decreases list.len(),
{
    if list.len() > 0 {
        let init = list.drop_last();
        assert forall|i: int| 0 <= i < init.len() implies init[i].1 != count by {
            assert(init[i] == list[i]);
        }
        lemma_with_count_none(init, count);
        assert(list[list.len() - 1].1 != count);
    }
}

/// Sorting is stable: the pairs of any one count stand in the sorted list in
/// the order they had before.
pub proof fn lemma_sorted_by_count_is_stable(list: Seq<(u32, u64)>, count: u64)
    ensures
        with_count(sorted_by_count(list), count) == with_count(list, count),
    decreases list.len(),
{
    if list.len() > 0 {
        let init = list.drop_last();
        let entry = list.last();
        let before = sorted_by_count(init);
        lemma_sorted_by_count_is_stable(init, count);
        lemma_sorted_by_count(init);
        lemma_first_below_is_first(before, entry.1);
        let at = first_below(before, entry.1);
        let head = before.subrange(0, at);
        let tail = before.subrange(at, before.len() as int);
        assert(before =~= head + tail);
        assert(before.insert(at, entry) =~= head + seq![entry] + tail);
        lemma_with_count_add(head, tail, count);
        lemma_with_count_add(head + seq![entry], tail, count);
        lemma_with_count_add(head, seq![entry], count);
        assert(seq![entry].drop_last() =~= Seq::<(u32, u64)>::empty());
        assert(with_count(seq![entry].drop_last(), count) =~= Seq::<(u32, u64)>::empty());
        if entry.1 == count {
            assert forall|i: int| 0 <= i < tail.len() implies tail[i].1 != count by {
                assert(tail[i] == before[at + i]);
                if i > 0 {
                    assert(before[at].1 >= before[at + i].1);
                }
            }
            lemma_with_count_none(tail, count);
            assert(with_count(seq![entry], count) =~= seq![entry]);
            assert(with_count(sorted_by_count(list), count) =~= with_count(before, count).push(
                entry,
            ));
        } else {
            assert(with_count(seq![entry], count) =~= Seq::<(u32, u64)>::empty());
            assert(with_count(sorted_by_count(list), count) =~= with_count(before, count));
        }
    }
}

} // verus!

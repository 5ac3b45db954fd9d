//! What holds of every merge: the output is one dense run from the lowest first version
//! to the highest last version, made of transactions of the batches, and a merge fails
//! exactly when the batches leave a version between them unserved.

use vstd::prelude::*;
use crate::sequencer::{
    absorb, end_of, has_empty_batch, has_sparse_batch, insertion_point,
    lemma_given_is_sorted, lemma_insertion_point_in_range, lemma_sort_keeps_len,
    lemma_sort_keeps_well_formed, lemma_sorted_was_given, merge, sequence, sort_by_start,
    start_of, well_formed, Merged, SequenceError,
};
use crate::transaction::{is_dense, is_run_from, Transaction};

verus! {

/// The batches come in ascending order of their first version.
pub open spec fn ordered_by_start(batches: Seq<Seq<Transaction>>) -> bool {
    forall|i: int, j: int|
        0 <= i < j < batches.len() ==> start_of(#[trigger] batches[i]) <= start_of(
            #[trigger] batches[j],
        )
}

/// The batch holds version `v`.
pub open spec fn covers(batch: Seq<Transaction>, v: int) -> bool {
    batch.len() > 0 && start_of(batch) <= v <= end_of(batch)
}

/// One of the first `k` batches holds version `v`.
pub open spec fn covered_by_first(batches: Seq<Seq<Transaction>>, k: int, v: int) -> bool {
    exists|i: int| 0 <= i < k && i < batches.len() && covers(#[trigger] batches[i], v)
}

/// One of the batches holds version `v`.
pub open spec fn covered(batches: Seq<Seq<Transaction>>, v: int) -> bool {
    covered_by_first(batches, batches.len() as int, v)
}

/// No batch holds version `v`, though one batch ends before it and another starts
/// behind it.
pub open spec fn is_gap_at(batches: Seq<Seq<Transaction>>, v: int) -> bool {
    &&& !covered(batches, v)
    &&& exists|a: int| 0 <= a < batches.len() && end_of(#[trigger] batches[a]) < v
    &&& exists|b: int| 0 <= b < batches.len() && start_of(#[trigger] batches[b]) > v
}

/// The batches leave some version between them unserved.
pub open spec fn has_gap(batches: Seq<Seq<Transaction>>) -> bool {
    exists|v: int| is_gap_at(batches, v)
}

/// The transaction is one of those in the batches.
pub open spec fn taken_from(batches: Seq<Seq<Transaction>>, t: Transaction) -> bool {
    exists|i: int, m: int|
        0 <= i < batches.len() && 0 <= m < batches[i].len() && (#[trigger] batches[i][m]) == t
}

/// `lo` is the lowest first version of the batches.
pub open spec fn is_lowest_start(batches: Seq<Seq<Transaction>>, lo: int) -> bool {
    &&& exists|i: int| 0 <= i < batches.len() && start_of(#[trigger] batches[i]) == lo
    &&& forall|i: int| 0 <= i < batches.len() ==> lo <= start_of(#[trigger] batches[i])
}

/// `hi` is the highest last version of the batches.
pub open spec fn is_highest_end(batches: Seq<Seq<Transaction>>, hi: int) -> bool {
    &&& exists|i: int| 0 <= i < batches.len() && end_of(#[trigger] batches[i]) == hi
    &&& forall|i: int| 0 <= i < batches.len() ==> end_of(#[trigger] batches[i]) <= hi
}

/// What holds of the run `acc` merged from the first `k` of the ordered batches.
pub open spec fn merged_from_first(sorted: Seq<Seq<Transaction>>, k: int, acc: Merged) -> bool {
    &&& acc.transactions.len() > 0
    &&& is_run_from(acc.transactions, start_of(sorted[0]))
    &&& is_highest_end(sorted.take(k), end_of(acc.transactions))
    &&& forall|v: int|
        start_of(sorted[0]) <= v <= end_of(acc.transactions) ==> #[trigger] covered_by_first(
            sorted,
            k,
            v,
        )
    &&& forall|j: int|
        0 <= j < acc.transactions.len() ==> taken_from(
            sorted.take(k),
            #[trigger] acc.transactions[j],
        )
}

/// What holds when the ordered batches run into a gap within the first `k`.
pub open spec fn gap_within_first(
    sorted: Seq<Seq<Transaction>>,
    k: int,
    prev_end: int,
    start_version: int,
) -> bool {
    exists|j: int|
        {
            &&& 1 <= j < k
            &&& start_version == start_of(#[trigger] sorted[j])
            &&& prev_end + 1 < start_version
            &&& forall|i: int| 0 <= i < j ==> end_of(#[trigger] sorted[i]) <= prev_end
        }
}

/// A dense batch ends at its first version plus its length less one.
pub proof fn lemma_dense_end(batch: Seq<Transaction>)
    requires
        batch.len() > 0,
        is_dense(batch),
    ensures
        end_of(batch) == start_of(batch) + batch.len() - 1,
        is_run_from(batch, start_of(batch)),
{
    assert(batch[batch.len() - 1].version == batch[0].version + (batch.len() - 1));
}

/// Sorting puts the batches in ascending order of their first version.
pub proof fn lemma_sort_orders(batches: Seq<Seq<Transaction>>)
    ensures
        ordered_by_start(sort_by_start(batches)),
    decreases batches.len(),
{
    if batches.len() > 0 {
        let tail = batches.drop_first();
        lemma_sort_orders(tail);
        lemma_sort_keeps_len(tail);
        let rest = sort_by_start(tail);
        let start = start_of(batches[0]);
        lemma_insertion_point_in_range(rest, start);
        let at = insertion_point(rest, start);
        let sorted = sort_by_start(batches);
        assert(sorted == rest.insert(at, batches[0]));
        assert forall|i: int, j: int| 0 <= i < j < sorted.len() implies start_of(
            #[trigger] sorted[i],
        ) <= start_of(#[trigger] sorted[j]) by {
            if i == at {
                assert(sorted[j] == rest[j - 1]);
                if j - 1 > at {
                    assert(start_of(rest[at]) <= start_of(rest[j - 1]));
                }
            } else if j == at {
                assert(sorted[i] == rest[i]);
            } else {
                let i0 = if i < at { i } else { i - 1 };
                let j0 = if j < at { j } else { j - 1 };
                assert(sorted[i] == rest[i0]);
                assert(sorted[j] == rest[j0]);
            }
        }
    }
}

/// The state of a merge after the first `k` of a set of ordered, well-formed batches:
/// either one dense run that covers them, or the gap at which it stopped.
pub proof fn lemma_merge_first(sorted: Seq<Seq<Transaction>>, k: int)
    requires
        well_formed(sorted),
        ordered_by_start(sorted),
        1 <= k <= sorted.len(),
    ensures
        match merge(sorted.take(k)) {
            Ok(acc) => merged_from_first(sorted, k, acc),
            Err(SequenceError::Gap { prev_end, start_version }) => gap_within_first(
                sorted,
                k,
                prev_end as int,
                start_version as int,
            ),
            Err(_) => false,
        },
    decreases k,
{
    let prefix = sorted.take(k);
    let batch = sorted[k - 1];
    assert(prefix.last() == batch);
    assert(prefix.drop_last() =~= sorted.take(k - 1));
    lemma_dense_end(batch);
    lemma_dense_end(sorted[0]);
    if k == 1 {
        assert(sorted.take(0) =~= Seq::<Seq<Transaction>>::empty());
        let acc = merge(prefix)->Ok_0;
        assert(acc.transactions == batch);
        assert(prefix[0] == batch);
        assert(end_of(prefix[0]) == end_of(acc.transactions));
        assert forall|v: int|
            start_of(sorted[0]) <= v <= end_of(acc.transactions) implies #[trigger] covered_by_first(
            sorted,
            k,
            v,
        ) by {
            assert(covers(sorted[0], v));
        }
        assert forall|j: int| 0 <= j < acc.transactions.len() implies taken_from(
            prefix,
            #[trigger] acc.transactions[j],
        ) by {
            assert(prefix[0][j] == acc.transactions[j]);
        }
    } else {
        lemma_merge_first(sorted, k - 1);
        match merge(sorted.take(k - 1)) {
            Ok(acc) => {
                lemma_absorb_next(sorted, k, acc);
            },
            Err(SequenceError::Gap { prev_end, start_version }) => {
                let j = choose|j: int|
                    {
                        &&& 1 <= j < k - 1
                        &&& start_version as int == start_of(#[trigger] sorted[j])
                        &&& prev_end as int + 1 < start_version as int
                        &&& forall|i: int| 0 <= i < j ==> end_of(#[trigger] sorted[i]) <= prev_end as int
                    };
                assert(1 <= j < k);
            },
            Err(_) => {},
        }
    }
}

/// One step of a merge: the batch at `k - 1` is absorbed into the run of those before it.
proof fn lemma_absorb_next(sorted: Seq<Seq<Transaction>>, k: int, acc: Merged)
    requires
        well_formed(sorted),
        ordered_by_start(sorted),
        2 <= k <= sorted.len(),
        merged_from_first(sorted, k - 1, acc),
    ensures
        match absorb(acc, sorted[k - 1]) {
            Ok(next) => merged_from_first(sorted, k, next),
            Err(SequenceError::Gap { prev_end, start_version }) => gap_within_first(
                sorted,
                k,
                prev_end as int,
                start_version as int,
            ),
            Err(_) => false,
        },
{
    let batch = sorted[k - 1];
    let before = sorted.take(k - 1);
    let prefix = sorted.take(k);
    lemma_dense_end(batch);
    let prev_start = start_of(acc.transactions);
    let prev_end = end_of(acc.transactions);
    let s = start_of(batch);
    let e = end_of(batch);
    let n = acc.transactions.len() as int;
    assert(acc.transactions[0].version == start_of(sorted[0]) + 0);
    assert(acc.transactions[n - 1].version == start_of(sorted[0]) + (n - 1));
    assert(prev_start <= s) by {
        assert(start_of(sorted[0]) <= start_of(sorted[k - 1]));
    }
    assert forall|i: int| 0 <= i < k - 1 implies end_of(#[trigger] sorted[i]) <= prev_end by {
        assert(before[i] == sorted[i]);
    }
    match absorb(acc, batch) {
        Ok(next) => {
            let hi = end_of(next.transactions);
            assert(next.transactions.len() > 0);
            if prev_end >= e {
                assert(next.transactions == acc.transactions);
            } else {
                let cut = if prev_end >= s { prev_end - s + 1 } else { 0 };
                assert(batch.skip(0) =~= batch);
                let tail = batch.skip(cut);
                assert(next.transactions == acc.transactions + tail);
                assert forall|i: int| 0 <= i < next.transactions.len() implies (
                #[trigger] next.transactions[i]).version == start_of(sorted[0]) + i by {
                    if i >= n {
                        assert(next.transactions[i] == batch[cut + (i - n)]);
                    }
                }
                assert(next.transactions.last() == batch.last());
            }
            assert(hi == if prev_end >= e { prev_end } else { e });
            // the highest end
            let w = choose|i: int| 0 <= i < before.len() && end_of(#[trigger] before[i]) == prev_end;
            assert(prefix[w] == before[w]);
            assert(prefix[k - 1] == batch);
            assert(exists|i: int| 0 <= i < prefix.len() && end_of(#[trigger] prefix[i]) == hi) by {
                if prev_end >= e {
                    assert(end_of(prefix[w]) == hi);
                } else {
                    assert(end_of(prefix[k - 1]) == hi);
                }
            }
            assert forall|i: int| 0 <= i < prefix.len() implies end_of(#[trigger] prefix[i])
                <= hi by {
                if i < k - 1 {
                    assert(prefix[i] == sorted[i]);
                }
            }
            // coverage
            assert forall|v: int| start_of(sorted[0]) <= v <= hi implies #[trigger] covered_by_first(
                sorted,
                k,
                v,
            ) by {
                if v <= prev_end {
                    assert(covered_by_first(sorted, k - 1, v));
                    let i = choose|i: int|
                        0 <= i < k - 1 && i < sorted.len() && covers(#[trigger] sorted[i], v);
                    assert(covers(sorted[i], v));
                } else {
                    assert(covers(sorted[k - 1], v));
                }
            }
            // where each transaction came from
            assert forall|j: int| 0 <= j < next.transactions.len() implies taken_from(
                prefix,
                #[trigger] next.transactions[j],
            ) by {
                if j < n {
                    let t = acc.transactions[j];
                    assert(next.transactions[j] == t);
                    assert(taken_from(before, t));
                    let (i, m) = choose|i: int, m: int|
                        0 <= i < before.len() && 0 <= m < before[i].len() && (
                        #[trigger] before[i][m]) == t;
                    assert(prefix[i][m] == t);
                } else {
                    let cut = if prev_end >= s { prev_end - s + 1 } else { 0 };
                    assert(next.transactions[j] == batch[cut + (j - n)]);
                    assert(prefix[k - 1][cut + (j - n)] == next.transactions[j]);
                }
            }
        },
        Err(SequenceError::Gap { prev_end: p, start_version: sv }) => {
            assert(p == prev_end && sv == s);
            assert(prev_end + 1 < s);
            assert(start_of(sorted[k - 1]) == s);
        },
        Err(_) => {},
    }
}

/// A gap found while merging ordered batches is a version that none of them holds.
proof fn lemma_gap_is_uncovered(sorted: Seq<Seq<Transaction>>, prev_end: int, start_version: int)
    requires
        well_formed(sorted),
        ordered_by_start(sorted),
        gap_within_first(sorted, sorted.len() as int, prev_end, start_version),
    ensures
        is_gap_at(sorted, prev_end + 1),
{
    let j = choose|j: int|
        {
            &&& 1 <= j < sorted.len()
            &&& start_version == start_of(#[trigger] sorted[j])
            &&& prev_end + 1 < start_version
            &&& forall|i: int| 0 <= i < j ==> end_of(#[trigger] sorted[i]) <= prev_end
        };
    let v = prev_end + 1;
    assert forall|i: int| 0 <= i < sorted.len() implies !covers(#[trigger] sorted[i], v) by {
        if i < j {
            assert(end_of(sorted[i]) <= prev_end);
        } else if i > j {
            assert(start_of(sorted[j]) <= start_of(sorted[i]));
        }
    }
    assert(end_of(sorted[0]) < v);
    assert(start_of(sorted[j]) > v);
}

/// Whether a version is a gap does not depend on the order of the batches.
proof fn lemma_gap_survives_sorting(batches: Seq<Seq<Transaction>>, v: int)
    ensures
        is_gap_at(batches, v) <==> is_gap_at(sort_by_start(batches), v),
{
    lemma_sort_keeps_len(batches);
    let sorted = sort_by_start(batches);
    if covered(batches, v) {
        let i = choose|i: int| 0 <= i < batches.len() && covers(#[trigger] batches[i], v);
        let k = lemma_given_is_sorted(batches, i);
        assert(covers(sorted[k], v));
    }
    if covered(sorted, v) {
        let k = choose|k: int| 0 <= k < sorted.len() && covers(#[trigger] sorted[k], v);
        let i = lemma_sorted_was_given(batches, k);
        assert(covers(batches[i], v));
    }
    if exists|a: int| 0 <= a < batches.len() && end_of(#[trigger] batches[a]) < v {
        let a = choose|a: int| 0 <= a < batches.len() && end_of(#[trigger] batches[a]) < v;
        let k = lemma_given_is_sorted(batches, a);
        assert(end_of(sorted[k]) < v);
    }
    if exists|a: int| 0 <= a < sorted.len() && end_of(#[trigger] sorted[a]) < v {
        let k = choose|a: int| 0 <= a < sorted.len() && end_of(#[trigger] sorted[a]) < v;
        let i = lemma_sorted_was_given(batches, k);
        assert(end_of(batches[i]) < v);
    }
    if exists|b: int| 0 <= b < batches.len() && start_of(#[trigger] batches[b]) > v {
        let b = choose|b: int| 0 <= b < batches.len() && start_of(#[trigger] batches[b]) > v;
        let k = lemma_given_is_sorted(batches, b);
        assert(start_of(sorted[k]) > v);
    }
    if exists|b: int| 0 <= b < sorted.len() && start_of(#[trigger] sorted[b]) > v {
        let k = choose|b: int| 0 <= b < sorted.len() && start_of(#[trigger] sorted[b]) > v;
        let i = lemma_sorted_was_given(batches, k);
        assert(start_of(batches[i]) > v);
    }
}

/// A single batch that is dense and not empty is merged to itself, and nothing
/// overlaps.
pub proof fn lemma_single_batch_is_unchanged(batch: Seq<Transaction>)
    requires
        batch.len() > 0,
        is_dense(batch),
    ensures
        sequence(seq![batch]) == Ok::<Merged, SequenceError>(
            Merged { transactions: batch, full_overlap: 0, partial_overlap: 0 },
        ),
{
    let batches = seq![batch];
    assert(!has_empty_batch(batches));
    assert(!has_sparse_batch(batches));
    assert(batches.drop_first() =~= Seq::<Seq<Transaction>>::empty());
    assert(sort_by_start(batches.drop_first()) =~= Seq::<Seq<Transaction>>::empty());
    assert(sort_by_start(batches) =~= batches);
    assert(batches.drop_last() =~= Seq::<Seq<Transaction>>::empty());
    assert(merge(batches.drop_last()) == Ok::<Merged, SequenceError>(
        crate::sequencer::nothing_merged(),
    ));
}

/// Whatever is merged from one or more batches is a single dense run: its versions
/// ascend by one from the lowest first version of the batches to their highest last
/// version, so none is missing and none comes twice, and each of its transactions is one
/// of a batch.
pub proof fn lemma_sequenced_is_one_run(batches: Seq<Seq<Transaction>>)
    requires
        batches.len() > 0,
        sequence(batches) is Ok,
    ensures
        ({
            let out = sequence(batches)->Ok_0.transactions;
            &&& out.len() > 0
            &&& is_dense(out)
            &&& forall|i: int, j: int|
                0 <= i < j < out.len() ==> (#[trigger] out[i]).version < (#[trigger] out[j]).version
            &&& is_lowest_start(batches, start_of(out))
            &&& is_highest_end(batches, end_of(out))
            &&& forall|j: int| 0 <= j < out.len() ==> taken_from(batches, #[trigger] out[j])
        }),
{
    let sorted = sort_by_start(batches);
    let n = batches.len() as int;
    assert(well_formed(batches));
    lemma_sort_keeps_well_formed(batches);
    lemma_sort_orders(batches);
    lemma_sort_keeps_len(batches);
    lemma_merge_first(sorted, n);
    assert(sorted.take(n) =~= sorted);
    let out = merge(sorted)->Ok_0.transactions;
    assert(out[0].version == start_of(sorted[0]) + 0);
    assert forall|i: int, j: int| 0 <= i < j < out.len() implies (#[trigger] out[i]).version < (
    #[trigger] out[j]).version by {
        assert(out[i].version == start_of(sorted[0]) + i);
        assert(out[j].version == start_of(sorted[0]) + j);
    }
    // the lowest start
    let first = lemma_sorted_was_given(batches, 0);
    assert(start_of(batches[first]) == start_of(out));
    assert forall|i: int| 0 <= i < n implies start_of(out) <= start_of(#[trigger] batches[i]) by {
        let k = lemma_given_is_sorted(batches, i);
        if k > 0 {
            assert(start_of(sorted[0]) <= start_of(sorted[k]));
        }
    }
    // the highest end
    let top = choose|k: int| 0 <= k < sorted.len() && end_of(#[trigger] sorted[k]) == end_of(out);
    let top_in = lemma_sorted_was_given(batches, top);
    assert(end_of(batches[top_in]) == end_of(out));
    assert forall|i: int| 0 <= i < n implies end_of(#[trigger] batches[i]) <= end_of(out) by {
        let k = lemma_given_is_sorted(batches, i);
        assert(end_of(sorted[k]) <= end_of(out));
    }
    // where each transaction came from
    assert forall|j: int| 0 <= j < out.len() implies taken_from(batches, #[trigger] out[j]) by {
        let t = out[j];
        assert(taken_from(sorted, t));
        let (k, m) = choose|k: int, m: int|
            0 <= k < sorted.len() && 0 <= m < sorted[k].len() && (#[trigger] sorted[k][m]) == t;
        let i = lemma_sorted_was_given(batches, k);
        assert(batches[i][m] == t);
    }
}

/// A merge of batches that are each dense and not empty fails exactly when they leave a
/// gap, and then with the error that names it.
pub proof fn lemma_gap_aborts(batches: Seq<Seq<Transaction>>)
    requires
        well_formed(batches),
    ensures
        has_gap(batches) <==> sequence(batches) is Err,
        sequence(batches) is Err ==> sequence(batches)->Err_0 is Gap,
{
    let sorted = sort_by_start(batches);
    let n = batches.len() as int;
    lemma_sort_keeps_len(batches);
    assert(!has_empty_batch(batches));
    assert(!has_sparse_batch(batches));
    if n == 0 {
        assert(sorted =~= Seq::<Seq<Transaction>>::empty());
        assert(!has_gap(batches));
    } else {
        lemma_sort_keeps_well_formed(batches);
        lemma_sort_orders(batches);
        lemma_merge_first(sorted, n);
        assert(sorted.take(n) =~= sorted);
        match merge(sorted) {
            Ok(acc) => {
                assert forall|v: int| !is_gap_at(batches, v) by {
                    lemma_gap_survives_sorting(batches, v);
                    if is_gap_at(sorted, v) {
                        let a = choose|a: int| 0 <= a < sorted.len() && end_of(#[trigger] sorted[a]) < v;
                        let b = choose|b: int| 0 <= b < sorted.len() && start_of(#[trigger] sorted[b]) > v;
                        lemma_dense_end(sorted[a]);
                        lemma_dense_end(sorted[b]);
                        if a > 0 {
                            assert(start_of(sorted[0]) <= start_of(sorted[a]));
                        }
                        assert(end_of(sorted[b]) <= end_of(acc.transactions));
                        assert(covered_by_first(sorted, n, v));
                    }
                }
            },
            Err(SequenceError::Gap { prev_end, start_version }) => {
                lemma_gap_is_uncovered(sorted, prev_end as int, start_version as int);
                lemma_gap_survives_sorting(batches, prev_end as int + 1);
            },
            Err(_) => {},
        }
    }
}

} // verus!

//! The sequencer: merges batches that were fetched in parallel into one run of
//! transactions without gaps or repeats.
//!
//! Batches are first ordered by their first version, batches with the same first version
//! keeping their order, and are then absorbed one by one into the output.

use vstd::prelude::*;
use crate::transaction::{batch_seqs, is_dense, is_dense_batch, Transaction};

verus! {

/// Why a set of batches cannot be merged.
#[derive(Clone, Copy, Debug, PartialEq, Eq)]
pub enum SequenceError {
    /// One of the batches holds no transaction.
    EmptyBatch,
    /// One of the batches skips or repeats a version.
    NotDense,
    /// The batch that starts at `start_version` leaves versions unserved behind
    /// `prev_end`, the last version merged before it.
    Gap { prev_end: u64, start_version: u64 },
}

/// The outcome of a merge as a mathematical value.
pub struct Merged {
    /// The merged run.
    pub transactions: Seq<Transaction>,
    /// How many versions arrived in batches that were discarded whole.
    pub full_overlap: nat,
    /// How many versions were cut from the front of batches that were appended in part.
    pub partial_overlap: nat,
}

/// The outcome of a merge.
#[derive(Debug)]
pub struct Sequenced {
    pub transactions: Vec<Transaction>,
    pub full_overlap: u128,
    pub partial_overlap: u128,
}

impl View for Sequenced {
    type V = Merged;

    open spec fn view(&self) -> Merged {
        Merged {
            transactions: self.transactions@,
            full_overlap: self.full_overlap as nat,
            partial_overlap: self.partial_overlap as nat,
        }
    }
}

/// The first version of a batch.
pub open spec fn start_of(batch: Seq<Transaction>) -> int {
    batch.first().version as int
}

/// The last version of a batch.
pub open spec fn end_of(batch: Seq<Transaction>) -> int {
    batch.last().version as int
}

/// Every batch holds at least one transaction and is dense.
pub open spec fn well_formed(batches: Seq<Seq<Transaction>>) -> bool {
    forall|i: int|
        0 <= i < batches.len() ==> (#[trigger] batches[i]).len() > 0 && is_dense(batches[i])
}

/// The number of leading batches of `sorted` that start before `start`.
pub open spec fn insertion_point(sorted: Seq<Seq<Transaction>>, start: int) -> int
    decreases sorted.len(),
{
    if sorted.len() == 0 || start_of(sorted[0]) >= start {
        0
    } else {
        1 + insertion_point(sorted.drop_first(), start)
    }
}

/// The batches in ascending order of their first version; batches with the same first
/// version stay in the order in which they were given.
pub open spec fn sort_by_start(batches: Seq<Seq<Transaction>>) -> Seq<Seq<Transaction>>
    decreases batches.len(),
{
    if batches.len() == 0 {
        batches
    } else {
        let rest = sort_by_start(batches.drop_first());
        rest.insert(insertion_point(rest, start_of(batches[0])), batches[0])
    }
}

/// The merge before any batch has been absorbed.
pub open spec fn nothing_merged() -> Merged {
    Merged { transactions: Seq::empty(), full_overlap: 0, partial_overlap: 0 }
}

/// Absorbs one batch `[s, e]` into what has been merged so far, `[prev_start, prev_end]`:
/// a batch inside the merged run is discarded, one that reaches beyond `prev_end` loses
/// the versions up to `prev_end` and is appended, one that starts at `prev_end + 1` is
/// appended whole. Any other batch leaves a gap.
pub open spec fn absorb(acc: Merged, batch: Seq<Transaction>) -> Result<Merged, SequenceError> {
    if acc.transactions.len() == 0 {
        Ok(Merged { transactions: batch, ..acc })
    } else {
        let prev_start = start_of(acc.transactions);
        let prev_end = end_of(acc.transactions);
        let s = start_of(batch);
        let e = end_of(batch);
        if prev_start <= s && prev_end >= e {
            Ok(Merged { full_overlap: (acc.full_overlap + (e - s + 1)) as nat, ..acc })
        } else if prev_end >= s && prev_end < e {
            Ok(
                Merged {
                    transactions: acc.transactions + batch.skip(prev_end - s + 1),
                    partial_overlap: (acc.partial_overlap + (prev_end - s + 1)) as nat,
                    ..acc
                },
            )
        } else if prev_end + 1 == s {
            Ok(Merged { transactions: acc.transactions + batch, ..acc })
        } else {
            Err(SequenceError::Gap { prev_end: prev_end as u64, start_version: s as u64 })
        }
    }
}

/// Absorbs the batches from first to last; the first gap ends the merge.
pub open spec fn merge(sorted: Seq<Seq<Transaction>>) -> Result<Merged, SequenceError>
    decreases sorted.len(),
{
    if sorted.len() == 0 {
        Ok(nothing_merged())
    } else {
        match merge(sorted.drop_last()) {
            Ok(acc) => absorb(acc, sorted.last()),
            Err(e) => Err(e),
        }
    }
}

/// Some batch is empty.
pub open spec fn has_empty_batch(batches: Seq<Seq<Transaction>>) -> bool {
    exists|i: int| 0 <= i < batches.len() && (#[trigger] batches[i]).len() == 0
}

/// Some batch is not dense.
pub open spec fn has_sparse_batch(batches: Seq<Seq<Transaction>>) -> bool {
    exists|i: int| 0 <= i < batches.len() && !is_dense(#[trigger] batches[i])
}

/// What the sequencer makes of a set of batches.
pub open spec fn sequence(batches: Seq<Seq<Transaction>>) -> Result<Merged, SequenceError> {
    if has_empty_batch(batches) {
        Err(SequenceError::EmptyBatch)
    } else if has_sparse_batch(batches) {
        Err(SequenceError::NotDense)
    } else {
        merge(sort_by_start(batches))
    }
}

/// Once a prefix of the batches has run into a gap, the whole merge fails with that gap.
pub proof fn lemma_merge_error_is_final(sorted: Seq<Seq<Transaction>>, k: int)
    requires
        0 <= k <= sorted.len(),
        merge(sorted.take(k)) is Err,
    ensures
        merge(sorted) == merge(sorted.take(k)),
    decreases sorted.len() - k,
{
    if k == sorted.len() {
        assert(sorted.take(k) =~= sorted);
    } else {
        assert(sorted.take(k + 1).drop_last() =~= sorted.take(k));
        lemma_merge_error_is_final(sorted, k + 1);
    }
}

fn find_insertion_point(sorted: &Vec<Vec<Transaction>>, start: u64) -> (at: usize)
    requires
        forall|i: int| 0 <= i < sorted.len() ==> (#[trigger] sorted[i]).len() > 0,
    ensures
        at == insertion_point(batch_seqs(sorted@), start as int),
        at <= sorted.len(),
{
    let ghost all = batch_seqs(sorted@);
    let mut at: usize = 0;
    proof {
        assert(all.skip(0) =~= all);
    }
    while at < sorted.len() && sorted[at][0].version < start
        invariant
            at <= sorted.len(),
            all == batch_seqs(sorted@),
            forall|i: int| 0 <= i < sorted.len() ==> (#[trigger] sorted[i]).len() > 0,
            insertion_point(all, start as int) == at + insertion_point(
                all.skip(at as int),
                start as int,
            ),
        decreases sorted.len() - at,
    {
        proof {
            assert(all.skip(at as int)[0] == sorted[at as int]@);
            assert(all.skip(at as int).drop_first() =~= all.skip(at + 1));
        }
        at += 1;
    }
    proof {
        if at < sorted.len() {
            assert(all.skip(at as int)[0] == sorted[at as int]@);
        }
    }
    at
}

fn sort_batches(batches: Vec<Vec<Transaction>>) -> (sorted: Vec<Vec<Transaction>>)
    requires
        forall|i: int| 0 <= i < batches.len() ==> (#[trigger] batches[i]).len() > 0,
    ensures
        batch_seqs(sorted@) == sort_by_start(batch_seqs(batches@)),
{
    let ghost all = batch_seqs(batches@);
    let mut rest = batches;
    let mut sorted: Vec<Vec<Transaction>> = Vec::new();
    proof {
        assert(all.skip(rest.len() as int) =~= Seq::<Seq<Transaction>>::empty());
        assert(batch_seqs(sorted@) =~= Seq::<Seq<Transaction>>::empty());
        assert(all.take(rest.len() as int) =~= all);
    }
    while rest.len() > 0
        invariant
            rest.len() <= all.len(),
            batch_seqs(rest@) == all.take(rest.len() as int),
            batch_seqs(sorted@) == sort_by_start(all.skip(rest.len() as int)),
            forall|i: int| 0 <= i < rest.len() ==> (#[trigger] rest[i]).len() > 0,
            forall|i: int| 0 <= i < sorted.len() ==> (#[trigger] sorted[i]).len() > 0,
        decreases rest.len(),
    {
        let ghost k = rest.len() as int;
        let ghost before = batch_seqs(sorted@);
        let ghost rest_before = rest@;
        let batch = rest.pop().unwrap();
        let start: u64 = batch[0].version;
        let at = find_insertion_point(&sorted, start);
        proof {
            assert(batch_seqs(rest_before)[k - 1] == batch@);
            assert(all.take(k)[k - 1] == all[k - 1]);
            assert(all.skip(k - 1)[0] == batch@);
            assert(all.skip(k - 1).drop_first() =~= all.skip(k));
            assert(batch_seqs(rest@) =~= all.take(k - 1)) by {
                assert forall|i: int| 0 <= i < k - 1 implies batch_seqs(rest@)[i] == all.take(
                    k - 1,
                )[i] by {
                    assert(batch_seqs(rest_before)[i] == all.take(k)[i]);
                }
            }
        }
        sorted.insert(at, batch);
        proof {
            assert(batch_seqs(sorted@) =~= before.insert(at as int, batch@));
        }
    }
    sorted
}

fn merge_sorted(sorted: Vec<Vec<Transaction>>) -> (r: Result<Sequenced, SequenceError>)
    requires
        well_formed(batch_seqs(sorted@)),
    ensures
        match r {
            Ok(s) => merge(batch_seqs(sorted@)) == Ok::<Merged, SequenceError>(s@),
            Err(e) => merge(batch_seqs(sorted@)) == Err::<Merged, SequenceError>(e),
        },
{
    let ghost all = batch_seqs(sorted@);
    let total: usize = sorted.len();
    let mut rest = sorted;
    let mut transactions: Vec<Transaction> = Vec::new();
    let mut full_overlap: u128 = 0;
    let mut partial_overlap: u128 = 0;
    let mut done: usize = 0;
    proof {
        assert(all.skip(0) =~= all);
        assert(all.take(0) =~= Seq::<Seq<Transaction>>::empty());
    }
    while rest.len() > 0
        invariant
            well_formed(all),
            all == batch_seqs(sorted@),
            all.len() == total,
            done + rest.len() == all.len(),
            batch_seqs(rest@) == all.skip(done as int),
            merge(all.take(done as int)) == Ok::<Merged, SequenceError>(
                Merged {
                    transactions: transactions@,
                    full_overlap: full_overlap as nat,
                    partial_overlap: partial_overlap as nat,
                },
            ),
            full_overlap + partial_overlap <= done * 0x1_0000_0000_0000_0000,
        decreases rest.len(),
    {
        let ghost acc = Merged {
            transactions: transactions@,
            full_overlap: full_overlap as nat,
            partial_overlap: partial_overlap as nat,
        };
        let ghost rest_before = rest@;
        let mut batch = rest.remove(0);
        proof {
            assert(batch_seqs(rest_before)[0] == batch@);
            assert(all.skip(done as int)[0] == all[done as int]);
            assert(batch@ == all[done as int]);
            assert(batch_seqs(rest@) =~= all.skip(done + 1)) by {
                assert forall|i: int| 0 <= i < rest@.len() implies batch_seqs(rest@)[i]
                    == all.skip(done + 1)[i] by {
                    assert(batch_seqs(rest_before)[i + 1] == all.skip(done as int)[i + 1]);
                }
            }
            assert(all.take(done + 1).drop_last() =~= all.take(done as int));
            assert(all.take(done + 1).last() == batch@);
            assert(merge(all.take(done + 1)) == absorb(acc, batch@));
            assert(batch@.len() > 0 && is_dense(batch@));
            assert(batch@[batch@.len() - 1].version == batch@[0].version + (batch@.len() - 1));
        }
        let s: u64 = batch[0].version;
        let e: u64 = batch[batch.len() - 1].version;
        if transactions.len() == 0 {
            transactions = batch;
        } else {
            let prev_start: u64 = transactions[0].version;
            let prev_end: u64 = transactions[transactions.len() - 1].version;
            if prev_start <= s && prev_end >= e {
                full_overlap = full_overlap + (e - s + 1) as u128;
            } else if prev_end >= s && prev_end < e {
                let cut: u64 = prev_end - s + 1;
                let mut tail = batch.split_off(cut as usize);
                transactions.append(&mut tail);
                partial_overlap = partial_overlap + cut as u128;
            } else if prev_end < u64::MAX && prev_end + 1 == s {
                transactions.append(&mut batch);
            } else {
                proof {
                    lemma_merge_error_is_final(all, done + 1);
                }
                return Err(SequenceError::Gap { prev_end, start_version: s });
            }
        }
        done += 1;
    }
    proof {
        assert(all.take(done as int) =~= all);
    }
    Ok(Sequenced { transactions, full_overlap, partial_overlap })
}

/// Merges batches into one run of transactions and counts what overlapped.
///
/// Fails when a batch is empty or not dense, or when the batches, put in order, leave a
/// gap between them.
pub fn sequence_batches(batches: Vec<Vec<Transaction>>) -> (r: Result<Sequenced, SequenceError>)
    ensures
        match r {
            Ok(s) => sequence(batch_seqs(batches@)) == Ok::<Merged, SequenceError>(s@),
            Err(e) => sequence(batch_seqs(batches@)) == Err::<Merged, SequenceError>(e),
        },
{
    let ghost all = batch_seqs(batches@);
    let mut i: usize = 0;
    while i < batches.len()
        invariant
            i <= batches.len(),
            all == batch_seqs(batches@),
            forall|j: int| 0 <= j < i ==> (#[trigger] all[j]).len() > 0,
        decreases batches.len() - i,
    {
        if batches[i].len() == 0 {
            proof {
                assert(all[i as int].len() == 0);
            }
            return Err(SequenceError::EmptyBatch);
        }
        i += 1;
    }
    let mut j: usize = 0;
    while j < batches.len()
        invariant
            j <= batches.len(),
            all == batch_seqs(batches@),
            !has_empty_batch(all),
            forall|k: int| 0 <= k < j ==> is_dense(#[trigger] all[k]),
        decreases batches.len() - j,
    {
        if !is_dense_batch(&batches[j]) {
            proof {
                assert(!is_dense(all[j as int]));
            }
            return Err(SequenceError::NotDense);
        }
        j += 1;
    }
    proof {
        assert forall|k: int| 0 <= k < batches.len() implies (#[trigger] batches[k]).len()
            > 0 by {
            assert(all[k].len() > 0);
        }
    }
    let sorted = sort_batches(batches);
    proof {
        assert(well_formed(all)) by {
            assert forall|k: int| 0 <= k < all.len() implies (#[trigger] all[k]).len() > 0
                && is_dense(all[k]) by {}
        }
        lemma_sort_keeps_well_formed(all);
    }
    merge_sorted(sorted)
}

/// Merges batches that are known to fit together into one run of transactions.
///
/// The batches must each be dense and hold a transaction, and must leave no gap between
/// them: a caller that cannot know this calls [`sequence_batches`] and handles the error.
pub fn ensure_sequential_transactions(batches: Vec<Vec<Transaction>>) -> (transactions: Vec<
    Transaction,
>)
    requires
        sequence(batch_seqs(batches@)) is Ok,
    ensures
        transactions@ == sequence(batch_seqs(batches@))->Ok_0.transactions,
{
    match sequence_batches(batches) {
        Ok(sequenced) => sequenced.transactions,
        Err(_) => Vec::new(),
    }
}

/// Sorting keeps the number of batches.
pub proof fn lemma_sort_keeps_len(batches: Seq<Seq<Transaction>>)
    ensures
        sort_by_start(batches).len() == batches.len(),
    decreases batches.len(),
{
    if batches.len() > 0 {
        let tail = batches.drop_first();
        lemma_sort_keeps_len(tail);
        lemma_insertion_point_in_range(sort_by_start(tail), start_of(batches[0]));
    }
}

/// Sorting holds each batch as often as it was given.
pub proof fn lemma_sort_permutes(batches: Seq<Seq<Transaction>>)
    ensures
        sort_by_start(batches).to_multiset() == batches.to_multiset(),
    decreases batches.len(),
{
    if batches.len() > 0 {
        let tail = batches.drop_first();
        lemma_sort_permutes(tail);
        lemma_sort_keeps_len(tail);
        let rest = sort_by_start(tail);
        lemma_insertion_point_in_range(rest, start_of(batches[0]));
        let at = insertion_point(rest, start_of(batches[0]));
        let sorted = sort_by_start(batches);
        assert(sorted.remove(at) =~= rest);
        assert(batches.remove(0) =~= tail);
        vstd::seq_lib::to_multiset_remove(sorted, at);
        vstd::seq_lib::to_multiset_remove(batches, 0);
        sorted.to_multiset_ensures();
        batches.to_multiset_ensures();
        assert(sorted.contains(batches[0])) by {
            assert(sorted[at] == batches[0]);
        }
        assert(batches.contains(batches[0]));
        assert(sorted.to_multiset() =~= rest.to_multiset().insert(batches[0]));
        assert(batches.to_multiset() =~= tail.to_multiset().insert(batches[0]));
    }
}

/// Sorting adds no batch: the batch at place `k` of the sorted batches is one of those
/// given, the one at place `m`.
pub proof fn lemma_sorted_was_given(batches: Seq<Seq<Transaction>>, k: int) -> (m: int)
    requires
        0 <= k < batches.len(),
    ensures
        0 <= m < batches.len(),
        sort_by_start(batches).len() == batches.len(),
        batches[m] == sort_by_start(batches)[k],
    decreases batches.len(),
{
    lemma_sort_keeps_len(batches);
    let tail = batches.drop_first();
    lemma_sort_keeps_len(tail);
    let rest = sort_by_start(tail);
    lemma_insertion_point_in_range(rest, start_of(batches[0]));
    let at = insertion_point(rest, start_of(batches[0]));
    if k == at {
        0
    } else {
        let k0 = if k < at { k } else { k - 1 };
        assert(sort_by_start(batches)[k] == rest[k0]);
        let m0 = lemma_sorted_was_given(tail, k0);
        m0 + 1
    }
}

/// Sorting loses no batch: the batch given at place `m` stands at place `k` of the
/// sorted batches.
pub proof fn lemma_given_is_sorted(batches: Seq<Seq<Transaction>>, m: int) -> (k: int)
    requires
        0 <= m < batches.len(),
    ensures
        0 <= k < batches.len(),
        sort_by_start(batches).len() == batches.len(),
        batches[m] == sort_by_start(batches)[k],
{
    lemma_sorted_place(batches, m);
    sorted_place(batches, m)
}

/// The place among the sorted batches of the batch that was given at place `m`.
pub open spec fn sorted_place(batches: Seq<Seq<Transaction>>, m: int) -> int
    decreases batches.len(),
{
    if batches.len() == 0 || m < 0 || m >= batches.len() {
        0
    } else {
        let rest = sort_by_start(batches.drop_first());
        let at = insertion_point(rest, start_of(batches[0]));
        if m == 0 {
            at
        } else {
            let before = sorted_place(batches.drop_first(), m - 1);
            if before < at {
                before
            } else {
                before + 1
            }
        }
    }
}

/// Sorting is stable: of two batches, the one given first stands first among the sorted
/// batches unless it starts behind the other.
pub proof fn lemma_sort_is_stable(batches: Seq<Seq<Transaction>>, i: int, j: int)
    requires
        0 <= i < j < batches.len(),
        start_of(batches[i]) <= start_of(batches[j]),
    ensures
        0 <= sorted_place(batches, i) < sorted_place(batches, j) < batches.len(),
        sort_by_start(batches)[sorted_place(batches, i)] == batches[i],
        sort_by_start(batches)[sorted_place(batches, j)] == batches[j],
    decreases batches.len(),
{
    lemma_sorted_place(batches, i);
    lemma_sorted_place(batches, j);
    let tail = batches.drop_first();
    let rest = sort_by_start(tail);
    lemma_sort_keeps_len(tail);
    lemma_insertion_point_in_range(rest, start_of(batches[0]));
    let at = insertion_point(rest, start_of(batches[0]));
    if i == 0 {
        lemma_sorted_place(tail, j - 1);
        let before = sorted_place(tail, j - 1);
        assert(rest[before] == batches[j]);
        if before < at {
            assert(start_of(rest[before]) < start_of(batches[0]));
        }
    } else {
        lemma_sort_is_stable(tail, i - 1, j - 1);
    }
}

/// The batch given at place `m` stands at its place among the sorted batches.
pub proof fn lemma_sorted_place(batches: Seq<Seq<Transaction>>, m: int)
    requires
        0 <= m < batches.len(),
    ensures
        0 <= sorted_place(batches, m) < batches.len(),
        sort_by_start(batches).len() == batches.len(),
        sort_by_start(batches)[sorted_place(batches, m)] == batches[m],
    decreases batches.len(),
{
    lemma_sort_keeps_len(batches);
    let tail = batches.drop_first();
    lemma_sort_keeps_len(tail);
    let rest = sort_by_start(tail);
    lemma_insertion_point_in_range(rest, start_of(batches[0]));
    let at = insertion_point(rest, start_of(batches[0]));
    if m > 0 {
        lemma_sorted_place(tail, m - 1);
        let before = sorted_place(tail, m - 1);
        let k = if before < at { before } else { before + 1 };
        assert(sort_by_start(batches)[k] == rest[before]);
    }
}

/// Sorting well-formed batches gives well-formed batches.
pub proof fn lemma_sort_keeps_well_formed(batches: Seq<Seq<Transaction>>)
    requires
        well_formed(batches),
    ensures
        well_formed(sort_by_start(batches)),
{
    lemma_sort_keeps_len(batches);
    let s = sort_by_start(batches);
    assert forall|k: int| 0 <= k < s.len() implies (#[trigger] s[k]).len() > 0 && is_dense(
        s[k],
    ) by {
        let m = lemma_sorted_was_given(batches, k);
        assert(batches[m].len() > 0);
    }
}

/// The insertion point lies within the sequence, behind every batch that starts earlier
/// and before one that does not.
pub proof fn lemma_insertion_point_in_range(sorted: Seq<Seq<Transaction>>, start: int)
    ensures
        0 <= insertion_point(sorted, start) <= sorted.len(),
        forall|i: int|
            0 <= i < insertion_point(sorted, start) ==> start_of(#[trigger] sorted[i]) < start,
        insertion_point(sorted, start) < sorted.len() ==> start_of(
            sorted[insertion_point(sorted, start)],
        ) >= start,
    decreases sorted.len(),
{
    if sorted.len() == 0 || start_of(sorted[0]) >= start {
    } else {
        let tail = sorted.drop_first();
        lemma_insertion_point_in_range(tail, start);
        assert forall|i: int| 0 <= i < insertion_point(sorted, start) implies start_of(
            #[trigger] sorted[i],
        ) < start by {
            if i > 0 {
                assert(sorted[i] == tail[i - 1]);
            }
        }
        if insertion_point(sorted, start) < sorted.len() {
            assert(sorted[insertion_point(sorted, start)] == tail[insertion_point(tail, start)]);
        }
    }
}

} // verus!

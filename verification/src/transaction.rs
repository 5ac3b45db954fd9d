//! The records of the log and what it means for a batch of them to be dense.

use vstd::prelude::*;

verus! {

/// A point in time: seconds and nanoseconds since the Unix epoch.
#[derive(Clone, Copy, Debug, PartialEq, Eq)]
pub struct Timestamp {
    pub seconds: i64,
    pub nanos: i32,
}

/// One record of the log. The service reads `version` and `timestamp` and measures the
/// record's encoded size; `payload` holds every other field, already encoded, and is
/// never interpreted.
#[derive(Clone, Debug, PartialEq, Eq)]
pub struct Transaction {
    pub version: u64,
    pub timestamp: Option<Timestamp>,
    pub payload: Vec<u8>,
}

/// The versions of `s` are `first, first + 1, first + 2, ...` in this order.
pub open spec fn is_run_from(s: Seq<Transaction>, first: int) -> bool {
    forall|i: int| 0 <= i < s.len() ==> (#[trigger] s[i]).version == first + i
}

/// Each record of `s` has the version of its predecessor plus one.
pub open spec fn is_dense(s: Seq<Transaction>) -> bool {
    s.len() > 0 ==> is_run_from(s, s[0].version as int)
}

/// The views of a sequence of batches.
pub open spec fn batch_seqs(batches: Seq<Vec<Transaction>>) -> Seq<Seq<Transaction>> {
    batches.map_values(|b: Vec<Transaction>| b@)
}

impl Default for Transaction {
    /// The record with version zero, no timestamp and an empty payload.
    fn default() -> (t: Transaction)
        ensures
            t.version == 0,
            t.timestamp is None,
            t.payload@ == Seq::<u8>::empty(),
    {
        Transaction { version: 0, timestamp: None, payload: Vec::new() }
    }
}

impl Transaction {
    /// A record with the given version, no timestamp and an empty payload.
    pub fn with_version(version: u64) -> (t: Transaction)
        ensures
            t.version == version,
            t.timestamp is None,
            t.payload@ == Seq::<u8>::empty(),
    {
        Transaction { version, timestamp: None, payload: Vec::new() }
    }
}

/// Tells whether a batch is dense.
pub fn is_dense_batch(batch: &Vec<Transaction>) -> (dense: bool)
    ensures
        dense == is_dense(batch@),
{
    let mut i: usize = 1;
    while i < batch.len()
        invariant
            1 <= i,
            batch.len() > 0 ==> i <= batch.len(),
            batch.len() > 0 ==> is_run_from(batch@.take(i as int), batch@[0].version as int),
        decreases batch.len() - i,
    {
        let prev: u64 = batch[i - 1].version;
        if prev == u64::MAX || batch[i].version != prev + 1 {
            proof {
                let s = batch@;
                if is_dense(s) {
                    assert(s[i as int].version == s[0].version + i);
                    assert(s.take(i as int)[i - 1].version == s[0].version + (i - 1));
                    assert(false);
                }
            }
            return false;
        }
        proof {
            let s = batch@;
            let first = s[0].version as int;
            assert(s.take(i as int)[i - 1].version == first + (i - 1));
            assert forall|j: int| 0 <= j < i + 1 implies (#[trigger] s.take(i + 1)[j]).version
                == first + j by {
                if j < i {
                    assert(s.take(i as int)[j].version == first + j);
                }
            }
        }
        i += 1;
    }
    proof {
        if batch.len() > 0 {
            assert(batch@.take(i as int) =~= batch@);
        }
    }
    true
}

} // verus!

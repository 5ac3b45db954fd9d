//! Encoded sizes. Records travel as Protocol Buffers messages; the service never
//! encodes one itself, but it has to know how long the encoding will be.
//!
//! A transaction is the message `{ 1: timestamp, 2: version, ...payload }`, a timestamp
//! the message `{ 1: seconds, 2: nanos }`, and a response the message
//! `{ 1: repeated transaction, 2: chain id }`.

use vstd::prelude::*;
use crate::transaction::{Timestamp, Transaction};

verus! {

/// The length of `value` as a base-128 varint: one byte for each seven bits.
pub open spec fn varint_len(value: nat) -> nat
    decreases value,
{
    if value < 128 {
        1
    } else {
        1 + varint_len(value / 128)
    }
}

/// The length of the key of the field with number `tag`.
pub open spec fn key_size(tag: nat) -> nat {
    varint_len(tag * 8)
}

/// `prost::encoding::encoded_len_varint` returns the number of bytes that the LEB128
/// encoding of `value` takes, between one and ten.
pub assume_specification[ prost::encoding::encoded_len_varint ](value: u64) -> (len: usize)
    ensures
        len == varint_len(value as nat),
;

/// `prost::encoding::key_len` returns the length of the varint `tag << 3`. For a tag
/// below 2^29, the highest that a field can have, the shift loses no bit.
pub assume_specification[ prost::encoding::key_len ](tag: u32) -> (len: usize)
    requires
        tag < 0x2000_0000,
    ensures
        len == key_size(tag as nat),
;

/// A varint of a 64-bit value takes between one and ten bytes.
pub proof fn lemma_varint_len_bounds(value: nat)
    requires
        value <= u64::MAX,
    ensures
        1 <= varint_len(value) <= 10,
{
    reveal_with_fuel(varint_len, 11);
}

/// The keys of the fields numbered one and two take one byte each.
pub proof fn lemma_small_keys()
    ensures
        key_size(1) == 1,
        key_size(2) == 1,
{
}

/// The encoded length of the fields of a timestamp. A field that is zero is left out; a
/// negative number is encoded as the 64-bit two's complement of itself.
pub open spec fn timestamp_len(ts: Timestamp) -> nat {
    let seconds = if ts.seconds != 0 {
        key_size(1) + varint_len((ts.seconds as u64) as nat)
    } else {
        0
    };
    let nanos = if ts.nanos != 0 {
        key_size(2) + varint_len(((ts.nanos as i64) as u64) as nat)
    } else {
        0
    };
    seconds + nanos
}

/// The encoded length of a transaction: its timestamp field, where it has one, its
/// version field, unless the version is zero, and its payload.
pub open spec fn encoded_len(t: Transaction) -> nat {
    let timestamp = match t.timestamp {
        Some(ts) => key_size(1) + varint_len(timestamp_len(ts)) + timestamp_len(ts),
        None => 0,
    };
    let version = if t.version != 0 {
        key_size(2) + varint_len(t.version as nat)
    } else {
        0
    };
    timestamp + version + t.payload@.len()
}

/// The length that a transaction adds to a response: a key, its length and itself.
pub open spec fn framed_len(t: Transaction) -> nat {
    key_size(1) + varint_len(encoded_len(t)) + encoded_len(t)
}

/// The length that a run of transactions adds to a response.
pub open spec fn frames_len(s: Seq<Transaction>) -> nat
    decreases s.len(),
{
    if s.len() == 0 {
        0
    } else {
        framed_len(s[0]) + frames_len(s.drop_first())
    }
}

/// The encoded lengths of a run of transactions, added up.
pub open spec fn total_len(s: Seq<Transaction>) -> nat
    decreases s.len(),
{
    if s.len() == 0 {
        0
    } else {
        encoded_len(s[0]) + total_len(s.drop_first())
    }
}

/// One transaction more adds its frame to the length of the frames.
pub proof fn lemma_frames_len_push(s: Seq<Transaction>, t: Transaction)
    ensures
        frames_len(s.push(t)) == frames_len(s) + framed_len(t),
    decreases s.len(),
{
    if s.len() == 0 {
        assert(s.push(t).drop_first() =~= s);
    } else {
        assert(s.push(t).drop_first() =~= s.drop_first().push(t));
        lemma_frames_len_push(s.drop_first(), t);
    }
}

/// One transaction more adds its length to the total.
pub proof fn lemma_total_len_push(s: Seq<Transaction>, t: Transaction)
    ensures
        total_len(s.push(t)) == total_len(s) + encoded_len(t),
    decreases s.len(),
{
    if s.len() == 0 {
        assert(s.push(t).drop_first() =~= s);
    } else {
        assert(s.push(t).drop_first() =~= s.drop_first().push(t));
        lemma_total_len_push(s.drop_first(), t);
    }
}

/// The length of the chain id field of a response.
pub open spec fn chain_id_len(chain_id: Option<u64>) -> nat {
    match chain_id {
        Some(id) => key_size(2) + varint_len(id as nat),
        None => 0,
    }
}

/// The chain id field takes at most eleven bytes.
pub proof fn lemma_chain_id_len_bounds(chain_id: Option<u64>)
    ensures
        chain_id_len(chain_id) <= 11,
{
    lemma_small_keys();
    if let Some(id) = chain_id {
        lemma_varint_len_bounds(id as nat);
    }
}

/// The encoded length of a response.
pub open spec fn response_len(chain_id: Option<u64>, transactions: Seq<Transaction>) -> nat {
    frames_len(transactions) + chain_id_len(chain_id)
}

/// The encoded length of the fields of a timestamp.
pub fn timestamp_encoded_len(ts: &Timestamp) -> (len: usize)
    ensures
        len == timestamp_len(*ts),
        len <= 22,
{
    proof {
        lemma_small_keys();
        lemma_varint_len_bounds((ts.seconds as u64) as nat);
        lemma_varint_len_bounds(((ts.nanos as i64) as u64) as nat);
    }
    let mut len: usize = 0;
    if ts.seconds != 0 {
        len = len + prost::encoding::key_len(1) + prost::encoding::encoded_len_varint(
            #[verifier::truncate]
            (ts.seconds as u64),
        );
    }
    if ts.nanos != 0 {
        len = len + prost::encoding::key_len(2) + prost::encoding::encoded_len_varint(
            #[verifier::truncate]
            ((ts.nanos as i64) as u64),
        );
    }
    len
}

impl Transaction {
    /// The encoded length of the transaction, or `None` where it is beyond `usize`.
    pub fn encoded_len(&self) -> (len: Option<usize>)
        ensures
            match len {
                Some(n) => n == encoded_len(*self),
                None => encoded_len(*self) > usize::MAX,
            },
    {
        proof {
            lemma_small_keys();
            lemma_varint_len_bounds(self.version as nat);
        }
        let mut fields: usize = 0;
        match &self.timestamp {
            Some(ts) => {
                let body = timestamp_encoded_len(ts);
                proof {
                    lemma_varint_len_bounds(body as nat);
                }
                fields = prost::encoding::key_len(1) + prost::encoding::encoded_len_varint(
                    body as u64,
                ) + body;
            },
            None => {},
        }
        if self.version != 0 {
            fields = fields + prost::encoding::key_len(2) + prost::encoding::encoded_len_varint(
                self.version,
            );
        }
        fields.checked_add(self.payload.len())
    }

    /// The length that the transaction adds to a response, or `None` where it is beyond
    /// `usize`.
    pub fn framed_len(&self) -> (len: Option<usize>)
        ensures
            match len {
                Some(n) => n == framed_len(*self),
                None => framed_len(*self) > usize::MAX,
            },
    {
        match self.encoded_len() {
            Some(n) => {
                proof {
                    lemma_small_keys();
                    lemma_varint_len_bounds(n as nat);
                }
                let head: usize = prost::encoding::key_len(1)
                    + prost::encoding::encoded_len_varint(n as u64);
                head.checked_add(n)
            },
            None => None,
        }
    }
}

/// The length of the chain id field of a response.
pub fn chain_id_encoded_len(chain_id: Option<u64>) -> (len: usize)
    ensures
        len == chain_id_len(chain_id),
        len <= 11,
{
    match chain_id {
        Some(id) => {
            proof {
                lemma_small_keys();
                lemma_varint_len_bounds(id as nat);
            }
            prost::encoding::key_len(2) + prost::encoding::encoded_len_varint(id)
        },
        None => 0,
    }
}

/// The length that a run of transactions adds to a response, or `None` where it is
/// beyond `usize`.
pub fn frames_encoded_len(transactions: &Vec<Transaction>) -> (len: Option<usize>)
    ensures
        match len {
            Some(n) => n == frames_len(transactions@),
            None => frames_len(transactions@) > usize::MAX,
        },
{
    let mut len: usize = 0;
    let mut i: usize = 0;
    proof {
        assert(transactions@.take(0) =~= Seq::<Transaction>::empty());
    }
    while i < transactions.len()
        invariant
            i <= transactions.len(),
            len == frames_len(transactions@.take(i as int)),
        decreases transactions.len() - i,
    {
        proof {
            assert(transactions@.take(i + 1) =~= transactions@.take(i as int).push(
                transactions@[i as int],
            ));
            lemma_frames_len_push(transactions@.take(i as int), transactions@[i as int]);
            lemma_frames_len_grows(transactions@, i + 1);
        }
        let sum = match transactions[i].framed_len() {
            Some(frame) => len.checked_add(frame),
            None => None,
        };
        match sum {
            Some(n) => {
                len = n;
            },
            None => {
                return None;
            },
        }
        i += 1;
    }
    proof {
        assert(transactions@.take(i as int) =~= transactions@);
    }
    Some(len)
}

/// The encoded lengths of a run of transactions, added up, or `None` where the sum is
/// beyond `usize`.
pub fn total_encoded_len(transactions: &Vec<Transaction>) -> (len: Option<usize>)
    ensures
        match len {
            Some(n) => n == total_len(transactions@),
            None => total_len(transactions@) > usize::MAX,
        },
{
    let mut len: usize = 0;
    let mut i: usize = 0;
    proof {
        assert(transactions@.take(0) =~= Seq::<Transaction>::empty());
    }
    while i < transactions.len()
        invariant
            i <= transactions.len(),
            len == total_len(transactions@.take(i as int)),
        decreases transactions.len() - i,
    {
        proof {
            assert(transactions@.take(i + 1) =~= transactions@.take(i as int).push(
                transactions@[i as int],
            ));
            lemma_total_len_push(transactions@.take(i as int), transactions@[i as int]);
            lemma_total_len_grows(transactions@, i + 1);
        }
        let sum = match transactions[i].encoded_len() {
            Some(n) => len.checked_add(n),
            None => None,
        };
        match sum {
            Some(n) => {
                len = n;
            },
            None => {
                return None;
            },
        }
        i += 1;
    }
    proof {
        assert(transactions@.take(i as int) =~= transactions@);
    }
    Some(len)
}

/// The frames of a run are at least as long as those of its first `k` transactions.
pub proof fn lemma_frames_len_grows(s: Seq<Transaction>, k: int)
    requires
        0 <= k <= s.len(),
    ensures
        frames_len(s.take(k)) <= frames_len(s),
    decreases s.len() - k,
{
    if k == s.len() {
        assert(s.take(k) =~= s);
    } else {
        assert(s.take(k + 1) =~= s.take(k).push(s[k]));
        lemma_frames_len_push(s.take(k), s[k]);
        lemma_frames_len_grows(s, k + 1);
    }
}

/// The lengths of a run add up to at least as much as those of its first `k`
/// transactions.
pub proof fn lemma_total_len_grows(s: Seq<Transaction>, k: int)
    requires
        0 <= k <= s.len(),
    ensures
        total_len(s.take(k)) <= total_len(s),
    decreases s.len() - k,
{
    if k == s.len() {
        assert(s.take(k) =~= s);
    } else {
        assert(s.take(k + 1) =~= s.take(k).push(s[k]));
        lemma_total_len_push(s.take(k), s[k]);
        lemma_total_len_grows(s, k + 1);
    }
}

} // verus!

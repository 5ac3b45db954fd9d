//! Responses: a run of transactions cut into chunks that each fit into one message.

use vstd::prelude::*;
use crate::transaction::{batch_seqs, Transaction};
use crate::wire::{
    chain_id_encoded_len, chain_id_len, framed_len, frames_encoded_len, frames_len, response_len,
};

verus! {

/// The greatest encoded length of a response, in bytes.
pub const MESSAGE_SIZE_LIMIT: usize = 15_728_640;

/// One message of the response stream.
#[derive(Clone, Debug, PartialEq, Eq)]
pub struct TransactionsResponse {
    pub chain_id: Option<u64>,
    pub transactions: Vec<Transaction>,
}

impl TransactionsResponse {
    /// The encoded length of the response, or `None` where it is beyond `usize`.
    pub fn encoded_len(&self) -> (len: Option<usize>)
        ensures
            match len {
                Some(n) => n == response_len(self.chain_id, self.transactions@),
                None => response_len(self.chain_id, self.transactions@) > usize::MAX,
            },
    {
        match frames_encoded_len(&self.transactions) {
            Some(frames) => frames.checked_add(chain_id_encoded_len(self.chain_id)),
            None => None,
        }
    }
}

/// Why a run of transactions cannot be cut into chunks.
#[derive(Clone, Copy, Debug, PartialEq, Eq)]
pub enum ChunkError {
    /// The transaction with this version does not fit into a message even alone.
    TransactionTooLarge { version: u64 },
}

/// The number of leading transactions of `s` whose frames fit together into `room` bytes.
pub open spec fn fitting_prefix(s: Seq<Transaction>, room: nat) -> nat
    decreases s.len(),
{
    if s.len() == 0 || framed_len(s[0]) > room {
        0
    } else {
        1 + fitting_prefix(s.drop_first(), (room - framed_len(s[0])) as nat)
    }
}

/// Cuts `s` into chunks, each the longest run of what is left that fits into `room`
/// bytes. Nothing is cut behind a transaction that does not fit even alone.
pub open spec fn chunks(s: Seq<Transaction>, room: nat) -> Seq<Seq<Transaction>>
    decreases s.len(),
    via chunks_terminates
{
    let k = fitting_prefix(s, room) as int;
    if s.len() == 0 || k == 0 {
        Seq::empty()
    } else {
        seq![s.take(k)] + chunks(s.skip(k), room)
    }
}

#[via_fn]
proof fn chunks_terminates(s: Seq<Transaction>, room: nat) {
    lemma_fitting_prefix_is_prefix(s, room);
}

/// The fitting prefix is no longer than the run.
pub proof fn lemma_fitting_prefix_is_prefix(s: Seq<Transaction>, room: nat)
    ensures
        fitting_prefix(s, room) <= s.len(),
    decreases s.len(),
{
    if s.len() > 0 && framed_len(s[0]) <= room {
        lemma_fitting_prefix_is_prefix(s.drop_first(), (room - framed_len(s[0])) as nat);
    }
}

/// Each transaction of `s` fits into `room` bytes alone.
pub open spec fn all_fit(s: Seq<Transaction>, room: nat) -> bool {
    forall|i: int| 0 <= i < s.len() ==> framed_len(#[trigger] s[i]) <= room
}

/// The number of leading transactions of `s` that each fit into `room` bytes alone.
pub open spec fn leading_fits(s: Seq<Transaction>, room: nat) -> int
    decreases s.len(),
{
    if s.len() == 0 || framed_len(s[0]) > room {
        0
    } else {
        1 + leading_fits(s.drop_first(), room)
    }
}

/// The chunks of `s`, or the first transaction of `s` that is too large to fit into
/// `room` bytes even alone.
pub open spec fn chunked(s: Seq<Transaction>, room: nat) -> Result<
    Seq<Seq<Transaction>>,
    ChunkError,
> {
    let k = leading_fits(s, room);
    if k < s.len() {
        Err(ChunkError::TransactionTooLarge { version: s[k].version })
    } else {
        Ok(chunks(s, room))
    }
}

/// The leading transactions that fit end at the first that does not.
pub proof fn lemma_leading_fits(s: Seq<Transaction>, room: nat, k: int)
    requires
        0 <= k <= s.len(),
        all_fit(s.take(k), room),
        k < s.len() ==> framed_len(s[k]) > room,
    ensures
        leading_fits(s, room) == k,
    decreases s.len(),
{
    if k == 0 {
    } else {
        assert(s.take(k)[0] == s[0]);
        let tail = s.drop_first();
        assert(tail.take(k - 1) =~= s.take(k).drop_first());
        assert forall|i: int| 0 <= i < k - 1 implies framed_len(#[trigger] tail.take(k - 1)[i])
            <= room by {
            assert(s.take(k)[i + 1] == tail.take(k - 1)[i]);
        }
        lemma_leading_fits(tail, room, k - 1);
    }
}

/// Where the chunks can be cut, every transaction fits alone.
pub proof fn lemma_chunked_all_fit(s: Seq<Transaction>, room: nat)
    ensures
        chunked(s, room) is Ok <==> all_fit(s, room),
    decreases s.len(),
{
    if s.len() == 0 {
    } else if framed_len(s[0]) > room {
    } else {
        let tail = s.drop_first();
        lemma_chunked_all_fit(tail, room);
        lemma_leading_fits_in_range(tail, room);
        if all_fit(tail, room) {
            assert forall|i: int| 0 <= i < s.len() implies framed_len(#[trigger] s[i])
                <= room by {
                if i > 0 {
                    assert(s[i] == tail[i - 1]);
                }
            }
        }
        if all_fit(s, room) {
            assert forall|i: int| 0 <= i < tail.len() implies framed_len(#[trigger] tail[i])
                <= room by {
                assert(tail[i] == s[i + 1]);
            }
        }
    }
}

/// The number of leading transactions that fit is no more than there are.
pub proof fn lemma_leading_fits_in_range(s: Seq<Transaction>, room: nat)
    ensures
        0 <= leading_fits(s, room) <= s.len(),
    decreases s.len(),
{
    if s.len() > 0 && framed_len(s[0]) <= room {
        lemma_leading_fits_in_range(s.drop_first(), room);
    }
}

/// The room that a response with this chain id has for transactions.
pub open spec fn room_for(chain_id: Option<u64>) -> nat {
    (MESSAGE_SIZE_LIMIT - chain_id_len(chain_id)) as nat
}

/// The fitting prefix is a prefix, it fits, and one transaction more would not.
pub proof fn lemma_fitting_prefix(s: Seq<Transaction>, room: nat)
    ensures
        fitting_prefix(s, room) <= s.len(),
        frames_len(s.take(fitting_prefix(s, room) as int)) <= room,
        fitting_prefix(s, room) < s.len() ==> frames_len(
            s.take(fitting_prefix(s, room) as int + 1),
        ) > room,
        all_fit(s.take(fitting_prefix(s, room) as int), room),
    decreases s.len(),
{
    let k = fitting_prefix(s, room) as int;
    if s.len() == 0 {
        assert(s.take(0) =~= s);
    } else if framed_len(s[0]) > room {
        assert(s.take(0) =~= Seq::<Transaction>::empty());
        assert(s.take(1).drop_first() =~= Seq::<Transaction>::empty());
        assert(frames_len(s.take(1)) == framed_len(s[0]) + frames_len(s.take(1).drop_first()));
    } else {
        let tail = s.drop_first();
        let left = (room - framed_len(s[0])) as nat;
        lemma_fitting_prefix(tail, left);
        assert(s.take(k).drop_first() =~= tail.take(k - 1));
        assert(s.take(k)[0] == s[0]);
        if k < s.len() {
            assert(s.take(k + 1).drop_first() =~= tail.take(k));
            assert(s.take(k + 1)[0] == s[0]);
        }
        assert forall|i: int| 0 <= i < k implies framed_len(#[trigger] s.take(k)[i]) <= room by {
            if i > 0 {
                assert(s.take(k)[i] == tail.take(k - 1)[i - 1]);
            }
        }
    }
}

/// Where every transaction fits alone, the chunks put together are the transactions,
/// no chunk is empty, and each chunk fits.
pub proof fn lemma_chunks(s: Seq<Transaction>, room: nat)
    requires
        all_fit(s, room),
    ensures
        chunks(s, room).flatten() == s,
        forall|i: int|
            0 <= i < chunks(s, room).len() ==> (#[trigger] chunks(s, room)[i]).len() > 0
                && frames_len(chunks(s, room)[i]) <= room,
        s.len() > 0 ==> chunks(s, room).len() > 0,
    decreases s.len(),
{
    let k = fitting_prefix(s, room) as int;
    if s.len() == 0 {
    } else {
        assert(framed_len(s[0]) <= room);
        lemma_fitting_prefix(s, room);
        let rest = s.skip(k);
        assert forall|i: int| 0 <= i < rest.len() implies framed_len(#[trigger] rest[i])
            <= room by {
            assert(rest[i] == s[k + i]);
        }
        lemma_chunks(rest, room);
        let c = chunks(s, room);
        assert(c == seq![s.take(k)] + chunks(rest, room));
        assert(c.first() == s.take(k));
        assert(c.drop_first() =~= chunks(rest, room));
        assert(s.take(k) + rest =~= s);
        assert forall|i: int| 0 <= i < c.len() implies (#[trigger] c[i]).len() > 0 && frames_len(
            c[i],
        ) <= room by {
            if i > 0 {
                assert(c[i] == chunks(rest, room)[i - 1]);
            }
        }
    }
}

/// Counts the leading transactions whose frames fit together into `room` bytes.
pub fn count_fitting(transactions: &Vec<Transaction>, room: usize) -> (count: usize)
    ensures
        count == fitting_prefix(transactions@, room as nat),
        count <= transactions.len(),
{
    let mut count: usize = 0;
    let mut left: usize = room;
    proof {
        assert(transactions@.skip(0) =~= transactions@);
    }
    while count < transactions.len()
        invariant
            count <= transactions.len(),
            fitting_prefix(transactions@, room as nat) == count + fitting_prefix(
                transactions@.skip(count as int),
                left as nat,
            ),
        decreases transactions.len() - count,
    {
        proof {
            assert(transactions@.skip(count as int)[0] == transactions@[count as int]);
            assert(transactions@.skip(count as int).drop_first() =~= transactions@.skip(
                count + 1,
            ));
        }
        match transactions[count].framed_len() {
            Some(frame) => {
                if frame > left {
                    return count;
                }
                left = left - frame;
            },
            None => {
                return count;
            },
        }
        count += 1;
    }
    count
}

/// Cuts a run of transactions into chunks whose frames take at most `chunk_size` bytes
/// each. Every chunk holds as many transactions as fit; a transaction too large to fit
/// alone is an error.
pub fn chunk_transactions(transactions: Vec<Transaction>, chunk_size: usize) -> (r: Result<
    Vec<Vec<Transaction>>,
    ChunkError,
>)
    ensures
        match r {
            Ok(c) => chunked(transactions@, chunk_size as nat) == Ok::<
                Seq<Seq<Transaction>>,
                ChunkError,
            >(batch_seqs(c@)),
            Err(e) => chunked(transactions@, chunk_size as nat) == Err::<
                Seq<Seq<Transaction>>,
                ChunkError,
            >(e),
        },
{
    let ghost all = transactions@;
    let ghost room = chunk_size as nat;
    let mut rest = transactions;
    let mut out: Vec<Vec<Transaction>> = Vec::new();
    let ghost mut done: int = 0;
    proof {
        assert(all.skip(0) =~= all);
        assert(batch_seqs(out@) =~= Seq::<Seq<Transaction>>::empty());
        assert(batch_seqs(out@) + chunks(rest@, room) =~= chunks(all, room));
    }
    while rest.len() > 0
        invariant
            0 <= done <= all.len(),
            rest@ == all.skip(done),
            all_fit(all.take(done), room),
            chunks(all, room) == batch_seqs(out@) + chunks(rest@, room),
            room == chunk_size as nat,
            all == transactions@,
        decreases rest.len(),
    {
        let count = count_fitting(&rest, chunk_size);
        proof {
            lemma_fitting_prefix(rest@, room);
        }
        if count == 0 {
            proof {
                assert(rest@[0] == all[done]);
                lemma_leading_fits(all, room, done);
            }
            return Err(ChunkError::TransactionTooLarge { version: rest[0].version });
        }
        let ghost before = rest@;
        let ghost out_before = batch_seqs(out@);
        let tail = rest.split_off(count);
        proof {
            assert(rest@ == before.take(count as int));
            assert(tail@ =~= before.skip(count as int));
            assert(tail@ =~= all.skip(done + count));
            assert forall|i: int| 0 <= i < done + count implies framed_len(
                #[trigger] all.take(done + count)[i],
            ) <= room by {
                if i < done {
                    assert(all.take(done)[i] == all[i]);
                } else {
                    assert(before.take(count as int)[i - done] == all[i]);
                }
            }
        }
        out.push(rest);
        proof {
            assert(batch_seqs(out@) =~= out_before.push(before.take(count as int)));
            assert(batch_seqs(out@) + chunks(tail@, room) =~= out_before + (seq![
                before.take(count as int),
            ] + chunks(before.skip(count as int), room)));
            done = done + count;
        }
        rest = tail;
    }
    proof {
        assert(all.take(done) =~= all);
        lemma_leading_fits(all, room, done);
        assert(chunks(rest@, room) =~= Seq::<Seq<Transaction>>::empty());
        assert(batch_seqs(out@) + chunks(rest@, room) =~= batch_seqs(out@));
    }
    Ok(out)
}

/// The responses that carry the chunks of `s` under the chain id, or the first
/// transaction of `s` that no response has room for.
pub open spec fn responses_for(s: Seq<Transaction>, chain_id: Option<u64>) -> Result<
    Seq<(Option<u64>, Seq<Transaction>)>,
    ChunkError,
> {
    match chunked(s, room_for(chain_id)) {
        Ok(c) => Ok(c.map_values(|chunk: Seq<Transaction>| (chain_id, chunk))),
        Err(e) => Err(e),
    }
}

/// What a sequence of responses holds: for each its chain id and its transactions.
pub open spec fn response_seqs(responses: Seq<TransactionsResponse>) -> Seq<
    (Option<u64>, Seq<Transaction>),
> {
    responses.map_values(|r: TransactionsResponse| (r.chain_id, r.transactions@))
}

/// Cuts a run of transactions into the responses that carry it, each within
/// [`MESSAGE_SIZE_LIMIT`] and tagged with the chain id.
pub fn get_transactions_responses_builder(transactions: Vec<Transaction>, chain_id: u64) -> (r:
    Result<Vec<TransactionsResponse>, ChunkError>)
    ensures
        match r {
            Ok(responses) => responses_for(transactions@, Some(chain_id)) == Ok::<
                Seq<(Option<u64>, Seq<Transaction>)>,
                ChunkError,
            >(response_seqs(responses@)),
            Err(e) => responses_for(transactions@, Some(chain_id)) == Err::<
                Seq<(Option<u64>, Seq<Transaction>)>,
                ChunkError,
            >(e),
        },
{
    let tag: Option<u64> = Some(chain_id);
    let room: usize = MESSAGE_SIZE_LIMIT - chain_id_encoded_len(tag);
    match chunk_transactions(transactions, room) {
        Ok(chunked) => {
            let ghost all = batch_seqs(chunked@);
            let mut rest = chunked;
            let mut responses: Vec<TransactionsResponse> = Vec::new();
            let ghost mut done: int = 0;
            proof {
                assert(all.skip(0) =~= all);
                assert(response_seqs(responses@) =~= all.take(0).map_values(
                    |c: Seq<Transaction>| (tag, c),
                ));
            }
            while rest.len() > 0
                invariant
                    0 <= done <= all.len(),
                    done + rest@.len() == all.len(),
                    batch_seqs(rest@) == all.skip(done),
                    response_seqs(responses@) == all.take(done).map_values(
                        |c: Seq<Transaction>| (tag, c),
                    ),
                decreases rest.len(),
            {
                let ghost before = response_seqs(responses@);
                let ghost rest_before = rest@;
                let chunk = rest.remove(0);
                proof {
                    assert(batch_seqs(rest_before)[0] == chunk@);
                    assert(all.skip(done)[0] == all[done]);
                    assert(batch_seqs(rest@) =~= all.skip(done + 1)) by {
                        assert forall|i: int| 0 <= i < rest@.len() implies batch_seqs(rest@)[i]
                            == all.skip(done + 1)[i] by {
                            assert(batch_seqs(rest_before)[i + 1] == all.skip(done)[i + 1]);
                        }
                    }
                }
                responses.push(TransactionsResponse { chain_id: tag, transactions: chunk });
                proof {
                    assert(response_seqs(responses@) =~= before.push((tag, chunk@)));
                    assert(response_seqs(responses@) =~= all.take(done + 1).map_values(
                        |c: Seq<Transaction>| (tag, c),
                    ));
                    done = done + 1;
                }
            }
            proof {
                assert(all.take(done) =~= all);
            }
            Ok(responses)
        },
        Err(e) => Err(e),
    }
}

/// The transactions of a sequence of responses, put together.
pub open spec fn carried(responses: Seq<(Option<u64>, Seq<Transaction>)>) -> Seq<Transaction>
    decreases responses.len(),
{
    if responses.len() == 0 {
        Seq::empty()
    } else {
        responses[0].1 + carried(responses.drop_first())
    }
}

/// The response holds a transaction, carries the chain id and is no longer than
/// [`MESSAGE_SIZE_LIMIT`].
pub open spec fn is_valid_response(response: (Option<u64>, Seq<Transaction>), chain_id: u64)
    -> bool {
    &&& response.0 == Some(chain_id)
    &&& response.1.len() >= 1
    &&& response_len(response.0, response.1) <= MESSAGE_SIZE_LIMIT
}

/// Each response built for a run of transactions holds a transaction and is no longer
/// than [`MESSAGE_SIZE_LIMIT`], and the responses together carry the run.
pub proof fn lemma_responses_within_limit(s: Seq<Transaction>, chain_id: u64)
    requires
        responses_for(s, Some(chain_id)) is Ok,
    ensures
        forall|i: int|
            0 <= i < responses_for(s, Some(chain_id))->Ok_0.len() ==> is_valid_response(
                #[trigger] responses_for(s, Some(chain_id))->Ok_0[i],
                chain_id,
            ),
        carried(responses_for(s, Some(chain_id))->Ok_0) == s,
        s.len() > 0 ==> responses_for(s, Some(chain_id))->Ok_0.len() > 0,
{
    let tag = Some(chain_id);
    let room = room_for(tag);
    lemma_chunked_all_fit(s, room);
    lemma_chunks(s, room);
    crate::wire::lemma_chain_id_len_bounds(tag);
    let c = chunks(s, room);
    let r = responses_for(s, tag)->Ok_0;
    assert forall|i: int| 0 <= i < r.len() implies is_valid_response(#[trigger] r[i], chain_id) by {
        assert(c[i].len() > 0);
    }
    lemma_carried_is_flatten(c, tag);
}

/// What responses carry is what their chunks hold, put together.
pub proof fn lemma_carried_is_flatten(c: Seq<Seq<Transaction>>, chain_id: Option<u64>)
    ensures
        carried(c.map_values(|chunk: Seq<Transaction>| (chain_id, chunk))) == c.flatten(),
    decreases c.len(),
{
    let r = c.map_values(|chunk: Seq<Transaction>| (chain_id, chunk));
    if c.len() > 0 {
        lemma_carried_is_flatten(c.drop_first(), chain_id);
        assert(r.drop_first() =~= c.drop_first().map_values(
            |chunk: Seq<Transaction>| (chain_id, chunk),
        ));
    }
}

} // verus!

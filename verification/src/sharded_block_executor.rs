//! The coordinator of sharded block execution: it hands a partitioned block to the
//! shards and puts what they return into one sequence, round by round and, within a
//! round, shard by shard, with the output of the global executor at the end.

use vstd::prelude::*;
use std::marker::PhantomData;
use std::sync::Arc;
use crate::session::{StatusCode, VMStatus};

verus! {

/// A block cut up for the shards: for each shard its sub-blocks, one for each round,
/// and the transactions that are left to the global executor.
pub struct PartitionedTransactions<A> {
    pub sharded_txns: Vec<Vec<Vec<A>>>,
    pub global_txns: Vec<A>,
}

/// What the shards made of a block: for each shard the outputs of each of its rounds,
/// and the outputs of the global executor.
pub struct ShardedExecutionOutput<T> {
    pub sharded_output: Vec<Vec<Vec<T>>>,
    pub global_output: Vec<T>,
}

/// What a shard is told to do.
pub enum ExecutorShardCommand<S, B> {
    /// Execute these sub-blocks over the state, with this many threads and under this
    /// gas limit for the block, if there is one.
    ExecuteSubBlocks(Arc<S>, B, usize, Option<u64>),
    Stop,
}

/// The way to the shards.
pub trait ExecutorClient<S> {
    /// The transactions that the shards execute.
    type Transaction;

    /// What the execution of one transaction puts out.
    type Output;

    /// The number of shards.
    fn num_shards(&self) -> usize;

    /// Executes the block on the shards.
    fn execute_block(
        &self,
        state_view: Arc<S>,
        transactions: PartitionedTransactions<Self::Transaction>,
        concurrency_level_per_shard: usize,
        maybe_block_gas_limit: Option<u64>,
    ) -> Result<ShardedExecutionOutput<Self::Output>, VMStatus>;
}

/// The coordinator of the shards.
pub struct ShardedBlockExecutor<S, C: ExecutorClient<S>> {
    pub executor_client: C,
    pub phantom: PhantomData<S>,
}

/// The outputs of the shards as sequences.
pub open spec fn output_seqs<T>(output: Seq<Vec<Vec<T>>>) -> Seq<Seq<Seq<T>>> {
    output.map_values(|shard: Vec<Vec<T>>| shard@.map_values(|round: Vec<T>| round@))
}

/// There is a shard, and no shard ran more rounds than the first.
pub open spec fn well_shaped<T>(output: Seq<Seq<Seq<T>>>) -> bool {
    &&& output.len() > 0
    &&& forall|shard: int|
        0 <= shard < output.len() ==> (#[trigger] output[shard]).len() <= output[0].len()
}

/// The outputs are well shaped, and the number of shards times the number of rounds is
/// a `usize`.
pub open spec fn can_be_ordered<T>(output: Seq<Seq<Seq<T>>>) -> bool {
    well_shaped(output) && output.len() * output[0].len() <= usize::MAX
}

/// The outputs at place `i` of the order of rounds and shards: those of shard
/// `i % shards` in round `i / shards`, none where the shard did not run that round.
pub open spec fn slot<T>(output: Seq<Seq<Seq<T>>>, i: int) -> Seq<T> {
    let shards = output.len() as int;
    let round = i / shards;
    let shard = i % shards;
    if round < output[shard].len() {
        output[shard][round]
    } else {
        Seq::empty()
    }
}

/// The outputs of the shards in the order of rounds and, within a round, of shards.
pub open spec fn ordered<T>(output: Seq<Seq<Seq<T>>>) -> Seq<Seq<T>> {
    Seq::new(output.len() * output[0].len(), |i: int| slot(output, i))
}

/// All outputs in one sequence: those of the shards in their order, then those of the
/// global executor.
pub open spec fn aggregated<T>(output: Seq<Seq<Seq<T>>>, global_output: Seq<T>) -> Seq<T> {
    ordered(output).flatten() + global_output
}

/// The status of an execution whose parts do not fit together.
pub open spec fn shards_disagree() -> VMStatus {
    VMStatus { status_code: StatusCode::UnknownInvariantViolationError }
}

/// The views of a sequence of vectors.
pub open spec fn seqs_of<T>(vecs: Seq<Vec<T>>) -> Seq<Seq<T>> {
    vecs.map_values(|v: Vec<T>| v@)
}

/// Tells whether there is a shard and no shard ran more rounds than the first.
pub fn is_well_shaped<T>(sharded_output: &Vec<Vec<Vec<T>>>) -> (ok: bool)
    ensures
        ok == well_shaped(output_seqs(sharded_output@)),
{
    let ghost all = output_seqs(sharded_output@);
    if sharded_output.len() == 0 {
        return false;
    }
    let rounds: usize = sharded_output[0].len();
    let mut shard: usize = 0;
    while shard < sharded_output.len()
        invariant
            shard <= sharded_output.len(),
            sharded_output.len() > 0,
            all == output_seqs(sharded_output@),
            rounds == all[0].len(),
            forall|s: int| 0 <= s < shard ==> (#[trigger] all[s]).len() <= rounds,
        decreases sharded_output.len() - shard,
    {
        if sharded_output[shard].len() > rounds {
            proof {
                assert(all[shard as int].len() > all[0].len());
            }
            return false;
        }
        shard += 1;
    }
    true
}

/// Puts the outputs of the shards and of the global executor into one sequence.
///
/// There must be a shard, no shard may have run more rounds than the first, and the
/// number of shards times the number of rounds must be a `usize`: a caller that cannot
/// know this calls [`try_aggregate_results`].
pub fn aggregate_results<T>(sharded_output: Vec<Vec<Vec<T>>>, global_output: Vec<T>) -> (results:
    Vec<T>)
    requires
        well_shaped(output_seqs(sharded_output@)),
        sharded_output@.len() * sharded_output@[0]@.len() <= usize::MAX,
    ensures
        results@ == aggregated(output_seqs(sharded_output@), global_output@),
{
    let ghost all = output_seqs(sharded_output@);
    let num_shards: usize = sharded_output.len();
    let num_rounds: usize = sharded_output[0].len();
    proof {
        assert(all[0] == sharded_output@[0]@.map_values(|round: Vec<T>| round@));
    }
    let total: usize = num_shards * num_rounds;
    let mut ordered_results: Vec<Vec<T>> = Vec::new();
    let mut i: usize = 0;
    while i < total
        invariant
            i <= total,
            ordered_results.len() == i,
            forall|j: int| 0 <= j < i ==> (#[trigger] ordered_results[j])@ == Seq::<T>::empty(),
        decreases total - i,
    {
        ordered_results.push(Vec::new());
        i += 1;
    }
    let mut shards = sharded_output;
    let mut shard_id: usize = 0;
    proof {
        assert(output_seqs(shards@).skip(0) =~= all);
    }
    while shards.len() > 0
        invariant
            well_shaped(all),
            num_shards == all.len(),
            num_rounds == all[0].len(),
            total == num_shards * num_rounds,
            ordered_results.len() == total,
            shard_id + shards.len() == num_shards,
            output_seqs(shards@) == all.skip(shard_id as int),
            forall|j: int|
                0 <= j < total ==> (#[trigger] ordered_results[j])@ == (if j % (num_shards as int)
                    < shard_id {
                    slot(all, j)
                } else {
                    Seq::<T>::empty()
                }),
        decreases shards.len(),
    {
        let ghost shards_before = shards@;
        let mut rounds = shards.remove(0);
        let ghost this = all[shard_id as int];
        proof {
            assert(output_seqs(shards_before)[0] == all.skip(shard_id as int)[0]);
            assert(rounds@.map_values(|round: Vec<T>| round@) == this);
            assert(output_seqs(shards@) =~= all.skip(shard_id + 1)) by {
                assert forall|s: int| 0 <= s < shards@.len() implies output_seqs(shards@)[s]
                    == all.skip(shard_id + 1)[s] by {
                    assert(output_seqs(shards_before)[s + 1] == all.skip(shard_id as int)[s + 1]);
                }
            }
            assert(this.len() <= num_rounds);
            assert(seqs_of(rounds@).skip(0) =~= this);
        }
        let mut round: usize = 0;
        while rounds.len() > 0
            invariant
                well_shaped(all),
                num_shards == all.len(),
                num_rounds == all[0].len(),
                total == num_shards * num_rounds,
                ordered_results.len() == total,
                shard_id < num_shards,
                this == all[shard_id as int],
                this.len() <= num_rounds,
                round + rounds.len() == this.len(),
                seqs_of(rounds@) == this.skip(round as int),
                forall|j: int|
                    0 <= j < total ==> (#[trigger] ordered_results[j])@ == (if j % (
                    num_shards as int) < shard_id || (j % (num_shards as int) == shard_id && j / (
                    num_shards as int) < round) {
                        slot(all, j)
                    } else {
                        Seq::<T>::empty()
                    }),
            decreases rounds.len(),
        {
            let ghost rounds_before = rounds@;
            let ghost ordered_before = ordered_results@;
            let result = rounds.remove(0);
            proof {
                assert(seqs_of(rounds_before)[0] == this.skip(round as int)[0]);
                assert(result@ == this[round as int]);
                assert(seqs_of(rounds@) =~= this.skip(round + 1)) by {
                    assert forall|r: int| 0 <= r < rounds@.len() implies seqs_of(rounds@)[r]
                        == this.skip(round + 1)[r] by {
                        assert(seqs_of(rounds_before)[r + 1] == this.skip(round as int)[r + 1]);
                    }
                }
                lemma_place(num_shards as int, num_rounds as int, round as int, shard_id as int);
            }
            let at: usize = round * num_shards + shard_id;
            ordered_results[at] = result;
            proof {
                assert forall|j: int| 0 <= j < total implies (#[trigger] ordered_results[j])@ == (
                if j % (num_shards as int) < shard_id || (j % (num_shards as int) == shard_id
                    && j / (num_shards as int) < round + 1) {
                    slot(all, j)
                } else {
                    Seq::<T>::empty()
                }) by {
                    if j == at {
                    } else {
                        assert(ordered_results[j] == ordered_before[j]);
                        if j % (num_shards as int) == shard_id && j / (num_shards as int)
                            == round {
                            lemma_place_is_unique(num_shards as int, j);
                        }
                    }
                }
            }
            round += 1;
        }
        proof {
            assert forall|j: int| 0 <= j < total implies (#[trigger] ordered_results[j])@ == (
            if j % (num_shards as int) < shard_id + 1 {
                slot(all, j)
            } else {
                Seq::<T>::empty()
            }) by {
                if j % (num_shards as int) == shard_id && j / (num_shards as int) >= round {
                    assert(slot(all, j) == Seq::<T>::empty());
                }
            }
        }
        shard_id += 1;
    }
    proof {
        assert(seqs_of(ordered_results@) =~= ordered(all)) by {
            assert forall|j: int| 0 <= j < total implies seqs_of(ordered_results@)[j] == slot(
                all,
                j,
            ) by {
                assert(0 <= j % (num_shards as int) < num_shards);
            }
        }
    }
    let ghost slots = seqs_of(ordered_results@);
    let mut aggregated_results: Vec<T> = Vec::new();
    let ghost mut done: int = 0;
    proof {
        assert(slots.take(0) =~= Seq::<Seq<T>>::empty());
        assert(slots.skip(0) =~= slots);
    }
    while ordered_results.len() > 0
        invariant
            0 <= done <= slots.len(),
            done + ordered_results.len() == slots.len(),
            seqs_of(ordered_results@) == slots.skip(done),
            aggregated_results@ == slots.take(done).flatten(),
        decreases ordered_results.len(),
    {
        let ghost before = ordered_results@;
        let mut result = ordered_results.remove(0);
        proof {
            assert(seqs_of(before)[0] == slots.skip(done)[0]);
            assert(result@ == slots[done]);
            assert(seqs_of(ordered_results@) =~= slots.skip(done + 1)) by {
                assert forall|j: int| 0 <= j < ordered_results@.len() implies seqs_of(
                    ordered_results@,
                )[j] == slots.skip(done + 1)[j] by {
                    assert(seqs_of(before)[j + 1] == slots.skip(done)[j + 1]);
                }
            }
            assert(slots.take(done + 1) =~= slots.take(done).push(slots[done]));
            slots.take(done).lemma_flatten_push(slots[done]);
        }
        aggregated_results.append(&mut result);
        proof {
            done = done + 1;
        }
    }
    proof {
        assert(slots.take(done) =~= slots);
    }
    let mut global_output = global_output;
    aggregated_results.append(&mut global_output);
    aggregated_results
}

/// The place of a round of a shard lies among the places, and names the round and the
/// shard again.
proof fn lemma_place(shards: int, rounds: int, round: int, shard: int)
    requires
        0 <= shard < shards,
        0 <= round < rounds,
    ensures
        0 <= round * shards + shard < shards * rounds,
        (round * shards + shard) / shards == round,
        (round * shards + shard) % shards == shard,
{
    assert(round * shards + shard < shards * rounds) by (nonlinear_arith)
        requires
            0 <= shard < shards,
            0 <= round < rounds,
    ;
    assert(0 <= round * shards + shard) by (nonlinear_arith)
        requires
            0 <= shard < shards,
            0 <= round,
    ;
    vstd::arithmetic::div_mod::lemma_fundamental_div_mod_converse(
        round * shards + shard,
        shards,
        round,
        shard,
    );
}

/// A place is that of its quotient and remainder.
proof fn lemma_place_is_unique(shards: int, j: int)
    requires
        0 < shards,
    ensures
        j == (j / shards) * shards + j % shards,
{
    vstd::arithmetic::div_mod::lemma_fundamental_div_mod(j, shards);
    assert((j / shards) * shards == shards * (j / shards)) by (nonlinear_arith);
}

/// Puts the outputs of the shards and of the global executor into one sequence, or
/// tells that they do not fit together: that there is no shard, that a shard ran more
/// rounds than the first, or that there are more places than a `usize` counts.
pub fn try_aggregate_results<T>(sharded_output: Vec<Vec<Vec<T>>>, global_output: Vec<T>) -> (r:
    Option<Vec<T>>)
    ensures
        match r {
            Some(results) => {
                &&& can_be_ordered(output_seqs(sharded_output@))
                &&& results@ == aggregated(output_seqs(sharded_output@), global_output@)
            },
            None => !can_be_ordered(output_seqs(sharded_output@)),
        },
{
    if !is_well_shaped(&sharded_output) {
        return None;
    }
    proof {
        assert(output_seqs(sharded_output@)[0] == sharded_output@[0]@.map_values(
            |round: Vec<T>| round@,
        ));
    }
    match sharded_output.len().checked_mul(sharded_output[0].len()) {
        Some(_) => Some(aggregate_results(sharded_output, global_output)),
        None => None,
    }
}

impl<A> PartitionedTransactions<A> {
    /// The number of shards that the block was cut up for.
    pub fn num_shards(&self) -> (n: usize)
        ensures
            n == self.sharded_txns@.len(),
    {
        self.sharded_txns.len()
    }
}

impl<T> ShardedExecutionOutput<T> {
    /// The outputs of the shards and those of the global executor.
    pub fn into_inner(self) -> (parts: (Vec<Vec<Vec<T>>>, Vec<T>))
        ensures
            parts.0 == self.sharded_output,
            parts.1 == self.global_output,
    {
        (self.sharded_output, self.global_output)
    }
}

impl<S, C: ExecutorClient<S>> ShardedBlockExecutor<S, C> {
    /// A coordinator of the shards that the client leads to.
    pub fn new(executor_client: C) -> (executor: Self)
        ensures
            executor.executor_client == executor_client,
    {
        ShardedBlockExecutor { executor_client, phantom: PhantomData }
    }

    /// The number of shards: what the client gives for it.
    pub fn num_shards(&self) -> (n: usize)
        ensures call_ensures(C::num_shards, (&self.executor_client,), n),
    {
        self.executor_client.num_shards()
    }

    /// Hands a partitioned block to the shards and puts what they return in order.
    pub fn execute_block(
        &self,
        state_view: Arc<S>,
        transactions: PartitionedTransactions<C::Transaction>,
        concurrency_level_per_shard: usize,
        maybe_block_gas_limit: Option<u64>,
    ) -> (r: Result<Vec<C::Output>, VMStatus>)
        ensures
            exists|num_shards: usize|
                {
                    &&& #[trigger] call_ensures(
                        C::num_shards,
                        (&self.executor_client,),
                        num_shards,
                    )
                    &&& if num_shards != transactions.sharded_txns@.len() {
                        r == Err::<Vec<C::Output>, VMStatus>(shards_disagree())
                    } else {
                        exists|outcome: Result<ShardedExecutionOutput<C::Output>, VMStatus>|
                            {
                                &&& #[trigger] call_ensures(
                                    C::execute_block,
                                    (
                                        &self.executor_client,
                                        state_view,
                                        transactions,
                                        concurrency_level_per_shard,
                                        maybe_block_gas_limit,
                                    ),
                                    outcome,
                                )
                                &&& result_seq(r) == coordinated(outcome, num_shards)
                            }
                    }
                },
    {
        let num_executor_shards = self.executor_client.num_shards();
        if num_executor_shards != transactions.num_shards() {
            return Err(VMStatus { status_code: StatusCode::UnknownInvariantViolationError });
        }
        let outcome = self.executor_client.execute_block(
            state_view,
            transactions,
            concurrency_level_per_shard,
            maybe_block_gas_limit,
        );
        match outcome {
            Ok(output) => ordered_outputs(output, num_executor_shards),
            Err(e) => Err(e),
        }
    }
}

/// What the coordinator of `num_shards` shards returns when the shards returned
/// `outcome`: their failure, or their outputs in order, and an invariant violation where
/// the outputs do not fit together or are not those of `num_shards` shards.
pub open spec fn coordinated<T>(
    outcome: Result<ShardedExecutionOutput<T>, VMStatus>,
    num_shards: usize,
) -> Result<Seq<T>, VMStatus> {
    match outcome {
        Ok(output) => ordered_outputs_of(
            output_seqs(output.sharded_output@),
            output.global_output@,
            num_shards,
        ),
        Err(e) => Err(e),
    }
}

/// A result with the view of what it holds.
pub open spec fn result_seq<T>(r: Result<Vec<T>, VMStatus>) -> Result<Seq<T>, VMStatus> {
    match r {
        Ok(results) => Ok(results@),
        Err(e) => Err(e),
    }
}

/// What a coordinator of `num_shards` shards makes of what they returned: their outputs
/// in order, or an invariant violation where they do not fit together or are not those
/// of `num_shards` shards.
pub open spec fn ordered_outputs_of<T>(
    sharded_output: Seq<Seq<Seq<T>>>,
    global_output: Seq<T>,
    num_shards: usize,
) -> Result<Seq<T>, VMStatus> {
    if sharded_output.len() == num_shards && can_be_ordered(sharded_output) {
        Ok(aggregated(sharded_output, global_output))
    } else {
        Err(shards_disagree())
    }
}

/// Puts what `num_shards` shards returned in order.
pub fn ordered_outputs<T>(output: ShardedExecutionOutput<T>, num_shards: usize) -> (r: Result<
    Vec<T>,
    VMStatus,
>)
    ensures
        match r {
            Ok(results) => ordered_outputs_of(
                output_seqs(output.sharded_output@),
                output.global_output@,
                num_shards,
            ) == Ok::<Seq<T>, VMStatus>(results@),
            Err(e) => ordered_outputs_of(
                output_seqs(output.sharded_output@),
                output.global_output@,
                num_shards,
            ) == Err::<Seq<T>, VMStatus>(e),
        },
{
    let (sharded_output, global_output) = output.into_inner();
    if sharded_output.len() != num_shards {
        return Err(VMStatus { status_code: StatusCode::UnknownInvariantViolationError });
    }
    match try_aggregate_results(sharded_output, global_output) {
        Some(results) => Ok(results),
        None => Err(VMStatus { status_code: StatusCode::UnknownInvariantViolationError }),
    }
}

} // verus!

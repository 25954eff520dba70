//! Decisions of a batch of transactions sent one after another: which attempt
//! comes next, what it sends, and the outcome recorded for each. Sending is
//! left to the caller, who reports each result back before asking again.
use vstd::prelude::*;
use crate::lock::{Address, ContractCall};

verus! {

/// What came of one attempt: the hash of the transaction sent, or why it failed.
#[derive(Debug, Clone, PartialEq, Eq)]
pub enum SubmissionOutcome {
    Success { tx_hash: [u8; 32] },
    Failure { reason: String },
}

/// What the caller should do next.
#[derive(Debug)]
pub enum SubmitAction {
    /// Sign and send `call` as attempt number `index`, then report the result.
    Send { index: u32, call: ContractCall },
    /// Every attempt has been made.
    Finished,
}

/// The outcome recorded for the result of one send.
pub open spec fn outcome_of(result: Result<[u8; 32], String>) -> SubmissionOutcome {
    match result {
        Ok(h) => SubmissionOutcome::Success { tx_hash: h },
        Err(e) => SubmissionOutcome::Failure { reason: e },
    }
}

/// The outcomes recorded for `results`, reported one after another to a new batch.
pub open spec fn outcomes_for(results: Seq<Result<[u8; 32], String>>) -> Seq<SubmissionOutcome>
    decreases results.len(),
{
    if results.len() == 0 {
        Seq::empty()
    } else {
        outcomes_for(results.drop_last()).push(outcome_of(results.last()))
    }
}

/// The attempt that comes next in a batch of `count` once `done` outcomes are recorded.
pub open spec fn next_index(count: u32, done: nat) -> Option<nat> {
    if done < count {
        Some(done)
    } else {
        None
    }
}

/// How many of `outcomes` are successes.
pub open spec fn num_successes(outcomes: Seq<SubmissionOutcome>) -> nat
    decreases outcomes.len(),
{
    if outcomes.len() == 0 {
        0
    } else {
        num_successes(outcomes.drop_last()) + if outcomes.last() is Success {
            1nat
        } else {
            0nat
        }
    }
}

/// A batch of `count` sends of one call, each with the same gas limit and price.
pub struct BatchSubmitter {
    pub count: u32,
    pub to: Address,
    pub data: Vec<u8>,
    pub fee: u128,
    pub gas_limit: u64,
    /// One outcome per attempt made so far, in the order of the attempts.
    pub outcomes: Vec<SubmissionOutcome>,
}

impl BatchSubmitter {
    /// Never more outcomes than attempts.
    pub open spec fn wf(&self) -> bool {
        self.outcomes@.len() <= self.count
    }

    /// A batch of `count` sends of `call`, each with `gas_limit` and price `fee`.
    pub fn new(count: u32, call: ContractCall, fee: u128, gas_limit: u64) -> (r: BatchSubmitter)
        ensures
            r.wf(),
            r.count == count,
            r.to == call.to,
            r.data@ == call.data@,
            r.fee == fee,
            r.gas_limit == gas_limit,
            r.outcomes@ == Seq::<SubmissionOutcome>::empty(),
    {
        BatchSubmitter { count, to: call.to, data: call.data, fee, gas_limit, outcomes: Vec::new() }
    }

    /// Whether every attempt has been made.
    pub fn is_finished(&self) -> (r: bool)
        requires
            self.wf(),
        ensures
            r == (self.outcomes@.len() == self.count),
    {
        self.outcomes.len() == self.count as usize
    }

    /// The next attempt, with the gas limit and price attached, or `Finished`.
    pub fn next_action(&self) -> (r: SubmitAction)
        requires
            self.wf(),
        ensures
            match next_index(self.count, self.outcomes@.len()) {
                Some(i) => r matches SubmitAction::Send { index, call } && index == i
                    && call.to == self.to && call.data@ == self.data@
                    && call.gas == Some(self.gas_limit) && call.gas_price == Some(self.fee),
                None => r is Finished,
            },
    {
        if self.outcomes.len() < self.count as usize {
            let call = ContractCall {
                to: self.to,
                data: self.data.clone(),
                gas: Some(self.gas_limit),
                gas_price: Some(self.fee),
            };
            SubmitAction::Send { index: self.outcomes.len() as u32, call }
        } else {
            SubmitAction::Finished
        }
    }

    /// Records the result of the pending attempt; a failure is kept and the
    /// batch goes on with the next attempt.
    pub fn record(&mut self, result: Result<[u8; 32], String>)
        requires
            old(self).wf(),
            old(self).outcomes@.len() < old(self).count,
        ensures
            final(self).wf(),
            final(self).outcomes@ == old(self).outcomes@.push(outcome_of(result)),
            final(self).count == old(self).count,
            final(self).to == old(self).to,
            final(self).data@ == old(self).data@,
            final(self).fee == old(self).fee,
            final(self).gas_limit == old(self).gas_limit,
    {
        let outcome = match result {
            Ok(h) => SubmissionOutcome::Success { tx_hash: h },
            Err(e) => SubmissionOutcome::Failure { reason: e },
        };
        self.outcomes.push(outcome);
    }

    /// The outcomes recorded so far, in attempt order.
    pub fn outcomes(&self) -> (r: &Vec<SubmissionOutcome>)
        ensures
            r@ == self.outcomes@,
    {
        &self.outcomes
    }

    /// How many of the recorded outcomes are successes: by how much the
    /// contract's counter should have grown when the call is `inc()`.
    pub fn successes(&self) -> (r: u32)
        requires
            self.wf(),
        ensures
            r == num_successes(self.outcomes@),
    {
        let mut n: u32 = 0;
        let mut i: usize = 0;
        while i < self.outcomes.len()
            invariant
                self.wf(),
                i <= self.outcomes@.len(),
                n == num_successes(self.outcomes@.subrange(0, i as int)),
                n <= i,
            decreases self.outcomes@.len() - i,
        {
            proof {
                let s = self.outcomes@.subrange(0, i + 1);
                assert(s.drop_last() =~= self.outcomes@.subrange(0, i as int));
            }
            match &self.outcomes[i] {
                SubmissionOutcome::Success { .. } => {
                    n = n + 1;
                },
                SubmissionOutcome::Failure { .. } => {},
            }
            i = i + 1;
        }
        assert(self.outcomes@.subrange(0, i as int) =~= self.outcomes@);
        n
    }
}

/// Runs a batch of `count` sends of `call` to its end, where `results[i]` is
/// what sending attempt `i` gave: one outcome per attempt, in attempt order.
pub fn submit_batch(
    count: u32,
    call: ContractCall,
    fee: u128,
    gas_limit: u64,
    results: Vec<Result<[u8; 32], String>>,
) -> (r: Vec<SubmissionOutcome>)
    requires
        results@.len() == count,
    ensures
        r@.len() == count,
        r@ == outcomes_for(results@),
{
    let mut batch = BatchSubmitter::new(count, call, fee, gas_limit);
    let ghost all = results@;
    let mut pending = results;
    let mut k: usize = 0;
    while !batch.is_finished()
        invariant
            batch.wf(),
            batch.count == count,
            all.len() == count,
            k == batch.outcomes@.len(),
            batch.outcomes@ == outcomes_for(all.subrange(0, k as int)),
            pending@ == all.subrange(k as int, all.len() as int),
        decreases count - k,
    {
        let result = pending.remove(0);
        proof {
            assert(pending@ =~= all.subrange(k + 1, all.len() as int));
            assert(all.subrange(0, k + 1).drop_last() =~= all.subrange(0, k as int));
        }
        batch.record(result);
        k = k + 1;
    }
    proof {
        assert(all.subrange(0, k as int) =~= all);
        lemma_outcomes_in_attempt_order(all);
    }
    batch.outcomes
}

/// Reporting results one after another records one outcome per result, the
/// outcome of the i-th result at position i: nothing is dropped or reordered.
pub proof fn lemma_outcomes_in_attempt_order(results: Seq<Result<[u8; 32], String>>)
    ensures
        outcomes_for(results).len() == results.len(),
        forall|i: int| 0 <= i < results.len() ==> #[trigger] outcomes_for(results)[i] == outcome_of(results[i]),
    decreases results.len(),
{
    if results.len() > 0 {
        lemma_outcomes_in_attempt_order(results.drop_last());
    }
}

/// A batch of `count` asks for exactly `count` attempts: it is finished once
/// `count` results are recorded and not before, and then holds `count` outcomes.
pub proof fn lemma_batch_makes_count_attempts(count: u32, results: Seq<Result<[u8; 32], String>>)
    requires
        results.len() <= count,
    ensures
        next_index(count, outcomes_for(results).len()) is None <==> results.len() == count,
        results.len() == count ==> outcomes_for(results).len() == count,
{
    lemma_outcomes_in_attempt_order(results);
}

/// A failed send at attempt `k` does not end the batch: while attempts remain,
/// attempt `k + 1` is the next one asked for.
pub proof fn lemma_failure_does_not_stop_batch(
    count: u32,
    results: Seq<Result<[u8; 32], String>>,
    k: int,
)
    requires
        0 <= k,
        k + 1 < count,
        results.len() == k + 1,
        results[k] is Err,
    ensures
        outcomes_for(results)[k] is Failure,
        next_index(count, outcomes_for(results).len()) == Some((k + 1) as nat),
{
    lemma_outcomes_in_attempt_order(results);
}

/// If every send succeeds, every outcome is a success, and there are as many
/// successes as attempts.
pub proof fn lemma_all_sent_all_success(results: Seq<Result<[u8; 32], String>>)
    requires
        forall|i: int| 0 <= i < results.len() ==> #[trigger] results[i] is Ok,
    ensures
        forall|i: int| 0 <= i < results.len() ==> #[trigger] outcomes_for(results)[i] is Success,
        num_successes(outcomes_for(results)) == results.len(),
    decreases results.len(),
{
    lemma_outcomes_in_attempt_order(results);
    if results.len() > 0 {
        let rest = results.drop_last();
        assert forall|i: int| 0 <= i < rest.len() implies #[trigger] rest[i] is Ok by {
            assert(rest[i] == results[i]);
        }
        lemma_all_sent_all_success(rest);
        assert(outcomes_for(results).drop_last() =~= outcomes_for(rest));
        assert(results[results.len() - 1] is Ok);
    }
}

} // verus!

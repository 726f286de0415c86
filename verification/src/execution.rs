//! Carrying out a payout plan, one transfer at a time.
//!
//! The engine does not move money itself. It names the next transfer, the
//! ledger performs it, and its answer is recorded here. The first refusal
//! ends the execution: nothing further is proposed, and the failure is
//! returned to the caller, so that no transfer is ever skipped.

use crate::distribution::{payouts_view, transfers_of, Payout, PayoutPlan, PayoutSpec};
use crate::error::DistributorError;
use vstd::prelude::*;

verus! {

/// The mathematical content of an [`Execution`].
pub struct ExecutionSpec {
    /// The transfers to perform, in order.
    pub transfers: Seq<PayoutSpec>,
    /// How many of them the ledger has accepted.
    pub settled: nat,
    /// Whether the ledger has refused one.
    pub failed: bool,
}

/// The transfer that an execution proposes next: none once a transfer was
/// refused or all were accepted.
pub open spec fn pending(state: ExecutionSpec) -> Option<PayoutSpec> {
    if !state.failed && state.settled < state.transfers.len() {
        Some(state.transfers[state.settled as int])
    } else {
        None
    }
}

/// The execution after the ledger has answered the pending transfer. With
/// nothing pending an answer changes nothing.
pub open spec fn recorded(state: ExecutionSpec, accepted: bool) -> ExecutionSpec {
    if pending(state) is None {
        state
    } else if accepted {
        ExecutionSpec { settled: state.settled + 1, ..state }
    } else {
        ExecutionSpec { failed: true, ..state }
    }
}

/// Whether every transfer has been accepted.
pub open spec fn complete(state: ExecutionSpec) -> bool {
    !state.failed && state.settled == state.transfers.len()
}

/// The execution of one payout plan.
#[derive(Debug, PartialEq, Eq)]
pub struct Execution {
    transfers: Vec<Payout>,
    settled: usize,
    failed: bool,
}

impl View for Execution {
    type V = ExecutionSpec;

    closed spec fn view(&self) -> ExecutionSpec {
        ExecutionSpec {
            transfers: payouts_view(self.transfers@),
            settled: self.settled as nat,
            failed: self.failed,
        }
    }
}

impl Execution {
    /// The invariant of every execution: no more transfers are settled than
    /// there are.
    #[verifier::type_invariant]
    pub open spec fn wf(&self) -> bool {
        self@.settled <= self@.transfers.len()
    }

    /// Begins the execution of `plan`: its transfers are the lines with an
    /// amount above zero, and none is settled yet.
    pub fn start(plan: &PayoutPlan) -> (execution: Execution)
        ensures
            execution@ == (ExecutionSpec {
                transfers: transfers_of(plan@),
                settled: 0,
                failed: false,
            }),
            execution.wf(),
    {
        Execution { transfers: plan.transfers(), settled: 0, failed: false }
    }

    /// The transfer to hand to the ledger next, if there is one.
    pub fn next(&self) -> (transfer: Option<Payout>)
        ensures
            match pending(self@) {
                Some(line) => transfer is Some && transfer->0@ == line,
                None => transfer is None,
            },
    {
        proof {
            use_type_invariant(self);
        }
        if !self.failed && self.settled < self.transfers.len() {
            Some(self.transfers[self.settled].clone())
        } else {
            None
        }
    }

    /// Records the ledger's answer to the pending transfer. A refusal fails
    /// the execution with `TransferFailed`, and so does every answer that
    /// arrives after one.
    pub fn record(&mut self, accepted: bool) -> (result: Result<(), DistributorError>)
        ensures
            final(self).wf(),
            final(self)@ == recorded(old(self)@, accepted),
            final(self)@.failed ==> result == Err::<(), DistributorError>(
                DistributorError::TransferFailed,
            ),
            !final(self)@.failed ==> result is Ok,
    {
        proof {
            use_type_invariant(&*self);
        }
        if self.failed {
            return Err(DistributorError::TransferFailed);
        }
        if self.settled < self.transfers.len() {
            if accepted {
                self.settled = self.settled + 1;
            } else {
                self.failed = true;
                return Err(DistributorError::TransferFailed);
            }
        }
        Ok(())
    }

    /// Whether every transfer of the plan has been accepted.
    pub fn is_complete(&self) -> (done: bool)
        ensures
            done == complete(self@),
    {
        proof {
            use_type_invariant(self);
        }
        !self.failed && self.settled == self.transfers.len()
    }

    /// Whether the ledger has refused a transfer.
    pub fn has_failed(&self) -> (failed: bool)
        ensures
            failed == self@.failed,
    {
        self.failed
    }

    /// The number of transfers that the ledger has accepted.
    pub fn settled(&self) -> (count: usize)
        ensures
            count == self@.settled,
    {
        self.settled
    }
}

/// The execution after a whole series of answers, recorded in order.
pub open spec fn recorded_all(state: ExecutionSpec, answers: Seq<bool>) -> ExecutionSpec
    decreases answers.len(),
{
    if answers.len() == 0 {
        state
    } else {
        recorded(recorded_all(state, answers.drop_last()), answers.last())
    }
}

/// A refusal is final: whatever is answered after it, the execution stays
/// failed, proposes nothing more and settles nothing more.
pub proof fn lemma_failure_is_final(state: ExecutionSpec, answers: Seq<bool>)
    requires
        state.failed,
    ensures
        recorded_all(state, answers) == state,
        pending(recorded_all(state, answers)) is None,
    decreases answers.len(),
{
    if answers.len() > 0 {
        lemma_failure_is_final(state, answers.drop_last());
    }
}

/// Transfers are settled in the order of the plan and none is skipped: an
/// answer settles at most the one pending transfer, and never reaches past
/// the end of the plan.
pub proof fn lemma_record_settles_in_order(state: ExecutionSpec, accepted: bool)
    requires
        state.settled <= state.transfers.len(),
    ensures
        recorded(state, accepted).transfers == state.transfers,
        recorded(state, accepted).settled <= state.transfers.len(),
        recorded(state, accepted).settled == state.settled + if pending(state) is Some && accepted {
            1nat
        } else {
            0nat
        },
        recorded(state, accepted).failed == (state.failed || (pending(state) is Some
            && !accepted)),
{
}

} // verus!

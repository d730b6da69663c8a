//! The expiry-aware confirmation state machine. A broadcast transaction can
//! never stay pending forever: the chain's height passing the validity
//! window makes it permanently unexecutable, and an independent attempt
//! ceiling backstops a stalled status endpoint. Each poll checks the
//! reported status first and the height bound only while the status is still
//! unresolved, so an on-chain verdict is never misreported as expiry or
//! timeout.
use vstd::prelude::*;

verus! {

/// Width of the validity window in blocks past the height read at
/// broadcast, mirroring the blockhash's own validity horizon.
pub const DEFAULT_EXPIRY_WINDOW: u64 = 150;

/// Independent ceiling on unresolved polls, one per second.
pub const DEFAULT_MAX_ATTEMPTS: u64 = 60;

/// The network-reported status of a broadcast signature at one poll.
pub enum SignatureStatus {
    /// The signature is not visible yet.
    NotSeen,
    /// The transaction landed and executed successfully.
    Succeeded,
    /// The transaction landed and failed on chain with this reason.
    Failed(String),
}

/// The terminal outcome of one confirmation attempt.
pub enum ConfirmationOutcome {
    /// The transaction is confirmed; metadata extraction may follow.
    Confirmed,
    /// A final on-chain rejection; never retried automatically.
    Failed(String),
    /// The chain passed the validity window while the status was unresolved.
    Expired,
    /// The attempt ceiling fired while the status was unresolved.
    TimedOut,
}

/// The polling state between two status queries.
pub struct ConfirmationEngine {
    /// The last chain height at which the transaction may still execute.
    pub last_valid_height: u64,
    /// Unresolved polls seen so far.
    pub attempts: u64,
    /// Ceiling on unresolved polls.
    pub max_attempts: u64,
}

impl ConfirmationEngine {
    /// The attempt counter never passes its ceiling.
    pub open spec fn wf(self) -> bool {
        self.attempts <= self.max_attempts
    }

    /// Start a confirmation attempt: the transaction is valid while the
    /// chain height stays at or below `broadcast_height + window`.
    pub fn start(broadcast_height: u64, window: u64, max_attempts: u64) -> (r: Self)
        requires
            broadcast_height + window <= u64::MAX,
        ensures
            r.last_valid_height == broadcast_height + window,
            r.attempts == 0,
            r.max_attempts == max_attempts,
            r.wf(),
    {
        ConfirmationEngine { last_valid_height: broadcast_height + window, attempts: 0, max_attempts }
    }

    /// One poll: the next engine state and the terminal outcome, if this
    /// poll ends the attempt. The status is decisive when resolved; only an
    /// unresolved status consults the height bound, and only inside the
    /// bound does the attempt ceiling count.
    pub open spec fn spec_step(self, status: SignatureStatus, height: u64) -> (
        ConfirmationEngine,
        Option<ConfirmationOutcome>,
    ) {
        match status {
            SignatureStatus::Succeeded => (self, Some(ConfirmationOutcome::Confirmed)),
            SignatureStatus::Failed(reason) => (self, Some(ConfirmationOutcome::Failed(reason))),
            SignatureStatus::NotSeen => {
                if height > self.last_valid_height {
                    (self, Some(ConfirmationOutcome::Expired))
                } else if self.attempts + 1 >= self.max_attempts {
                    (self, Some(ConfirmationOutcome::TimedOut))
                } else {
                    (
                        ConfirmationEngine {
                            last_valid_height: self.last_valid_height,
                            attempts: (self.attempts + 1) as u64,
                            max_attempts: self.max_attempts,
                        },
                        None,
                    )
                }
            },
        }
    }

    /// Consume one poll observation.
    pub fn step(&mut self, status: SignatureStatus, height: u64) -> (r: Option<
        ConfirmationOutcome,
    >)
        requires
            old(self).wf(),
        ensures
            (*final(self), r) == old(self).spec_step(status, height),
            final(self).wf(),
            final(self).last_valid_height == old(self).last_valid_height,
            final(self).max_attempts == old(self).max_attempts,
    {
        match status {
            SignatureStatus::Succeeded => Some(ConfirmationOutcome::Confirmed),
            SignatureStatus::Failed(reason) => Some(ConfirmationOutcome::Failed(reason)),
            SignatureStatus::NotSeen => {
                if height > self.last_valid_height {
                    Some(ConfirmationOutcome::Expired)
                } else if self.max_attempts - self.attempts <= 1 {
                    Some(ConfirmationOutcome::TimedOut)
                } else {
                    self.attempts = self.attempts + 1;
                    None
                }
            },
        }
    }

    /// The outcome of feeding a whole observation trace, if some poll in it
    /// ends the attempt.
    pub open spec fn spec_run(self, events: Seq<(SignatureStatus, u64)>) -> Option<
        ConfirmationOutcome,
    >
        decreases events.len(),
    {
        if events.len() == 0 {
            None
        } else {
            let next = self.spec_step(events[0].0, events[0].1);
            match next.1 {
                Some(o) => Some(o),
                None => next.0.spec_run(events.skip(1)),
            }
        }
    }

    /// Drive the engine over a pre-collected observation trace.
    #[verifier::loop_isolation(false)]
    pub fn run_trace(&mut self, events: Vec<(SignatureStatus, u64)>) -> (r: Option<
        ConfirmationOutcome,
    >)
        requires
            old(self).wf(),
        ensures
            r == old(self).spec_run(events@),
            final(self).wf(),
    {
        let ghost whole = events@;
        let ghost e0 = *self;
        let mut evs = events;
        let ghost mut k: int = 0;
        proof {
            assert(whole.skip(0) =~= whole);
        }
        while evs.len() > 0
            invariant
                self.wf(),
                evs@ == whole.skip(k),
                0 <= k <= whole.len(),
                e0.spec_run(whole) == self.spec_run(whole.skip(k)),
            decreases evs@.len(),
        {
            let ghost pre = *self;
            let ev = evs.remove(0);
            let ghost gev = ev;
            proof {
                assert(whole.skip(k)[0] == gev);
                assert(evs@ =~= whole.skip(k + 1));
                assert(whole.skip(k).skip(1) =~= whole.skip(k + 1));
            }
            let out = self.step(ev.0, ev.1);
            match out {
                Some(o) => {
                    proof {
                        let rem = whole.skip(k);
                        assert(rem.len() > 0);
                        assert(rem[0].0 == gev.0 && rem[0].1 == gev.1);
                        assert(pre.spec_step(gev.0, gev.1).1 == Some(o));
                        assert(pre.spec_run(rem) == Some(o));
                    }
                    return Some(o);
                },
                None => {},
            }
            proof {
                k = k + 1;
            }
        }
        assert(whole.skip(k) =~= Seq::<(SignatureStatus, u64)>::empty());
        None
    }
}

/// A resolved on-chain failure is reported as `Failed` with its reason,
/// never as `Expired` or `TimedOut`, whatever the height and the remaining
/// attempt budget.
pub proof fn lemma_failure_is_decisive(
    e: ConfirmationEngine,
    reason: String,
    height: u64,
)
    ensures
        e.spec_step(SignatureStatus::Failed(reason), height).1 == Some(
            ConfirmationOutcome::Failed(reason),
        ),
{
}

/// While the status is unresolved, a chain height past the validity window
/// ends the attempt as `Expired`, whatever attempt budget remains.
pub proof fn lemma_expiry_is_decisive(e: ConfirmationEngine, height: u64)
    requires
        height > e.last_valid_height,
    ensures
        e.spec_step(SignatureStatus::NotSeen, height).1 == Some(ConfirmationOutcome::Expired),
{
}

} // verus!

//! The sortition view tracker: the two most recent leader-election outcomes
//! read off the anchor chain, kept so that a proposal may legitimately
//! reference either, and the timeout judgment that flags an unresponsive
//! leader.

use vstd::prelude::*;

verus! {

/// One leader-election outcome on the anchor chain. Hashes and keys are
/// carried as opaque identifiers; only their equality matters here.
#[derive(Clone, Copy, Debug, PartialEq, Eq, Structural)]
pub struct SortitionFacts {
    /// Consensus hash of this sortition.
    pub consensus_hash: u64,
    /// Anchor-chain height of this sortition.
    pub burn_height: u64,
    /// Public key of the elected leader.
    pub winning_leader_key: u64,
    /// True when no leader was elected at this height.
    pub is_empty: bool,
    /// Wall-clock second at which this outcome was first observed.
    pub observed_at: u64,
}

/// The two snapshots the evaluator consults: the most recent election
/// outcome and the one before it.
#[derive(Clone, Copy, Debug, PartialEq, Eq, Structural)]
pub struct SortitionView {
    /// The most recent outcome.
    pub current: SortitionFacts,
    /// The outcome before it.
    pub last: SortitionFacts,
}

/// Evaluation tuning: the grace period for a first proposal against the
/// prior sortition, and the deadline after which a silent leader is treated
/// as unresponsive. Both are in seconds.
#[derive(Clone, Copy, Debug, PartialEq, Eq, Structural)]
pub struct ProposalEvalConfig {
    /// Grace period after a new sortition during which a first proposal
    /// against the prior sortition is tolerated.
    pub first_proposal_burn_block_timing: u64,
    /// Deadline after which a non-responding leader is considered
    /// unresponsive for the tenure.
    pub block_proposal_timeout: u64,
}

impl SortitionView {
    /// Heights must strictly increase from `last` to `current`.
    pub open spec fn wf(self) -> bool {
        self.current.burn_height > self.last.burn_height
    }

    /// Build a view from a fresh pair of outcomes. Fails when the heights do
    /// not strictly increase, which signals a reorg: the caller must then
    /// re-derive both snapshots from scratch rather than patch one.
    pub fn assemble(latest: SortitionFacts, prior: SortitionFacts) -> (r: Result<
        SortitionView,
        (),
    >)
        ensures
            latest.burn_height > prior.burn_height ==> r == Ok::<SortitionView, ()>(
                SortitionView { current: latest, last: prior },
            ),
            latest.burn_height <= prior.burn_height ==> r is Err,
    {
        if latest.burn_height > prior.burn_height {
            Ok(SortitionView { current: latest, last: prior })
        } else {
            Err(())
        }
    }

    /// Fold a newly observed outcome into the view. Succeeds exactly when
    /// the new outcome extends the chain: `current` slides to `last` and the
    /// new outcome becomes `current`. A non-extending outcome (a reorg)
    /// leaves the view untouched and reports failure, and the caller must
    /// rebuild the view with [`SortitionView::assemble`].
    pub fn refresh(&mut self, latest: SortitionFacts) -> (r: bool)
        requires
            old(self).wf(),
        ensures
            final(self).wf(),
            r == (latest.burn_height > old(self).current.burn_height),
            r ==> *final(self) == (SortitionView { current: latest, last: old(self).current }),
            !r ==> *final(self) == *old(self),
    {
        if latest.burn_height > self.current.burn_height {
            self.last = self.current;
            self.current = latest;
            true
        } else {
            false
        }
    }

    /// True when the current tenure has timed out: more than
    /// `block_proposal_timeout` seconds have passed since the current
    /// sortition was observed and no valid proposal has been accepted for
    /// it. This is the trigger for tenure-extension eligibility.
    pub fn is_timed_out(
        &self,
        now: u64,
        config: &ProposalEvalConfig,
        accepted_for_current: bool,
    ) -> (r: bool)
        ensures
            r == (!accepted_for_current && now > self.current.observed_at
                + config.block_proposal_timeout),
    {
        if accepted_for_current {
            return false;
        }
        (now as u128) > (self.current.observed_at as u128) + (
        config.block_proposal_timeout as u128)
    }
}

} // verus!

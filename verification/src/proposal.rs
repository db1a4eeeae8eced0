//! Proposals and their lifecycle state.
//!
//! A proposal freezes the threshold rule and the total weight at its
//! creation; its tally grows as ballots arrive; its status is never
//! cached as a one-way ratchet but recomputed from the live tally on
//! every touch, with execution and explicit closing as the only terminal
//! marks.

use vstd::prelude::*;

use crate::ballots::{ballots_distinct, ballots_sorted, spec_tally_of, Ballot};
use crate::expiration::{BlockInfo, Expiration};
use crate::threshold::{spec_evaluate, Status, Threshold};
use crate::votes::{Vote, Votes};

verus! {

/// The only state a proposal stores beyond its tally: whether it is
/// still live, was executed, or was explicitly closed.
#[derive(Clone, Copy, Debug, PartialEq, Eq, Structural)]
pub enum Disposition {
    /// Open, passed and rejected readings are all recomputed from the
    /// tally while a proposal is live.
    Live,
    /// The payloads were handed to the dispatcher; terminal.
    Executed,
    /// Closed after expiry without passing; terminal, reads as rejected.
    Closed,
}

/// One proposal: identity, opaque payloads, the rule and total weight
/// captured at creation, the running tally and its ledger.
#[derive(Debug)]
pub struct Proposal {
    pub title: String,
    pub description: String,
    /// The height the proposal was created at; voters' weights are read
    /// as of this height.
    pub start_height: u64,
    /// The absolute expiration resolved once at creation.
    pub expires: Expiration,
    /// Opaque action payloads, dispatched on execution and never
    /// interpreted by the engine.
    pub msgs: Vec<Vec<u8>>,
    /// The rule captured by value at creation.
    pub threshold: Threshold,
    /// The group's total weight captured at creation.
    pub total_weight: u64,
    /// The four accumulators, always the per-choice sums of the ledger.
    pub votes: Votes,
    /// The ballot ledger of this proposal.
    pub ballots: Vec<Ballot>,
    pub disposition: Disposition,
}

impl Proposal {
    /// Well-formedness: the ledger is sorted by voter address — which
    /// keeps voters distinct — and each accumulator is the sum of the
    /// ledger's weights for its choice: the tally can never disagree
    /// with the recorded ballots.
    pub open spec fn wf(self) -> bool {
        &&& ballots_distinct(self.ballots@)
        &&& ballots_sorted(self.ballots@)
        &&& self.votes.yes as int == spec_tally_of(self.ballots@, Vote::Yes)
        &&& self.votes.no as int == spec_tally_of(self.ballots@, Vote::No)
        &&& self.votes.abstain as int == spec_tally_of(self.ballots@, Vote::Abstain)
        &&& self.votes.veto as int == spec_tally_of(self.ballots@, Vote::Veto)
    }

    /// The status the proposal has at the given block: terminal marks
    /// short-circuit, anything live is evaluated afresh from the tally.
    pub open spec fn spec_status(self, block: BlockInfo) -> Status {
        match self.disposition {
            Disposition::Executed => Status::Executed,
            Disposition::Closed => Status::Rejected,
            Disposition::Live => spec_evaluate(
                self.votes,
                self.total_weight,
                self.threshold,
                self.expires.spec_is_expired(block),
            ),
        }
    }

    /// Recomputes the proposal's status from the live tally.
    pub fn current_status(&self, block: &BlockInfo) -> (r: Status)
        ensures
            r == self.spec_status(*block),
    {
        match self.disposition {
            Disposition::Executed => Status::Executed,
            Disposition::Closed => Status::Rejected,
            Disposition::Live => crate::threshold::evaluate(
                &self.votes,
                self.total_weight,
                &self.threshold,
                self.expires.is_expired(block),
            ),
        }
    }
}

} // verus!

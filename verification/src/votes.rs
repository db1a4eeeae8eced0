//! Vote choices and the per-proposal tally.

use vstd::prelude::*;

verus! {

/// A single voter's choice.
///
/// Only yes counts toward passing; veto counts toward quorum participation
/// but never toward yes; abstain counts toward quorum only.
#[derive(Clone, Copy, Debug, PartialEq, Eq, Structural)]
pub enum Vote {
    Yes,
    No,
    Abstain,
    Veto,
}

/// The four weight accumulators of a proposal.
#[derive(Clone, Copy, Debug, PartialEq, Eq, Structural)]
pub struct Votes {
    pub yes: u64,
    pub no: u64,
    pub abstain: u64,
    pub veto: u64,
}

/// The total weight cast so far, over all four choices.
pub open spec fn spec_cast(v: Votes) -> int {
    v.yes + v.no + v.abstain + v.veto
}

/// The tally after one more ballot of the given choice and weight, as a
/// mathematical value (no word-size cap).
pub open spec fn spec_add_vote(v: Votes, choice: Vote, weight: u64) -> Votes {
    match choice {
        Vote::Yes => Votes { yes: (v.yes + weight) as u64, ..v },
        Vote::No => Votes { no: (v.no + weight) as u64, ..v },
        Vote::Abstain => Votes { abstain: (v.abstain + weight) as u64, ..v },
        Vote::Veto => Votes { veto: (v.veto + weight) as u64, ..v },
    }
}

/// Whether one more ballot of the given choice and weight still fits in
/// the 64-bit accumulator it lands in.
pub open spec fn spec_add_fits(v: Votes, choice: Vote, weight: u64) -> bool {
    match choice {
        Vote::Yes => v.yes + weight <= u64::MAX,
        Vote::No => v.no + weight <= u64::MAX,
        Vote::Abstain => v.abstain + weight <= u64::MAX,
        Vote::Veto => v.veto + weight <= u64::MAX,
    }
}

impl Votes {
    /// The initial tally of a proposal: the proposer's implicit yes ballot.
    pub fn yes_tally(weight: u64) -> (r: Votes)
        ensures
            r == (Votes { yes: weight, no: 0, abstain: 0, veto: 0 }),
    {
        Votes { yes: weight, no: 0, abstain: 0, veto: 0 }
    }

    /// The total weight cast so far; four 64-bit values always fit in 128
    /// bits.
    pub fn total(&self) -> (r: u128)
        ensures
            r == spec_cast(*self),
    {
        self.yes as u128 + self.no as u128 + self.abstain as u128 + self.veto as u128
    }

    /// Whether one more ballot of the given choice and weight still fits.
    pub fn can_add(&self, choice: Vote, weight: u64) -> (r: bool)
        ensures
            r == spec_add_fits(*self, choice, weight),
    {
        match choice {
            Vote::Yes => self.yes.checked_add(weight).is_some(),
            Vote::No => self.no.checked_add(weight).is_some(),
            Vote::Abstain => self.abstain.checked_add(weight).is_some(),
            Vote::Veto => self.veto.checked_add(weight).is_some(),
        }
    }

    /// Adds one ballot to the accumulator of its choice, refusing to
    /// overflow.
    pub fn add_vote(&mut self, choice: Vote, weight: u64) -> (r: Result<(), crate::error::ContractError>)
        ensures
            r is Ok <==> spec_add_fits(*old(self), choice, weight),
            r is Ok ==> *final(self) == spec_add_vote(*old(self), choice, weight),
            r is Err ==> *final(self) == *old(self) && r == Err::<(), _>(crate::error::ContractError::Overflow),
    {
        match choice {
            Vote::Yes => {
                match self.yes.checked_add(weight) {
                    Some(s) => {
                        self.yes = s;
                        Ok(())
                    },
                    None => Err(crate::error::ContractError::Overflow),
                }
            },
            Vote::No => {
                match self.no.checked_add(weight) {
                    Some(s) => {
                        self.no = s;
                        Ok(())
                    },
                    None => Err(crate::error::ContractError::Overflow),
                }
            },
            Vote::Abstain => {
                match self.abstain.checked_add(weight) {
                    Some(s) => {
                        self.abstain = s;
                        Ok(())
                    },
                    None => Err(crate::error::ContractError::Overflow),
                }
            },
            Vote::Veto => {
                match self.veto.checked_add(weight) {
                    Some(s) => {
                        self.veto = s;
                        Ok(())
                    },
                    None => Err(crate::error::ContractError::Overflow),
                }
            },
        }
    }
}

} // verus!

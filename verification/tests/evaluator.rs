//! The threshold evaluator on concrete tallies: early passing, early
//! rejection and expiry resolution under both rules.

use sg_gov::math::Fraction;
use sg_gov::threshold::{evaluate, Status, Threshold};
use sg_gov::votes::Votes;

fn votes(yes: u64, no: u64, abstain: u64, veto: u64) -> Votes {
    Votes { yes, no, abstain, veto }
}

fn tq(threshold: u32, quorum: u32) -> Threshold {
    Threshold::ThresholdQuorum {
        threshold: Fraction::percent(threshold),
        quorum: Fraction::percent(quorum),
    }
}

#[test]
fn absolute_count_passes_for_good() {
    let rule = Threshold::AbsoluteCount { weight: 4 };
    // Reaching the count passes, whatever else is in the tally and
    // whether or not the proposal expired.
    assert_eq!(evaluate(&votes(4, 0, 0, 0), 23, &rule, false), Status::Passed);
    assert_eq!(evaluate(&votes(4, 19, 0, 0), 23, &rule, false), Status::Passed);
    assert_eq!(evaluate(&votes(4, 0, 0, 19), 23, &rule, true), Status::Passed);
    // Below the count the proposal is open until expiry and rejected
    // after it.
    assert_eq!(evaluate(&votes(3, 0, 0, 0), 23, &rule, false), Status::Open);
    assert_eq!(evaluate(&votes(3, 0, 0, 0), 23, &rule, true), Status::Rejected);
}

#[test]
fn quorum_never_met_means_rejected_at_expiry() {
    // A perfect yes share cannot save an expired proposal that missed
    // its quorum.
    assert_eq!(evaluate(&votes(4, 0, 0, 0), 23, &tq(80, 20), true), Status::Rejected);
    assert_eq!(evaluate(&votes(1, 0, 0, 0), 23, &tq(1, 99), true), Status::Rejected);
}

#[test]
fn self_passing_proposer_at_creation() {
    // The initial tally of a proposal is the proposer's own yes ballot;
    // a proposer whose weight meets an absolute count passes at once.
    let rule = Threshold::AbsoluteCount { weight: 4 };
    assert_eq!(evaluate(&votes(12, 0, 0, 0), 23, &rule, false), Status::Passed);
}

#[test]
fn early_rejection_is_revisited_as_votes_arrive() {
    let rule = tq(60, 10);
    // Quorum met with a failing share reads as rejected,
    assert_eq!(evaluate(&votes(0, 3, 0, 0), 10, &rule, false), Status::Rejected);
    // but a later yes can lift the share and reopen the race,
    assert_eq!(evaluate(&votes(5, 3, 0, 0), 10, &rule, false), Status::Open);
    // until the outcome becomes irreversible.
    assert_eq!(evaluate(&votes(7, 3, 0, 0), 10, &rule, false), Status::Passed);
}

#[test]
fn early_pass_requires_irreversibility() {
    // Quorum and share are met, but the remaining weight could still
    // drag the share below the bar: open, not passed.
    assert_eq!(evaluate(&votes(12, 0, 0, 0), 23, &tq(80, 20), false), Status::Open);
    // With nothing left to cast, the same tally passes.
    assert_eq!(evaluate(&votes(12, 0, 0, 0), 12, &tq(80, 20), false), Status::Passed);
}

#[test]
fn veto_counts_toward_quorum_but_not_toward_the_share() {
    let rule = tq(50, 50);
    // Two yes, one no, two veto of ten: the five cast units meet the
    // quorum exactly; the share is two of three opinions and passes at
    // expiry. Were veto counted as an opinion, two of five would fail.
    assert_eq!(evaluate(&votes(2, 1, 0, 2), 10, &rule, true), Status::Passed);
    // Before expiry the same tally is merely open.
    assert_eq!(evaluate(&votes(2, 1, 0, 2), 10, &rule, false), Status::Open);
}

#[test]
fn abstain_counts_toward_quorum_but_not_toward_the_share() {
    let rule = tq(50, 50);
    // One yes and four abstain reach the quorum; the single opinion is
    // all yes.
    assert_eq!(evaluate(&votes(1, 0, 4, 0), 10, &rule, true), Status::Passed);
    // All abstain and no opinion at all: an empty pool has share zero.
    assert_eq!(evaluate(&votes(0, 0, 5, 0), 10, &rule, true), Status::Rejected);
}

#[test]
fn exact_boundaries_decide() {
    // The share exactly at the pass fraction passes.
    assert_eq!(evaluate(&votes(3, 3, 0, 0), 10, &tq(50, 50), true), Status::Passed);
    // One unit below it fails.
    assert_eq!(evaluate(&votes(2, 3, 0, 0), 10, &tq(50, 50), true), Status::Rejected);
    // The quorum exactly at its fraction counts as met.
    assert_eq!(evaluate(&votes(2, 0, 0, 0), 10, &tq(50, 20), true), Status::Passed);
    // One unit below it does not.
    assert_eq!(evaluate(&votes(1, 0, 0, 0), 10, &tq(50, 20), true), Status::Rejected);
}

// The worked example of the rule: members {A:0, B:1, B2:2, C:3, D:12,
// E:5}, total 23, 80% pass share, 20% quorum.
#[test]
fn threshold_quorum_worked_example() {
    let rule = tq(80, 20);

    // B proposes alone: one unit cast of twenty-three stays open...
    assert_eq!(evaluate(&votes(1, 0, 0, 0), 23, &rule, false), Status::Open);
    // ...and at expiry one of twenty-three misses the 20% quorum.
    assert_eq!(evaluate(&votes(1, 0, 0, 0), 23, &rule, true), Status::Rejected);

    // D's twelve units meet the quorum with a perfect share, but the
    // remaining eleven could still drop the share below 80%, so the
    // evaluator keeps the proposal open until expiry seals it.
    assert_eq!(evaluate(&votes(12, 0, 0, 0), 23, &rule, false), Status::Open);
    assert_eq!(evaluate(&votes(12, 0, 0, 0), 23, &rule, true), Status::Passed);
}

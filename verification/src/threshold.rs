//! Threshold rules and the pure status evaluator.
//!
//! The evaluator maps a vote tally, the total weight snapshotted at a
//! proposal's creation, the threshold rule captured there, and the
//! expiration state to one of `Open`, `Passed`, `Rejected`. It is the
//! single place where a proposal's fate is decided; every read and every
//! mutating operation recomputes status through it.

use vstd::prelude::*;

use crate::error::ContractError;
use crate::math::Fraction;
use crate::votes::{spec_cast, Votes};

verus! {

/// The rule a proposal must satisfy to pass.
#[derive(Clone, Copy, Debug, PartialEq, Eq, Structural)]
pub enum Threshold {
    /// Passes as soon as the yes weight reaches the given absolute weight.
    AbsoluteCount { weight: u64 },
    /// Requires a minimum participation fraction of the total weight
    /// (quorum) and a minimum yes fraction of the yes/no opinions
    /// (threshold).
    ThresholdQuorum { threshold: Fraction, quorum: Fraction },
}

/// A threshold rule together with the total weight it is measured against.
#[derive(Clone, Copy, Debug, PartialEq, Eq, Structural)]
pub enum ThresholdResponse {
    AbsoluteCount { weight: u64, total_weight: u64 },
    ThresholdQuorum { threshold: Fraction, quorum: Fraction, total_weight: u64 },
}

/// Where a proposal stands.
#[derive(Clone, Copy, Debug, PartialEq, Eq, Structural)]
pub enum Status {
    /// Still undecided: more votes can arrive and change the outcome.
    Open,
    /// The rule is satisfied; the proposal may be executed.
    Passed,
    /// The rule failed, or the proposal was closed after expiry.
    Rejected,
    /// The proposal's payloads were handed to the dispatcher; terminal.
    Executed,
}

impl Threshold {
    /// Whether the rule is internally consistent for a group of the given
    /// total weight.
    pub open spec fn spec_validate(self, total_weight: u64) -> Result<(), ContractError> {
        match self {
            Threshold::AbsoluteCount { weight } => {
                if weight == 0 {
                    Err(ContractError::InvalidThreshold)
                } else if weight > total_weight {
                    Err(ContractError::UnreachableWeight)
                } else {
                    Ok(())
                }
            },
            Threshold::ThresholdQuorum { threshold, quorum } => {
                if !threshold.valid_share() || !quorum.valid_share() {
                    Err(ContractError::InvalidThreshold)
                } else {
                    Ok(())
                }
            },
        }
    }

    /// Rejects a zero or unreachable absolute weight, and a zero or
    /// over-unit threshold or quorum fraction.
    pub fn validate(&self, total_weight: u64) -> (r: Result<(), ContractError>)
        ensures
            r == self.spec_validate(total_weight),
    {
        match self {
            Threshold::AbsoluteCount { weight } => {
                if *weight == 0 {
                    Err(ContractError::InvalidThreshold)
                } else if *weight > total_weight {
                    Err(ContractError::UnreachableWeight)
                } else {
                    Ok(())
                }
            },
            Threshold::ThresholdQuorum { threshold, quorum } => {
                if !threshold.is_valid_share() || !quorum.is_valid_share() {
                    Err(ContractError::InvalidThreshold)
                } else {
                    Ok(())
                }
            },
        }
    }

    /// The rule paired with the total weight it currently applies to.
    pub fn to_response(&self, total_weight: u64) -> (r: ThresholdResponse)
        ensures
            r == self.spec_to_response(total_weight),
    {
        match self {
            Threshold::AbsoluteCount { weight } => ThresholdResponse::AbsoluteCount {
                weight: *weight,
                total_weight,
            },
            Threshold::ThresholdQuorum { threshold, quorum } => ThresholdResponse::ThresholdQuorum {
                threshold: *threshold,
                quorum: *quorum,
                total_weight,
            },
        }
    }

    pub open spec fn spec_to_response(self, total_weight: u64) -> ThresholdResponse {
        match self {
            Threshold::AbsoluteCount { weight } => ThresholdResponse::AbsoluteCount {
                weight,
                total_weight,
            },
            Threshold::ThresholdQuorum { threshold, quorum } => ThresholdResponse::ThresholdQuorum {
                threshold,
                quorum,
                total_weight,
            },
        }
    }
}

/// Whether the cast weight reaches the quorum fraction of the total:
/// `cast / total >= quorum`.
pub open spec fn spec_quorum_met(v: Votes, total_weight: u64, quorum: Fraction) -> bool {
    spec_cast(v) * quorum.denominator >= quorum.numerator * total_weight
}

/// Whether the yes share of the opinions reaches the pass fraction:
/// `yes / (yes + no) >= threshold`, where an empty opinion pool has
/// share zero. Abstain and veto weights are left out of the share
/// entirely; they count only toward the quorum.
pub open spec fn spec_share_met(v: Votes, threshold: Fraction) -> bool {
    if v.yes + v.no == 0 {
        threshold.numerator == 0
    } else {
        v.yes * threshold.denominator >= threshold.numerator * (v.yes + v.no)
    }
}

/// The weight that has not voted yet, clamped at zero when the tally
/// exceeds the snapshot it is measured against.
pub open spec fn spec_remaining(v: Votes, total_weight: u64) -> int {
    if spec_cast(v) <= total_weight {
        total_weight - spec_cast(v)
    } else {
        0
    }
}

/// Whether the outcome is already irreversible: even if every unit of
/// weight that has not voted yet were to vote no, the yes share would
/// still reach the pass fraction. The hypothetical opinion pool is
/// `yes + no + remaining`; an empty pool has share zero, exactly as in
/// [`spec_share_met`].
pub open spec fn spec_irreversibly_passed(v: Votes, total_weight: u64, threshold: Fraction) -> bool {
    let pool = v.yes + v.no + spec_remaining(v, total_weight);
    if pool == 0 {
        threshold.numerator == 0
    } else {
        v.yes * threshold.denominator >= threshold.numerator * pool
    }
}

/// The status a live proposal has under the given rule.
///
/// For an absolute count, yes weight decides alone: reaching it passes
/// the proposal early and for good; anything else is open until expiry
/// and rejected after it.
///
/// For a threshold/quorum rule, a proposal passes early only once the
/// quorum is met and the outcome is irreversible. While unexpired, a met
/// quorum with a failing yes share reads as rejected, but more yes votes
/// can still lift the share, so that verdict is revisited on every
/// evaluation. At expiry the final tally decides: quorum met and share
/// met passes, anything else is rejected.
pub open spec fn spec_evaluate(
    v: Votes,
    total_weight: u64,
    threshold: Threshold,
    expired: bool,
) -> Status {
    match threshold {
        Threshold::AbsoluteCount { weight } => {
            if v.yes >= weight {
                Status::Passed
            } else if expired {
                Status::Rejected
            } else {
                Status::Open
            }
        },
        Threshold::ThresholdQuorum { threshold: t, quorum: q } => {
            if expired {
                if spec_quorum_met(v, total_weight, q) && spec_share_met(v, t) {
                    Status::Passed
                } else {
                    Status::Rejected
                }
            } else {
                if spec_quorum_met(v, total_weight, q) && spec_irreversibly_passed(
                    v,
                    total_weight,
                    t,
                ) {
                    Status::Passed
                } else if spec_quorum_met(v, total_weight, q) && !spec_share_met(v, t) {
                    Status::Rejected
                } else {
                    Status::Open
                }
            }
        },
    }
}

/// Once the yes weight of a tally reaches an absolute-count requirement,
/// the rule evaluates to passed for every later tally whose yes weight is
/// at least as large — whatever no, abstain or veto weight arrives, and
/// whether or not the proposal expires. The total-weight snapshot plays
/// no role for this rule.
pub proof fn lemma_absolute_count_passes_for_good(
    v1: Votes,
    v2: Votes,
    weight: u64,
    total1: u64,
    total2: u64,
    e1: bool,
    e2: bool,
)
    requires
        spec_evaluate(v1, total1, Threshold::AbsoluteCount { weight }, e1) == Status::Passed,
        v2.yes >= v1.yes,
    ensures
        spec_evaluate(v2, total2, Threshold::AbsoluteCount { weight }, e2) == Status::Passed,
{
}

/// An expired proposal whose participation never met the quorum is
/// rejected, even when its yes share is at or above the pass fraction.
pub proof fn lemma_no_quorum_means_rejected_at_expiry(
    v: Votes,
    total_weight: u64,
    threshold: Fraction,
    quorum: Fraction,
)
    requires
        !spec_quorum_met(v, total_weight, quorum),
    ensures
        spec_evaluate(
            v,
            total_weight,
            Threshold::ThresholdQuorum { threshold, quorum },
            true,
        ) == Status::Rejected,
{
}

/// A proposer whose own weight reaches an absolute-count requirement
/// passes the proposal at the moment it is created: the initial tally is
/// the proposer's implicit yes ballot and nothing else.
pub proof fn lemma_self_passing_proposer(proposer_weight: u64, required: u64, total_weight: u64)
    requires
        proposer_weight >= required,
    ensures
        spec_evaluate(
            Votes { yes: proposer_weight, no: 0, abstain: 0, veto: 0 },
            total_weight,
            Threshold::AbsoluteCount { weight: required },
            false,
        ) == Status::Passed,
{
}

/// For a valid fraction, irreversibility implies that the yes share of
/// the opinions cast so far meets the pass fraction.
pub proof fn lemma_irreversible_implies_share(v: Votes, total_weight: u64, threshold: Fraction)
    requires
        threshold.valid_share(),
        spec_irreversibly_passed(v, total_weight, threshold),
    ensures
        spec_share_met(v, threshold),
{
    let rem = spec_remaining(v, total_weight);
    let pool = v.yes + v.no + rem;
    if pool == 0 {
    } else if v.yes + v.no == 0 {
        assert(v.yes * threshold.denominator == 0) by (nonlinear_arith)
            requires v.yes == 0;
        assert(threshold.numerator * pool > 0) by (nonlinear_arith)
            requires threshold.numerator >= 1 && pool >= 1;
    } else {
        assert(threshold.numerator * (v.yes + v.no) <= threshold.numerator * pool)
            by (nonlinear_arith)
            requires threshold.numerator >= 0 && v.yes + v.no <= pool;
    }
}

/// An early pass under a threshold/quorum rule is stable: a further
/// ballot whose weight still fits in the unvoted remainder leaves the
/// proposal passed, whatever the choice, and the proposal also reads as
/// passed once it expires.
pub proof fn lemma_early_pass_is_stable(
    v: Votes,
    total_weight: u64,
    threshold: Fraction,
    quorum: Fraction,
    choice: crate::votes::Vote,
    w: u64,
    expired: bool,
)
    requires
        threshold.valid_share(),
        quorum.valid_share(),
        spec_cast(v) + w <= total_weight,
        spec_evaluate(
            v,
            total_weight,
            Threshold::ThresholdQuorum { threshold, quorum },
            false,
        ) == Status::Passed,
    ensures
        spec_evaluate(
            crate::votes::spec_add_vote(v, choice, w),
            total_weight,
            Threshold::ThresholdQuorum { threshold, quorum },
            expired,
        ) == Status::Passed,
{
    let v2 = crate::votes::spec_add_vote(v, choice, w);
    assert(spec_cast(v2) == spec_cast(v) + w);
    let rem = spec_remaining(v, total_weight);
    let rem2 = spec_remaining(v2, total_weight);
    assert(rem2 == rem - w);
    // The quorum only gains from more cast weight.
    assert(spec_quorum_met(v2, total_weight, quorum)) by {
        assert(spec_cast(v) * quorum.denominator <= spec_cast(v2) * quorum.denominator)
            by (nonlinear_arith)
            requires spec_cast(v) <= spec_cast(v2) && quorum.denominator >= 0;
    }
    // The hypothetical opinion pool never grows, and the yes weight never
    // shrinks, so irreversibility is preserved.
    let pool = v.yes + v.no + rem;
    let pool2 = v2.yes + v2.no + rem2;
    assert(spec_irreversibly_passed(v2, total_weight, threshold)) by {
        match choice {
            crate::votes::Vote::Yes => {
                assert(pool2 == pool);
                if pool != 0 {
                    assert(v.yes * threshold.denominator <= v2.yes * threshold.denominator)
                        by (nonlinear_arith)
                        requires v.yes <= v2.yes && threshold.denominator >= 0;
                }
            },
            crate::votes::Vote::No => {
                assert(pool2 == pool);
            },
            crate::votes::Vote::Abstain => {
                assert(pool2 == pool - w);
                lemma_pool_shrink(v.yes as int, threshold, pool, pool2);
            },
            crate::votes::Vote::Veto => {
                assert(pool2 == pool - w);
                lemma_pool_shrink(v.yes as int, threshold, pool, pool2);
            },
        }
    }
    lemma_irreversible_implies_share(v2, total_weight, threshold);
}

/// Helper: shrinking the opinion pool preserves the pass inequality.
proof fn lemma_pool_shrink(yes: int, threshold: Fraction, pool: int, pool2: int)
    requires
        threshold.valid_share(),
        0 <= yes <= pool2,
        pool2 <= pool,
        if pool == 0 {
            threshold.numerator == 0
        } else {
            yes * threshold.denominator >= threshold.numerator * pool
        },
    ensures
        if pool2 == 0 {
            threshold.numerator == 0
        } else {
            yes * threshold.denominator >= threshold.numerator * pool2
        },
{
    if pool2 != 0 {
        assert(pool != 0);
        assert(threshold.numerator * pool2 <= threshold.numerator * pool) by (nonlinear_arith)
            requires threshold.numerator >= 0 && pool2 <= pool;
    } else {
        if pool != 0 {
            // An empty shrunk pool leaves no yes weight at all, so the
            // premise collapses: a positive numerator times a positive
            // pool exceeds zero.
            assert(threshold.numerator * pool > 0) by (nonlinear_arith)
                requires threshold.numerator >= 1 && pool >= 1;
            assert(yes * threshold.denominator == 0) by (nonlinear_arith)
                requires yes == 0;
        }
    }
}

/// Exact check of `cast / total >= quorum` by cross-multiplication.
fn quorum_met(v: &Votes, total_weight: u64, quorum: &Fraction) -> (r: bool)
    ensures
        r == spec_quorum_met(*v, total_weight, *quorum),
{
    let cast: u128 = v.total();
    proof {
        crate::math::lemma_mul_fits(cast as int, quorum.denominator as int, 4 * (u64::MAX as int), u32::MAX as int);
        crate::math::lemma_mul_fits(quorum.numerator as int, total_weight as int, u32::MAX as int, u64::MAX as int);
    }
    cast * (quorum.denominator as u128) >= (quorum.numerator as u128) * (total_weight as u128)
}

/// Exact check of `yes / (yes + no) >= threshold`.
fn share_met(v: &Votes, threshold: &Fraction) -> (r: bool)
    ensures
        r == spec_share_met(*v, *threshold),
{
    let opinions: u128 = v.yes as u128 + v.no as u128;
    proof {
        crate::math::lemma_mul_fits(v.yes as int, threshold.denominator as int, u64::MAX as int, u32::MAX as int);
        crate::math::lemma_mul_fits(threshold.numerator as int, opinions as int, u32::MAX as int, 2 * (u64::MAX as int));
    }
    if opinions == 0 {
        threshold.numerator == 0
    } else {
        (v.yes as u128) * (threshold.denominator as u128) >= (threshold.numerator as u128)
            * opinions
    }
}

/// Exact check of the irreversibility condition.
fn irreversibly_passed(v: &Votes, total_weight: u64, threshold: &Fraction) -> (r: bool)
    ensures
        r == spec_irreversibly_passed(*v, total_weight, *threshold),
{
    let cast: u128 = v.total();
    let remaining: u128 = if cast <= total_weight as u128 {
        total_weight as u128 - cast
    } else {
        0
    };
    let pool: u128 = v.yes as u128 + v.no as u128 + remaining;
    proof {
        crate::math::lemma_mul_fits(v.yes as int, threshold.denominator as int, u64::MAX as int, u32::MAX as int);
        crate::math::lemma_mul_fits(threshold.numerator as int, pool as int, u32::MAX as int, 3 * (u64::MAX as int));
    }
    if pool == 0 {
        threshold.numerator == 0
    } else {
        (v.yes as u128) * (threshold.denominator as u128) >= (threshold.numerator as u128) * pool
    }
}

/// The pure status evaluator: tally, total-weight snapshot, rule and
/// expiration state in; `Open`, `Passed` or `Rejected` out.
pub fn evaluate(v: &Votes, total_weight: u64, threshold: &Threshold, expired: bool) -> (r: Status)
    ensures
        r == spec_evaluate(*v, total_weight, *threshold, expired),
{
    match threshold {
        Threshold::AbsoluteCount { weight } => {
            if v.yes >= *weight {
                Status::Passed
            } else if expired {
                Status::Rejected
            } else {
                Status::Open
            }
        },
        Threshold::ThresholdQuorum { threshold: t, quorum: q } => {
            if expired {
                if quorum_met(v, total_weight, q) && share_met(v, t) {
                    Status::Passed
                } else {
                    Status::Rejected
                }
            } else {
                if quorum_met(v, total_weight, q) && irreversibly_passed(v, total_weight, t) {
                    Status::Passed
                } else if quorum_met(v, total_weight, q) && !share_met(v, t) {
                    Status::Rejected
                } else {
                    Status::Open
                }
            }
        },
    }
}

} // verus!

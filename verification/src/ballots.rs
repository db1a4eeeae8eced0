//! The ballot ledger: one record per (proposal, voter), created exactly
//! once and never mutated or deleted. "Already voted" is permanent for a
//! proposal.

use vstd::prelude::*;

use crate::error::ContractError;
use crate::order::{
    addr_lt, lemma_first_above_skip, lemma_str_lt_asymmetric, lemma_str_lt_connected,
    spec_first_above, spec_str_lt,
};
use crate::votes::Vote;

verus! {

/// One voter's recorded choice on one proposal, with the weight the
/// voter held at the proposal's creation height.
#[derive(Debug)]
pub struct Ballot {
    pub voter: String,
    pub weight: u64,
    pub vote: Vote,
}

/// The voters of a ledger's ballots, in the ledger's order.
pub open spec fn spec_ballot_names(ballots: Seq<Ballot>) -> Seq<Seq<char>> {
    ballots.map(|i: int, b: Ballot| b.voter@)
}

/// Ballots are kept sorted strictly ascending by voter address, so
/// listings read out in address order.
pub open spec fn ballots_sorted(ballots: Seq<Ballot>) -> bool {
    forall|i: int, j: int|
        0 <= i < j < ballots.len() ==> spec_str_lt(ballots[i].voter@, ballots[j].voter@)
}

/// Whether the ledger holds a ballot of this voter.
pub open spec fn spec_has_ballot(ballots: Seq<Ballot>, voter: Seq<char>) -> bool {
    exists|i: int| 0 <= i < ballots.len() && (#[trigger] ballots[i]).voter@ == voter
}

/// The index of this voter's ballot; meaningful only when
/// [`spec_has_ballot`] holds and voters are distinct.
pub open spec fn spec_ballot_index(ballots: Seq<Ballot>, voter: Seq<char>) -> int {
    choose|i: int| 0 <= i < ballots.len() && (#[trigger] ballots[i]).voter@ == voter
}

/// Voters appear at most once.
pub open spec fn ballots_distinct(ballots: Seq<Ballot>) -> bool {
    forall|i: int, j: int| 0 <= i < j < ballots.len() ==> ballots[i].voter@ != ballots[j].voter@
}

/// The summed weight of the ballots that chose `choice`.
pub open spec fn spec_tally_of(ballots: Seq<Ballot>, choice: Vote) -> int
    decreases ballots.len(),
{
    if ballots.len() == 0 {
        0
    } else {
        spec_tally_of(ballots.drop_last(), choice) + if ballots.last().vote == choice {
            ballots.last().weight as int
        } else {
            0
        }
    }
}

/// Appending a ballot raises exactly the accumulator of its choice.
pub proof fn lemma_tally_push(ballots: Seq<Ballot>, b: Ballot, choice: Vote)
    ensures
        spec_tally_of(ballots.push(b), choice) == spec_tally_of(ballots, choice) + if b.vote
            == choice {
            b.weight as int
        } else {
            0
        },
{
    assert(ballots.push(b).drop_last() =~= ballots);
}

/// Inserting a ballot anywhere raises exactly the accumulator of its
/// choice.
pub proof fn lemma_tally_insert(ballots: Seq<Ballot>, pos: int, b: Ballot, choice: Vote)
    requires
        0 <= pos <= ballots.len(),
    ensures
        spec_tally_of(ballots.insert(pos, b), choice) == spec_tally_of(ballots, choice) + if b.vote
            == choice {
            b.weight as int
        } else {
            0
        },
    decreases ballots.len(),
{
    let ins = ballots.insert(pos, b);
    ballots.insert_ensures(pos, b);
    if pos == ballots.len() {
        assert(ins.drop_last() =~= ballots);
        assert(ins.last() == b);
    } else {
        assert(ins.last() == ballots[ballots.len() - 1]);
        assert(ins.drop_last() =~= ballots.drop_last().insert(pos, b)) by {
            ballots.drop_last().insert_ensures(pos, b);
        }
        lemma_tally_insert(ballots.drop_last(), pos, b, choice);
    }
}

/// In a ledger with distinct voters, the ballot at any index is the one
/// its own voter resolves to.
pub proof fn lemma_ballot_index_resolves(ballots: Seq<Ballot>, i: int)
    requires
        ballots_distinct(ballots),
        0 <= i < ballots.len(),
    ensures
        spec_has_ballot(ballots, ballots[i].voter@),
        spec_ballot_index(ballots, ballots[i].voter@) == i,
{
    let voter = ballots[i].voter@;
    assert(spec_has_ballot(ballots, voter));
    let j = spec_ballot_index(ballots, voter);
    if j != i {
        if j < i {
            assert(ballots[j].voter@ != ballots[i].voter@);
        } else {
            assert(ballots[i].voter@ != ballots[j].voter@);
        }
    }
}

/// The index of this voter's ballot, if one exists.
pub fn find_ballot(ballots: &Vec<Ballot>, voter: &String) -> (r: Option<usize>)
    ensures
        match r {
            Some(i) => i < ballots@.len() && ballots@[i as int].voter@ == voter@,
            None => !spec_has_ballot(ballots@, voter@),
        },
{
    let n = ballots.len();
    let mut i: usize = 0;
    while i < n
        invariant
            i <= n,
            n == ballots@.len(),
            forall|j: int| 0 <= j < i ==> (#[trigger] ballots@[j]).voter@ != voter@,
        decreases n - i,
    {
        if ballots[i].voter == *voter {
            return Some(i);
        }
        i = i + 1;
    }
    None
}

/// Records a ballot at its sorted position, refusing a second one from
/// the same voter: a vote can be cast at most once per proposal and
/// voter, and a rejection leaves the ledger — and hence the tally
/// derived from it — exactly as it was.
pub fn cast(ballots: &mut Vec<Ballot>, voter: &String, weight: u64, vote: Vote) -> (r: Result<
    (),
    ContractError,
>)
    requires
        ballots_distinct(old(ballots)@),
        ballots_sorted(old(ballots)@),
    ensures
        ballots_distinct(final(ballots)@),
        ballots_sorted(final(ballots)@),
        r is Ok <==> !spec_has_ballot(old(ballots)@, voter@),
        r is Ok ==> final(ballots)@ == old(ballots)@.insert(
            spec_first_above(spec_ballot_names(old(ballots)@), voter@, 0),
            Ballot { voter: *voter, weight, vote },
        ),
        r is Err ==> final(ballots)@ == old(ballots)@ && r == Err::<(), _>(
            ContractError::AlreadyVoted,
        ),
{
    match find_ballot(ballots, voter) {
        Some(_) => Err(ContractError::AlreadyVoted),
        None => {
            let ghost pre = ballots@;
            let ghost names = spec_ballot_names(pre);
            proof {
                assert(forall|t: int|
                    0 <= t < pre.len() ==> #[trigger] names[t] == pre[t].voter@);
            }
            // Find the sorted gap: everything before it sorts below the
            // voter, everything from it on sorts above.
            let n = ballots.len();
            let mut pos: usize = 0;
            while pos < n && addr_lt(&ballots[pos].voter, voter)
                invariant
                    pos <= n,
                    n == pre.len(),
                    ballots@ == pre,
                    names == spec_ballot_names(pre),
                    ballots_sorted(pre),
                    !spec_has_ballot(pre, voter@),
                    forall|t: int|
                        0 <= t < pos ==> spec_str_lt((#[trigger] pre[t]).voter@, voter@),
                decreases n - pos,
            {
                pos = pos + 1;
            }
            proof {
                if pos < n {
                    assert(pre[pos as int].voter@ != voter@);
                    lemma_str_lt_connected(voter@, pre[pos as int].voter@);
                }
                assert forall|t: int| 0 <= t < pos implies !spec_str_lt(
                    voter@,
                    #[trigger] names[t],
                ) by {
                    lemma_str_lt_asymmetric(pre[t].voter@, voter@);
                }
                lemma_first_above_skip(names, voter@, pos as int);
                assert(pos == spec_first_above(names, voter@, 0));
            }
            ballots.insert(pos, Ballot { voter: voter.clone(), weight, vote });
            proof {
                pre.insert_ensures(pos as int, ballots@[pos as int]);
                assert(ballots@ == pre.insert(
                    pos as int,
                    Ballot { voter: *voter, weight, vote },
                ));
                // The gap keeps the ledger sorted and the voters
                // distinct.
                assert forall|i: int, j: int|
                    0 <= i < j < ballots@.len() implies spec_str_lt(
                    ballots@[i].voter@,
                    ballots@[j].voter@,
                ) by {
                    let p = pos as int;
                    if j < p {
                    } else if i < p && j == p {
                        assert(ballots@[i] == pre[i]);
                    } else if i < p && j > p {
                        assert(ballots@[i] == pre[i]);
                        assert(ballots@[j] == pre[j - 1]);
                        assert(i < j - 1);
                    } else if i == p {
                        assert(ballots@[j] == pre[j - 1]);
                        assert(pre[p].voter@ != voter@);
                        lemma_str_lt_connected(voter@, pre[p].voter@);
                        assert(spec_str_lt(voter@, pre[p].voter@));
                        if j - 1 > p {
                            crate::order::lemma_str_lt_transitive(
                                voter@,
                                pre[p].voter@,
                                pre[j - 1].voter@,
                            );
                        }
                    } else {
                        assert(ballots@[i] == pre[i - 1]);
                        assert(ballots@[j] == pre[j - 1]);
                    }
                }
                assert forall|i: int, j: int|
                    0 <= i < j < ballots@.len() implies ballots@[i].voter@
                    != ballots@[j].voter@ by {
                    crate::order::lemma_str_lt_neq(ballots@[i].voter@, ballots@[j].voter@);
                }
            }
            Ok(())
        },
    }
}

} // verus!

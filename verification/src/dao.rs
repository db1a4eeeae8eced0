//! The proposal lifecycle manager.
//!
//! It owns the governing configuration, the membership store and the
//! proposals, and orchestrates creation, voting, execution and closing.
//! Each call receives the host's block info; the engine guards the
//! host's promise that heights never move backwards, and every call
//! either applies all of its writes or none of them.

use vstd::prelude::*;

use crate::ballots::{cast, find_ballot, lemma_tally_push, spec_has_ballot, Ballot};
use crate::error::ContractError;
use crate::expiration::{BlockInfo, Duration, Expiration};
use crate::members::{
    spec_current_weight, spec_has_member, spec_history, spec_weight_at, Member, MemberHistory,
    MemberStore,
};
use crate::proposal::{Disposition, Proposal};
use crate::threshold::{Status, Threshold};
use crate::votes::{spec_add_fits, spec_add_vote, Vote, Votes};

verus! {

/// Who may execute a passed proposal.
#[derive(Clone, Debug)]
pub enum Executor {
    /// Any member of the group, a zero-weight member included.
    Member,
    /// Only the given address.
    Only(String),
}

/// The governing configuration, fixed at instantiation.
#[derive(Clone, Debug)]
pub struct Config {
    pub threshold: Threshold,
    pub max_voting_period: Duration,
    /// `None` lets anyone execute a passed proposal.
    pub executor: Option<Executor>,
}

/// Presentation data of the governed group.
#[derive(Clone, Debug)]
pub struct Metadata {
    pub name: String,
    pub description: String,
    pub image: String,
}

/// Whether the executor policy lets the sender execute: no policy lets
/// anyone, the member policy asks for a present current weight — zero
/// included — and the single-address policy compares addresses.
pub open spec fn spec_authorized(
    executor: Option<Executor>,
    members: MemberStore,
    sender: Seq<char>,
) -> bool {
    match executor {
        None => true,
        Some(Executor::Member) => spec_current_weight(members, sender) is Some,
        Some(Executor::Only(addr)) => addr@ == sender,
    }
}

impl Config {
    /// Applies the executor policy against the current membership.
    pub fn authorize(&self, members: &MemberStore, sender: &String) -> (r: Result<
        (),
        ContractError,
    >)
        requires
            members.wf(),
        ensures
            r is Ok <==> spec_authorized(self.executor, *members, sender@),
            r is Err ==> r == Err::<(), _>(ContractError::Unauthorized),
    {
        match &self.executor {
            None => Ok(()),
            Some(Executor::Member) => {
                match members.weight(sender) {
                    Some(_) => Ok(()),
                    None => Err(ContractError::Unauthorized),
                }
            },
            Some(Executor::Only(addr)) => {
                if *addr == *sender {
                    Ok(())
                } else {
                    Err(ContractError::Unauthorized)
                }
            },
        }
    }
}

/// The governance engine: configuration, membership, proposals, and the
/// high-water mark of the host's height clock.
#[derive(Debug)]
pub struct Dao {
    pub config: Config,
    pub metadata: Metadata,
    pub members: MemberStore,
    pub proposals: Vec<Proposal>,
    /// The only address allowed to change membership: the configured
    /// membership provider.
    pub admin: String,
    /// The highest height seen so far; the host never goes below it.
    pub last_height: u64,
}

impl Dao {
    /// Well-formedness: the store's and every proposal's invariants.
    pub open spec fn wf(self) -> bool {
        &&& self.members.wf()
        &&& forall|i: int| 0 <= i < self.proposals@.len() ==> (#[trigger] self.proposals@[i]).wf()
    }

    /// Sets up the engine: writes the initial roster into a fresh store
    /// at the instantiation height — later entries for one address
    /// supersede earlier ones — and validates the threshold rule
    /// against the resulting total weight.
    pub fn instantiate(
        config: Config,
        metadata: Metadata,
        admin: String,
        initial_members: &Vec<Member>,
        block: &BlockInfo,
    ) -> (r: Result<Dao, ContractError>)
        ensures
            ({
                let ws = spec_roster_writes(initial_members@);
                let m = crate::members::spec_fresh_sweep(ws, ws.len() as int).0;
                let total = crate::members::spec_fresh_sweep(ws, ws.len() as int).1;
                match r {
                    Ok(d) => {
                        &&& crate::members::spec_fresh_sweep_ok(ws)
                        &&& 0 <= total <= u64::MAX
                        &&& config.threshold.spec_validate(total as u64) is Ok
                        &&& d.wf()
                        &&& d.config == config
                        &&& d.metadata == metadata
                        &&& d.admin == admin
                        &&& d.proposals@.len() == 0
                        &&& d.last_height == block.height
                        &&& d.members.total as int == total
                        &&& forall|a: Seq<char>|
                            m.dom().contains(a) ==> #[trigger] spec_history(d.members, a)
                                == seq![
                                crate::members::Checkpoint { height: block.height, weight: m[a] },
                            ]
                        &&& forall|a: Seq<char>|
                            !m.dom().contains(a) ==> !spec_has_member(d.members, a)
                    },
                    Err(e) => {
                        &&& !(crate::members::spec_fresh_sweep_ok(ws)
                            && config.threshold.spec_validate(total as u64) is Ok)
                        &&& e == if !crate::members::spec_fresh_sweep_ok(ws) {
                            ContractError::Overflow
                        } else {
                            config.threshold.spec_validate(total as u64)->Err_0
                        }
                    },
                }
            }),
    {
        let mut writes: Vec<(String, Option<u64>)> = Vec::new();
        let n = initial_members.len();
        let mut k: usize = 0;
        while k < n
            invariant
                k <= n,
                n == initial_members@.len(),
                writes@.len() == k,
                forall|t: int|
                    0 <= t < k ==> ((#[trigger] writes@[t]).0@, writes@[t].1) == (
                        initial_members@[t].addr@,
                        Some(initial_members@[t].weight),
                    ),
            decreases n - k,
        {
            let m = &initial_members[k];
            writes.push((m.addr.clone(), Some(m.weight)));
            k = k + 1;
        }
        let mut members = MemberStore::new();
        let ghost empty = members;
        let ghost ws = spec_roster_writes(initial_members@);
        proof {
            assert(empty.spec_writes_view(writes@) =~= ws);
            crate::members::lemma_sweep_ok_fresh(empty, ws, block.height);
            assert forall|t: int| 0 <= t < ws.len() implies spec_history(
                empty,
                (#[trigger] ws[t]).0,
            ).len() == 0 by {
                assert(!spec_has_member(empty, ws[t].0));
            }
        }
        match members.apply_sweep(&writes, block.height) {
            Ok(()) => {},
            Err(e) => {
                return Err(e);
            },
        }
        proof {
            crate::members::lemma_sweep_fresh(empty, ws, ws.len() as int);
            let m = crate::members::spec_fresh_sweep(ws, ws.len() as int).0;
            // A fresh store's histories were all empty, so each touched
            // address ends with exactly one checkpoint and nobody else
            // ever joined.
            assert forall|a: Seq<char>| m.dom().contains(a) implies #[trigger] spec_history(
                members,
                a,
            ) == seq![crate::members::Checkpoint { height: block.height, weight: m[a] }] by {
                assert(!spec_has_member(empty, a));
                assert(spec_history(empty, a) =~= Seq::<crate::members::Checkpoint>::empty());
                assert(spec_history(members, a) =~= seq![
                    crate::members::Checkpoint { height: block.height, weight: m[a] },
                ]);
            }
            assert forall|a: Seq<char>| !m.dom().contains(a) implies !spec_has_member(
                members,
                a,
            ) by {
                assert(!spec_has_member(empty, a));
                assert(spec_history(members, a) == spec_history(empty, a));
                if spec_has_member(members, a) {
                    crate::members::lemma_index_resolves(
                        members,
                        crate::members::spec_member_index(members, a),
                    );
                }
            }
        }
        let total = members.total_weight();
        match config.threshold.validate(total) {
            Ok(()) => Ok(
                Dao {
                    config,
                    metadata,
                    admin,
                    members,
                    proposals: Vec::new(),
                    last_height: block.height,
                },
            ),
            Err(e) => Err(e),
        }
    }
}

/// The checkpoint writes an added roster stands for: each member's
/// weight, in roster order.
pub open spec fn spec_roster_writes(roster: Seq<Member>) -> Seq<(Seq<char>, Option<u64>)> {
    roster.map(|i: int, m: Member| (m.addr@, Some(m.weight)))
}

/// The checkpoint writes a removal list stands for: each address to
/// absent, in list order.
pub open spec fn spec_removal_writes(remove: Seq<String>) -> Seq<(Seq<char>, Option<u64>)> {
    remove.map(|i: int, a: String| (a@, None::<u64>))
}

/// What `propose` answers: the fresh proposal's identifier and the
/// status it opened with — a single powerful proposer can pass a
/// proposal at creation.
#[derive(Clone, Copy, Debug, PartialEq, Eq, Structural)]
pub struct ProposeResponse {
    pub id: u64,
    pub status: Status,
}

/// The expiration a proposal gets from an optional explicit choice and
/// the configured maximum: the explicit value capped at the maximum, or
/// nothing when the units are incompatible.
pub open spec fn spec_resolve_expiry(latest: Option<Expiration>, max: Expiration) -> Option<
    Expiration,
> {
    match latest {
        None => Some(max),
        Some(e) => match e.spec_comparable_and_le(max) {
            None => None,
            Some(true) => Some(e),
            Some(false) => Some(max),
        },
    }
}

/// The checks `propose` makes, in order; the proposer's current weight
/// and the resolved expiration on success.
pub open spec fn spec_propose_check(
    d: Dao,
    sender: Seq<char>,
    latest: Option<Expiration>,
    block: BlockInfo,
) -> Result<(u64, Expiration), ContractError> {
    if block.height < d.last_height {
        Err(ContractError::InvalidHeight)
    } else {
        match spec_current_weight(d.members, sender) {
            None => Err(ContractError::Unauthorized),
            Some(w) => match spec_resolve_expiry(
                latest,
                d.config.max_voting_period.spec_after(block),
            ) {
                None => Err(ContractError::WrongExpiration),
                Some(exp) => if d.proposals@.len() + 1 <= u64::MAX {
                    Ok((w, exp))
                } else {
                    Err(ContractError::Overflow)
                },
            },
        }
    }
}

/// The checks `vote` makes, in order; the voter's weight as of the
/// proposal's creation height on success.
pub open spec fn spec_vote_check(
    d: Dao,
    sender: Seq<char>,
    proposal_id: u64,
    choice: Vote,
    block: BlockInfo,
) -> Result<u64, ContractError> {
    if block.height < d.last_height {
        Err(ContractError::InvalidHeight)
    } else if !(1 <= proposal_id && proposal_id <= d.proposals@.len()) {
        Err(ContractError::NoSuchProposal)
    } else {
        let p = d.proposals@[proposal_id - 1];
        if !(p.disposition is Live) {
            Err(ContractError::NotOpen)
        } else if p.expires.spec_is_expired(block) {
            Err(ContractError::Expired)
        } else {
            match spec_weight_at(d.members, sender, p.start_height) {
                None => Err(ContractError::Unauthorized),
                Some(w) => if w == 0 {
                    Err(ContractError::Unauthorized)
                } else if spec_has_ballot(p.ballots@, sender) {
                    Err(ContractError::AlreadyVoted)
                } else if !spec_add_fits(p.votes, choice, w) {
                    Err(ContractError::Overflow)
                } else {
                    Ok(w)
                },
            }
        }
    }
}

/// How a proposal changes when a ballot lands on it: the ballot takes
/// its sorted place in the ledger, its weight joins the accumulator of
/// its choice, everything else stays.
pub open spec fn spec_after_vote(p: Proposal, np: Proposal, b: Ballot) -> bool {
    &&& np.ballots@ == p.ballots@.insert(
        crate::order::spec_first_above(
            crate::ballots::spec_ballot_names(p.ballots@),
            b.voter@,
            0,
        ),
        b,
    )
    &&& np.votes == spec_add_vote(p.votes, b.vote, b.weight)
    &&& np.title == p.title
    &&& np.description == p.description
    &&& np.start_height == p.start_height
    &&& np.expires == p.expires
    &&& np.msgs == p.msgs
    &&& np.threshold == p.threshold
    &&& np.total_weight == p.total_weight
    &&& np.disposition == p.disposition
}

impl Dao {
    /// Opens a proposal.
    ///
    /// Any member may propose, a zero-weight member included; the
    /// proposer's implicit yes ballot is recorded, the total weight and
    /// the threshold rule are snapshotted, the expiration is resolved
    /// once, and the status is evaluated immediately.
    pub fn propose(
        &mut self,
        sender: &String,
        title: String,
        description: String,
        msgs: Vec<Vec<u8>>,
        latest: Option<Expiration>,
        block: &BlockInfo,
    ) -> (r: Result<ProposeResponse, ContractError>)
        requires
            old(self).wf(),
        ensures
            final(self).wf(),
            match spec_propose_check(*old(self), sender@, latest, *block) {
                Err(e) => r == Err::<ProposeResponse, _>(e) && *final(self) == *old(self),
                Ok((w, exp)) => {
                    let np = final(self).proposals@.last();
                    &&& r is Ok
                    &&& final(self).proposals@ == old(self).proposals@.push(np)
                    &&& np.title == title
                    &&& np.description == description
                    &&& np.msgs == msgs
                    &&& np.start_height == block.height
                    &&& np.expires == exp
                    &&& np.threshold == old(self).config.threshold
                    &&& np.total_weight == old(self).members.total
                    &&& np.votes == (Votes { yes: w, no: 0, abstain: 0, veto: 0 })
                    &&& np.ballots@ == seq![Ballot { voter: *sender, weight: w, vote: Vote::Yes }]
                    &&& np.disposition is Live
                    &&& final(self).members == old(self).members
                    &&& final(self).config == old(self).config
                    &&& final(self).admin == old(self).admin
                    &&& final(self).metadata == old(self).metadata
                    &&& final(self).last_height == block.height
                    &&& r == Ok::<_, ContractError>(
                        ProposeResponse {
                            id: (old(self).proposals@.len() + 1) as u64,
                            status: np.spec_status(*block),
                        },
                    )
                },
            },
    {
        if block.height < self.last_height {
            return Err(ContractError::InvalidHeight);
        }
        let w = match self.members.weight(sender) {
            Some(w) => w,
            None => {
                return Err(ContractError::Unauthorized);
            },
        };
        let max_expires = self.config.max_voting_period.after(block);
        let expires = match latest {
            None => max_expires,
            Some(e) => match e.comparable_and_le(&max_expires) {
                None => {
                    return Err(ContractError::WrongExpiration);
                },
                Some(true) => e,
                Some(false) => max_expires,
            },
        };
        let len = self.proposals.len();
        if len as u64 == u64::MAX {
            return Err(ContractError::Overflow);
        }
        let id = (len as u64) + 1;
        let total_weight = self.members.total_weight();
        let mut ballots: Vec<Ballot> = Vec::new();
        ballots.push(Ballot { voter: sender.clone(), weight: w, vote: Vote::Yes });
        let prop = Proposal {
            title,
            description,
            start_height: block.height,
            expires,
            msgs,
            threshold: self.config.threshold,
            total_weight,
            votes: Votes::yes_tally(w),
            ballots,
            disposition: Disposition::Live,
        };
        proof {
            lemma_tally_push(Seq::empty(), prop.ballots@.last(), Vote::Yes);
            lemma_tally_push(Seq::empty(), prop.ballots@.last(), Vote::No);
            lemma_tally_push(Seq::empty(), prop.ballots@.last(), Vote::Abstain);
            lemma_tally_push(Seq::empty(), prop.ballots@.last(), Vote::Veto);
            assert(prop.ballots@ =~= Seq::empty().push(prop.ballots@.last()));
            assert(prop.ballots@ =~= seq![
                Ballot { voter: *sender, weight: w, vote: Vote::Yes },
            ]);
        }
        let status = prop.current_status(block);
        self.proposals.push(prop);
        self.last_height = block.height;
        Ok(ProposeResponse { id, status })
    }

    /// Casts a weighted ballot on a live, unexpired proposal.
    ///
    /// The voter's weight is read as of the proposal's creation height —
    /// membership changes after that height neither help nor harm a
    /// voter on this proposal — and must be at least one: zero-weight
    /// members propose but do not vote. One ballot per voter, forever;
    /// the status is re-evaluated from the updated tally and returned.
    pub fn vote(
        &mut self,
        sender: &String,
        proposal_id: u64,
        choice: Vote,
        block: &BlockInfo,
    ) -> (r: Result<Status, ContractError>)
        requires
            old(self).wf(),
        ensures
            final(self).wf(),
            match spec_vote_check(*old(self), sender@, proposal_id, choice, *block) {
                Err(e) => r == Err::<Status, _>(e) && *final(self) == *old(self),
                Ok(w) => {
                    let i = proposal_id - 1;
                    let op = old(self).proposals@[i];
                    let np = final(self).proposals@[i];
                    &&& final(self).proposals@ == old(self).proposals@.update(i, np)
                    &&& spec_after_vote(
                        op,
                        np,
                        Ballot { voter: *sender, weight: w, vote: choice },
                    )
                    &&& final(self).members == old(self).members
                    &&& final(self).config == old(self).config
                    &&& final(self).admin == old(self).admin
                    &&& final(self).metadata == old(self).metadata
                    &&& final(self).last_height == block.height
                    &&& r == Ok::<_, ContractError>(np.spec_status(*block))
                },
            },
    {
        if block.height < self.last_height {
            return Err(ContractError::InvalidHeight);
        }
        let len = self.proposals.len();
        if proposal_id == 0 || proposal_id > len as u64 {
            return Err(ContractError::NoSuchProposal);
        }
        let i = (proposal_id - 1) as usize;
        let start_height = self.proposals[i].start_height;
        match self.proposals[i].disposition {
            Disposition::Live => {},
            _ => {
                return Err(ContractError::NotOpen);
            },
        }
        if self.proposals[i].expires.is_expired(block) {
            return Err(ContractError::Expired);
        }
        let w = match self.members.weight_at(sender, start_height) {
            Some(w) => w,
            None => {
                return Err(ContractError::Unauthorized);
            },
        };
        if w == 0 {
            return Err(ContractError::Unauthorized);
        }
        if find_ballot(&self.proposals[i].ballots, sender).is_some() {
            return Err(ContractError::AlreadyVoted);
        }
        if !self.proposals[i].votes.can_add(choice, w) {
            return Err(ContractError::Overflow);
        }
        let p = &mut self.proposals[i];
        let ghost op = *p;
        match p.votes.add_vote(choice, w) {
            Ok(()) => {},
            Err(e) => {
                return Err(e);
            },
        }
        let cast_result = cast(&mut p.ballots, sender, w, choice);
        match cast_result {
            Ok(()) => {},
            Err(e) => {
                return Err(e);
            },
        }
        proof {
            let names = crate::ballots::spec_ballot_names(op.ballots@);
            let pos = crate::order::spec_first_above(names, sender@, 0);
            crate::order::lemma_first_above_bounds(names, sender@, 0);
            let b = Ballot { voter: *sender, weight: w, vote: choice };
            crate::ballots::lemma_tally_insert(op.ballots@, pos, b, Vote::Yes);
            crate::ballots::lemma_tally_insert(op.ballots@, pos, b, Vote::No);
            crate::ballots::lemma_tally_insert(op.ballots@, pos, b, Vote::Abstain);
            crate::ballots::lemma_tally_insert(op.ballots@, pos, b, Vote::Veto);
        }
        let status = self.proposals[i].current_status(block);
        self.last_height = block.height;
        Ok(status)
    }
}

/// The checks `execute` makes, in order.
pub open spec fn spec_execute_check(
    d: Dao,
    sender: Seq<char>,
    proposal_id: u64,
    block: BlockInfo,
) -> Result<(), ContractError> {
    if block.height < d.last_height {
        Err(ContractError::InvalidHeight)
    } else if !(1 <= proposal_id && proposal_id <= d.proposals@.len()) {
        Err(ContractError::NoSuchProposal)
    } else {
        let p = d.proposals@[proposal_id - 1];
        if !(p.spec_status(block) is Passed) {
            Err(ContractError::WrongExecuteStatus)
        } else if !spec_authorized(d.config.executor, d.members, sender) {
            Err(ContractError::Unauthorized)
        } else {
            Ok(())
        }
    }
}

/// The checks `close` makes, in order.
pub open spec fn spec_close_check(
    d: Dao,
    proposal_id: u64,
    block: BlockInfo,
) -> Result<(), ContractError> {
    if block.height < d.last_height {
        Err(ContractError::InvalidHeight)
    } else if !(1 <= proposal_id && proposal_id <= d.proposals@.len()) {
        Err(ContractError::NoSuchProposal)
    } else {
        let p = d.proposals@[proposal_id - 1];
        if !(p.disposition is Live) {
            Err(ContractError::WrongCloseStatus)
        } else if p.spec_status(block) is Passed {
            Err(ContractError::WrongCloseStatus)
        } else if !p.expires.spec_is_expired(block) {
            Err(ContractError::NotExpired)
        } else {
            Ok(())
        }
    }
}

/// A deep copy of opaque payloads.
fn clone_payloads(msgs: &Vec<Vec<u8>>) -> (r: Vec<Vec<u8>>)
    ensures
        r@.len() == msgs@.len(),
        forall|k: int| 0 <= k < msgs@.len() ==> (#[trigger] r@[k])@ == msgs@[k]@,
{
    let mut r: Vec<Vec<u8>> = Vec::new();
    let n = msgs.len();
    let mut k: usize = 0;
    while k < n
        invariant
            k <= n,
            n == msgs@.len(),
            r@.len() == k,
            forall|j: int| 0 <= j < k ==> (#[trigger] r@[j])@ == msgs@[j]@,
        decreases n - k,
    {
        let inner = msgs[k].clone();
        proof {
            assert forall|j: int| 0 <= j < inner@.len() implies inner@[j] == msgs@[k as int]@[j] by {
                assert(cloned::<u8>(msgs@[k as int]@[j], inner@[j]));
            }
            assert(inner@ =~= msgs@[k as int]@);
        }
        r.push(inner);
        k = k + 1;
    }
    r
}

impl Dao {
    /// Executes a passed proposal: re-evaluates the status, applies the
    /// executor policy against the current — not snapshotted —
    /// membership, marks the proposal executed for good, and hands back
    /// the opaque payloads for the host to dispatch. A dispatch failure
    /// is the host's to surface by dropping the whole transaction.
    pub fn execute(
        &mut self,
        sender: &String,
        proposal_id: u64,
        block: &BlockInfo,
    ) -> (r: Result<Vec<Vec<u8>>, ContractError>)
        requires
            old(self).wf(),
        ensures
            final(self).wf(),
            match spec_execute_check(*old(self), sender@, proposal_id, *block) {
                Err(e) => r matches Err(e2) && e2 == e && *final(self) == *old(self),
                Ok(()) => {
                    let i = proposal_id - 1;
                    let op = old(self).proposals@[i];
                    let np = final(self).proposals@[i];
                    &&& final(self).proposals@ == old(self).proposals@.update(i, np)
                    &&& np.disposition is Executed
                    &&& np.ballots == op.ballots
                    &&& np.votes == op.votes
                    &&& np.title == op.title
                    &&& np.description == op.description
                    &&& np.msgs == op.msgs
                    &&& np.start_height == op.start_height
                    &&& np.expires == op.expires
                    &&& np.threshold == op.threshold
                    &&& np.total_weight == op.total_weight
                    &&& final(self).members == old(self).members
                    &&& final(self).config == old(self).config
                    &&& final(self).admin == old(self).admin
                    &&& final(self).metadata == old(self).metadata
                    &&& final(self).last_height == block.height
                    &&& r matches Ok(msgs) && msgs@.len() == op.msgs@.len() && (forall|k: int|
                        0 <= k < op.msgs@.len() ==> (#[trigger] msgs@[k])@ == op.msgs@[k]@)
                },
            },
    {
        if block.height < self.last_height {
            return Err(ContractError::InvalidHeight);
        }
        let len = self.proposals.len();
        if proposal_id == 0 || proposal_id > len as u64 {
            return Err(ContractError::NoSuchProposal);
        }
        let i = (proposal_id - 1) as usize;
        let status = self.proposals[i].current_status(block);
        match status {
            Status::Passed => {},
            _ => {
                return Err(ContractError::WrongExecuteStatus);
            },
        }
        match self.config.authorize(&self.members, sender) {
            Ok(()) => {},
            Err(e) => {
                return Err(e);
            },
        }
        let msgs = clone_payloads(&self.proposals[i].msgs);
        let p = &mut self.proposals[i];
        p.disposition = Disposition::Executed;
        self.last_height = block.height;
        Ok(msgs)
    }

    /// Closes an expired proposal that did not pass, marking it rejected
    /// for good. Executed, already closed and passed proposals cannot be
    /// closed, and neither can one whose voting period still runs.
    pub fn close(&mut self, proposal_id: u64, block: &BlockInfo) -> (r: Result<(), ContractError>)
        requires
            old(self).wf(),
        ensures
            final(self).wf(),
            match spec_close_check(*old(self), proposal_id, *block) {
                Err(e) => r == Err::<(), _>(e) && *final(self) == *old(self),
                Ok(()) => {
                    let i = proposal_id - 1;
                    let op = old(self).proposals@[i];
                    let np = final(self).proposals@[i];
                    &&& final(self).proposals@ == old(self).proposals@.update(i, np)
                    &&& np.disposition is Closed
                    &&& np.spec_status(*block) is Rejected
                    &&& np.ballots == op.ballots
                    &&& np.votes == op.votes
                    &&& np.title == op.title
                    &&& np.description == op.description
                    &&& np.msgs == op.msgs
                    &&& np.start_height == op.start_height
                    &&& np.expires == op.expires
                    &&& np.threshold == op.threshold
                    &&& np.total_weight == op.total_weight
                    &&& final(self).members == old(self).members
                    &&& final(self).config == old(self).config
                    &&& final(self).admin == old(self).admin
                    &&& final(self).metadata == old(self).metadata
                    &&& final(self).last_height == block.height
                    &&& r is Ok
                },
            },
    {
        if block.height < self.last_height {
            return Err(ContractError::InvalidHeight);
        }
        let len = self.proposals.len();
        if proposal_id == 0 || proposal_id > len as u64 {
            return Err(ContractError::NoSuchProposal);
        }
        let i = (proposal_id - 1) as usize;
        match self.proposals[i].disposition {
            Disposition::Live => {},
            _ => {
                return Err(ContractError::WrongCloseStatus);
            },
        }
        let status = self.proposals[i].current_status(block);
        match status {
            Status::Passed => {
                return Err(ContractError::WrongCloseStatus);
            },
            _ => {},
        }
        if !self.proposals[i].expires.is_expired(block) {
            return Err(ContractError::NotExpired);
        }
        let p = &mut self.proposals[i];
        p.disposition = Disposition::Closed;
        self.last_height = block.height;
        Ok(())
    }
}

impl Dao {
    /// Applies a batch of membership changes at the current height:
    /// removals first, then additions, each as one checkpoint write,
    /// all or nothing. Only the configured membership provider may call
    /// this; the host invokes it when membership changes externally.
    ///
    /// Proposals — their snapshots, tallies and recorded ballots — are
    /// never touched by a membership change, and no change here alters
    /// what the store answers for any height below the current one.
    pub fn update_members(
        &mut self,
        sender: &String,
        remove: &Vec<String>,
        add: &Vec<Member>,
        block: &BlockInfo,
    ) -> (r: Result<(), ContractError>)
        requires
            old(self).wf(),
        ensures
            final(self).wf(),
            final(self).proposals == old(self).proposals,
            final(self).config == old(self).config,
            final(self).admin == old(self).admin,
            final(self).metadata == old(self).metadata,
            block.height < old(self).last_height ==> r == Err::<(), _>(
                ContractError::InvalidHeight,
            ),
            block.height >= old(self).last_height && sender@ != old(self).admin@ ==> r == Err::<
                (),
                _,
            >(ContractError::Unauthorized),
            r is Err ==> {
                &&& final(self).last_height == old(self).last_height
                &&& final(self).members.total == old(self).members.total
                &&& forall|a: Seq<char>|
                    #[trigger] spec_history(final(self).members, a) == spec_history(
                        old(self).members,
                        a,
                    )
            },
            // Success is owed: with the height in order and the provider
            // calling, the batch goes through exactly when each of its
            // writes is admissible in sequence.
            block.height >= old(self).last_height && sender@ == old(self).admin@ ==> {
                let ws = spec_removal_writes(remove@) + spec_roster_writes(add@);
                &&& (r is Ok <==> crate::members::spec_sweep_ok(
                    old(self).members,
                    ws,
                    block.height,
                ))
                &&& (r is Ok ==> crate::members::spec_sweep_applied(
                    old(self).members,
                    final(self).members,
                    ws,
                    block.height,
                ))
            },
            r is Ok ==> {
                let ws = spec_removal_writes(remove@) + spec_roster_writes(add@);
                &&& sender@ == old(self).admin@
                &&& block.height >= old(self).last_height
                &&& final(self).last_height == block.height
                // Nothing below the current height changes for anyone.
                &&& forall|a: Seq<char>, hh: u64|
                    hh < block.height ==> spec_weight_at(final(self).members, a, hh)
                        == spec_weight_at(old(self).members, a, hh)
                // Untouched addresses keep their histories.
                &&& forall|a: Seq<char>|
                    (forall|t: int| 0 <= t < remove@.len() ==> remove@[t]@ != a) && (forall|
                        t: int,
                    | 0 <= t < add@.len() ==> add@[t].addr@ != a)
                        ==> #[trigger] spec_history(final(self).members, a) == spec_history(
                        old(self).members,
                        a,
                    )
                // A removed address that is not re-added reads as absent.
                &&& forall|t: int|
                    0 <= t < remove@.len() && (forall|u: int|
                        0 <= u < add@.len() ==> add@[u].addr@ != remove@[t]@)
                        ==> spec_current_weight(
                        final(self).members,
                        (#[trigger] remove@[t])@,
                    ) is None
                // With distinct added addresses, each added member ends
                // at exactly the listed weight.
                &&& (forall|u: int, v: int|
                    0 <= u < v < add@.len() ==> add@[u].addr@ != add@[v].addr@) ==> forall|t: int|
                    0 <= t < add@.len() ==> spec_current_weight(
                        final(self).members,
                        (#[trigger] add@[t]).addr@,
                    ) == Some(add@[t].weight)
            },
    {
        if block.height < self.last_height {
            return Err(ContractError::InvalidHeight);
        }
        if !(*sender == self.admin) {
            return Err(ContractError::Unauthorized);
        }
        let ghost pre = self.members;
        let mut writes: Vec<(String, Option<u64>)> = Vec::new();
        let n_rem = remove.len();
        let mut k: usize = 0;
        while k < n_rem
            invariant
                k <= n_rem,
                n_rem == remove@.len(),
                writes@.len() == k,
                forall|t: int|
                    0 <= t < k ==> ((#[trigger] writes@[t]).0@, writes@[t].1) == (
                        remove@[t]@,
                        None::<u64>,
                    ),
            decreases n_rem - k,
        {
            writes.push((remove[k].clone(), None));
            k = k + 1;
        }
        let n_add = add.len();
        let mut k: usize = 0;
        while k < n_add
            invariant
                k <= n_add,
                n_add == add@.len(),
                n_rem == remove@.len(),
                writes@.len() == n_rem + k,
                forall|t: int|
                    0 <= t < n_rem ==> ((#[trigger] writes@[t]).0@, writes@[t].1) == (
                        remove@[t]@,
                        None::<u64>,
                    ),
                forall|t: int|
                    0 <= t < k ==> ((#[trigger] writes@[n_rem + t]).0@, writes@[n_rem + t].1) == (
                        add@[t].addr@,
                        Some(add@[t].weight),
                    ),
            decreases n_add - k,
        {
            let m = &add[k];
            writes.push((m.addr.clone(), Some(m.weight)));
            k = k + 1;
        }
        let ghost ws = spec_removal_writes(remove@) + spec_roster_writes(add@);
        proof {
            let vw = pre.spec_writes_view(writes@);
            assert(vw.len() == ws.len());
            assert forall|t: int| 0 <= t < vw.len() implies vw[t] == ws[t] by {
                assert(vw[t] == (writes@[t].0@, writes@[t].1));
                if t < n_rem {
                    assert(ws[t] == spec_removal_writes(remove@)[t]);
                } else {
                    let tt = t - n_rem;
                    assert(((writes@[n_rem + tt]).0@, writes@[n_rem + tt].1) == (
                        add@[tt].addr@,
                        Some(add@[tt].weight),
                    ));
                    assert(ws[t] == spec_roster_writes(add@)[tt]);
                }
            }
            assert(vw =~= ws);
        }
        match self.members.apply_sweep(&writes, block.height) {
            Ok(()) => {},
            Err(e) => {
                return Err(e);
            },
        }
        self.last_height = block.height;
        proof {
            lemma_batch_outcomes(pre, self.members, remove@, add@, block.height);
        }
        Ok(())
    }
}

/// What a removals-then-additions batch leaves behind, read back at the
/// level of single addresses.
proof fn lemma_batch_outcomes(
    pre: MemberStore,
    post: MemberStore,
    remove: Seq<String>,
    add: Seq<Member>,
    height: u64,
)
    requires
        pre.wf(),
        post.wf(),
        crate::members::spec_sweep_applied(
            pre,
            post,
            spec_removal_writes(remove) + spec_roster_writes(add),
            height,
        ),
    ensures
        forall|a: Seq<char>|
            (forall|t: int| 0 <= t < remove.len() ==> remove[t]@ != a) && (forall|t: int|
                0 <= t < add.len() ==> add[t].addr@ != a) ==> #[trigger] spec_history(post, a)
                == spec_history(pre, a),
        forall|t: int|
            0 <= t < remove.len() && (forall|u: int|
                0 <= u < add.len() ==> add[u].addr@ != remove[t]@) ==> spec_current_weight(
                post,
                (#[trigger] remove[t])@,
            ) is None,
        (forall|u: int, v: int| 0 <= u < v < add.len() ==> add[u].addr@ != add[v].addr@)
            ==> forall|t: int|
            0 <= t < add.len() ==> spec_current_weight(post, (#[trigger] add[t]).addr@) == Some(
                add[t].weight,
            ),
{
    let ws = spec_removal_writes(remove) + spec_roster_writes(add);
    let n = ws.len() as int;
    let rl = remove.len() as int;
    let m = crate::members::spec_sweep(pre, ws, n).0;
    assert(n == rl + add.len());
    assert forall|k: int| 0 <= k < rl implies #[trigger] ws[k] == (remove[k]@, None::<u64>) by {
        assert(ws[k] == spec_removal_writes(remove)[k]);
    }
    assert forall|k: int| rl <= k < n implies #[trigger] ws[k] == (
        add[k - rl].addr@,
        Some(add[k - rl].weight),
    ) by {
        assert(ws[k] == spec_roster_writes(add)[k - rl]);
    }
    // Untouched addresses never enter the fold.
    assert forall|a: Seq<char>|
        (forall|t: int| 0 <= t < remove.len() ==> remove[t]@ != a) && (forall|t: int|
            0 <= t < add.len() ==> add[t].addr@ != a) implies #[trigger] spec_history(post, a)
        == spec_history(pre, a) by {
        crate::members::lemma_sweep_dom(pre, ws, n, a);
        if m.dom().contains(a) {
            let j = choose|j: int| 0 <= j < n && (#[trigger] ws[j]).0 == a;
            assert(false);
        }
    }
    // A removed address that no addition touches folds to absent.
    assert forall|t: int|
        0 <= t < remove.len() && (forall|u: int|
            0 <= u < add.len() ==> add[u].addr@ != remove[t]@) implies spec_current_weight(
        post,
        (#[trigger] remove[t])@,
    ) is None by {
        let a = remove[t]@;
        assert(ws[t].0 == a);
        crate::members::lemma_sweep_uniform_value(pre, ws, a, None);
        lemma_current_after_batch(pre, post, ws, a, height);
    }
    // A distinct addition is its address's last write.
    if forall|u: int, v: int| 0 <= u < v < add.len() ==> add[u].addr@ != add[v].addr@ {
        assert forall|t: int| 0 <= t < add.len() implies spec_current_weight(
            post,
            (#[trigger] add[t]).addr@,
        ) == Some(add[t].weight) by {
            let a = add[t].addr@;
            let j = rl + t;
            assert(ws[j].0 == a && ws[j].1 == Some(add[t].weight));
            assert forall|k: int| j < k < n implies (#[trigger] ws[k]).0 != a by {
                assert(ws[k].0 == add[k - rl].addr@);
            }
            crate::members::lemma_sweep_last_value(pre, ws, j);
            lemma_current_after_batch(pre, post, ws, a, height);
        }
    }
}

/// A folded address's current weight after the batch is its folded
/// value: the batch leaves it one final checkpoint at the batch height.
proof fn lemma_current_after_batch(
    pre: MemberStore,
    post: MemberStore,
    ws: Seq<(Seq<char>, Option<u64>)>,
    a: Seq<char>,
    height: u64,
)
    requires
        crate::members::spec_sweep_applied(pre, post, ws, height),
        crate::members::spec_sweep(pre, ws, ws.len() as int).0.dom().contains(a),
    ensures
        spec_current_weight(post, a) == crate::members::spec_sweep(pre, ws, ws.len() as int).0[a],
{
    let m = crate::members::spec_sweep(pre, ws, ws.len() as int).0;
    let hist = spec_history(pre, a);
    let after = crate::members::spec_history_after_set(hist, height, m[a]);
    assert(spec_history(post, a) == after);
    assert(after.last() == crate::members::Checkpoint { height, weight: m[a] });
}

/// The weight the source of truth assigns to an address: the first
/// matching roster entry at or after `from`, if any.
pub open spec fn spec_roster_weight(roster: Seq<Member>, addr: Seq<char>, from: int) -> Option<
    u64,
>
    decreases roster.len() - from,
{
    if from < 0 || from >= roster.len() {
        None
    } else if roster[from].addr@ == addr {
        Some(roster[from].weight)
    } else {
        spec_roster_weight(roster, addr, from + 1)
    }
}

/// Entries that do not match leave the looked-up weight alone.
proof fn lemma_roster_weight_skip(roster: Seq<Member>, addr: Seq<char>, j: int)
    requires
        0 <= j <= roster.len(),
        forall|t: int| 0 <= t < j ==> (#[trigger] roster[t]).addr@ != addr,
    ensures
        spec_roster_weight(roster, addr, 0) == spec_roster_weight(roster, addr, j),
    decreases j,
{
    if j > 0 {
        lemma_roster_weight_skip(roster, addr, j - 1);
    }
}

/// An address no roster entry carries looks up to nothing.
proof fn lemma_roster_weight_absent(roster: Seq<Member>, addr: Seq<char>, from: int)
    requires
        0 <= from <= roster.len(),
        forall|t: int| 0 <= t < roster.len() ==> (#[trigger] roster[t]).addr@ != addr,
    ensures
        spec_roster_weight(roster, addr, from) is None,
    decreases roster.len() - from,
{
    if from < roster.len() {
        lemma_roster_weight_absent(roster, addr, from + 1);
    }
}

/// The checkpoint writes a full resynchronization stands for: every
/// known address to what the source of truth says of it, then every
/// listed member to its listed weight.
pub open spec fn spec_resync_writes(records: Seq<MemberHistory>, roster: Seq<Member>) -> Seq<
    (Seq<char>, Option<u64>),
> {
    records.map(|i: int, r: MemberHistory| (r.addr@, spec_roster_weight(roster, r.addr@, 0)))
        + spec_roster_writes(roster)
}

/// The first matching roster entry's weight for the address.
fn roster_weight(roster: &Vec<Member>, addr: &String) -> (r: Option<u64>)
    ensures
        r == spec_roster_weight(roster@, addr@, 0),
{
    let n = roster.len();
    let mut i: usize = 0;
    while i < n
        invariant
            i <= n,
            n == roster@.len(),
            forall|t: int| 0 <= t < i ==> (#[trigger] roster@[t]).addr@ != addr@,
        decreases n - i,
    {
        if roster[i].addr == *addr {
            proof {
                lemma_roster_weight_skip(roster@, addr@, i as int);
            }
            return Some(roster[i].weight);
        }
        i = i + 1;
    }
    proof {
        lemma_roster_weight_skip(roster@, addr@, n as int);
    }
    None
}

impl Dao {
    /// Bulk resynchronization against an external source of truth, all
    /// or nothing: every listed member is set to exactly its listed
    /// weight, every other known member is removed, all as checkpoints
    /// at the current height. Answers for heights below the current one
    /// are untouched, and a second run with the same roster at the same
    /// height rewrites each latest checkpoint with itself, so the sweep
    /// is idempotent.
    pub fn resync(
        &mut self,
        sender: &String,
        roster: &Vec<Member>,
        block: &BlockInfo,
    ) -> (r: Result<(), ContractError>)
        requires
            old(self).wf(),
        ensures
            final(self).wf(),
            final(self).proposals == old(self).proposals,
            final(self).config == old(self).config,
            final(self).admin == old(self).admin,
            final(self).metadata == old(self).metadata,
            block.height < old(self).last_height ==> r == Err::<(), _>(
                ContractError::InvalidHeight,
            ),
            block.height >= old(self).last_height && sender@ != old(self).admin@ ==> r == Err::<
                (),
                _,
            >(ContractError::Unauthorized),
            r is Err ==> {
                &&& final(self).last_height == old(self).last_height
                &&& final(self).members.total == old(self).members.total
                &&& forall|a: Seq<char>|
                    #[trigger] spec_history(final(self).members, a) == spec_history(
                        old(self).members,
                        a,
                    )
            },
            // Success is owed: with the height in order and the provider
            // calling, the sweep goes through exactly when each of its
            // writes is admissible in sequence.
            block.height >= old(self).last_height && sender@ == old(self).admin@ ==> {
                let ws = spec_resync_writes(old(self).members.records@, roster@);
                &&& (r is Ok <==> crate::members::spec_sweep_ok(
                    old(self).members,
                    ws,
                    block.height,
                ))
                &&& (r is Ok ==> crate::members::spec_sweep_applied(
                    old(self).members,
                    final(self).members,
                    ws,
                    block.height,
                ))
            },
            r is Ok ==> {
                &&& sender@ == old(self).admin@
                &&& block.height >= old(self).last_height
                &&& final(self).last_height == block.height
                // Nothing below the current height changes for anyone.
                &&& forall|a: Seq<char>, hh: u64|
                    hh < block.height ==> spec_weight_at(final(self).members, a, hh)
                        == spec_weight_at(old(self).members, a, hh)
                // Nobody outside the roster keeps a weight.
                &&& forall|a: Seq<char>|
                    (forall|t: int| 0 <= t < roster@.len() ==> (#[trigger] roster@[t]).addr@ != a)
                        ==> spec_current_weight(final(self).members, a) is None
                // With distinct roster addresses, every listed member
                // ends at exactly the listed weight.
                &&& (forall|u: int, v: int|
                    0 <= u < v < roster@.len() ==> roster@[u].addr@ != roster@[v].addr@)
                    ==> forall|t: int|
                    0 <= t < roster@.len() ==> spec_current_weight(
                        final(self).members,
                        (#[trigger] roster@[t]).addr@,
                    ) == Some(roster@[t].weight)
            },
    {
        if block.height < self.last_height {
            return Err(ContractError::InvalidHeight);
        }
        if !(*sender == self.admin) {
            return Err(ContractError::Unauthorized);
        }
        let ghost pre = self.members;
        let mut writes: Vec<(String, Option<u64>)> = Vec::new();
        let n_rec = self.members.records.len();
        let mut k: usize = 0;
        while k < n_rec
            invariant
                k <= n_rec,
                n_rec == self.members.records@.len(),
                pre == self.members,
                writes@.len() == k,
                forall|t: int|
                    0 <= t < k ==> ((#[trigger] writes@[t]).0@, writes@[t].1) == (
                        pre.records@[t].addr@,
                        spec_roster_weight(roster@, pre.records@[t].addr@, 0),
                    ),
            decreases n_rec - k,
        {
            let value = roster_weight(roster, &self.members.records[k].addr);
            writes.push((self.members.records[k].addr.clone(), value));
            k = k + 1;
        }
        let n_add = roster.len();
        let mut k: usize = 0;
        while k < n_add
            invariant
                k <= n_add,
                n_add == roster@.len(),
                n_rec == pre.records@.len(),
                pre == self.members,
                writes@.len() == n_rec + k,
                forall|t: int|
                    0 <= t < n_rec ==> ((#[trigger] writes@[t]).0@, writes@[t].1) == (
                        pre.records@[t].addr@,
                        spec_roster_weight(roster@, pre.records@[t].addr@, 0),
                    ),
                forall|t: int|
                    0 <= t < k ==> ((#[trigger] writes@[n_rec + t]).0@, writes@[n_rec + t].1) == (
                        roster@[t].addr@,
                        Some(roster@[t].weight),
                    ),
            decreases n_add - k,
        {
            let m = &roster[k];
            writes.push((m.addr.clone(), Some(m.weight)));
            k = k + 1;
        }
        let ghost ws = spec_resync_writes(pre.records@, roster@);
        proof {
            let vw = pre.spec_writes_view(writes@);
            assert(vw.len() == ws.len());
            assert forall|t: int| 0 <= t < vw.len() implies vw[t] == ws[t] by {
                assert(vw[t] == (writes@[t].0@, writes@[t].1));
                if t < n_rec {
                    assert(ws[t] == pre.records@.map(
                        |i: int, rr: MemberHistory|
                            (rr.addr@, spec_roster_weight(roster@, rr.addr@, 0)),
                    )[t]);
                } else {
                    let tt = t - n_rec;
                    assert(((writes@[n_rec + tt]).0@, writes@[n_rec + tt].1) == (
                        roster@[tt].addr@,
                        Some(roster@[tt].weight),
                    ));
                    assert(ws[t] == spec_roster_writes(roster@)[tt]);
                }
            }
            assert(vw =~= ws);
        }
        match self.members.apply_sweep(&writes, block.height) {
            Ok(()) => {},
            Err(e) => {
                return Err(e);
            },
        }
        self.last_height = block.height;
        proof {
            lemma_resync_outcomes(pre, self.members, roster@, block.height);
        }
        Ok(())
    }
}

/// What a resynchronization sweep leaves behind, read back at the level
/// of single addresses.
proof fn lemma_resync_outcomes(
    pre: MemberStore,
    post: MemberStore,
    roster: Seq<Member>,
    height: u64,
)
    requires
        pre.wf(),
        post.wf(),
        crate::members::spec_sweep_applied(
            pre,
            post,
            spec_resync_writes(pre.records@, roster),
            height,
        ),
    ensures
        forall|a: Seq<char>|
            (forall|t: int| 0 <= t < roster.len() ==> (#[trigger] roster[t]).addr@ != a)
                ==> spec_current_weight(post, a) is None,
        (forall|u: int, v: int| 0 <= u < v < roster.len() ==> roster[u].addr@ != roster[v].addr@)
            ==> forall|t: int|
            0 <= t < roster.len() ==> spec_current_weight(post, (#[trigger] roster[t]).addr@)
                == Some(roster[t].weight),
{
    let ws = spec_resync_writes(pre.records@, roster);
    let n = ws.len() as int;
    let rl = pre.records@.len() as int;
    assert(n == rl + roster.len());
    assert forall|k: int| 0 <= k < rl implies #[trigger] ws[k] == (
        pre.records@[k].addr@,
        spec_roster_weight(roster, pre.records@[k].addr@, 0),
    ) by {
        assert(ws[k] == pre.records@.map(
            |i: int, rr: MemberHistory| (rr.addr@, spec_roster_weight(roster, rr.addr@, 0)),
        )[k]);
    }
    assert forall|k: int| rl <= k < n implies #[trigger] ws[k] == (
        roster[k - rl].addr@,
        Some(roster[k - rl].weight),
    ) by {
        assert(ws[k] == spec_roster_writes(roster)[k - rl]);
    }
    // Off-roster addresses: a known one is rewritten to absent, an
    // unknown one is never touched.
    assert forall|a: Seq<char>|
        (forall|t: int| 0 <= t < roster.len() ==> (#[trigger] roster[t]).addr@
            != a) implies spec_current_weight(post, a) is None by {
        lemma_roster_weight_absent(roster, a, 0);
        if crate::members::spec_has_member(pre, a) {
            let j = crate::members::spec_member_index(pre, a);
            crate::members::lemma_index_resolves(pre, j);
            assert(ws[j].0 == a);
            assert forall|k: int| 0 <= k < ws.len() && (#[trigger] ws[k]).0 == a implies ws[k].1
                == None::<u64> by {
                if k < rl {
                } else {
                    assert(roster[k - rl].addr@ == a);
                }
            }
            crate::members::lemma_sweep_uniform_value(pre, ws, a, None);
            lemma_current_after_batch(pre, post, ws, a, height);
        } else {
            crate::members::lemma_sweep_dom(pre, ws, n, a);
            if crate::members::spec_sweep(pre, ws, n).0.dom().contains(a) {
                let j = choose|j: int| 0 <= j < n && (#[trigger] ws[j]).0 == a;
                if j < rl {
                    crate::members::lemma_index_resolves(pre, j);
                    assert(crate::members::spec_has_member(pre, a));
                } else {
                    assert(roster[j - rl].addr@ == a);
                }
                assert(false);
            }
            assert(spec_history(post, a) == spec_history(pre, a));
            assert(spec_history(pre, a) =~= Seq::<crate::members::Checkpoint>::empty());
        }
    }
    // A distinct roster entry is its address's last write.
    if forall|u: int, v: int| 0 <= u < v < roster.len() ==> roster[u].addr@ != roster[v].addr@ {
        assert forall|t: int| 0 <= t < roster.len() implies spec_current_weight(
            post,
            (#[trigger] roster[t]).addr@,
        ) == Some(roster[t].weight) by {
            let a = roster[t].addr@;
            let j = rl + t;
            assert(ws[j].0 == a && ws[j].1 == Some(roster[t].weight));
            assert forall|k: int| j < k < n implies (#[trigger] ws[k]).0 != a by {
                assert(ws[k].0 == roster[k - rl].addr@);
            }
            crate::members::lemma_sweep_last_value(pre, ws, j);
            lemma_current_after_batch(pre, post, ws, a, height);
        }
    }
}

/// The checks a single-step weight change makes, in order; the new
/// weight on success. `up` raises the member's weight by one, otherwise
/// it is lowered by one.
pub open spec fn spec_bump_check(
    d: Dao,
    sender: Seq<char>,
    member: Seq<char>,
    up: bool,
    block: BlockInfo,
) -> Result<u64, ContractError> {
    if block.height < d.last_height {
        Err(ContractError::InvalidHeight)
    } else if sender != d.admin@ {
        Err(ContractError::Unauthorized)
    } else {
        let cur = crate::members::weight_of(spec_current_weight(d.members, member));
        if up && cur == u64::MAX {
            Err(ContractError::Overflow)
        } else if !up && cur == 0 {
            Err(ContractError::Overflow)
        } else {
            let nw = if up {
                (cur + 1) as u64
            } else {
                (cur - 1) as u64
            };
            if crate::members::spec_set_allowed(d.members, member, Some(nw), block.height) {
                Ok(nw)
            } else {
                Err(crate::members::spec_set_err(d.members, member, Some(nw), block.height))
            }
        }
    }
}

/// How the engine changes when one member's weight moves to `nw` at
/// `block`: one checkpoint lands, the total follows, nothing else moves.
pub open spec fn spec_after_bump(d: Dao, nd: Dao, member: Seq<char>, nw: u64, block: BlockInfo) -> bool {
    &&& spec_history(nd.members, member) == crate::members::spec_history_after_set(
        spec_history(d.members, member),
        block.height,
        Some(nw),
    )
    &&& forall|a: Seq<char>|
        a != member ==> #[trigger] spec_history(nd.members, a) == spec_history(d.members, a)
    &&& forall|a: Seq<char>, hh: u64|
        hh < block.height ==> spec_weight_at(nd.members, a, hh) == spec_weight_at(d.members, a, hh)
    &&& nd.members.total as int == d.members.total - crate::members::weight_of(
        spec_current_weight(d.members, member),
    ) + nw
    &&& nd.proposals == d.proposals
    &&& nd.config == d.config
    &&& nd.admin == d.admin
    &&& nd.metadata == d.metadata
    &&& nd.last_height == block.height
}

impl Dao {
    /// Raises a member's weight by one — the membership provider calls
    /// this when the member gains one membership token. An address never
    /// seen before joins with weight one.
    pub fn add_member_weight(&mut self, sender: &String, member: &String, block: &BlockInfo) -> (r:
        Result<u64, ContractError>)
        requires
            old(self).wf(),
        ensures
            final(self).wf(),
            match spec_bump_check(*old(self), sender@, member@, true, *block) {
                Err(e) => r == Err::<u64, _>(e) && *final(self) == *old(self),
                Ok(nw) => r == Ok::<_, ContractError>(nw) && spec_after_bump(
                    *old(self),
                    *final(self),
                    member@,
                    nw,
                    *block,
                ),
            },
    {
        if block.height < self.last_height {
            return Err(ContractError::InvalidHeight);
        }
        if !(*sender == self.admin) {
            return Err(ContractError::Unauthorized);
        }
        let cur: u64 = match self.members.weight(member) {
            Some(w) => w,
            None => 0,
        };
        let nw: u64 = match cur.checked_add(1) {
            Some(w) => w,
            None => {
                return Err(ContractError::Overflow);
            },
        };
        match self.members.set(member, Some(nw), block.height) {
            Ok(()) => {},
            Err(e) => {
                return Err(e);
            },
        }
        self.last_height = block.height;
        Ok(nw)
    }

    /// Lowers a member's weight by one — the membership provider calls
    /// this when the member gives one membership token back. A weight of
    /// zero keeps the member on the roster as a non-voting member;
    /// lowering an absent or zero weight is refused.
    pub fn remove_member_weight(
        &mut self,
        sender: &String,
        member: &String,
        block: &BlockInfo,
    ) -> (r: Result<u64, ContractError>)
        requires
            old(self).wf(),
        ensures
            final(self).wf(),
            match spec_bump_check(*old(self), sender@, member@, false, *block) {
                Err(e) => r == Err::<u64, _>(e) && *final(self) == *old(self),
                Ok(nw) => r == Ok::<_, ContractError>(nw) && spec_after_bump(
                    *old(self),
                    *final(self),
                    member@,
                    nw,
                    *block,
                ),
            },
    {
        if block.height < self.last_height {
            return Err(ContractError::InvalidHeight);
        }
        if !(*sender == self.admin) {
            return Err(ContractError::Unauthorized);
        }
        let cur: u64 = match self.members.weight(member) {
            Some(w) => w,
            None => 0,
        };
        if cur == 0 {
            return Err(ContractError::Overflow);
        }
        let nw: u64 = cur - 1;
        match self.members.set(member, Some(nw), block.height) {
            Ok(()) => {},
            Err(e) => {
                return Err(e);
            },
        }
        self.last_height = block.height;
        Ok(nw)
    }
}


/// Once a live proposal under an absolute count reads as passed, any
/// further ballot that fits and any later block — expired or not —
/// leave it reading passed; only execution moves it on.
pub proof fn lemma_absolute_count_stays_passed(
    p: Proposal,
    np: Proposal,
    b: Ballot,
    required: u64,
    b1: BlockInfo,
    b2: BlockInfo,
)
    requires
        p.threshold == (Threshold::AbsoluteCount { weight: required }),
        p.disposition is Live,
        p.spec_status(b1) == crate::threshold::Status::Passed,
        spec_add_fits(p.votes, b.vote, b.weight),
        spec_after_vote(p, np, b),
    ensures
        np.spec_status(b2) == crate::threshold::Status::Passed,
{
    assert(np.votes.yes >= p.votes.yes);
    crate::threshold::lemma_absolute_count_passes_for_good(
        p.votes,
        np.votes,
        required,
        p.total_weight,
        np.total_weight,
        p.expires.spec_is_expired(b1),
        np.expires.spec_is_expired(b2),
    );
}

} // verus!

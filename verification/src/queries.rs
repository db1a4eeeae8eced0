//! The read-only query surface of the engine.
//!
//! Every read recomputes a proposal's status from its live tally; no
//! query ever changes state.

use vstd::prelude::*;

use crate::ballots::{lemma_ballot_index_resolves, spec_ballot_index, spec_has_ballot};
use crate::dao::Dao;
use crate::error::ContractError;
use crate::expiration::BlockInfo;
use crate::members::{page_size, spec_current_weight, spec_page_size, weight_of, Member};
use crate::msg::{
    GroupResponse, MetadataResponse, ProposalListResponse, ProposalResponse, QueryMsg,
    QueryResponse, StakedResponse, VoteInfo, VoteListResponse, VoteResponse, VoterDetail,
    VoterListResponse, VoterResponse,
};
use crate::proposal::Proposal;
use crate::threshold::ThresholdResponse;

verus! {

/// Whether `resp` reports proposal `p` under identifier `id` as of
/// `block`: all stored fields verbatim, the status recomputed, the rule
/// paired with the proposal's own total-weight snapshot.
pub open spec fn spec_proposal_response(
    p: Proposal,
    id: u64,
    resp: ProposalResponse,
    block: BlockInfo,
) -> bool {
    &&& resp.id == id
    &&& resp.title@ == p.title@
    &&& resp.description@ == p.description@
    &&& resp.msgs@.len() == p.msgs@.len()
    &&& forall|k: int| 0 <= k < p.msgs@.len() ==> (#[trigger] resp.msgs@[k])@ == p.msgs@[k]@
    &&& resp.status == p.spec_status(block)
    &&& resp.expires == p.expires
    &&& resp.threshold == p.threshold.spec_to_response(p.total_weight)
}

/// The first index a paginated proposal listing reports: the identifier
/// cursor is exclusive, and identifiers are positions plus one.
pub open spec fn spec_list_start(start_after: Option<u64>, len: int) -> int {
    match start_after {
        None => 0,
        Some(s) => if s <= len {
            s as int
        } else {
            len
        },
    }
}

/// The exclusive end position of a reverse proposal listing.
pub open spec fn spec_list_end(start_before: Option<u64>, len: int) -> int {
    match start_before {
        None => len,
        Some(s) => if s == 0 {
            0int
        } else if s - 1 <= len {
            s - 1
        } else {
            len
        },
    }
}

/// `a` capped at `b`.
pub open spec fn spec_min(a: int, b: int) -> int {
    if a <= b {
        a
    } else {
        b
    }
}

/// One proposal turned into its query report.
fn make_proposal_response(p: &Proposal, id: u64, block: &BlockInfo) -> (r: ProposalResponse)
    ensures
        spec_proposal_response(*p, id, r, *block),
{
    let mut msgs: Vec<Vec<u8>> = Vec::new();
    let n = p.msgs.len();
    let mut k: usize = 0;
    while k < n
        invariant
            k <= n,
            n == p.msgs@.len(),
            msgs@.len() == k,
            forall|j: int| 0 <= j < k ==> (#[trigger] msgs@[j])@ == p.msgs@[j]@,
        decreases n - k,
    {
        let inner = p.msgs[k].clone();
        proof {
            assert forall|j: int| 0 <= j < inner@.len() implies inner@[j]
                == p.msgs@[k as int]@[j] by {
                assert(cloned::<u8>(p.msgs@[k as int]@[j], inner@[j]));
            }
            assert(inner@ =~= p.msgs@[k as int]@);
        }
        msgs.push(inner);
        k = k + 1;
    }
    ProposalResponse {
        id,
        title: p.title.clone(),
        description: p.description.clone(),
        msgs,
        status: p.current_status(block),
        expires: p.expires,
        threshold: p.threshold.to_response(p.total_weight),
    }
}

/// Whether `resp` reports the window of `ballots` that starts at
/// position `s` and holds at most `cap` entries, each one a recorded
/// ballot verbatim.
pub open spec fn spec_vote_window(
    ballots: Seq<crate::ballots::Ballot>,
    proposal_id: u64,
    resp: VoteListResponse,
    cap: int,
    s: int,
) -> bool {
    &&& 0 <= s <= ballots.len()
    &&& resp.votes@.len() == spec_min(cap, ballots.len() - s)
    &&& forall|k: int|
        0 <= k < resp.votes@.len() ==> {
            let info = #[trigger] resp.votes@[k];
            &&& info.proposal_id == proposal_id
            &&& info.voter@ == ballots[s + k].voter@
            &&& info.vote == ballots[s + k].vote
            &&& info.weight == ballots[s + k].weight
        }
}

impl Dao {
    /// The threshold rule against the current total weight.
    pub fn query_threshold(&self) -> (r: ThresholdResponse)
        requires
            self.wf(),
        ensures
            r == self.config.threshold.spec_to_response(self.members.total),
    {
        self.config.threshold.to_response(self.members.total_weight())
    }

    /// One proposal by identifier, its status recomputed as of `block`.
    pub fn query_proposal(&self, proposal_id: u64, block: &BlockInfo) -> (r: Result<
        ProposalResponse,
        ContractError,
    >)
        requires
            self.wf(),
        ensures
            r is Ok <==> 1 <= proposal_id <= self.proposals@.len(),
            r matches Ok(resp) ==> spec_proposal_response(
                self.proposals@[proposal_id - 1],
                proposal_id,
                resp,
                *block,
            ),
            r is Err ==> r == Err::<ProposalResponse, _>(ContractError::NoSuchProposal),
    {
        let len = self.proposals.len();
        if proposal_id == 0 || proposal_id > len as u64 {
            return Err(ContractError::NoSuchProposal);
        }
        let i = (proposal_id - 1) as usize;
        Ok(make_proposal_response(&self.proposals[i], proposal_id, block))
    }

    /// Proposals in ascending identifier order, strictly after the
    /// cursor, one capped page.
    pub fn list_proposals(
        &self,
        start_after: Option<u64>,
        limit: Option<u32>,
        block: &BlockInfo,
    ) -> (r: ProposalListResponse)
        requires
            self.wf(),
        ensures
            ({
                let start = spec_list_start(start_after, self.proposals@.len() as int);
                let count = spec_min(spec_page_size(limit), self.proposals@.len() - start);
                &&& r.proposals@.len() == count
                &&& forall|k: int|
                    0 <= k < count ==> spec_proposal_response(
                        self.proposals@[start + k],
                        (start + k + 1) as u64,
                        #[trigger] r.proposals@[k],
                        *block,
                    )
            }),
    {
        let len = self.proposals.len();
        let start: usize = match start_after {
            None => 0,
            Some(s) => if s <= len as u64 {
                s as usize
            } else {
                len
            },
        };
        let cap = page_size(limit);
        let mut out: Vec<ProposalResponse> = Vec::new();
        let mut k: usize = start;
        while k < len && out.len() < cap
            invariant
                self.wf(),
                start <= k <= len,
                len == self.proposals@.len(),
                cap == spec_page_size(limit),
                out@.len() == k - start,
                out@.len() <= cap,
                forall|j: int|
                    0 <= j < out@.len() ==> spec_proposal_response(
                        self.proposals@[start + j],
                        (start + j + 1) as u64,
                        #[trigger] out@[j],
                        *block,
                    ),
            decreases len - k,
        {
            let resp = make_proposal_response(&self.proposals[k], (k as u64) + 1, block);
            out.push(resp);
            k = k + 1;
        }
        ProposalListResponse { proposals: out }
    }

    /// Proposals in descending identifier order, strictly before the
    /// cursor, one capped page.
    pub fn reverse_proposals(
        &self,
        start_before: Option<u64>,
        limit: Option<u32>,
        block: &BlockInfo,
    ) -> (r: ProposalListResponse)
        requires
            self.wf(),
        ensures
            ({
                let end = spec_list_end(start_before, self.proposals@.len() as int);
                let count = spec_min(spec_page_size(limit), end);
                &&& r.proposals@.len() == count
                &&& forall|k: int|
                    0 <= k < count ==> spec_proposal_response(
                        self.proposals@[end - 1 - k],
                        (end - k) as u64,
                        #[trigger] r.proposals@[k],
                        *block,
                    )
            }),
    {
        let len = self.proposals.len();
        let end: usize = match start_before {
            None => len,
            Some(s) => if s == 0 {
                0
            } else if s - 1 <= len as u64 {
                (s - 1) as usize
            } else {
                len
            },
        };
        let cap = page_size(limit);
        let mut out: Vec<ProposalResponse> = Vec::new();
        let mut k: usize = 0;
        while k < end && out.len() < cap
            invariant
                self.wf(),
                k <= end <= len,
                len == self.proposals@.len(),
                cap == spec_page_size(limit),
                out@.len() == k,
                out@.len() <= cap,
                forall|j: int|
                    0 <= j < out@.len() ==> spec_proposal_response(
                        self.proposals@[end - 1 - j],
                        (end - j) as u64,
                        #[trigger] out@[j],
                        *block,
                    ),
            decreases end - k,
        {
            let i = end - 1 - k;
            let resp = make_proposal_response(&self.proposals[i], (i as u64) + 1, block);
            out.push(resp);
            k = k + 1;
        }
        ProposalListResponse { proposals: out }
    }

    /// One voter's recorded ballot on one proposal, if any.
    pub fn query_vote(&self, proposal_id: u64, voter: &String) -> (r: Result<
        VoteResponse,
        ContractError,
    >)
        requires
            self.wf(),
        ensures
            r is Ok <==> 1 <= proposal_id <= self.proposals@.len(),
            r is Err ==> r == Err::<VoteResponse, _>(ContractError::NoSuchProposal),
            r matches Ok(resp) ==> {
                let ballots = self.proposals@[proposal_id - 1].ballots@;
                &&& resp.vote is Some <==> spec_has_ballot(ballots, voter@)
                &&& resp.vote matches Some(info) ==> {
                    let b = ballots[spec_ballot_index(ballots, voter@)];
                    &&& info.proposal_id == proposal_id
                    &&& info.voter@ == voter@
                    &&& info.vote == b.vote
                    &&& info.weight == b.weight
                }
            },
    {
        let len = self.proposals.len();
        if proposal_id == 0 || proposal_id > len as u64 {
            return Err(ContractError::NoSuchProposal);
        }
        let i = (proposal_id - 1) as usize;
        let p = &self.proposals[i];
        match crate::ballots::find_ballot(&p.ballots, voter) {
            Some(j) => {
                proof {
                    lemma_ballot_index_resolves(p.ballots@, j as int);
                }
                let b = &p.ballots[j];
                Ok(
                    VoteResponse {
                        vote: Some(
                            VoteInfo {
                                proposal_id,
                                voter: voter.clone(),
                                vote: b.vote,
                                weight: b.weight,
                            },
                        ),
                    },
                )
            },
            None => Ok(VoteResponse { vote: None }),
        }
    }

    /// One page of a proposal's ballots, starting at position `s` of the
    /// ledger: see [`spec_vote_window`].
    pub fn list_votes(
        &self,
        proposal_id: u64,
        start_after: Option<&String>,
        limit: Option<u32>,
    ) -> (r: Result<VoteListResponse, ContractError>)
        requires
            self.wf(),
        ensures
            r is Ok <==> 1 <= proposal_id <= self.proposals@.len(),
            r is Err ==> r == Err::<VoteListResponse, _>(ContractError::NoSuchProposal),
            r matches Ok(resp) ==> {
                let ballots = self.proposals@[proposal_id - 1].ballots@;
                let first = match start_after {
                    None => 0int,
                    Some(a) => crate::order::spec_first_above(
                        crate::ballots::spec_ballot_names(ballots),
                        a@,
                        0,
                    ),
                };
                spec_vote_window(ballots, proposal_id, resp, spec_page_size(limit), first)
            },
            r matches Ok(resp) ==> forall|k: int, l: int|
                0 <= k < l < resp.votes@.len() ==> crate::order::spec_str_lt(
                    resp.votes@[k].voter@,
                    resp.votes@[l].voter@,
                ),
    {
        let len = self.proposals.len();
        if proposal_id == 0 || proposal_id > len as u64 {
            return Err(ContractError::NoSuchProposal);
        }
        let i = (proposal_id - 1) as usize;
        let p = &self.proposals[i];
        let blen = p.ballots.len();
        let ghost names = crate::ballots::spec_ballot_names(p.ballots@);
        proof {
            assert(forall|t: int|
                0 <= t < p.ballots@.len() ==> #[trigger] names[t] == p.ballots@[t].voter@);
        }
        let start: usize = match start_after {
            None => 0,
            Some(a) => {
                let mut j: usize = 0;
                let mut s: usize = blen;
                let mut found = false;
                while j < blen && !found
                    invariant
                        j <= blen,
                        blen == p.ballots@.len(),
                        names == crate::ballots::spec_ballot_names(p.ballots@),
                        forall|t: int|
                            0 <= t < p.ballots@.len() ==> #[trigger] names[t]
                                == p.ballots@[t].voter@,
                        !found ==> s == blen && forall|t: int|
                            0 <= t < j ==> !crate::order::spec_str_lt(a@, #[trigger] names[t]),
                        found ==> s < j <= blen && crate::order::spec_str_lt(a@, names[s as int])
                            && forall|t: int|
                            0 <= t < s ==> !crate::order::spec_str_lt(a@, #[trigger] names[t]),
                    decreases blen - j,
                {
                    if crate::order::addr_lt(a, &p.ballots[j].voter) {
                        s = j;
                        found = true;
                    }
                    j = j + 1;
                }
                proof {
                    if found {
                        crate::order::lemma_first_above_skip(names, a@, s as int);
                    } else {
                        crate::order::lemma_first_above_skip(names, a@, blen as int);
                    }
                    assert(s == crate::order::spec_first_above(names, a@, 0));
                }
                s
            },
        };
        let cap = page_size(limit);
        let mut out: Vec<VoteInfo> = Vec::new();
        let mut k: usize = start;
        while k < blen && out.len() < cap
            invariant
                start <= k <= blen,
                blen == p.ballots@.len(),
                cap == spec_page_size(limit),
                out@.len() == k - start,
                out@.len() <= cap,
                forall|j: int|
                    0 <= j < out@.len() ==> {
                        let info = #[trigger] out@[j];
                        &&& info.proposal_id == proposal_id
                        &&& info.voter@ == p.ballots@[start + j].voter@
                        &&& info.vote == p.ballots@[start + j].vote
                        &&& info.weight == p.ballots@[start + j].weight
                    },
            decreases blen - k,
        {
            let b = &p.ballots[k];
            out.push(
                VoteInfo { proposal_id, voter: b.voter.clone(), vote: b.vote, weight: b.weight },
            );
            k = k + 1;
        }
        let resp = VoteListResponse { votes: out };
        proof {
            assert(spec_vote_window(
                p.ballots@,
                proposal_id,
                resp,
                spec_page_size(limit),
                start as int,
            ));
        }
        Ok(resp)
    }

    /// One address's current voting weight; absent for a non-member.
    pub fn query_voter(&self, address: &String) -> (r: VoterResponse)
        requires
            self.wf(),
        ensures
            r.weight == spec_current_weight(self.members, address@),
    {
        VoterResponse { weight: self.members.weight(address) }
    }

    /// One page of the member listing, in ascending address order,
    /// holding everything that sorts strictly after the cursor, each
    /// member with its current weight.
    pub fn list_voters(&self, start_after: Option<&String>, limit: Option<u32>) -> (r:
        VoterListResponse)
        requires
            self.wf(),
        ensures
            forall|k: int|
                0 <= k < r.voters@.len() ==> spec_current_weight(
                    self.members,
                    (#[trigger] r.voters@[k]).addr@,
                ) == Some(r.voters@[k].weight),
            forall|k: int, l: int|
                0 <= k < l < r.voters@.len() ==> crate::order::spec_str_lt(
                    r.voters@[k].addr@,
                    r.voters@[l].addr@,
                ),
            ({
                let listing = crate::members::spec_listing(self.members.records@);
                let first = match start_after {
                    None => 0int,
                    Some(a) => crate::order::spec_first_above(
                        crate::members::spec_listing_names(listing),
                        a@,
                        0,
                    ),
                };
                let count = spec_min(spec_page_size(limit), listing.len() - first);
                &&& r.voters@.len() == count
                &&& forall|k: int|
                    0 <= k < count ==> ((#[trigger] r.voters@[k]).addr@, r.voters@[k].weight)
                        == listing[first + k]
            }),
    {
        let members: Vec<Member> = self.members.list_members(start_after, limit);
        let mut out: Vec<VoterDetail> = Vec::new();
        let n = members.len();
        let mut k: usize = 0;
        while k < n
            invariant
                k <= n,
                n == members@.len(),
                out@.len() == k,
                forall|j: int|
                    0 <= j < k ==> (#[trigger] out@[j]).addr@ == members@[j].addr@ && out@[j].weight
                        == members@[j].weight,
            decreases n - k,
        {
            let m = &members[k];
            out.push(VoterDetail { addr: m.addr.clone(), weight: m.weight });
            k = k + 1;
        }
        VoterListResponse { voters: out }
    }

    /// The membership provider's address.
    pub fn query_group(&self) -> (r: GroupResponse)
        ensures
            r.group@ == self.admin@,
    {
        GroupResponse { group: self.admin.clone() }
    }

    /// The group's presentation data.
    pub fn query_metadata(&self) -> (r: MetadataResponse)
        ensures
            r.name@ == self.metadata.name@,
            r.description@ == self.metadata.description@,
            r.image@ == self.metadata.image@,
    {
        MetadataResponse {
            name: self.metadata.name.clone(),
            description: self.metadata.description.clone(),
            image: self.metadata.image.clone(),
        }
    }

    /// One member's weight: the current one, or the one effective at
    /// the given height.
    pub fn query_member(&self, addr: &String, at_height: Option<u64>) -> (r:
        crate::msg::MemberResponse)
        requires
            self.wf(),
        ensures
            r.weight == match at_height {
                Some(h) => crate::members::spec_weight_at(self.members, addr@, h),
                None => spec_current_weight(self.members, addr@),
            },
    {
        let weight = match at_height {
            Some(h) => self.members.weight_at(addr, h),
            None => self.members.weight(addr),
        };
        crate::msg::MemberResponse { weight }
    }

    /// The current total weight of the group.
    pub fn query_total_weight(&self) -> (r: crate::msg::TotalWeightResponse)
        requires
            self.wf(),
        ensures
            r.weight == self.members.total,
    {
        crate::msg::TotalWeightResponse { weight: self.members.total_weight() }
    }

    /// One page of the member listing, as the membership interface
    /// reports it.
    pub fn list_members(&self, start_after: Option<&String>, limit: Option<u32>) -> (r:
        crate::msg::MemberListResponse)
        requires
            self.wf(),
        ensures
            forall|k: int|
                0 <= k < r.members@.len() ==> spec_current_weight(
                    self.members,
                    (#[trigger] r.members@[k]).addr@,
                ) == Some(r.members@[k].weight),
    {
        crate::msg::MemberListResponse { members: self.members.list_members(start_after, limit) }
    }

    /// The governing configuration, verbatim.
    pub fn query_config(&self) -> (r: crate::dao::Config)
        ensures
            r == self.config,
    {
        let executor = match &self.config.executor {
            None => None,
            Some(crate::dao::Executor::Member) => Some(crate::dao::Executor::Member),
            Some(crate::dao::Executor::Only(addr)) => Some(
                crate::dao::Executor::Only(addr.clone()),
            ),
        };
        crate::dao::Config {
            threshold: self.config.threshold,
            max_voting_period: self.config.max_voting_period,
            executor,
        }
    }

    /// How many membership tokens an address holds: its current weight,
    /// zero for a non-member.
    pub fn query_staked(&self, address: &String) -> (r: StakedResponse)
        requires
            self.wf(),
        ensures
            r.num_tokens as int == weight_of(spec_current_weight(self.members, address@)),
    {
        match self.members.weight(address) {
            Some(w) => StakedResponse { num_tokens: w },
            None => StakedResponse { num_tokens: 0 },
        }
    }

    /// The query dispatcher: answers each read-only query as of `block`.
    pub fn query(&self, msg: &QueryMsg, block: &BlockInfo) -> (r: Result<
        QueryResponse,
        ContractError,
    >)
        requires
            self.wf(),
        ensures
            match *msg {
                QueryMsg::Threshold => r matches Ok(QueryResponse::Threshold(t)) && t
                    == self.config.threshold.spec_to_response(self.members.total),
                QueryMsg::Proposal { proposal_id } => {
                    &&& r is Ok <==> 1 <= proposal_id <= self.proposals@.len()
                    &&& r matches Ok(q) ==> q matches QueryResponse::Proposal(resp)
                        && spec_proposal_response(
                        self.proposals@[proposal_id - 1],
                        proposal_id,
                        resp,
                        *block,
                    )
                },
                QueryMsg::Voter { address } => r matches Ok(QueryResponse::Voter(v)) && v.weight
                    == spec_current_weight(self.members, address@),
                QueryMsg::Vote { proposal_id, voter } => {
                    &&& (r is Ok <==> 1 <= proposal_id <= self.proposals@.len())
                    &&& r matches Ok(q) ==> q matches QueryResponse::Vote(resp) && {
                        let ballots = self.proposals@[proposal_id - 1].ballots@;
                        &&& (resp.vote is Some <==> spec_has_ballot(ballots, voter@))
                        &&& resp.vote matches Some(info) ==> {
                            let b = ballots[spec_ballot_index(ballots, voter@)];
                            &&& info.proposal_id == proposal_id
                            &&& info.voter@ == voter@
                            &&& info.vote == b.vote
                            &&& info.weight == b.weight
                        }
                    }
                },
                QueryMsg::ListProposals { start_after, limit } => r matches Ok(
                    QueryResponse::Proposals(list),
                ) && {
                    let start = spec_list_start(start_after, self.proposals@.len() as int);
                    let count = spec_min(spec_page_size(limit), self.proposals@.len() - start);
                    &&& list.proposals@.len() == count
                    &&& forall|k: int|
                        0 <= k < count ==> spec_proposal_response(
                            self.proposals@[start + k],
                            (start + k + 1) as u64,
                            #[trigger] list.proposals@[k],
                            *block,
                        )
                },
                QueryMsg::ReverseProposals { start_before, limit } => r matches Ok(
                    QueryResponse::Proposals(list),
                ) && {
                    let end = spec_list_end(start_before, self.proposals@.len() as int);
                    let count = spec_min(spec_page_size(limit), end);
                    &&& list.proposals@.len() == count
                    &&& forall|k: int|
                        0 <= k < count ==> spec_proposal_response(
                            self.proposals@[end - 1 - k],
                            (end - k) as u64,
                            #[trigger] list.proposals@[k],
                            *block,
                        )
                },
                QueryMsg::ListVotes { proposal_id, start_after, limit } => {
                    &&& (r is Ok <==> 1 <= proposal_id <= self.proposals@.len())
                    &&& r matches Ok(q) ==> q matches QueryResponse::Votes(resp) && {
                        let ballots = self.proposals@[proposal_id - 1].ballots@;
                        let first = match start_after {
                            None => 0int,
                            Some(a) => crate::order::spec_first_above(
                                crate::ballots::spec_ballot_names(ballots),
                                a@,
                                0,
                            ),
                        };
                        spec_vote_window(ballots, proposal_id, resp, spec_page_size(limit), first)
                    }
                },
                QueryMsg::ListVoters { start_after, limit } => r matches Ok(
                    QueryResponse::Voters(resp),
                ) && {
                    let listing = crate::members::spec_listing(self.members.records@);
                    let first = match start_after {
                        None => 0int,
                        Some(a) => crate::order::spec_first_above(
                            crate::members::spec_listing_names(listing),
                            a@,
                            0,
                        ),
                    };
                    let count = spec_min(spec_page_size(limit), listing.len() - first);
                    &&& resp.voters@.len() == count
                    &&& forall|k: int|
                        0 <= k < count ==> ((#[trigger] resp.voters@[k]).addr@,
                        resp.voters@[k].weight) == listing[first + k]
                },
                QueryMsg::Group => r matches Ok(QueryResponse::Group(g)) && g.group@
                    == self.admin@,
                QueryMsg::Metadata => r matches Ok(QueryResponse::Metadata(m)) && m.name@
                    == self.metadata.name@ && m.description@ == self.metadata.description@
                    && m.image@ == self.metadata.image@,
            },
    {
        match msg {
            QueryMsg::Threshold => Ok(QueryResponse::Threshold(self.query_threshold())),
            QueryMsg::Proposal { proposal_id } => {
                match self.query_proposal(*proposal_id, block) {
                    Ok(resp) => Ok(QueryResponse::Proposal(resp)),
                    Err(e) => Err(e),
                }
            },
            QueryMsg::ListProposals { start_after, limit } => Ok(
                QueryResponse::Proposals(self.list_proposals(*start_after, *limit, block)),
            ),
            QueryMsg::ReverseProposals { start_before, limit } => Ok(
                QueryResponse::Proposals(self.reverse_proposals(*start_before, *limit, block)),
            ),
            QueryMsg::Vote { proposal_id, voter } => {
                match self.query_vote(*proposal_id, voter) {
                    Ok(resp) => Ok(QueryResponse::Vote(resp)),
                    Err(e) => Err(e),
                }
            },
            QueryMsg::ListVotes { proposal_id, start_after, limit } => {
                match self.list_votes(*proposal_id, start_after.as_ref(), *limit) {
                    Ok(resp) => Ok(QueryResponse::Votes(resp)),
                    Err(e) => Err(e),
                }
            },
            QueryMsg::Voter { address } => Ok(QueryResponse::Voter(self.query_voter(address))),
            QueryMsg::ListVoters { start_after, limit } => Ok(
                QueryResponse::Voters(self.list_voters(start_after.as_ref(), *limit)),
            ),
            QueryMsg::Group => Ok(QueryResponse::Group(self.query_group())),
            QueryMsg::Metadata => Ok(QueryResponse::Metadata(self.query_metadata())),
        }
    }
}

} // verus!

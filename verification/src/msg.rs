//! The read-only query surface and the plain message types the engine
//! shares with its host: queries, their responses, and the description
//! of a sibling-contract instantiation.

use vstd::prelude::*;

use crate::expiration::Expiration;
use crate::threshold::{Status, ThresholdResponse};
use crate::votes::Vote;

verus! {

/// An amount of one native denomination, attached to an outgoing
/// message.
#[derive(Clone, Debug)]
pub struct Coin {
    pub denom: String,
    pub amount: u128,
}

/// Who administers a contract instantiated on the engine's behalf.
#[derive(Clone, Debug)]
pub enum Admin {
    /// A fixed address.
    Address { addr: String },
    /// Whoever instantiates the contract.
    Creator,
}

/// The description of a group contract to instantiate for the engine:
/// code identifier, opaque serialized instantiation payload, optional
/// administrator and a human-readable label.
#[derive(Clone, Debug)]
pub struct Cw4Instantiate {
    pub code_id: u64,
    pub msg: Vec<u8>,
    pub admin: Option<Admin>,
    pub label: String,
}

/// An instantiation message ready for the host to carry out.
#[derive(Clone, Debug)]
pub enum WasmMsg {
    Instantiate {
        admin: Option<String>,
        code_id: u64,
        msg: Vec<u8>,
        label: String,
        funds: Vec<Coin>,
    },
}

impl Cw4Instantiate {
    /// Resolves the optional administrator — the creator stands in for
    /// `Admin::Creator` — and wraps the description into an instantiation
    /// message carrying no funds.
    pub fn into_wasm_msg(self, creator: String) -> (r: WasmMsg)
        ensures
            r matches WasmMsg::Instantiate { admin, code_id, msg, label, funds } && {
                &&& code_id == self.code_id
                &&& msg == self.msg
                &&& label == self.label
                &&& funds@.len() == 0
                &&& admin == match self.admin {
                    None => None,
                    Some(Admin::Address { addr }) => Some(addr),
                    Some(Admin::Creator) => Some(creator),
                }
            },
    {
        let admin = match self.admin {
            None => None,
            Some(Admin::Address { addr }) => Some(addr),
            Some(Admin::Creator) => Some(creator),
        };
        WasmMsg::Instantiate {
            admin,
            code_id: self.code_id,
            msg: self.msg,
            label: self.label,
            funds: Vec::new(),
        }
    }
}

/// Where the engine's membership comes from: a group to instantiate, or
/// the address of one that already exists.
#[derive(Clone, Debug)]
pub enum Group {
    Cw4Instantiate(Cw4Instantiate),
    Cw4Address(String),
}

/// The read-only queries the engine answers.
#[derive(Clone, Debug)]
pub enum QueryMsg {
    /// The threshold rule against the current total weight.
    Threshold,
    /// One proposal by identifier.
    Proposal { proposal_id: u64 },
    /// Proposals in ascending identifier order, after an exclusive
    /// cursor, up to a capped page size.
    ListProposals { start_after: Option<u64>, limit: Option<u32> },
    /// Proposals in descending identifier order, before an exclusive
    /// cursor.
    ReverseProposals { start_before: Option<u64>, limit: Option<u32> },
    /// One voter's ballot on one proposal.
    Vote { proposal_id: u64, voter: String },
    /// A proposal's ballots in the order they were cast.
    ListVotes { proposal_id: u64, start_after: Option<String>, limit: Option<u32> },
    /// One address's current voting weight.
    Voter { address: String },
    /// The group's members in the order they first appeared.
    ListVoters { start_after: Option<String>, limit: Option<u32> },
    /// The configured membership provider.
    Group,
    /// The group's presentation data.
    Metadata,
}

/// One proposal, as queries report it.
#[derive(Clone, Debug)]
pub struct ProposalResponse {
    pub id: u64,
    pub title: String,
    pub description: String,
    pub msgs: Vec<Vec<u8>>,
    pub status: Status,
    pub expires: Expiration,
    pub threshold: ThresholdResponse,
}

#[derive(Clone, Debug)]
pub struct ProposalListResponse {
    pub proposals: Vec<ProposalResponse>,
}

/// One recorded ballot, as queries report it.
#[derive(Clone, Debug)]
pub struct VoteInfo {
    pub proposal_id: u64,
    pub voter: String,
    pub vote: Vote,
    pub weight: u64,
}

#[derive(Clone, Debug)]
pub struct VoteResponse {
    pub vote: Option<VoteInfo>,
}

#[derive(Clone, Debug)]
pub struct VoteListResponse {
    pub votes: Vec<VoteInfo>,
}

#[derive(Clone, Debug)]
pub struct VoterDetail {
    pub addr: String,
    pub weight: u64,
}

#[derive(Clone, Copy, Debug, PartialEq, Eq, Structural)]
pub struct VoterResponse {
    pub weight: Option<u64>,
}

#[derive(Clone, Debug)]
pub struct VoterListResponse {
    pub voters: Vec<VoterDetail>,
}

#[derive(Clone, Copy, Debug, PartialEq, Eq, Structural)]
pub struct MemberResponse {
    pub weight: Option<u64>,
}

#[derive(Clone, Debug)]
pub struct MemberListResponse {
    pub members: Vec<crate::members::Member>,
}

#[derive(Clone, Copy, Debug, PartialEq, Eq, Structural)]
pub struct TotalWeightResponse {
    pub weight: u64,
}

#[derive(Clone, Debug)]
pub struct GroupResponse {
    pub group: String,
}

#[derive(Clone, Debug)]
pub struct MetadataResponse {
    pub name: String,
    pub description: String,
    pub image: String,
}

/// How many membership tokens an address has staked: its current weight.
#[derive(Clone, Copy, Debug, PartialEq, Eq, Structural)]
pub struct StakedResponse {
    pub num_tokens: u64,
}

/// The answer to a [`QueryMsg`].
#[derive(Clone, Debug)]
pub enum QueryResponse {
    Threshold(ThresholdResponse),
    Proposal(ProposalResponse),
    Proposals(ProposalListResponse),
    Vote(VoteResponse),
    Votes(VoteListResponse),
    Voter(VoterResponse),
    Voters(VoterListResponse),
    Group(GroupResponse),
    Metadata(MetadataResponse),
}

} // verus!

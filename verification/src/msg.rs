//! The read requests and their answers.

use vstd::prelude::*;
use crate::state::{Choice, Expiry, ProposalStatus, ThresholdResponse};

verus! {

/// A member of the committee together with the voting weight assigned to it.
#[derive(Clone, Debug, PartialEq, Eq)]
pub struct Voter {
    pub addr: String,
    pub weight: u64,
}

/// The read requests the ledger answers.
#[derive(Clone, Debug, PartialEq, Eq)]
#[allow(inconsistent_fields)]
pub enum QueryMsg {
    Threshold {  },
    Proposal { proposal_id: u64 },
    ListProposals { start_after: Option<u64>, limit: Option<u32> },
    ReverseProposals { start_before: Option<u64>, limit: Option<u32> },
    Vote { proposal_id: u64, voter: String },
    ListVotes { proposal_id: u64, start_after: Option<String>, limit: Option<u32> },
    Voter { address: String },
    ListVoters { start_after: Option<String>, limit: Option<u32> },
}

/// A proposal as a query reports it: the stored fields and the status they
/// have in the block of the query.
#[derive(Clone, Debug, PartialEq)]
pub struct ProposalResponse {
    pub id: u64,
    pub title: String,
    pub description: String,
    pub msgs: Vec<cosmwasm_std::CosmosMsg<cosmwasm_std::Empty>>,
    pub status: ProposalStatus,
    pub expires: Expiry,
    pub threshold: ThresholdResponse,
    pub proposer: String,
    pub deposit: Option<cw3::DepositInfo>,
}

pub struct ProposalResponseView {
    pub id: u64,
    pub title: Seq<char>,
    pub description: Seq<char>,
    pub msgs: Seq<cosmwasm_std::CosmosMsg<cosmwasm_std::Empty>>,
    pub status: ProposalStatus,
    pub expires: Expiry,
    pub threshold: ThresholdResponse,
    pub proposer: Seq<char>,
    pub deposit: Option<cw3::DepositInfo>,
}

impl View for ProposalResponse {
    type V = ProposalResponseView;

    open spec fn view(&self) -> ProposalResponseView {
        ProposalResponseView {
            id: self.id,
            title: self.title@,
            description: self.description@,
            msgs: self.msgs@,
            status: self.status,
            expires: self.expires,
            threshold: self.threshold,
            proposer: self.proposer@,
            deposit: self.deposit,
        }
    }
}

#[derive(Clone, Debug, PartialEq)]
pub struct ProposalListResponse {
    pub proposals: Vec<ProposalResponse>,
}

impl View for ProposalListResponse {
    type V = Seq<ProposalResponseView>;

    open spec fn view(&self) -> Seq<ProposalResponseView> {
        self.proposals@.map_values(|p: ProposalResponse| p@)
    }
}

/// One ballot as a query reports it.
#[derive(Clone, Debug, PartialEq, Eq)]
pub struct VoteInfo {
    pub proposal_id: u64,
    pub voter: String,
    pub vote: Choice,
    pub weight: u64,
}

pub struct VoteInfoView {
    pub proposal_id: u64,
    pub voter: Seq<char>,
    pub vote: Choice,
    pub weight: u64,
}

impl View for VoteInfo {
    type V = VoteInfoView;

    open spec fn view(&self) -> VoteInfoView {
        VoteInfoView {
            proposal_id: self.proposal_id,
            voter: self.voter@,
            vote: self.vote,
            weight: self.weight,
        }
    }
}

/// The answer to a question about one ballot. `vote` is absent when the voter
/// has cast none.
#[derive(Clone, Debug, PartialEq, Eq)]
pub struct VoteResponse {
    pub vote: Option<VoteInfo>,
}

impl View for VoteResponse {
    type V = Option<VoteInfoView>;

    open spec fn view(&self) -> Option<VoteInfoView> {
        match self.vote {
            Some(info) => Some(info@),
            None => None,
        }
    }
}

#[derive(Clone, Debug, PartialEq, Eq)]
pub struct VoteListResponse {
    pub votes: Vec<VoteInfo>,
}

impl View for VoteListResponse {
    type V = Seq<VoteInfoView>;

    open spec fn view(&self) -> Seq<VoteInfoView> {
        self.votes@.map_values(|v: VoteInfo| v@)
    }
}

/// The answer to a question about one voter. `weight` is absent when the
/// address is not a member of the committee.
#[derive(Clone, Copy, Debug, PartialEq, Eq, Structural)]
pub struct VoterResponse {
    pub weight: Option<u64>,
}

impl View for VoterResponse {
    type V = Option<u64>;

    open spec fn view(&self) -> Option<u64> {
        self.weight
    }
}

#[derive(Clone, Debug, PartialEq, Eq)]
pub struct VoterDetail {
    pub addr: String,
    pub weight: u64,
}

impl View for VoterDetail {
    type V = (Seq<char>, u64);

    open spec fn view(&self) -> (Seq<char>, u64) {
        (self.addr@, self.weight)
    }
}

#[derive(Clone, Debug, PartialEq, Eq)]
pub struct VoterListResponse {
    pub voters: Vec<VoterDetail>,
}

impl View for VoterListResponse {
    type V = Seq<(Seq<char>, u64)>;

    open spec fn view(&self) -> Seq<(Seq<char>, u64)> {
        self.voters@.map_values(|v: VoterDetail| v@)
    }
}

/// The answer to a `QueryMsg`, one variant for each kind of request.
#[derive(Clone, Debug, PartialEq)]
pub enum QueryResponse {
    Threshold(ThresholdResponse),
    Proposal(ProposalResponse),
    ProposalList(ProposalListResponse),
    Vote(VoteResponse),
    VoteList(VoteListResponse),
    Voter(VoterResponse),
    VoterList(VoterListResponse),
}

pub enum QueryResponseView {
    Threshold(ThresholdResponse),
    Proposal(ProposalResponseView),
    ProposalList(Seq<ProposalResponseView>),
    Vote(Option<VoteInfoView>),
    VoteList(Seq<VoteInfoView>),
    Voter(Option<u64>),
    VoterList(Seq<(Seq<char>, u64)>),
}

impl View for QueryResponse {
    type V = QueryResponseView;

    open spec fn view(&self) -> QueryResponseView {
        match self {
            QueryResponse::Threshold(r) => QueryResponseView::Threshold(*r),
            QueryResponse::Proposal(r) => QueryResponseView::Proposal(r@),
            QueryResponse::ProposalList(r) => QueryResponseView::ProposalList(r@),
            QueryResponse::Vote(r) => QueryResponseView::Vote(r@),
            QueryResponse::VoteList(r) => QueryResponseView::VoteList(r@),
            QueryResponse::Voter(r) => QueryResponseView::Voter(r@),
            QueryResponse::VoterList(r) => QueryResponseView::VoterList(r@),
        }
    }
}

} // verus!

//! The records the ledger keeps: committee parameters, proposals with their
//! running tally, ballots, and the clock a proposal is judged against.

use vstd::prelude::*;
use crate::decimal::FixedPoint;
use crate::error::ContractError;

verus! {

/// Committee parameters, fixed when the committee was set up.
#[derive(Clone, Copy, Debug, PartialEq, Eq, Structural)]
pub struct Config {
    pub required_weight: u64,
    pub total_weight: u64,
}

/// The block a request is evaluated in. `time` counts nanoseconds since the
/// Unix epoch.
#[derive(Clone, Copy, Debug, PartialEq, Eq, Structural)]
pub struct BlockInfo {
    pub height: u64,
    pub time: u64,
}

/// The moment voting on a proposal closes.
#[derive(Clone, Copy, Debug, PartialEq, Eq, Structural)]
pub enum Expiry {
    /// Closed once the block height reaches this value.
    AtHeight(u64),
    /// Closed once the block time, in nanoseconds, reaches this value.
    AtTime(u64),
    /// Never closes.
    Never,
}

impl Expiry {
    /// Whether the moment has been reached in `block`.
    pub open spec fn expired_at(self, block: BlockInfo) -> bool {
        match self {
            Expiry::AtHeight(height) => block.height >= height,
            Expiry::AtTime(time) => block.time >= time,
            Expiry::Never => false,
        }
    }

    pub fn is_expired(&self, block: &BlockInfo) -> (expired: bool)
        ensures
            expired == self.expired_at(*block),
    {
        match self {
            Expiry::AtHeight(height) => block.height >= *height,
            Expiry::AtTime(time) => block.time >= *time,
            Expiry::Never => false,
        }
    }
}

/// What a threshold query reports: the yes-weight needed and the weight of the
/// whole committee, both as stored.
#[derive(Clone, Copy, Debug, PartialEq, Eq, Structural)]
pub enum ThresholdResponse {
    AbsoluteCount { weight: u64, total_weight: u64 },
}

/// The pass rule captured when a proposal was created: a fixed weight of yes
/// votes.
#[derive(Clone, Copy, Debug, PartialEq, Eq, Structural)]
pub struct AbsoluteCount {
    pub weight: u64,
}

impl AbsoluteCount {
    pub open spec fn response(self, total_weight: u64) -> ThresholdResponse {
        ThresholdResponse::AbsoluteCount { weight: self.weight, total_weight }
    }

    /// Pairs the stored rule with the committee weight; neither number is
    /// rescaled.
    pub fn to_response(&self, total_weight: u64) -> (response: ThresholdResponse)
        ensures
            response == self.response(total_weight),
    {
        ThresholdResponse::AbsoluteCount { weight: self.weight, total_weight }
    }
}

/// Weight cast so far on each side of a proposal.
#[derive(Clone, Copy, Debug, PartialEq, Eq, Structural)]
pub struct Tally {
    pub yes: u64,
    pub no: u64,
    pub abstain: u64,
    pub veto: u64,
}

/// What a voter may answer to a proposal.
#[derive(Clone, Copy, Debug, PartialEq, Eq, Structural)]
pub enum Choice {
    Yes,
    No,
    Abstain,
    Veto,
}

/// One voter's answer to one proposal, with the weight the voter had when
/// casting it.
#[derive(Clone, Copy, Debug, PartialEq, Eq, Structural)]
pub struct BallotRecord {
    pub weight: u64,
    pub vote: Choice,
}

/// Where a proposal stands. `Executed` follows `Passed` once the bundle has
/// run; `Rejected` and `Executed` are final.
#[derive(Clone, Copy, Debug, PartialEq, Eq, Structural)]
pub enum ProposalStatus {
    Open,
    Passed,
    Rejected,
    Executed,
}

/// The status of a proposal with the given tally, rule and closing moment,
/// seen from `block`: passed as soon as the yes-weight reaches the rule,
/// otherwise rejected once voting has closed, otherwise open.
pub open spec fn status_at(
    votes: Tally,
    threshold: AbsoluteCount,
    expires: Expiry,
    block: BlockInfo,
) -> ProposalStatus {
    if votes.yes >= threshold.weight {
        ProposalStatus::Passed
    } else if expires.expired_at(block) {
        ProposalStatus::Rejected
    } else {
        ProposalStatus::Open
    }
}

/// A proposal as the ledger keeps it. Its status is not among the fields: it
/// is worked out from them and the current block on every read.
#[derive(Clone, Debug, PartialEq)]
pub struct ProposalRecord {
    pub title: String,
    pub description: String,
    pub expires: Expiry,
    /// The bundle of actions to run if the proposal passes.
    pub msgs: Vec<cosmwasm_std::CosmosMsg<cosmwasm_std::Empty>>,
    pub threshold: AbsoluteCount,
    /// Committee weight when the proposal was created.
    pub total_weight: u64,
    pub votes: Tally,
    pub proposer: String,
    pub deposit: Option<cw3::DepositInfo>,
}

pub struct ProposalRecordView {
    pub title: Seq<char>,
    pub description: Seq<char>,
    pub expires: Expiry,
    pub msgs: Seq<cosmwasm_std::CosmosMsg<cosmwasm_std::Empty>>,
    pub threshold: AbsoluteCount,
    pub total_weight: u64,
    pub votes: Tally,
    pub proposer: Seq<char>,
    pub deposit: Option<cw3::DepositInfo>,
}

impl View for ProposalRecord {
    type V = ProposalRecordView;

    open spec fn view(&self) -> ProposalRecordView {
        ProposalRecordView {
            title: self.title@,
            description: self.description@,
            expires: self.expires,
            msgs: self.msgs@,
            threshold: self.threshold,
            total_weight: self.total_weight,
            votes: self.votes,
            proposer: self.proposer@,
            deposit: self.deposit,
        }
    }
}

impl ProposalRecordView {
    pub open spec fn status_at(self, block: BlockInfo) -> ProposalStatus {
        status_at(self.votes, self.threshold, self.expires, block)
    }
}

impl ProposalRecord {
    /// The status of the proposal as seen from `block`. Nothing is written back.
    pub fn current_status(&self, block: &BlockInfo) -> (status: ProposalStatus)
        ensures
            status == self@.status_at(*block),
            status == ProposalStatus::Passed <==> self.votes.yes >= self.threshold.weight,
            self.expires.expired_at(*block) && self.votes.yes < self.threshold.weight ==> status
                == ProposalStatus::Rejected,
            status != ProposalStatus::Executed,
    {
        if self.votes.yes >= self.threshold.weight {
            ProposalStatus::Passed
        } else if self.expires.is_expired(block) {
            ProposalStatus::Rejected
        } else {
            ProposalStatus::Open
        }
    }
}

/// The status field as it is stored with a proposal. It is carried, and
/// nothing is decided by it.
#[derive(Clone, Copy, Debug, PartialEq, Eq, Structural)]
pub enum StoredStatus {
    Pending,
    Open,
    Rejected,
    Passed,
    Executed,
}

/// The pass rule as it is stored with a proposal. Percentages are fixed-point
/// numbers.
#[derive(Clone, Copy, Debug, PartialEq, Eq, Structural)]
#[allow(inconsistent_fields)]
pub enum StoredRule {
    AbsoluteCount { weight: u64 },
    AbsolutePercentage { percentage: FixedPoint },
    ThresholdQuorum { threshold: FixedPoint, quorum: FixedPoint },
}

/// A proposal as the store holds it, field for field.
#[derive(Clone, Debug, PartialEq)]
pub struct StoredProposal {
    pub title: String,
    pub description: String,
    pub start_height: u64,
    pub expires: Expiry,
    pub msgs: Vec<cosmwasm_std::CosmosMsg<cosmwasm_std::Empty>>,
    pub status: StoredStatus,
    pub threshold: StoredRule,
    pub total_weight: u64,
    pub votes: Tally,
    pub proposer: String,
    pub deposit: Option<cw3::DepositInfo>,
}

pub struct StoredProposalView {
    pub title: Seq<char>,
    pub description: Seq<char>,
    pub start_height: u64,
    pub expires: Expiry,
    pub msgs: Seq<cosmwasm_std::CosmosMsg<cosmwasm_std::Empty>>,
    pub status: StoredStatus,
    pub threshold: StoredRule,
    pub total_weight: u64,
    pub votes: Tally,
    pub proposer: Seq<char>,
    pub deposit: Option<cw3::DepositInfo>,
}

impl View for StoredProposal {
    type V = StoredProposalView;

    open spec fn view(&self) -> StoredProposalView {
        StoredProposalView {
            title: self.title@,
            description: self.description@,
            start_height: self.start_height,
            expires: self.expires,
            msgs: self.msgs@,
            status: self.status,
            threshold: self.threshold,
            total_weight: self.total_weight,
            votes: self.votes,
            proposer: self.proposer@,
            deposit: self.deposit,
        }
    }
}

/// A stored proposal is one this ledger evaluates exactly when its rule is a
/// fixed weight of yes votes.
pub open spec fn keepable(stored: StoredProposalView) -> bool {
    stored.threshold is AbsoluteCount
}

/// What is kept of a stored proposal: all of it but the height it started at
/// and the status that was stored with it.
pub open spec fn kept(stored: StoredProposalView) -> ProposalRecordView {
    ProposalRecordView {
        title: stored.title,
        description: stored.description,
        expires: stored.expires,
        msgs: stored.msgs,
        threshold: AbsoluteCount { weight: stored.threshold->weight },
        total_weight: stored.total_weight,
        votes: stored.votes,
        proposer: stored.proposer,
        deposit: stored.deposit,
    }
}

/// Takes a stored proposal into the ledger's own record, and refuses the ones
/// whose rule is a percentage or a quorum.
pub fn keep_proposal(stored: StoredProposal) -> (r: Result<ProposalRecord, ContractError>)
    ensures
        r is Ok <==> keepable(stored@),
        r matches Ok(record) ==> record@ == kept(stored@),
        r is Err ==> r == Err::<ProposalRecord, ContractError>(ContractError::Storage),
{
    match stored.threshold {
        StoredRule::AbsoluteCount { weight } => Ok(
            ProposalRecord {
                title: stored.title,
                description: stored.description,
                expires: stored.expires,
                msgs: stored.msgs,
                threshold: AbsoluteCount { weight },
                total_weight: stored.total_weight,
                votes: stored.votes,
                proposer: stored.proposer,
                deposit: stored.deposit,
            },
        ),
        _ => Err(ContractError::Storage),
    }
}

} // verus!

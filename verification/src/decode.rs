//! From the records as `cw3` stores them to the records of this crate, field
//! for field. Nothing is refused here and nothing is left out.

use vstd::prelude::*;
use crate::decimal::FixedPoint;
use crate::outside::{
    addr_into_string, addr_text, decimal_atomics, decimal_atomics_of, timestamp_nanos,
    timestamp_nanos_of,
};
use crate::state::{
    BallotRecord, Choice, Expiry, StoredProposal, StoredProposalView, StoredRule, StoredStatus,
    Tally,
};

verus! {

pub open spec fn expiry_of(expires: cw_utils::Expiration) -> Expiry {
    match expires {
        cw_utils::Expiration::AtHeight(height) => Expiry::AtHeight(height),
        cw_utils::Expiration::AtTime(time) => Expiry::AtTime(timestamp_nanos_of(time)),
        cw_utils::Expiration::Never {  } => Expiry::Never,
    }
}

pub open spec fn rule_of(threshold: cw_utils::Threshold) -> StoredRule {
    match threshold {
        cw_utils::Threshold::AbsoluteCount { weight } => StoredRule::AbsoluteCount { weight },
        cw_utils::Threshold::AbsolutePercentage { percentage } => StoredRule::AbsolutePercentage {
            percentage: FixedPoint { atomics: decimal_atomics_of(percentage) },
        },
        cw_utils::Threshold::ThresholdQuorum { threshold, quorum } => StoredRule::ThresholdQuorum {
            threshold: FixedPoint { atomics: decimal_atomics_of(threshold) },
            quorum: FixedPoint { atomics: decimal_atomics_of(quorum) },
        },
    }
}

pub open spec fn status_of(status: cw3::Status) -> StoredStatus {
    match status {
        cw3::Status::Pending => StoredStatus::Pending,
        cw3::Status::Open => StoredStatus::Open,
        cw3::Status::Rejected => StoredStatus::Rejected,
        cw3::Status::Passed => StoredStatus::Passed,
        cw3::Status::Executed => StoredStatus::Executed,
    }
}

pub open spec fn choice_of(vote: cw3::Vote) -> Choice {
    match vote {
        cw3::Vote::Yes => Choice::Yes,
        cw3::Vote::No => Choice::No,
        cw3::Vote::Abstain => Choice::Abstain,
        cw3::Vote::Veto => Choice::Veto,
    }
}

pub open spec fn tally_of(votes: cw3::Votes) -> Tally {
    Tally { yes: votes.yes, no: votes.no, abstain: votes.abstain, veto: votes.veto }
}

pub open spec fn ballot_of(stored: cw3::Ballot) -> BallotRecord {
    BallotRecord { weight: stored.weight, vote: choice_of(stored.vote) }
}

pub open spec fn proposal_of(stored: cw3::Proposal) -> StoredProposalView {
    StoredProposalView {
        title: stored.title@,
        description: stored.description@,
        start_height: stored.start_height,
        expires: expiry_of(stored.expires),
        msgs: stored.msgs@,
        status: status_of(stored.status),
        threshold: rule_of(stored.threshold),
        total_weight: stored.total_weight,
        votes: tally_of(stored.votes),
        proposer: addr_text(stored.proposer),
        deposit: stored.deposit,
    }
}

pub(crate) fn decode_expiration(expires: cw_utils::Expiration) -> (expiry: Expiry)
    ensures
        expiry == expiry_of(expires),
{
    match expires {
        cw_utils::Expiration::AtHeight(height) => Expiry::AtHeight(height),
        cw_utils::Expiration::AtTime(time) => Expiry::AtTime(timestamp_nanos(time)),
        cw_utils::Expiration::Never {  } => Expiry::Never,
    }
}

pub(crate) fn decode_threshold(threshold: cw_utils::Threshold) -> (rule: StoredRule)
    ensures
        rule == rule_of(threshold),
{
    match threshold {
        cw_utils::Threshold::AbsoluteCount { weight } => StoredRule::AbsoluteCount { weight },
        cw_utils::Threshold::AbsolutePercentage { percentage } => StoredRule::AbsolutePercentage {
            percentage: FixedPoint { atomics: decimal_atomics(percentage) },
        },
        cw_utils::Threshold::ThresholdQuorum { threshold, quorum } => StoredRule::ThresholdQuorum {
            threshold: FixedPoint { atomics: decimal_atomics(threshold) },
            quorum: FixedPoint { atomics: decimal_atomics(quorum) },
        },
    }
}

pub(crate) fn decode_status(status: cw3::Status) -> (stored: StoredStatus)
    ensures
        stored == status_of(status),
{
    match status {
        cw3::Status::Pending => StoredStatus::Pending,
        cw3::Status::Open => StoredStatus::Open,
        cw3::Status::Rejected => StoredStatus::Rejected,
        cw3::Status::Passed => StoredStatus::Passed,
        cw3::Status::Executed => StoredStatus::Executed,
    }
}

pub(crate) fn decode_vote(vote: cw3::Vote) -> (choice: Choice)
    ensures
        choice == choice_of(vote),
{
    match vote {
        cw3::Vote::Yes => Choice::Yes,
        cw3::Vote::No => Choice::No,
        cw3::Vote::Abstain => Choice::Abstain,
        cw3::Vote::Veto => Choice::Veto,
    }
}

pub(crate) fn decode_proposal(stored: cw3::Proposal) -> (proposal: StoredProposal)
    ensures
        proposal@ == proposal_of(stored),
{
    StoredProposal {
        title: stored.title,
        description: stored.description,
        start_height: stored.start_height,
        expires: decode_expiration(stored.expires),
        msgs: stored.msgs,
        status: decode_status(stored.status),
        threshold: decode_threshold(stored.threshold),
        total_weight: stored.total_weight,
        votes: Tally {
            yes: stored.votes.yes,
            no: stored.votes.no,
            abstain: stored.votes.abstain,
            veto: stored.votes.veto,
        },
        proposer: addr_into_string(stored.proposer),
        deposit: stored.deposit,
    }
}

/// A proposal under its id, as a range scan yields it.
pub(crate) fn decode_proposal_entry(entry: (u64, cw3::Proposal)) -> (decoded: (u64, StoredProposal))
    ensures
        decoded.0 == entry.0,
        decoded.1@ == proposal_of(entry.1),
{
    (entry.0, decode_proposal(entry.1))
}

pub(crate) fn decode_ballot(stored: cw3::Ballot) -> (ballot: BallotRecord)
    ensures
        ballot == ballot_of(stored),
{
    BallotRecord { weight: stored.weight, vote: decode_vote(stored.vote) }
}

/// A ballot under the address that cast it, as a range scan yields it.
pub(crate) fn decode_ballot_entry(entry: (cosmwasm_std::Addr, cw3::Ballot)) -> (decoded: (String, BallotRecord))
    ensures
        decoded.0@ == addr_text(entry.0),
        decoded.1 == ballot_of(entry.1),
{
    (addr_into_string(entry.0), decode_ballot(entry.1))
}

/// A weight under the voter's address, as a range scan yields it.
pub(crate) fn decode_voter_entry(entry: (cosmwasm_std::Addr, u64)) -> (decoded: (String, u64))
    ensures
        decoded.0@ == addr_text(entry.0),
        decoded.1 == entry.1,
{
    (addr_into_string(entry.0), entry.1)
}

} // verus!

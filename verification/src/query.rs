//! The read side of the ledger: one function for each kind of request, and
//! `query`, which tells the requests apart.

use vstd::prelude::*;
use crate::error::ContractError;
use crate::msg::{
    ProposalListResponse, ProposalResponse, ProposalResponseView, QueryMsg, QueryResponse,
    QueryResponseView, VoteInfo, VoteInfoView, VoteListResponse, VoteResponse, VoterDetail,
    VoterListResponse, VoterResponse,
};
use crate::paging::{
    ascending_ids, ascending_text, descending_ids, effective_limit, in_order, keys_past,
    keys_short_of, lemma_id_orders, lemma_opposite_pages, lemma_ordered_is_page,
    lemma_page_complete, lemma_page_keys_sound, lemma_page_of_cut, lemma_pages_between,
    lemma_pages_chain, lemma_text_order, lemma_walk_is_page, lemma_whole_store_paged, page,
    page_keys, page_limit, text_before, walk,
};
use crate::state::{
    keep_proposal, keepable, kept, BallotRecord, BlockInfo, Config, ProposalRecord,
    ProposalRecordView, StoredProposal, StoredProposalView, ThresholdResponse,
};
use crate::store::{
    address_accepted, ballots_after, cursor_view, ledger_accepts, ledger_ballots,
    ledger_keys_decode, ledger_proposals, ledger_voters, lemma_slots_finite, load_ballot,
    load_proposal, load_voter, proposals_after, held, lemma_scan_is_page, proposals_before, slot_read, slots_scan,
    stored_ballots, stored_proposals, stored_voters, voters_after, Ledger,
};

verus! {

/// An answer, or the failure to give one, with the answer taken by its view.
pub open spec fn outcome<T: View>(r: Result<T, ContractError>) -> Result<T::V, ContractError> {
    match r {
        Ok(answer) => Ok(answer@),
        Err(e) => Err(e),
    }
}

/// A request that walks the store held against what it is owed: the two
/// agree, unless a key in the store does not read and the request failed on
/// it.
pub open spec fn reads<A>(actual: Result<A, ContractError>, owed: Result<A, ContractError>, keys_decode: bool) -> bool {
    actual == owed || (!keys_decode && actual == Err::<A, ContractError>(ContractError::Storage))
}

/// What is reported of the proposal kept as `record` under `id`, in `block`.
pub open spec fn proposal_response(id: u64, record: ProposalRecordView, block: BlockInfo) -> ProposalResponseView {
    ProposalResponseView {
        id,
        title: record.title,
        description: record.description,
        msgs: record.msgs,
        status: record.status_at(block),
        expires: record.expires,
        threshold: record.threshold.response(record.total_weight),
        proposer: record.proposer,
        deposit: record.deposit,
    }
}

/// The committee's pass mark: the configuration, if there is one, with both
/// numbers as they are stored.
pub open spec fn threshold_answer(config: Option<Config>) -> Result<ThresholdResponse, ContractError> {
    match config {
        Some(c) => Ok(
            ThresholdResponse::AbsoluteCount { weight: c.required_weight, total_weight: c.total_weight },
        ),
        None => Err(ContractError::NotFound),
    }
}

/// One proposal by id: not found where no entry is stored under it, a storage
/// failure where the entry does not parse or its rule is not a fixed weight,
/// and the report of the proposal otherwise.
pub open spec fn proposal_answer(proposals: Map<u64, Option<StoredProposalView>>, block: BlockInfo, id: u64) -> Result<ProposalResponseView, ContractError> {
    match slot_read(proposals, id) {
        Some(Some(stored)) => if keepable(stored) {
            Ok(proposal_response(id, kept(stored), block))
        } else {
            Err(ContractError::Storage)
        },
        Some(None) => Err(ContractError::NotFound),
        None => Err(ContractError::Storage),
    }
}

/// Every proposal among `entries` has a rule of a fixed weight.
pub open spec fn all_keepable(entries: Seq<(u64, StoredProposalView)>) -> bool {
    forall|i: int| 0 <= i < entries.len() ==> keepable(#[trigger] entries[i].1)
}

/// What is reported of the stored proposals `entries`, in their order.
pub open spec fn kept_responses(entries: Seq<(u64, StoredProposalView)>, block: BlockInfo) -> Seq<ProposalResponseView> {
    entries.map_values(|entry: (u64, StoredProposalView)| proposal_response(entry.0, kept(entry.1), block))
}

/// One page of proposals, walked in the order `before`: a storage failure
/// where an entry of the page does not parse or has a rule that is not a fixed
/// weight, and the reports of the entries otherwise.
pub open spec fn proposal_listing(
    proposals: Map<u64, Option<StoredProposalView>>,
    before: spec_fn(u64, u64) -> bool,
    block: BlockInfo,
    cursor: Option<u64>,
    limit: nat,
) -> Result<Seq<ProposalResponseView>, ContractError> {
    match slots_scan(proposals, before, cursor, limit) {
        Some(entries) => if all_keepable(entries) {
            Ok(kept_responses(entries, block))
        } else {
            Err(ContractError::Storage)
        },
        None => Err(ContractError::Storage),
    }
}

/// One page of kept proposals, walked in the order `before`.
pub open spec fn proposal_page(
    proposals: Map<u64, ProposalRecordView>,
    before: spec_fn(u64, u64) -> bool,
    block: BlockInfo,
    cursor: Option<u64>,
    limit: nat,
) -> Seq<ProposalResponseView> {
    page(proposals, before, cursor, limit).map_values(
        |entry: (u64, ProposalRecordView)| proposal_response(entry.0, entry.1, block),
    )
}

pub fn query_threshold(config: Option<Config>) -> (r: Result<ThresholdResponse, ContractError>)
    ensures
        r == threshold_answer(config),
{
    match config {
        Some(c) => Ok(
            ThresholdResponse::AbsoluteCount { weight: c.required_weight, total_weight: c.total_weight },
        ),
        None => Err(ContractError::NotFound),
    }
}

/// Projects a kept proposal into what a query reports of it.
pub fn map_proposal(block: &BlockInfo, item: (u64, ProposalRecord)) -> (response: ProposalResponse)
    ensures
        response@ == proposal_response(item.0, item.1@, *block),
{
    let (id, prop) = item;
    let status = prop.current_status(block);
    let threshold = prop.threshold.to_response(prop.total_weight);
    ProposalResponse {
        id,
        title: prop.title,
        description: prop.description,
        msgs: prop.msgs,
        status,
        expires: prop.expires,
        threshold,
        proposer: prop.proposer,
        deposit: prop.deposit,
    }
}

/// The proposal stored under `id`, as it is stored: with the status that was
/// stored with it and whatever rule it has.
pub fn stored_proposal(ledger: &Ledger<'_>, id: u64) -> (r: Result<Option<StoredProposal>, ContractError>)
    ensures
        match slot_read(ledger_proposals(*ledger), id) {
            Some(Some(stored)) => r matches Ok(Some(found)) && found@ == stored,
            Some(None) => r matches Ok(None),
            None => r == Err::<Option<StoredProposal>, ContractError>(ContractError::Storage),
        },
{
    match load_proposal(ledger, id) {
        Ok(found) => Ok(found),
        Err(_) => Err(ContractError::Storage),
    }
}

pub fn query_proposal(ledger: &Ledger<'_>, block: &BlockInfo, id: u64) -> (r: Result<ProposalResponse, ContractError>)
    ensures
        outcome(r) == proposal_answer(ledger_proposals(*ledger), *block, id),
        ledger_proposals(*ledger).dom().finite(),
{
    proof {
        lemma_slots_finite(stored_proposals(*ledger));
    }
    match stored_proposal(ledger, id) {
        Ok(Some(stored)) => match keep_proposal(stored) {
            Ok(prop) => Ok(map_proposal(block, (id, prop))),
            Err(e) => Err(e),
        },
        Ok(None) => Err(ContractError::NotFound),
        Err(e) => Err(e),
    }
}

/// Keeps and projects the entries of one page, in their order, and fails on
/// the first that cannot be kept.
pub fn map_proposals(block: &BlockInfo, entries: Vec<(u64, StoredProposal)>) -> (r: Result<ProposalListResponse, ContractError>)
    ensures
        outcome(r) == (if all_keepable(entries@.map_values(|e: (u64, StoredProposal)| (e.0, e.1@))) {
            Ok::<Seq<ProposalResponseView>, ContractError>(
                kept_responses(entries@.map_values(|e: (u64, StoredProposal)| (e.0, e.1@)), *block),
            )
        } else {
            Err::<Seq<ProposalResponseView>, ContractError>(ContractError::Storage)
        }),
{
    let ghost stored = entries@;
    let ghost views = stored.map_values(|e: (u64, StoredProposal)| (e.0, e.1@));
    let mut proposals: Vec<ProposalResponse> = Vec::new();
    for entry in it: entries.into_iter()
        invariant
            it.seq() == stored,
            views == stored.map_values(|e: (u64, StoredProposal)| (e.0, e.1@)),
            proposals@.len() == it.index(),
            forall|j: int| 0 <= j < it.index() ==> keepable(#[trigger] views[j].1),
            forall|j: int|
                0 <= j < it.index() ==> (#[trigger] proposals@[j])@ == proposal_response(
                    views[j].0,
                    kept(views[j].1),
                    *block,
                ),
    {
        let ghost at = it.index();
        let (id, found) = entry;
        match keep_proposal(found) {
            Ok(prop) => {
                proposals.push(map_proposal(block, (id, prop)));
            },
            Err(e) => {
                assert(!keepable(views[at].1));
                return Err(e);
            },
        }
    }
    let list = ProposalListResponse { proposals };
    assert(list@ =~= kept_responses(views, *block));
    Ok(list)
}

/// Proposals from low ids to high, starting after `start_after`.
pub fn list_proposals(ledger: &Ledger<'_>, block: &BlockInfo, start_after: Option<u64>, limit: Option<u32>) -> (r: Result<ProposalListResponse, ContractError>)
    ensures
        reads(
            outcome(r),
            proposal_listing(ledger_proposals(*ledger), ascending_ids(), *block, start_after, effective_limit(limit)),
            ledger_keys_decode(*ledger),
        ),
        ledger_proposals(*ledger).dom().finite(),
{
    proof {
        lemma_slots_finite(stored_proposals(*ledger));
    }
    let limit = page_limit(limit);
    match proposals_after(ledger, start_after, limit) {
        Ok(entries) => map_proposals(block, entries),
        Err(_) => Err(ContractError::Storage),
    }
}

/// Proposals from high ids to low, starting before `start_before`.
pub fn reverse_proposals(ledger: &Ledger<'_>, block: &BlockInfo, start_before: Option<u64>, limit: Option<u32>) -> (r: Result<ProposalListResponse, ContractError>)
    ensures
        reads(
            outcome(r),
            proposal_listing(ledger_proposals(*ledger), descending_ids(), *block, start_before, effective_limit(limit)),
            ledger_keys_decode(*ledger),
        ),
        ledger_proposals(*ledger).dom().finite(),
{
    proof {
        lemma_slots_finite(stored_proposals(*ledger));
    }
    let limit = page_limit(limit);
    match proposals_before(ledger, start_before, limit) {
        Ok(entries) => map_proposals(block, entries),
        Err(_) => Err(ContractError::Storage),
    }
}

/// What is reported of the ballot that `voter` cast on a proposal.
pub open spec fn vote_info(proposal_id: u64, voter: Seq<char>, ballot: BallotRecord) -> VoteInfoView {
    VoteInfoView { proposal_id, voter, vote: ballot.vote, weight: ballot.weight }
}

/// One ballot: refused where the host does not accept the address; otherwise
/// the ballot, none where the voter has cast none, and a storage failure where
/// what is stored for the voter does not parse.
pub open spec fn vote_answer(
    accepted: bool,
    ballots: Map<Seq<char>, Option<BallotRecord>>,
    proposal_id: u64,
    voter: Seq<char>,
) -> Result<Option<VoteInfoView>, ContractError> {
    if !accepted {
        Err(ContractError::Validation)
    } else {
        match slot_read(ballots, voter) {
            Some(Some(ballot)) => Ok(Some(vote_info(proposal_id, voter, ballot))),
            Some(None) => Ok(None),
            None => Err(ContractError::Storage),
        }
    }
}

/// One page of the ballots on a proposal, in the order of the voters'
/// addresses: a storage failure where an entry of the page does not parse.
pub open spec fn vote_listing(
    ballots: Map<Seq<char>, Option<BallotRecord>>,
    proposal_id: u64,
    cursor: Option<Seq<char>>,
    limit: nat,
) -> Result<Seq<VoteInfoView>, ContractError> {
    match slots_scan(ballots, ascending_text(), cursor, limit) {
        Some(entries) => Ok(
            entries.map_values(|entry: (Seq<char>, BallotRecord)| vote_info(proposal_id, entry.0, entry.1)),
        ),
        None => Err(ContractError::Storage),
    }
}

/// One voter: refused where the host does not accept the address; otherwise
/// the weight, none where the address is no member, and a storage failure
/// where what is stored for the address does not parse.
pub open spec fn voter_answer(accepted: bool, voters: Map<Seq<char>, Option<u64>>, address: Seq<char>) -> Result<Option<u64>, ContractError> {
    if !accepted {
        Err(ContractError::Validation)
    } else {
        match slot_read(voters, address) {
            Some(weight) => Ok(weight),
            None => Err(ContractError::Storage),
        }
    }
}

/// One page of voters, in the order of their addresses: a storage failure
/// where an entry of the page does not parse.
pub open spec fn voter_listing(voters: Map<Seq<char>, Option<u64>>, cursor: Option<Seq<char>>, limit: nat) -> Result<Seq<(Seq<char>, u64)>, ContractError> {
    match slots_scan(voters, ascending_text(), cursor, limit) {
        Some(entries) => Ok(entries),
        None => Err(ContractError::Storage),
    }
}

pub fn query_vote(ledger: &Ledger<'_>, proposal_id: u64, voter: String) -> (r: Result<VoteResponse, ContractError>)
    ensures
        outcome(r) == vote_answer(
            ledger_accepts(*ledger, voter@),
            ledger_ballots(*ledger, proposal_id),
            proposal_id,
            voter@,
        ),
        ledger_accepts(*ledger, voter@) && !ledger_ballots(*ledger, proposal_id).dom().contains(voter@) ==> (r matches Ok(
            response,
        ) && response.vote is None),
{
    if !address_accepted(ledger, voter.as_str()) {
        return Err(ContractError::Validation);
    }
    match load_ballot(ledger, proposal_id, voter.as_str()) {
        Ok(Some(ballot)) => Ok(
            VoteResponse {
                vote: Some(VoteInfo { proposal_id, voter, vote: ballot.vote, weight: ballot.weight }),
            },
        ),
        Ok(None) => Ok(VoteResponse { vote: None }),
        Err(_) => Err(ContractError::Storage),
    }
}

/// Ballots on one proposal in the order of the voters' addresses, starting
/// after `start_after`.
pub fn list_votes(ledger: &Ledger<'_>, proposal_id: u64, start_after: Option<String>, limit: Option<u32>) -> (r: Result<VoteListResponse, ContractError>)
    ensures
        reads(
            outcome(r),
            vote_listing(ledger_ballots(*ledger, proposal_id), proposal_id, cursor_view(start_after), effective_limit(limit)),
            ledger_keys_decode(*ledger),
        ),
        ledger_ballots(*ledger, proposal_id).dom().finite(),
{
    proof {
        lemma_slots_finite(stored_ballots(*ledger, proposal_id));
    }
    let limit = page_limit(limit);
    let entries = match ballots_after(ledger, proposal_id, start_after, limit) {
        Ok(entries) => entries,
        Err(_) => {
            return Err(ContractError::Storage);
        },
    };
    let ghost stored = entries@;
    let mut votes: Vec<VoteInfo> = Vec::new();
    for entry in it: entries.into_iter()
        invariant
            it.seq() == stored,
            votes@.len() == it.index(),
            forall|j: int|
                0 <= j < it.index() ==> (#[trigger] votes@[j])@ == vote_info(
                    proposal_id,
                    stored[j].0@,
                    stored[j].1,
                ),
    {
        let (voter, ballot) = entry;
        votes.push(VoteInfo { proposal_id, voter, vote: ballot.vote, weight: ballot.weight });
    }
    let list = VoteListResponse { votes };
    assert(list@ =~= stored.map_values(|e: (String, BallotRecord)| (e.0@, e.1)).map_values(
        |entry: (Seq<char>, BallotRecord)| vote_info(proposal_id, entry.0, entry.1),
    ));
    Ok(list)
}

pub fn query_voter(ledger: &Ledger<'_>, voter: String) -> (r: Result<VoterResponse, ContractError>)
    ensures
        outcome(r) == voter_answer(ledger_accepts(*ledger, voter@), ledger_voters(*ledger), voter@),
{
    if !address_accepted(ledger, voter.as_str()) {
        return Err(ContractError::Validation);
    }
    match load_voter(ledger, voter.as_str()) {
        Ok(weight) => Ok(VoterResponse { weight }),
        Err(_) => Err(ContractError::Storage),
    }
}

/// Voters in the order of their addresses, starting after `start_after`.
pub fn list_voters(ledger: &Ledger<'_>, start_after: Option<String>, limit: Option<u32>) -> (r: Result<VoterListResponse, ContractError>)
    ensures
        reads(
            outcome(r),
            voter_listing(ledger_voters(*ledger), cursor_view(start_after), effective_limit(limit)),
            ledger_keys_decode(*ledger),
        ),
        ledger_voters(*ledger).dom().finite(),
{
    proof {
        lemma_slots_finite(stored_voters(*ledger));
    }
    let limit = page_limit(limit);
    let entries = match voters_after(ledger, start_after, limit) {
        Ok(entries) => entries,
        Err(_) => {
            return Err(ContractError::Storage);
        },
    };
    let ghost stored = entries@;
    let mut voters: Vec<VoterDetail> = Vec::new();
    for entry in it: entries.into_iter()
        invariant
            it.seq() == stored,
            voters@.len() == it.index(),
            forall|j: int|
                0 <= j < it.index() ==> (#[trigger] voters@[j])@ == (stored[j].0@, stored[j].1),
    {
        let (addr, weight) = entry;
        voters.push(VoterDetail { addr, weight });
    }
    let list = VoterListResponse { voters };
    assert(list@ =~= stored.map_values(|e: (String, u64)| (e.0@, e.1)));
    Ok(list)
}

/// Whether a request walks a range of the store, rather than reading under
/// one key.
pub open spec fn scans(msg: QueryMsg) -> bool {
    msg is ListProposals || msg is ReverseProposals || msg is ListVotes || msg is ListVoters
}

/// What a request is owed, given what the ledger holds, the configuration
/// and the block.
pub open spec fn answer(ledger: Ledger<'_>, config: Option<Config>, block: BlockInfo, msg: QueryMsg) -> Result<QueryResponseView, ContractError> {
    match msg {
        QueryMsg::Threshold {  } => match threshold_answer(config) {
            Ok(a) => Ok(QueryResponseView::Threshold(a)),
            Err(e) => Err(e),
        },
        QueryMsg::Proposal { proposal_id } => match proposal_answer(ledger_proposals(ledger), block, proposal_id) {
            Ok(a) => Ok(QueryResponseView::Proposal(a)),
            Err(e) => Err(e),
        },
        QueryMsg::ListProposals { start_after, limit } => match proposal_listing(
            ledger_proposals(ledger),
            ascending_ids(),
            block,
            start_after,
            effective_limit(limit),
        ) {
            Ok(a) => Ok(QueryResponseView::ProposalList(a)),
            Err(e) => Err(e),
        },
        QueryMsg::ReverseProposals { start_before, limit } => match proposal_listing(
            ledger_proposals(ledger),
            descending_ids(),
            block,
            start_before,
            effective_limit(limit),
        ) {
            Ok(a) => Ok(QueryResponseView::ProposalList(a)),
            Err(e) => Err(e),
        },
        QueryMsg::Vote { proposal_id, voter } => match vote_answer(
            ledger_accepts(ledger, voter@),
            ledger_ballots(ledger, proposal_id),
            proposal_id,
            voter@,
        ) {
            Ok(a) => Ok(QueryResponseView::Vote(a)),
            Err(e) => Err(e),
        },
        QueryMsg::ListVotes { proposal_id, start_after, limit } => match vote_listing(
            ledger_ballots(ledger, proposal_id),
            proposal_id,
            cursor_view(start_after),
            effective_limit(limit),
        ) {
            Ok(a) => Ok(QueryResponseView::VoteList(a)),
            Err(e) => Err(e),
        },
        QueryMsg::Voter { address } => match voter_answer(ledger_accepts(ledger, address@), ledger_voters(ledger), address@) {
            Ok(a) => Ok(QueryResponseView::Voter(a)),
            Err(e) => Err(e),
        },
        QueryMsg::ListVoters { start_after, limit } => match voter_listing(
            ledger_voters(ledger),
            cursor_view(start_after),
            effective_limit(limit),
        ) {
            Ok(a) => Ok(QueryResponseView::VoterList(a)),
            Err(e) => Err(e),
        },
    }
}

/// Answers a read request. `config` is the committee's configuration as the
/// caller found it stored, if it did. A request under one key gets exactly
/// what it is owed; one that walks a range may also fail on a key that does
/// not read.
pub fn query(ledger: &Ledger<'_>, config: Option<Config>, block: &BlockInfo, msg: QueryMsg) -> (r: Result<QueryResponse, ContractError>)
    ensures
        reads(outcome(r), answer(*ledger, config, *block, msg), ledger_keys_decode(*ledger) || !scans(msg)),
{
    match msg {
        QueryMsg::Threshold {  } => match query_threshold(config) {
            Ok(a) => Ok(QueryResponse::Threshold(a)),
            Err(e) => Err(e),
        },
        QueryMsg::Proposal { proposal_id } => match query_proposal(ledger, block, proposal_id) {
            Ok(a) => Ok(QueryResponse::Proposal(a)),
            Err(e) => Err(e),
        },
        QueryMsg::Vote { proposal_id, voter } => match query_vote(ledger, proposal_id, voter) {
            Ok(a) => Ok(QueryResponse::Vote(a)),
            Err(e) => Err(e),
        },
        QueryMsg::ListProposals { start_after, limit } => match list_proposals(ledger, block, start_after, limit) {
            Ok(a) => Ok(QueryResponse::ProposalList(a)),
            Err(e) => Err(e),
        },
        QueryMsg::ReverseProposals { start_before, limit } => match reverse_proposals(ledger, block, start_before, limit) {
            Ok(a) => Ok(QueryResponse::ProposalList(a)),
            Err(e) => Err(e),
        },
        QueryMsg::ListVotes { proposal_id, start_after, limit } => match list_votes(ledger, proposal_id, start_after, limit) {
            Ok(a) => Ok(QueryResponse::VoteList(a)),
            Err(e) => Err(e),
        },
        QueryMsg::Voter { address } => match query_voter(ledger, address) {
            Ok(a) => Ok(QueryResponse::Voter(a)),
            Err(e) => Err(e),
        },
        QueryMsg::ListVoters { start_after, limit } => match list_voters(ledger, start_after, limit) {
            Ok(a) => Ok(QueryResponse::VoterList(a)),
            Err(e) => Err(e),
        },
    }
}

/// The proposals of the ledger as they are kept, by id.
pub open spec fn kept_proposals(proposals: Map<u64, Option<StoredProposalView>>) -> Map<u64, ProposalRecordView> {
    Map::new(|id: u64| proposals.dom().contains(id), |id: u64| kept(proposals[id]->0))
}

/// A listing that succeeds is the page of the kept proposals. The laws of
/// pages below hold of every such listing.
pub proof fn lemma_listing_is_page(
    proposals: Map<u64, Option<StoredProposalView>>,
    before: spec_fn(u64, u64) -> bool,
    block: BlockInfo,
    cursor: Option<u64>,
    limit: nat,
)
    ensures
        kept_proposals(proposals).dom() == proposals.dom(),
        proposal_listing(proposals, before, block, cursor, limit) matches Ok(listed) ==> listed == proposal_page(
            kept_proposals(proposals),
            before,
            block,
            cursor,
            limit,
        ),
{
    assert(kept_proposals(proposals).dom() =~= proposals.dom());
    if let Ok(listed) = proposal_listing(proposals, before, block, cursor, limit) {
        lemma_scan_is_page(proposals, before, cursor, limit);
        let keys = page_keys(proposals.dom(), before, cursor, limit);
        crate::paging::lemma_page_keys_stored(proposals.dom(), before, cursor, limit);
        assert(listed =~= proposal_page(kept_proposals(proposals), before, block, cursor, limit));
    }
}

/// A listing of votes that succeeds reports the page of the ballots held.
pub proof fn lemma_vote_listing_is_page(
    ballots: Map<Seq<char>, Option<BallotRecord>>,
    proposal_id: u64,
    cursor: Option<Seq<char>>,
    limit: nat,
)
    ensures
        vote_listing(ballots, proposal_id, cursor, limit) matches Ok(listed) ==> listed == vote_page(
            held(ballots),
            proposal_id,
            cursor,
            limit,
        ),
{
    lemma_scan_is_page(ballots, ascending_text(), cursor, limit);
}

/// A listing of voters that succeeds is the page of the weights held.
pub proof fn lemma_voter_listing_is_page(voters: Map<Seq<char>, Option<u64>>, cursor: Option<Seq<char>>, limit: nat)
    ensures
        voter_listing(voters, cursor, limit) matches Ok(listed) ==> listed == page(
            held(voters),
            ascending_text(),
            cursor,
            limit,
        ),
{
    lemma_scan_is_page(voters, ascending_text(), cursor, limit);
}

/// The ids of a list of proposals, in the order of the list.
pub open spec fn listed_ids(list: Seq<ProposalResponseView>) -> Seq<u64> {
    list.map_values(|response: ProposalResponseView| response.id)
}

/// What is reported of the proposals stored under `ids`, in that order.
pub open spec fn responses_for(proposals: Map<u64, ProposalRecordView>, block: BlockInfo, ids: Seq<u64>) -> Seq<ProposalResponseView> {
    ids.map_values(|id: u64| proposal_response(id, proposals[id], block))
}

/// A page of proposals reports the proposals under the keys of the page.
pub proof fn lemma_proposal_page_ids(
    proposals: Map<u64, ProposalRecordView>,
    before: spec_fn(u64, u64) -> bool,
    block: BlockInfo,
    cursor: Option<u64>,
    limit: nat,
)
    ensures
        proposal_page(proposals, before, block, cursor, limit) == responses_for(
            proposals,
            block,
            page_keys(proposals.dom(), before, cursor, limit),
        ),
        listed_ids(proposal_page(proposals, before, block, cursor, limit)) == page_keys(
            proposals.dom(),
            before,
            cursor,
            limit,
        ),
{
    let keys = page_keys(proposals.dom(), before, cursor, limit);
    assert(proposal_page(proposals, before, block, cursor, limit) =~= responses_for(proposals, block, keys));
    assert(listed_ids(responses_for(proposals, block, keys)) =~= keys);
}

/// What a client gathers that asks for proposals one at a time, from low ids
/// to high, each request starting after the id the one before returned, and
/// stops after `steps` requests or at the first empty page.
pub open spec fn proposal_walk(proposals: Map<u64, ProposalRecordView>, block: BlockInfo, cursor: Option<u64>, steps: nat) -> Seq<ProposalResponseView>
    decreases steps,
{
    if steps == 0 {
        Seq::empty()
    } else {
        let single = proposal_page(proposals, ascending_ids(), block, cursor, 1);
        if single.len() == 0 {
            single
        } else {
            single + proposal_walk(proposals, block, Some(single.last().id), (steps - 1) as nat)
        }
    }
}

/// Pages of one proposal each, put one after the other, are the page of as
/// many proposals: walking the ledger in single steps repeats nothing and
/// skips nothing that one large page would hold.
pub proof fn lemma_single_pages_chain(proposals: Map<u64, ProposalRecordView>, block: BlockInfo, cursor: Option<u64>, steps: nat)
    ensures
        proposal_walk(proposals, block, cursor, steps) == proposal_page(
            proposals,
            ascending_ids(),
            block,
            cursor,
            steps,
        ),
    decreases steps,
{
    let keys = proposals.dom();
    let order = ascending_ids();
    if steps > 0 {
        let single = proposal_page(proposals, order, block, cursor, 1);
        let single_keys = page_keys(keys, order, cursor, 1);
        lemma_proposal_page_ids(proposals, order, block, cursor, 1);
        lemma_proposal_page_ids(proposals, order, block, cursor, steps);
        lemma_walk_is_page(keys, order, cursor, steps);
        if single.len() > 0 {
            let next = Some(single.last().id);
            assert(single.last().id == single_keys.last());
            lemma_single_pages_chain(proposals, block, next, (steps - 1) as nat);
            lemma_proposal_page_ids(proposals, order, block, next, (steps - 1) as nat);
            lemma_walk_is_page(keys, order, next, (steps - 1) as nat);
            let rest_keys = page_keys(keys, order, next, (steps - 1) as nat);
            assert(page_keys(keys, order, cursor, steps) == single_keys + rest_keys);
            assert(responses_for(proposals, block, single_keys + rest_keys) =~= responses_for(
                proposals,
                block,
                single_keys,
            ) + responses_for(proposals, block, rest_keys));
        } else {
            assert(single_keys.len() == 0);
            assert(page_keys(keys, order, cursor, steps) =~= Seq::<u64>::empty());
            assert(proposal_page(proposals, order, block, cursor, steps) =~= single);
        }
    } else {
        assert(proposal_page(proposals, ascending_ids(), block, cursor, steps) =~= Seq::<
            ProposalResponseView,
        >::empty());
    }
}

/// A page from low ids to high with no cursor and a limit of at least the
/// number of stored proposals is the whole ledger: as many entries as there
/// are proposals, ids strictly rising, every entry the report of a stored
/// proposal, and every stored proposal among them.
pub proof fn lemma_whole_ledger_listed(proposals: Map<u64, ProposalRecordView>, block: BlockInfo, limit: nat)
    requires
        proposals.dom().finite(),
        limit >= proposals.dom().len(),
    ensures
        proposal_page(proposals, ascending_ids(), block, None, limit).len() == proposals.dom().len(),
        forall|i: int, j: int|
            0 <= i < j < proposal_page(proposals, ascending_ids(), block, None, limit).len()
                ==> proposal_page(proposals, ascending_ids(), block, None, limit)[i].id < proposal_page(
                proposals,
                ascending_ids(),
                block,
                None,
                limit,
            )[j].id,
        forall|i: int|
            0 <= i < proposal_page(proposals, ascending_ids(), block, None, limit).len() ==> {
                let listed = #[trigger] proposal_page(proposals, ascending_ids(), block, None, limit)[i];
                proposals.dom().contains(listed.id) && listed == proposal_response(
                    listed.id,
                    proposals[listed.id],
                    block,
                )
            },
        forall|id: u64| #[trigger]
            proposals.dom().contains(id) ==> proposal_page(
                proposals,
                ascending_ids(),
                block,
                None,
                limit,
            ).contains(proposal_response(id, proposals[id], block)),
{
    let keys = proposals.dom();
    let order = ascending_ids();
    let ids = page_keys(keys, order, None, limit);
    let listed = proposal_page(proposals, order, block, None, limit);
    assert(keys_past(keys, order, None) =~= keys);
    lemma_id_orders();
    lemma_page_complete(keys, ascending_ids(), None, limit);
    lemma_page_keys_sound(keys, order, None, limit);
    lemma_proposal_page_ids(proposals, order, block, None, limit);
    assert forall|i: int, j: int| 0 <= i < j < listed.len() implies listed[i].id < listed[j].id by {
        assert(order(ids[i], ids[j]));
    }
    assert forall|i: int| 0 <= i < listed.len() implies {
        let entry = #[trigger] listed[i];
        proposals.dom().contains(entry.id) && entry == proposal_response(entry.id, proposals[entry.id], block)
    } by {
        assert(keys_past(keys, order, None).contains(ids[i]));
    }
    assert forall|id: u64| #[trigger] proposals.dom().contains(id) implies listed.contains(
        proposal_response(id, proposals[id], block),
    ) by {
        assert(ids.to_set().contains(id));
        let i = choose|i: int| 0 <= i < ids.len() && ids[i] == id;
        assert(listed[i] == proposal_response(id, proposals[id], block));
    }
}

/// A page from high ids to low and a page from low ids to high that report the
/// same ids report the same proposals, each in the reverse order of the other.
pub proof fn lemma_reverse_mirrors_list(
    proposals: Map<u64, ProposalRecordView>,
    block: BlockInfo,
    start_after: Option<u64>,
    forward_limit: nat,
    start_before: Option<u64>,
    backward_limit: nat,
)
    requires
        listed_ids(proposal_page(proposals, ascending_ids(), block, start_after, forward_limit)).to_set()
            == listed_ids(
            proposal_page(proposals, descending_ids(), block, start_before, backward_limit),
        ).to_set(),
    ensures
        proposal_page(proposals, descending_ids(), block, start_before, backward_limit) == proposal_page(
            proposals,
            ascending_ids(),
            block,
            start_after,
            forward_limit,
        ).reverse(),
{
    let keys = proposals.dom();
    lemma_id_orders();
    lemma_proposal_page_ids(proposals, ascending_ids(), block, start_after, forward_limit);
    lemma_proposal_page_ids(proposals, descending_ids(), block, start_before, backward_limit);
    lemma_opposite_pages(
        keys,
        ascending_ids(),
        descending_ids(),
        start_after,
        forward_limit,
        start_before,
        backward_limit,
    );
    let forward = page_keys(keys, ascending_ids(), start_after, forward_limit);
    assert(responses_for(proposals, block, forward.reverse()) =~= responses_for(proposals, block, forward).reverse());
}

/// With no cursor and limits of at least the number of stored proposals, the
/// listing from high ids to low is the listing from low ids to high, reversed.
pub proof fn lemma_reverse_of_whole_ledger(proposals: Map<u64, ProposalRecordView>, block: BlockInfo, limit: nat)
    requires
        proposals.dom().finite(),
        limit >= proposals.dom().len(),
    ensures
        proposal_page(proposals, descending_ids(), block, None, limit) == proposal_page(
            proposals,
            ascending_ids(),
            block,
            None,
            limit,
        ).reverse(),
{
    let keys = proposals.dom();
    let forward = page_keys(keys, ascending_ids(), None, limit);
    let turned = forward.reverse();
    lemma_id_orders();
    assert(keys_past(keys, ascending_ids(), None) =~= keys);
    assert(keys_past(keys, descending_ids(), None) =~= keys);
    lemma_page_complete(keys, ascending_ids(), None, limit);
    lemma_page_keys_sound(keys, ascending_ids(), None, limit);
    assert(in_order(turned, descending_ids())) by {
        assert forall|i: int, j: int| 0 <= i < j < turned.len() implies descending_ids()(
            #[trigger] turned[i],
            #[trigger] turned[j],
        ) by {
            let n = forward.len();
            assert(ascending_ids()(forward[n - 1 - j], forward[n - 1 - i]));
        }
    }
    assert forall|key: u64| turned.contains(key) <==> keys.contains(key) by {
        if turned.contains(key) {
            let i = choose|i: int| 0 <= i < turned.len() && turned[i] == key;
            assert(forward[forward.len() - 1 - i] == key);
            assert(forward.to_set().contains(key));
        }
        if keys.contains(key) {
            assert(forward.to_set().contains(key));
            let i = choose|i: int| 0 <= i < forward.len() && forward[i] == key;
            assert(turned[forward.len() - 1 - i] == key);
        }
    }
    lemma_ordered_is_page(turned, keys, descending_ids(), None, limit);
    lemma_proposal_page_ids(proposals, ascending_ids(), block, None, limit);
    lemma_proposal_page_ids(proposals, descending_ids(), block, None, limit);
    assert(responses_for(proposals, block, turned) =~= responses_for(proposals, block, forward).reverse());
}

/// The proposals with an id below `high`.
pub open spec fn proposals_below(proposals: Map<u64, ProposalRecordView>, high: u64) -> Map<u64, ProposalRecordView> {
    proposals.restrict(Set::new(|id: u64| id < high))
}

/// The proposals with an id above `low`.
pub open spec fn proposals_above(proposals: Map<u64, ProposalRecordView>, low: u64) -> Map<u64, ProposalRecordView> {
    proposals.restrict(Set::new(|id: u64| id > low))
}

/// Between two cursors the listing from high ids to low is the listing from
/// low ids to high, reversed: what is listed after `low` of the proposals below
/// `high` is what is listed before `high` of the proposals above `low`, in the
/// opposite order, as soon as the limit covers the proposals between the two.
pub proof fn lemma_reverse_between_cursors(
    proposals: Map<u64, ProposalRecordView>,
    block: BlockInfo,
    low: u64,
    high: u64,
    limit: nat,
)
    requires
        proposals.dom().finite(),
        limit >= proposals.dom().filter(|id: u64| low < id < high).len(),
    ensures
        proposal_page(proposals_above(proposals, low), descending_ids(), block, Some(high), limit)
            == proposal_page(proposals_below(proposals, high), ascending_ids(), block, Some(low), limit).reverse(),
{
    let keys = proposals.dom();
    let below = proposals_below(proposals, high);
    let above = proposals_above(proposals, low);
    assert(below.dom() =~= keys_short_of(keys, ascending_ids(), high));
    assert(above.dom() =~= keys_short_of(keys, descending_ids(), low));
    lemma_id_orders();
    lemma_pages_between(keys, low, high, limit);
    lemma_proposal_page_ids(below, ascending_ids(), block, Some(low), limit);
    lemma_proposal_page_ids(above, descending_ids(), block, Some(high), limit);
    let forward = page_keys(below.dom(), ascending_ids(), Some(low), limit);
    lemma_page_keys_sound(below.dom(), ascending_ids(), Some(low), limit);
    assert forall|i: int| 0 <= i < forward.len() implies below[#[trigger] forward[i]] == above[forward[i]] by {
        assert(keys_past(below.dom(), ascending_ids(), Some(low)).contains(forward[i]));
        assert(ascending_ids()(low, forward[i]));
        assert(above.dom().contains(forward[i]));
    }
    assert(responses_for(above, block, forward.reverse()) =~= responses_for(below, block, forward).reverse());
}

/// Cutting the ledger at a bound cuts the listing there: what is listed of the
/// proposals below `high` is the start of what is listed of all proposals,
/// and nothing that follows it in that listing has an id below `high`.
pub proof fn lemma_listing_below_is_prefix(
    proposals: Map<u64, ProposalRecordView>,
    block: BlockInfo,
    cursor: Option<u64>,
    limit: nat,
    high: u64,
)
    requires
        proposals.dom().finite(),
    ensures
        proposal_page(proposals_below(proposals, high), ascending_ids(), block, cursor, limit).len()
            <= proposal_page(proposals, ascending_ids(), block, cursor, limit).len(),
        forall|i: int|
            0 <= i < proposal_page(proposals_below(proposals, high), ascending_ids(), block, cursor, limit).len()
                ==> proposal_page(proposals, ascending_ids(), block, cursor, limit)[i] == #[trigger] proposal_page(
                proposals_below(proposals, high),
                ascending_ids(),
                block,
                cursor,
                limit,
            )[i],
        forall|i: int|
            proposal_page(proposals_below(proposals, high), ascending_ids(), block, cursor, limit).len() <= i
                < proposal_page(proposals, ascending_ids(), block, cursor, limit).len() ==> (#[trigger] proposal_page(
                proposals,
                ascending_ids(),
                block,
                cursor,
                limit,
            )[i]).id >= high,
{
    let keys = proposals.dom();
    let below = proposals_below(proposals, high);
    assert(below.dom() =~= keys_short_of(keys, ascending_ids(), high));
    lemma_id_orders();
    lemma_page_of_cut(keys, ascending_ids(), cursor, limit, high);
    lemma_proposal_page_ids(below, ascending_ids(), block, cursor, limit);
    lemma_proposal_page_ids(proposals, ascending_ids(), block, cursor, limit);
    let part = page_keys(below.dom(), ascending_ids(), cursor, limit);
    let whole = page_keys(keys, ascending_ids(), cursor, limit);
    crate::paging::lemma_page_keys_stored(below.dom(), ascending_ids(), cursor, limit);
    assert forall|i: int| 0 <= i < part.len() implies proposal_page(
        proposals,
        ascending_ids(),
        block,
        cursor,
        limit,
    )[i] == #[trigger] proposal_page(below, ascending_ids(), block, cursor, limit)[i] by {
        assert(whole[i] == part[i]);
        assert(below.dom().contains(part[i]));
    }
    assert forall|i: int| part.len() <= i < whole.len() implies (#[trigger] proposal_page(
        proposals,
        ascending_ids(),
        block,
        cursor,
        limit,
    )[i]).id >= high by {
        assert(!ascending_ids()(whole[i], high));
    }
}

/// One page of the ballots held on a proposal, in the order of the voters'
/// addresses.
pub open spec fn vote_page(ballots: Map<Seq<char>, BallotRecord>, proposal_id: u64, cursor: Option<Seq<char>>, limit: nat) -> Seq<VoteInfoView> {
    page(ballots, ascending_text(), cursor, limit).map_values(
        |entry: (Seq<char>, BallotRecord)| vote_info(proposal_id, entry.0, entry.1),
    )
}

/// What a client gathers that asks for the ballots on a proposal one at a
/// time, each request starting after the voter the one before returned.
pub open spec fn vote_walk(ballots: Map<Seq<char>, BallotRecord>, proposal_id: u64, cursor: Option<Seq<char>>, steps: nat) -> Seq<VoteInfoView>
    decreases steps,
{
    if steps == 0 {
        Seq::empty()
    } else {
        let single = vote_page(ballots, proposal_id, cursor, 1);
        if single.len() == 0 {
            single
        } else {
            single + vote_walk(ballots, proposal_id, Some(single.last().voter), (steps - 1) as nat)
        }
    }
}

/// Pages of one ballot each, put one after the other, are the page of as many
/// ballots.
pub proof fn lemma_vote_pages_chain(ballots: Map<Seq<char>, BallotRecord>, proposal_id: u64, cursor: Option<Seq<char>>, steps: nat)
    ensures
        vote_walk(ballots, proposal_id, cursor, steps) == vote_page(ballots, proposal_id, cursor, steps),
    decreases steps,
{
    let order = ascending_text();
    let project = |entry: (Seq<char>, BallotRecord)| vote_info(proposal_id, entry.0, entry.1);
    lemma_pages_chain(ballots, order, cursor, steps);
    if steps > 0 {
        let single = page(ballots, order, cursor, 1);
        if single.len() > 0 {
            let next = Some(single.last().0);
            assert(vote_page(ballots, proposal_id, cursor, 1).last().voter == single.last().0);
            lemma_vote_pages_chain(ballots, proposal_id, next, (steps - 1) as nat);
            lemma_pages_chain(ballots, order, next, (steps - 1) as nat);
            let rest = page(ballots, order, next, (steps - 1) as nat);
            assert(page(ballots, order, cursor, steps) == single + rest);
            assert((single + rest).map_values(project) =~= single.map_values(project) + rest.map_values(project));
        } else {
            assert(page(ballots, order, cursor, steps) =~= single);
        }
    } else {
        assert(vote_page(ballots, proposal_id, cursor, steps) =~= Seq::<VoteInfoView>::empty());
    }
}

/// A page of ballots with no cursor and a limit of at least their number
/// reports every ballot on the proposal, once, in the order of the voters.
pub proof fn lemma_all_votes_listed(ballots: Map<Seq<char>, BallotRecord>, proposal_id: u64, limit: nat)
    requires
        ballots.dom().finite(),
        limit >= ballots.dom().len(),
    ensures
        vote_page(ballots, proposal_id, None, limit).len() == ballots.dom().len(),
        forall|i: int, j: int|
            0 <= i < j < vote_page(ballots, proposal_id, None, limit).len() ==> text_before(
                #[trigger] vote_page(ballots, proposal_id, None, limit)[i].voter,
                #[trigger] vote_page(ballots, proposal_id, None, limit)[j].voter,
            ),
        forall|voter: Seq<char>| #[trigger]
            ballots.dom().contains(voter) ==> vote_page(ballots, proposal_id, None, limit).contains(
                vote_info(proposal_id, voter, ballots[voter]),
            ),
{
    let order = ascending_text();
    let entries = page(ballots, order, None, limit);
    let listed = vote_page(ballots, proposal_id, None, limit);
    lemma_text_order();
    lemma_whole_store_paged(ballots, order, limit);
    assert forall|i: int, j: int| 0 <= i < j < listed.len() implies text_before(
        #[trigger] listed[i].voter,
        #[trigger] listed[j].voter,
    ) by {
        assert(order(entries[i].0, entries[j].0));
    }
    assert forall|voter: Seq<char>| #[trigger] ballots.dom().contains(voter) implies listed.contains(
        vote_info(proposal_id, voter, ballots[voter]),
    ) by {
        assert(entries.contains((voter, ballots[voter])));
        let i = choose|i: int| 0 <= i < entries.len() && entries[i] == (voter, ballots[voter]);
        assert(listed[i] == vote_info(proposal_id, voter, ballots[voter]));
    }
}

/// Pages of one voter each, put one after the other, are the page of as many
/// voters.
pub proof fn lemma_voter_pages_chain(voters: Map<Seq<char>, u64>, cursor: Option<Seq<char>>, steps: nat)
    ensures
        walk(voters, ascending_text(), cursor, steps) == page(voters, ascending_text(), cursor, steps),
{
    lemma_pages_chain(voters, ascending_text(), cursor, steps);
}

/// A page of voters with no cursor and a limit of at least their number holds
/// every voter, once, in the order of the addresses.
pub proof fn lemma_all_voters_listed(voters: Map<Seq<char>, u64>, limit: nat)
    requires
        voters.dom().finite(),
        limit >= voters.dom().len(),
    ensures
        page(voters, ascending_text(), None, limit).len() == voters.dom().len(),
        forall|i: int, j: int|
            0 <= i < j < page(voters, ascending_text(), None, limit).len() ==> text_before(
                #[trigger] page(voters, ascending_text(), None, limit)[i].0,
                #[trigger] page(voters, ascending_text(), None, limit)[j].0,
            ),
        forall|address: Seq<char>| #[trigger]
            voters.dom().contains(address) ==> page(voters, ascending_text(), None, limit).contains(
                (address, voters[address]),
            ),
{
    let order = ascending_text();
    let listed = page(voters, order, None, limit);
    lemma_text_order();
    lemma_whole_store_paged(voters, order, limit);
    assert forall|i: int, j: int| 0 <= i < j < listed.len() implies text_before(
        #[trigger] listed[i].0,
        #[trigger] listed[j].0,
    ) by {
        assert(order(listed[i].0, listed[j].0));
    }
}

/// Asking about the same voter twice, with the ledger unchanged in between,
/// gets the same answer twice, whatever the block and whatever configuration
/// came with the request.
pub proof fn lemma_voter_query_repeats(
    ledger: Ledger<'_>,
    address: String,
    first_config: Option<Config>,
    first_block: BlockInfo,
    first: Result<QueryResponse, ContractError>,
    second_config: Option<Config>,
    second_block: BlockInfo,
    second: Result<QueryResponse, ContractError>,
)
    requires
        reads(
            outcome(first),
            answer(ledger, first_config, first_block, QueryMsg::Voter { address }),
            ledger_keys_decode(ledger) || !scans(QueryMsg::Voter { address }),
        ),
        reads(
            outcome(second),
            answer(ledger, second_config, second_block, QueryMsg::Voter { address }),
            ledger_keys_decode(ledger) || !scans(QueryMsg::Voter { address }),
        ),
    ensures
        outcome(first) == outcome(second),
{
}

} // verus!

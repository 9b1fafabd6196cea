use cosmwasm_std::testing::{MockApi, MockStorage};
use cosmwasm_std::{Addr, BankMsg, Coin, CosmosMsg, Empty, Storage, Timestamp};
use cw3_fixed_multisig::error::ContractError;
use cw3_fixed_multisig::msg::{
    ProposalListResponse, ProposalResponse, QueryMsg, QueryResponse, VoteInfo, VoteListResponse,
    VoteResponse, VoterDetail, VoterListResponse, VoterResponse,
};
use cw3_fixed_multisig::decimal::FixedPoint;
use cw3_fixed_multisig::query::{
    list_proposals, list_voters, list_votes, map_proposal, map_proposals, query, query_proposal,
    query_threshold, query_vote, query_voter, reverse_proposals, stored_proposal,
};
use cw3_fixed_multisig::state::{
    keep_proposal, AbsoluteCount, BlockInfo, Choice, Config, Expiry, ProposalRecord,
    ProposalStatus, StoredProposal, StoredRule, StoredStatus, Tally, ThresholdResponse,
};
use cw3_fixed_multisig::store::Ledger;

fn send(amount: u128) -> CosmosMsg<Empty> {
    CosmosMsg::Bank(BankMsg::Send {
        to_address: String::from("recipient"),
        amount: vec![Coin::new(amount, "uusd")],
    })
}

fn stored(title: &str, yes: u64, weight: u64, expires: cw_utils::Expiration) -> cw3::Proposal {
    cw3::Proposal {
        title: String::from(title),
        description: String::from("about ") + title,
        start_height: 1,
        expires,
        msgs: vec![send(7)],
        status: cw3::Status::Open,
        threshold: cw_utils::Threshold::AbsoluteCount { weight },
        total_weight: 10,
        votes: cw3::Votes { yes, no: 1, abstain: 0, veto: 0 },
        proposer: Addr::unchecked("proposer"),
        deposit: None,
    }
}

fn save_proposals(storage: &mut MockStorage, ids: &[u64]) {
    let proposals: cw_storage_plus::Map<u64, cw3::Proposal> = cw_storage_plus::Map::new("proposals");
    for id in ids {
        let title = format!("proposal {}", id);
        proposals
            .save(storage, *id, &stored(&title, 2, 3, cw_utils::Expiration::AtHeight(100)))
            .unwrap();
    }
}

fn save_voters(storage: &mut MockStorage, voters: &[(&str, u64)]) {
    let map: cw_storage_plus::Map<&Addr, u64> = cw_storage_plus::Map::new("voters");
    for (addr, weight) in voters {
        map.save(storage, &Addr::unchecked(*addr), weight).unwrap();
    }
}

fn save_ballot(storage: &mut MockStorage, proposal_id: u64, voter: &str, vote: cw3::Vote, weight: u64) {
    let map: cw_storage_plus::Map<(u64, &Addr), cw3::Ballot> = cw_storage_plus::Map::new("votes");
    map.save(storage, (proposal_id, &Addr::unchecked(voter)), &cw3::Ballot { weight, vote }).unwrap();
}

fn block(height: u64) -> BlockInfo {
    BlockInfo { height, time: 1_000 }
}

fn ids_of(list: &ProposalListResponse) -> Vec<u64> {
    list.proposals.iter().map(|p| p.id).collect()
}

fn record(yes: u64, weight: u64, expires: Expiry) -> ProposalRecord {
    ProposalRecord {
        title: String::from("t"),
        description: String::from("d"),
        expires,
        msgs: vec![send(1)],
        threshold: AbsoluteCount { weight },
        total_weight: 10,
        votes: Tally { yes, no: 0, abstain: 0, veto: 0 },
        proposer: String::from("proposer"),
        deposit: None,
    }
}

#[test]
fn status_is_passed_exactly_at_the_threshold() {
    let now = block(50);
    assert_eq!(record(3, 3, Expiry::AtHeight(100)).current_status(&now), ProposalStatus::Passed);
    assert_eq!(record(4, 3, Expiry::AtHeight(100)).current_status(&now), ProposalStatus::Passed);
    assert_eq!(record(2, 3, Expiry::AtHeight(100)).current_status(&now), ProposalStatus::Open);
    // reaching the threshold counts even after voting has closed
    assert_eq!(record(3, 3, Expiry::AtHeight(10)).current_status(&now), ProposalStatus::Passed);
}

#[test]
fn status_is_rejected_once_expired_without_passing() {
    assert_eq!(record(2, 3, Expiry::AtHeight(50)).current_status(&block(50)), ProposalStatus::Rejected);
    assert_eq!(record(2, 3, Expiry::AtHeight(51)).current_status(&block(50)), ProposalStatus::Open);
    let at_time = record(0, 1, Expiry::AtTime(1_000));
    assert_eq!(at_time.current_status(&BlockInfo { height: 1, time: 1_000 }), ProposalStatus::Rejected);
    assert_eq!(at_time.current_status(&BlockInfo { height: 1, time: 999 }), ProposalStatus::Open);
    assert_eq!(record(0, 1, Expiry::Never).current_status(&block(u64::MAX)), ProposalStatus::Open);
}

#[test]
fn expiry_compares_against_the_block() {
    assert!(Expiry::AtHeight(5).is_expired(&block(5)));
    assert!(!Expiry::AtHeight(6).is_expired(&block(5)));
    assert!(Expiry::AtTime(1_000).is_expired(&block(1)));
    assert!(!Expiry::AtTime(1_001).is_expired(&block(1)));
    assert!(!Expiry::Never.is_expired(&block(u64::MAX)));
}

#[test]
fn threshold_exposes_both_numbers_verbatim() {
    let config = Config { required_weight: 3, total_weight: 5 };
    assert_eq!(
        query_threshold(Some(config)),
        Ok(ThresholdResponse::AbsoluteCount { weight: 3, total_weight: 5 })
    );
    assert_eq!(query_threshold(None), Err(ContractError::NotFound));
    assert_eq!(
        AbsoluteCount { weight: 7 }.to_response(9),
        ThresholdResponse::AbsoluteCount { weight: 7, total_weight: 9 }
    );
}

#[test]
fn map_proposal_projects_every_field() {
    let response = map_proposal(&block(50), (9, record(3, 3, Expiry::AtHeight(100))));
    assert_eq!(
        response,
        ProposalResponse {
            id: 9,
            title: String::from("t"),
            description: String::from("d"),
            msgs: vec![send(1)],
            status: ProposalStatus::Passed,
            expires: Expiry::AtHeight(100),
            threshold: ThresholdResponse::AbsoluteCount { weight: 3, total_weight: 10 },
            proposer: String::from("proposer"),
            deposit: None,
        }
    );
}

#[test]
fn proposal_is_read_from_the_store() {
    let mut storage = MockStorage::new();
    let api = MockApi::default();
    let proposals: cw_storage_plus::Map<u64, cw3::Proposal> = cw_storage_plus::Map::new("proposals");
    let expires = cw_utils::Expiration::AtTime(Timestamp::from_nanos(2_000));
    proposals.save(&mut storage, 4, &stored("four", 1, 3, expires)).unwrap();
    let ledger = Ledger { storage: &storage, api: &api };
    let response = query_proposal(&ledger, &block(50), 4).unwrap();
    assert_eq!(
        response,
        ProposalResponse {
            id: 4,
            title: String::from("four"),
            description: String::from("about four"),
            msgs: vec![send(7)],
            status: ProposalStatus::Open,
            expires: Expiry::AtTime(2_000),
            threshold: ThresholdResponse::AbsoluteCount { weight: 3, total_weight: 10 },
            proposer: String::from("proposer"),
            deposit: None,
        }
    );
    let later = BlockInfo { height: 50, time: 2_000 };
    assert_eq!(query_proposal(&ledger, &later, 4).unwrap().status, ProposalStatus::Rejected);
}

#[test]
fn unknown_proposal_is_not_found() {
    let mut storage = MockStorage::new();
    let api = MockApi::default();
    save_proposals(&mut storage, &[1, 2]);
    let ledger = Ledger { storage: &storage, api: &api };
    assert_eq!(query_proposal(&ledger, &block(1), 3), Err(ContractError::NotFound));
}

#[test]
fn stored_status_does_not_decide() {
    let mut storage = MockStorage::new();
    let api = MockApi::default();
    let proposals: cw_storage_plus::Map<u64, cw3::Proposal> = cw_storage_plus::Map::new("proposals");
    let mut executed = stored("done", 5, 3, cw_utils::Expiration::Never {});
    executed.status = cw3::Status::Executed;
    proposals.save(&mut storage, 1, &executed).unwrap();
    let ledger = Ledger { storage: &storage, api: &api };
    assert_eq!(query_proposal(&ledger, &block(1), 1).unwrap().status, ProposalStatus::Passed);
}

#[test]
fn entry_that_does_not_decode_is_a_storage_error() {
    let mut storage = MockStorage::new();
    let api = MockApi::default();
    let wrong: cw_storage_plus::Map<u64, u64> = cw_storage_plus::Map::new("proposals");
    wrong.save(&mut storage, 1, &5).unwrap();
    let ledger = Ledger { storage: &storage, api: &api };
    assert_eq!(query_proposal(&ledger, &block(1), 1), Err(ContractError::Storage));
    assert_eq!(list_proposals(&ledger, &block(1), None, None), Err(ContractError::Storage));
    assert_eq!(reverse_proposals(&ledger, &block(1), None, None), Err(ContractError::Storage));
}

#[test]
fn percentage_threshold_is_a_storage_error() {
    let mut storage = MockStorage::new();
    let api = MockApi::default();
    let proposals: cw_storage_plus::Map<u64, cw3::Proposal> = cw_storage_plus::Map::new("proposals");
    let mut other = stored("pct", 5, 3, cw_utils::Expiration::Never {});
    other.threshold = cw_utils::Threshold::AbsolutePercentage { percentage: cosmwasm_std::Decimal::percent(60) };
    proposals.save(&mut storage, 1, &other).unwrap();
    let ledger = Ledger { storage: &storage, api: &api };
    assert_eq!(query_proposal(&ledger, &block(1), 1), Err(ContractError::Storage));
}

#[test]
fn list_proposals_is_ascending_and_exclusive_of_the_cursor() {
    let mut storage = MockStorage::new();
    let api = MockApi::default();
    save_proposals(&mut storage, &[5, 1, 3, 300, 2]);
    let ledger = Ledger { storage: &storage, api: &api };
    let all = list_proposals(&ledger, &block(1), None, None).unwrap();
    assert_eq!(ids_of(&all), vec![1, 2, 3, 5, 300]);
    assert_eq!(all.proposals[3].title, "proposal 5");
    let after = list_proposals(&ledger, &block(1), Some(2), None).unwrap();
    assert_eq!(ids_of(&after), vec![3, 5, 300]);
    let after_absent = list_proposals(&ledger, &block(1), Some(4), Some(1)).unwrap();
    assert_eq!(ids_of(&after_absent), vec![5]);
    let past_end = list_proposals(&ledger, &block(1), Some(300), None).unwrap();
    assert_eq!(ids_of(&past_end), Vec::<u64>::new());
}

#[test]
fn reverse_proposals_is_descending_and_exclusive_of_the_cursor() {
    let mut storage = MockStorage::new();
    let api = MockApi::default();
    save_proposals(&mut storage, &[5, 1, 3, 300, 2]);
    let ledger = Ledger { storage: &storage, api: &api };
    let all = reverse_proposals(&ledger, &block(1), None, None).unwrap();
    assert_eq!(ids_of(&all), vec![300, 5, 3, 2, 1]);
    let before = reverse_proposals(&ledger, &block(1), Some(5), Some(2)).unwrap();
    assert_eq!(ids_of(&before), vec![3, 2]);
    let before_first = reverse_proposals(&ledger, &block(1), Some(1), None).unwrap();
    assert_eq!(ids_of(&before_first), Vec::<u64>::new());
}

#[test]
fn reverse_is_the_exact_reverse_of_list() {
    let mut storage = MockStorage::new();
    let api = MockApi::default();
    save_proposals(&mut storage, &[8, 4, 6, 2, 256, 65_536]);
    let ledger = Ledger { storage: &storage, api: &api };
    let forward = list_proposals(&ledger, &block(1), None, Some(30)).unwrap();
    let mut backward = reverse_proposals(&ledger, &block(1), None, Some(30)).unwrap();
    backward.proposals.reverse();
    assert_eq!(forward, backward);
    // the same ids between two cursors
    let inner = list_proposals(&ledger, &block(1), Some(2), Some(3)).unwrap();
    let mut inner_back = reverse_proposals(&ledger, &block(1), Some(256), Some(3)).unwrap();
    assert_eq!(ids_of(&inner), vec![4, 6, 8]);
    inner_back.proposals.reverse();
    assert_eq!(inner, inner_back);
}

#[test]
fn pages_of_one_reproduce_the_full_listing() {
    let mut storage = MockStorage::new();
    let api = MockApi::default();
    let ids: Vec<u64> = vec![1, 2, 3, 5, 8, 13, 21, 34, 255, 256, 257, 70_000];
    save_proposals(&mut storage, &ids);
    let ledger = Ledger { storage: &storage, api: &api };
    let mut walked: Vec<ProposalResponse> = Vec::new();
    let mut cursor: Option<u64> = None;
    loop {
        let page = list_proposals(&ledger, &block(1), cursor, Some(1)).unwrap();
        assert!(page.proposals.len() <= 1);
        match page.proposals.into_iter().next() {
            Some(p) => {
                cursor = Some(p.id);
                walked.push(p);
            }
            None => break,
        }
    }
    let walked_ids: Vec<u64> = walked.iter().map(|p| p.id).collect();
    assert_eq!(walked_ids, ids);
    let whole = list_proposals(&ledger, &block(1), None, Some(30)).unwrap();
    assert_eq!(whole.proposals, walked);
}

#[test]
fn limit_is_clamped_between_one_and_thirty() {
    let mut storage = MockStorage::new();
    let api = MockApi::default();
    let ids: Vec<u64> = (1..=40).collect();
    save_proposals(&mut storage, &ids);
    let ledger = Ledger { storage: &storage, api: &api };
    let now = block(1);
    assert_eq!(list_proposals(&ledger, &now, None, None).unwrap().proposals.len(), 10);
    assert_eq!(list_proposals(&ledger, &now, None, Some(0)).unwrap().proposals.len(), 1);
    assert_eq!(list_proposals(&ledger, &now, None, Some(1)).unwrap().proposals.len(), 1);
    assert_eq!(list_proposals(&ledger, &now, None, Some(30)).unwrap().proposals.len(), 30);
    assert_eq!(list_proposals(&ledger, &now, None, Some(31)).unwrap().proposals.len(), 30);
    assert_eq!(list_proposals(&ledger, &now, None, Some(u32::MAX)).unwrap().proposals.len(), 30);
    assert_eq!(reverse_proposals(&ledger, &now, None, None).unwrap().proposals.len(), 10);
    assert_eq!(reverse_proposals(&ledger, &now, None, Some(0)).unwrap().proposals.len(), 1);
    assert_eq!(reverse_proposals(&ledger, &now, None, Some(99)).unwrap().proposals.len(), 30);
}

#[test]
fn empty_ledger_lists_nothing() {
    let storage = MockStorage::new();
    let api = MockApi::default();
    let ledger = Ledger { storage: &storage, api: &api };
    assert_eq!(list_proposals(&ledger, &block(1), None, None), Ok(ProposalListResponse { proposals: vec![] }));
    assert_eq!(reverse_proposals(&ledger, &block(1), None, None), Ok(ProposalListResponse { proposals: vec![] }));
    assert_eq!(list_voters(&ledger, None, None), Ok(VoterListResponse { voters: vec![] }));
    assert_eq!(list_votes(&ledger, 1, None, None), Ok(VoteListResponse { votes: vec![] }));
}

#[test]
fn vote_without_ballot_is_present_with_absent_vote() {
    let mut storage = MockStorage::new();
    let api = MockApi::default();
    save_ballot(&mut storage, 1, "alice", cw3::Vote::Yes, 2);
    let ledger = Ledger { storage: &storage, api: &api };
    assert_eq!(query_vote(&ledger, 1, String::from("bobby")), Ok(VoteResponse { vote: None }));
    assert_eq!(query_vote(&ledger, 2, String::from("alice")), Ok(VoteResponse { vote: None }));
}

#[test]
fn vote_reports_the_ballot() {
    let mut storage = MockStorage::new();
    let api = MockApi::default();
    save_ballot(&mut storage, 1, "alice", cw3::Vote::Veto, 2);
    let ledger = Ledger { storage: &storage, api: &api };
    assert_eq!(
        query_vote(&ledger, 1, String::from("alice")),
        Ok(VoteResponse {
            vote: Some(VoteInfo { proposal_id: 1, voter: String::from("alice"), vote: Choice::Veto, weight: 2 })
        })
    );
}

#[test]
fn malformed_address_fails_validation() {
    let mut storage = MockStorage::new();
    let api = MockApi::default();
    save_voters(&mut storage, &[("alice", 1)]);
    let ledger = Ledger { storage: &storage, api: &api };
    assert_eq!(query_vote(&ledger, 1, String::from("")), Err(ContractError::Validation));
    assert_eq!(query_voter(&ledger, String::from("ab")), Err(ContractError::Validation));
    assert_eq!(
        query(&ledger, None, &block(1), QueryMsg::Voter { address: String::from("") }),
        Err(ContractError::Validation)
    );
}

#[test]
fn list_votes_is_ordered_by_voter_within_one_proposal() {
    let mut storage = MockStorage::new();
    let api = MockApi::default();
    save_ballot(&mut storage, 1, "carol", cw3::Vote::No, 3);
    save_ballot(&mut storage, 1, "alice", cw3::Vote::Yes, 1);
    save_ballot(&mut storage, 1, "bobby", cw3::Vote::Abstain, 2);
    save_ballot(&mut storage, 2, "alice", cw3::Vote::Veto, 9);
    save_ballot(&mut storage, 0, "zed", cw3::Vote::Yes, 9);
    let ledger = Ledger { storage: &storage, api: &api };
    let info = |voter: &str, vote: Choice, weight: u64| VoteInfo {
        proposal_id: 1,
        voter: String::from(voter),
        vote,
        weight,
    };
    assert_eq!(
        list_votes(&ledger, 1, None, None),
        Ok(VoteListResponse {
            votes: vec![info("alice", Choice::Yes, 1), info("bobby", Choice::Abstain, 2), info("carol", Choice::No, 3)]
        })
    );
    assert_eq!(
        list_votes(&ledger, 1, Some(String::from("alice")), Some(1)),
        Ok(VoteListResponse { votes: vec![info("bobby", Choice::Abstain, 2)] })
    );
    // a cursor need not be a stored key
    assert_eq!(
        list_votes(&ledger, 1, Some(String::from("b")), None),
        Ok(VoteListResponse { votes: vec![info("bobby", Choice::Abstain, 2), info("carol", Choice::No, 3)] })
    );
}

#[test]
fn voter_weight_is_present_only_for_members() {
    let mut storage = MockStorage::new();
    let api = MockApi::default();
    save_voters(&mut storage, &[("alice", 3), ("bobby", 1)]);
    let ledger = Ledger { storage: &storage, api: &api };
    assert_eq!(query_voter(&ledger, String::from("alice")), Ok(VoterResponse { weight: Some(3) }));
    assert_eq!(query_voter(&ledger, String::from("carol")), Ok(VoterResponse { weight: None }));
}

#[test]
fn voter_query_is_idempotent() {
    let mut storage = MockStorage::new();
    let api = MockApi::default();
    save_voters(&mut storage, &[("alice", 3)]);
    let ledger = Ledger { storage: &storage, api: &api };
    for address in ["alice", "carol", ""] {
        let msg = QueryMsg::Voter { address: String::from(address) };
        let first = query(&ledger, None, &block(1), msg.clone());
        let second = query(&ledger, None, &block(2), msg);
        assert_eq!(first, second);
    }
}

#[test]
fn list_voters_is_ordered_by_address() {
    let mut storage = MockStorage::new();
    let api = MockApi::default();
    save_voters(&mut storage, &[("carol", 3), ("alice", 1), ("al", 5), ("bobby", 2)]);
    let ledger = Ledger { storage: &storage, api: &api };
    let detail = |addr: &str, weight: u64| VoterDetail { addr: String::from(addr), weight };
    assert_eq!(
        list_voters(&ledger, None, None),
        Ok(VoterListResponse {
            voters: vec![detail("al", 5), detail("alice", 1), detail("bobby", 2), detail("carol", 3)]
        })
    );
    assert_eq!(
        list_voters(&ledger, Some(String::from("al")), Some(2)),
        Ok(VoterListResponse { voters: vec![detail("alice", 1), detail("bobby", 2)] })
    );
    assert_eq!(list_voters(&ledger, Some(String::from("carol")), None), Ok(VoterListResponse { voters: vec![] }));
}

#[test]
fn undecodable_weight_is_a_storage_error() {
    let mut storage = MockStorage::new();
    let api = MockApi::default();
    let wrong: cw_storage_plus::Map<&Addr, String> = cw_storage_plus::Map::new("voters");
    wrong.save(&mut storage, &Addr::unchecked("alice"), &String::from("heavy")).unwrap();
    let votes: cw_storage_plus::Map<(u64, &Addr), String> = cw_storage_plus::Map::new("votes");
    votes.save(&mut storage, (1, &Addr::unchecked("alice")), &String::from("maybe")).unwrap();
    let ledger = Ledger { storage: &storage, api: &api };
    assert_eq!(query_voter(&ledger, String::from("alice")), Err(ContractError::Storage));
    assert_eq!(list_voters(&ledger, None, None), Err(ContractError::Storage));
    assert_eq!(query_vote(&ledger, 1, String::from("alice")), Err(ContractError::Storage));
    assert_eq!(list_votes(&ledger, 1, None, None), Err(ContractError::Storage));
}

#[test]
fn query_dispatches_every_request() {
    let mut storage = MockStorage::new();
    let api = MockApi::default();
    save_proposals(&mut storage, &[1, 2, 3]);
    save_voters(&mut storage, &[("alice", 3)]);
    save_ballot(&mut storage, 2, "alice", cw3::Vote::Yes, 3);
    let ledger = Ledger { storage: &storage, api: &api };
    let now = block(1);
    let config = Some(Config { required_weight: 2, total_weight: 3 });

    assert_eq!(
        query(&ledger, config, &now, QueryMsg::Threshold {}),
        Ok(QueryResponse::Threshold(ThresholdResponse::AbsoluteCount { weight: 2, total_weight: 3 }))
    );
    assert_eq!(query(&ledger, None, &now, QueryMsg::Threshold {}), Err(ContractError::NotFound));
    assert_eq!(
        query(&ledger, config, &now, QueryMsg::Proposal { proposal_id: 2 }),
        Ok(QueryResponse::Proposal(query_proposal(&ledger, &now, 2).unwrap()))
    );
    assert_eq!(
        query(&ledger, config, &now, QueryMsg::Proposal { proposal_id: 9 }),
        Err(ContractError::NotFound)
    );
    match query(&ledger, config, &now, QueryMsg::ListProposals { start_after: Some(1), limit: None }) {
        Ok(QueryResponse::ProposalList(list)) => assert_eq!(ids_of(&list), vec![2, 3]),
        other => panic!("unexpected answer: {:?}", other),
    }
    match query(&ledger, config, &now, QueryMsg::ReverseProposals { start_before: Some(3), limit: None }) {
        Ok(QueryResponse::ProposalList(list)) => assert_eq!(ids_of(&list), vec![2, 1]),
        other => panic!("unexpected answer: {:?}", other),
    }
    let ballot = VoteInfo { proposal_id: 2, voter: String::from("alice"), vote: Choice::Yes, weight: 3 };
    assert_eq!(
        query(&ledger, config, &now, QueryMsg::Vote { proposal_id: 2, voter: String::from("alice") }),
        Ok(QueryResponse::Vote(VoteResponse { vote: Some(ballot.clone()) }))
    );
    assert_eq!(
        query(&ledger, config, &now, QueryMsg::ListVotes { proposal_id: 2, start_after: None, limit: None }),
        Ok(QueryResponse::VoteList(VoteListResponse { votes: vec![ballot] }))
    );
    assert_eq!(
        query(&ledger, config, &now, QueryMsg::Voter { address: String::from("alice") }),
        Ok(QueryResponse::Voter(VoterResponse { weight: Some(3) }))
    );
    assert_eq!(
        query(&ledger, config, &now, QueryMsg::ListVoters { start_after: None, limit: None }),
        Ok(QueryResponse::VoterList(VoterListResponse {
            voters: vec![VoterDetail { addr: String::from("alice"), weight: 3 }]
        }))
    );
}

fn stored_with(threshold: StoredRule) -> StoredProposal {
    StoredProposal {
        title: String::from("t"),
        description: String::from("d"),
        start_height: 12,
        expires: Expiry::AtHeight(100),
        msgs: vec![send(1)],
        status: StoredStatus::Executed,
        threshold,
        total_weight: 10,
        votes: Tally { yes: 3, no: 1, abstain: 2, veto: 0 },
        proposer: String::from("proposer"),
        deposit: None,
    }
}

#[test]
fn fixed_weight_rule_is_kept_field_for_field() {
    let kept = keep_proposal(stored_with(StoredRule::AbsoluteCount { weight: 4 })).unwrap();
    assert_eq!(
        kept,
        ProposalRecord {
            title: String::from("t"),
            description: String::from("d"),
            expires: Expiry::AtHeight(100),
            msgs: vec![send(1)],
            threshold: AbsoluteCount { weight: 4 },
            total_weight: 10,
            votes: Tally { yes: 3, no: 1, abstain: 2, veto: 0 },
            proposer: String::from("proposer"),
            deposit: None,
        }
    );
}

#[test]
fn other_rules_are_refused() {
    let half = FixedPoint { atomics: 500_000_000_000_000_000 };
    assert_eq!(
        keep_proposal(stored_with(StoredRule::AbsolutePercentage { percentage: half })),
        Err(ContractError::Storage)
    );
    assert_eq!(
        keep_proposal(stored_with(StoredRule::ThresholdQuorum { threshold: half, quorum: half })),
        Err(ContractError::Storage)
    );
}

#[test]
fn one_refused_entry_fails_the_page() {
    let half = FixedPoint { atomics: 500_000_000_000_000_000 };
    let good = stored_with(StoredRule::AbsoluteCount { weight: 3 });
    let bad = stored_with(StoredRule::AbsolutePercentage { percentage: half });
    let page = map_proposals(&block(1), vec![(1, good.clone()), (2, good.clone())]).unwrap();
    assert_eq!(ids_of(&page), vec![1, 2]);
    assert_eq!(page.proposals[0].status, ProposalStatus::Passed);
    assert_eq!(map_proposals(&block(1), vec![(1, good), (2, bad)]), Err(ContractError::Storage));
    assert_eq!(map_proposals(&block(1), vec![]), Ok(ProposalListResponse { proposals: vec![] }));
}

#[test]
fn percentage_rule_in_a_page_is_a_storage_error() {
    let mut storage = MockStorage::new();
    let api = MockApi::default();
    save_proposals(&mut storage, &[1, 2, 4]);
    let proposals: cw_storage_plus::Map<u64, cw3::Proposal> = cw_storage_plus::Map::new("proposals");
    let mut other = stored("quorum", 5, 3, cw_utils::Expiration::Never {});
    other.threshold = cw_utils::Threshold::ThresholdQuorum {
        threshold: cosmwasm_std::Decimal::percent(60),
        quorum: cosmwasm_std::Decimal::percent(30),
    };
    proposals.save(&mut storage, 3, &other).unwrap();
    let ledger = Ledger { storage: &storage, api: &api };
    // the pages that do not reach the entry are served
    assert_eq!(ids_of(&list_proposals(&ledger, &block(1), None, Some(2)).unwrap()), vec![1, 2]);
    assert_eq!(ids_of(&reverse_proposals(&ledger, &block(1), None, Some(1)).unwrap()), vec![4]);
    assert_eq!(list_proposals(&ledger, &block(1), None, Some(3)), Err(ContractError::Storage));
    assert_eq!(reverse_proposals(&ledger, &block(1), None, Some(2)), Err(ContractError::Storage));
    assert_eq!(query_proposal(&ledger, &block(1), 3), Err(ContractError::Storage));
    assert_eq!(query_proposal(&ledger, &block(1), 2).unwrap().id, 2);
}

#[test]
fn stored_proposal_is_handed_out_field_for_field() {
    let mut storage = MockStorage::new();
    let api = MockApi::default();
    let proposals: cw_storage_plus::Map<u64, cw3::Proposal> = cw_storage_plus::Map::new("proposals");
    let mut first = stored("first", 2, 3, cw_utils::Expiration::AtTime(Timestamp::from_nanos(77)));
    first.status = cw3::Status::Pending;
    first.start_height = 41;
    first.threshold = cw_utils::Threshold::AbsolutePercentage { percentage: cosmwasm_std::Decimal::percent(60) };
    proposals.save(&mut storage, 1, &first).unwrap();
    let mut second = stored("second", 2, 3, cw_utils::Expiration::Never {});
    second.status = cw3::Status::Rejected;
    second.threshold = cw_utils::Threshold::ThresholdQuorum {
        threshold: cosmwasm_std::Decimal::permille(515),
        quorum: cosmwasm_std::Decimal::percent(25),
    };
    proposals.save(&mut storage, 2, &second).unwrap();
    let ledger = Ledger { storage: &storage, api: &api };

    assert_eq!(
        stored_proposal(&ledger, 1),
        Ok(Some(StoredProposal {
            title: String::from("first"),
            description: String::from("about first"),
            start_height: 41,
            expires: Expiry::AtTime(77),
            msgs: vec![send(7)],
            status: StoredStatus::Pending,
            threshold: StoredRule::AbsolutePercentage {
                percentage: FixedPoint { atomics: 600_000_000_000_000_000 }
            },
            total_weight: 10,
            votes: Tally { yes: 2, no: 1, abstain: 0, veto: 0 },
            proposer: String::from("proposer"),
            deposit: None,
        }))
    );
    let found = stored_proposal(&ledger, 2).unwrap().unwrap();
    assert_eq!(found.status, StoredStatus::Rejected);
    assert_eq!(found.expires, Expiry::Never);
    assert_eq!(
        found.threshold,
        StoredRule::ThresholdQuorum {
            threshold: FixedPoint { atomics: 515_000_000_000_000_000 },
            quorum: FixedPoint { atomics: 250_000_000_000_000_000 },
        }
    );
    assert_eq!(stored_proposal(&ledger, 3), Ok(None));
}

#[test]
fn stored_value_that_does_not_parse_fails_only_its_own_read() {
    let mut storage = MockStorage::new();
    let api = MockApi::default();
    save_voters(&mut storage, &[("alice", 3)]);
    let wrong: cw_storage_plus::Map<&Addr, String> = cw_storage_plus::Map::new("voters");
    wrong.save(&mut storage, &Addr::unchecked("bobby"), &String::from("heavy")).unwrap();
    let ledger = Ledger { storage: &storage, api: &api };
    assert_eq!(query_voter(&ledger, String::from("alice")), Ok(VoterResponse { weight: Some(3) }));
    assert_eq!(query_voter(&ledger, String::from("bobby")), Err(ContractError::Storage));
    assert_eq!(query_voter(&ledger, String::from("carol")), Ok(VoterResponse { weight: None }));
    // a page that stops short of the entry is served, one that reaches it is not
    assert_eq!(
        list_voters(&ledger, None, Some(1)),
        Ok(VoterListResponse { voters: vec![VoterDetail { addr: String::from("alice"), weight: 3 }] })
    );
    assert_eq!(list_voters(&ledger, None, Some(2)), Err(ContractError::Storage));
    assert_eq!(list_voters(&ledger, Some(String::from("bobby")), None), Ok(VoterListResponse { voters: vec![] }));
}

#[test]
fn votes_are_listed_under_ids_that_end_in_a_full_byte() {
    let mut storage = MockStorage::new();
    let api = MockApi::default();
    for id in [254u64, 255, 256, 65_535, u64::MAX - 1, u64::MAX] {
        save_ballot(&mut storage, id, "alice", cw3::Vote::Yes, id % 7);
        save_ballot(&mut storage, id, "bobby", cw3::Vote::No, 1);
    }
    save_proposals(&mut storage, &[255, u64::MAX]);
    save_voters(&mut storage, &[("alice", 1)]);
    let ledger = Ledger { storage: &storage, api: &api };
    for id in [255u64, 65_535, u64::MAX] {
        let info = |voter: &str, vote: Choice, weight: u64| VoteInfo {
            proposal_id: id,
            voter: String::from(voter),
            vote,
            weight,
        };
        assert_eq!(
            list_votes(&ledger, id, None, None),
            Ok(VoteListResponse { votes: vec![info("alice", Choice::Yes, id % 7), info("bobby", Choice::No, 1)] })
        );
        assert_eq!(
            list_votes(&ledger, id, Some(String::from("alice")), Some(5)),
            Ok(VoteListResponse { votes: vec![info("bobby", Choice::No, 1)] })
        );
        assert_eq!(
            query_vote(&ledger, id, String::from("bobby")),
            Ok(VoteResponse { vote: Some(info("bobby", Choice::No, 1)) })
        );
    }
}

#[test]
fn listing_votes_stays_inside_the_proposal_prefix() {
    let mut storage = MockStorage::new();
    let api = MockApi::default();
    // a key under the ballots that is shorter than the prefix of proposal 255
    // and sorts right behind it
    let mut stray: Vec<u8> = vec![0, 5];
    stray.extend_from_slice(b"votes");
    stray.extend_from_slice(&[0, 8, 0, 0, 0, 0, 0, 0, 1]);
    storage.set(&stray, b"1");
    let ledger = Ledger { storage: &storage, api: &api };
    assert_eq!(list_votes(&ledger, 255, None, None), Ok(VoteListResponse { votes: vec![] }));
    assert_eq!(list_votes(&ledger, u64::MAX, None, None), Ok(VoteListResponse { votes: vec![] }));

    save_ballot(&mut storage, 255, "alice", cw3::Vote::Abstain, 4);
    let ledger = Ledger { storage: &storage, api: &api };
    assert_eq!(
        list_votes(&ledger, 255, None, None),
        Ok(VoteListResponse {
            votes: vec![VoteInfo { proposal_id: 255, voter: String::from("alice"), vote: Choice::Abstain, weight: 4 }]
        })
    );
}

#[test]
fn address_of_the_highest_code_points_is_listed() {
    let mut storage = MockStorage::new();
    let api = MockApi::default();
    let high = "\u{10FFFF}\u{10FFFF}";
    save_ballot(&mut storage, 255, high, cw3::Vote::Yes, 2);
    save_ballot(&mut storage, 255, "alice", cw3::Vote::No, 3);
    let ledger = Ledger { storage: &storage, api: &api };
    let listed = list_votes(&ledger, 255, None, None).unwrap();
    let voters: Vec<&str> = listed.votes.iter().map(|v| v.voter.as_str()).collect();
    assert_eq!(voters, vec!["alice", high]);
}

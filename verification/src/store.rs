//! The contract's persistent state, read through `cw_storage_plus`, and the
//! host's address check. Nothing in this file is proved: each function states
//! what the outside code does, over what the ledger holds. What is read is
//! handed on as it is stored; which of it the ledger accepts is decided by the
//! callers.

use vstd::prelude::*;
use crate::decode::{
    decode_ballot, decode_ballot_entry, decode_proposal, decode_proposal_entry, decode_voter_entry,
};
use crate::paging::{ascending_ids, ascending_text, descending_ids, page_keys};
use crate::state::{BallotRecord, StoredProposal, StoredProposalView};

verus! {

/// The namespace proposals are stored under, keyed by id.
pub const PROPOSALS: &'static str = "proposals";

/// The namespace ballots are stored under, keyed by proposal id and voter.
pub const BALLOTS: &'static str = "votes";

/// The namespace voter weights are stored under, keyed by address.
pub const VOTERS: &'static str = "voters";

/// A byte that no UTF-8 text holds. Every address that reads as text sorts
/// before it.
pub const BEYOND_TEXT: u8 = 0xFF;

/// The state of the contract and the host's address rules, as one request
/// sees them: the two references a `cosmwasm_std::Deps` hands to a query.
/// Checked code cannot look inside, and only the functions of this file read
/// the fields. They are public so that a caller can put its own references in.
#[verifier::external_body]
pub struct Ledger<'a> {
    pub storage: &'a dyn cosmwasm_std::Storage,
    pub api: &'a dyn cosmwasm_std::Api,
}

/// The entries under `PROPOSALS` whose key reads as an id, each with the
/// proposal stored under it, field for field, or with nothing where the stored
/// value does not parse.
pub uninterp spec fn stored_proposals(ledger: Ledger<'_>) -> Seq<(u64, Option<StoredProposalView>)>;

/// The entries under `BALLOTS` and one proposal id whose key reads as text,
/// each with the ballot stored under it, or with nothing where the stored
/// value does not parse.
pub uninterp spec fn stored_ballots(ledger: Ledger<'_>, proposal_id: u64) -> Seq<(Seq<char>, Option<BallotRecord>)>;

/// The entries under `VOTERS` whose key reads as text, each with the weight
/// stored under it, or with nothing where the stored value does not parse.
pub uninterp spec fn stored_voters(ledger: Ledger<'_>) -> Seq<(Seq<char>, Option<u64>)>;

/// The slots that a list of entries fills, by key.
pub open spec fn slots_of<K, V>(entries: Seq<(K, Option<V>)>) -> Map<K, Option<V>> {
    Map::new(
        |key: K| exists|i: int| 0 <= i < entries.len() && #[trigger] entries[i].0 == key,
        |key: K| entries[choose|i: int| 0 <= i < entries.len() && #[trigger] entries[i].0 == key].1,
    )
}

/// A list of entries fills finitely many slots.
pub proof fn lemma_slots_finite<K, V>(entries: Seq<(K, Option<V>)>)
    ensures
        slots_of(entries).dom().finite(),
{
    let keys = entries.map_values(|entry: (K, Option<V>)| entry.0);
    assert(slots_of(entries).dom() =~= keys.to_set()) by {
        assert forall|key: K| slots_of(entries).dom().contains(key) <==> keys.to_set().contains(key) by {
            if slots_of(entries).dom().contains(key) {
                let i = choose|i: int| 0 <= i < entries.len() && #[trigger] entries[i].0 == key;
                assert(keys[i] == key);
            }
            if keys.to_set().contains(key) {
                let i = choose|i: int| 0 <= i < keys.len() && keys[i] == key;
                assert(entries[i].0 == key);
            }
        }
    }
    vstd::seq_lib::seq_to_set_is_finite(keys);
}

/// The proposals the ledger holds, by id.
pub open spec fn ledger_proposals(ledger: Ledger<'_>) -> Map<u64, Option<StoredProposalView>> {
    slots_of(stored_proposals(ledger))
}

/// The ballots cast on one proposal, by the voter's address.
pub open spec fn ledger_ballots(ledger: Ledger<'_>, proposal_id: u64) -> Map<Seq<char>, Option<BallotRecord>> {
    slots_of(stored_ballots(ledger, proposal_id))
}

/// The weights of the committee's members, by address.
pub open spec fn ledger_voters(ledger: Ledger<'_>) -> Map<Seq<char>, Option<u64>> {
    slots_of(stored_voters(ledger))
}

/// Whether the host takes `address` for a valid, normalized address.
pub uninterp spec fn ledger_accepts(ledger: Ledger<'_>, address: Seq<char>) -> bool;

/// Whether every key under the three namespaces reads as what it should be:
/// eight bytes for an id, UTF-8 for an address.
pub uninterp spec fn ledger_keys_decode(ledger: Ledger<'_>) -> bool;

/// What a point read under `key` comes back with: nothing where the key is
/// absent, the value where the slot holds one, and no answer at all where the
/// slot is there and holds none.
pub open spec fn slot_read<K, V>(slots: Map<K, Option<V>>, key: K) -> Option<Option<V>> {
    if !slots.dom().contains(key) {
        Some(None)
    } else {
        match slots[key] {
            Some(value) => Some(Some(value)),
            None => None,
        }
    }
}

/// Every slot under the keys of the page holds a value.
pub open spec fn page_readable<K, V>(slots: Map<K, Option<V>>, before: spec_fn(K, K) -> bool, cursor: Option<K>, limit: nat) -> bool {
    forall|key: K| #[trigger]
        page_keys(slots.dom(), before, cursor, limit).contains(key) ==> slots[key] is Some
}

/// What a scan of one page comes back with: the keys of the page, each with
/// the value in its slot, and no answer at all where one of the slots holds
/// none.
pub open spec fn slots_scan<K, V>(slots: Map<K, Option<V>>, before: spec_fn(K, K) -> bool, cursor: Option<K>, limit: nat) -> Option<Seq<(K, V)>> {
    if page_readable(slots, before, cursor, limit) {
        Some(page_keys(slots.dom(), before, cursor, limit).map_values(|key: K| (key, slots[key]->0)))
    } else {
        None
    }
}

/// The values in the slots, by key. A slot that holds nothing has no say.
pub open spec fn held<K, V>(slots: Map<K, Option<V>>) -> Map<K, V> {
    Map::new(|key: K| slots.dom().contains(key), |key: K| slots[key]->0)
}

/// A scan that comes back with entries comes back with the page of what the
/// slots hold.
pub proof fn lemma_scan_is_page<K, V>(slots: Map<K, Option<V>>, before: spec_fn(K, K) -> bool, cursor: Option<K>, limit: nat)
    ensures
        held(slots).dom() == slots.dom(),
        slots_scan(slots, before, cursor, limit) matches Some(entries) ==> entries == crate::paging::page(
            held(slots),
            before,
            cursor,
            limit,
        ),
{
    assert(held(slots).dom() =~= slots.dom());
    if let Some(entries) = slots_scan(slots, before, cursor, limit) {
        let keys = page_keys(slots.dom(), before, cursor, limit);
        assert forall|i: int| 0 <= i < keys.len() implies slots.dom().contains(#[trigger] keys[i]) by {
            crate::paging::lemma_page_keys_stored(slots.dom(), before, cursor, limit);
        }
        assert(entries =~= crate::paging::page(held(slots), before, cursor, limit));
    }
}

/// A scan agrees with what the ledger holds: it came back with exactly that,
/// or it failed on a key that does not read.
pub open spec fn scan_agrees<A>(got: Option<A>, held: Option<A>, keys_decode: bool) -> bool {
    got == held || (!keys_decode && got is None)
}

pub open spec fn cursor_view(cursor: Option<String>) -> Option<Seq<char>> {
    match cursor {
        Some(text) => Some(text@),
        None => None,
    }
}

/// What came back from the store, if anything did.
pub open spec fn got<T>(r: Result<T, cosmwasm_std::StdError>) -> Option<T> {
    match r {
        Ok(value) => Some(value),
        Err(_) => None,
    }
}

pub open spec fn got_proposal(r: Result<Option<StoredProposal>, cosmwasm_std::StdError>) -> Option<Option<StoredProposalView>> {
    match r {
        Ok(Some(stored)) => Some(Some(stored@)),
        Ok(None) => Some(None),
        Err(_) => None,
    }
}

pub open spec fn got_proposals(r: Result<Vec<(u64, StoredProposal)>, cosmwasm_std::StdError>) -> Option<Seq<(u64, StoredProposalView)>> {
    match r {
        Ok(entries) => Some(entries@.map_values(|e: (u64, StoredProposal)| (e.0, e.1@))),
        Err(_) => None,
    }
}

pub open spec fn got_keyed<V>(r: Result<Vec<(String, V)>, cosmwasm_std::StdError>) -> Option<Seq<(Seq<char>, V)>> {
    match r {
        Ok(entries) => Some(entries@.map_values(|e: (String, V)| (e.0@, e.1))),
        Err(_) => None,
    }
}

/// `cosmwasm_std::Api::addr_validate`, which gives the same answer for the same
/// text as long as the host is the same. Where it accepts, the address it
/// returns holds the text it was given, so only the verdict is handed on.
#[verifier::external_body]
pub(crate) fn address_accepted(ledger: &Ledger<'_>, address: &str) -> (accepted: bool)
    ensures
        accepted == ledger_accepts(*ledger, address@),
{
    ledger.api.addr_validate(address).is_ok()
}

/// `cw_storage_plus::Map::may_load` on the proposals: the proposal stored
/// under `id`, nothing where the key is absent, and the parser's error where
/// the value does not parse.
#[verifier::external_body]
pub(crate) fn load_proposal(ledger: &Ledger<'_>, id: u64) -> (r: Result<Option<StoredProposal>, cosmwasm_std::StdError>)
    ensures
        got_proposal(r) == slot_read(slots_of(stored_proposals(*ledger)), id),
{
    cw_storage_plus::Map::<u64, cw3::Proposal>::new(PROPOSALS)
        .may_load(ledger.storage, id)
        .map(|found| found.map(decode_proposal))
}

/// `cw_storage_plus::Map::range` on the proposals, from low ids to high with an
/// exclusive lower bound, cut off after `limit` entries. It fails where one of
/// those entries does not parse.
#[verifier::external_body]
pub(crate) fn proposals_after(ledger: &Ledger<'_>, start_after: Option<u64>, limit: usize) -> (r: Result<Vec<(u64, StoredProposal)>, cosmwasm_std::StdError>)
    ensures
        scan_agrees(got_proposals(r), slots_scan(slots_of(stored_proposals(*ledger)), ascending_ids(), start_after, limit as nat), ledger_keys_decode(*ledger)),
{
    cw_storage_plus::Map::<u64, cw3::Proposal>::new(PROPOSALS)
        .range(ledger.storage, start_after.map(cw_storage_plus::Bound::exclusive), None, cosmwasm_std::Order::Ascending)
        .take(limit)
        .map(|item| item.map(decode_proposal_entry))
        .collect()
}

/// `cw_storage_plus::Map::range` on the proposals, from high ids to low with an
/// exclusive upper bound, cut off after `limit` entries. It fails where one of
/// those entries does not parse.
#[verifier::external_body]
pub(crate) fn proposals_before(ledger: &Ledger<'_>, start_before: Option<u64>, limit: usize) -> (r: Result<Vec<(u64, StoredProposal)>, cosmwasm_std::StdError>)
    ensures
        scan_agrees(got_proposals(r), slots_scan(slots_of(stored_proposals(*ledger)), descending_ids(), start_before, limit as nat), ledger_keys_decode(*ledger)),
{
    cw_storage_plus::Map::<u64, cw3::Proposal>::new(PROPOSALS)
        .range(ledger.storage, None, start_before.map(cw_storage_plus::Bound::exclusive), cosmwasm_std::Order::Descending)
        .take(limit)
        .map(|item| item.map(decode_proposal_entry))
        .collect()
}

/// `cw_storage_plus::Map::may_load` on the ballots: the ballot `voter` cast on
/// the proposal, nothing where the key is absent, and the parser's error where
/// the value does not parse.
#[verifier::external_body]
pub(crate) fn load_ballot(ledger: &Ledger<'_>, proposal_id: u64, voter: &str) -> (r: Result<Option<BallotRecord>, cosmwasm_std::StdError>)
    ensures
        got(r) == slot_read(slots_of(stored_ballots(*ledger, proposal_id)), voter@),
{
    cw_storage_plus::Map::<(u64, &cosmwasm_std::Addr), cw3::Ballot>::new(BALLOTS)
        .may_load(ledger.storage, (proposal_id, &cosmwasm_std::Addr::unchecked(voter)))
        .map(|found| found.map(decode_ballot))
}

/// `cw_storage_plus::Prefix::range` on the ballots of one proposal, in the
/// order of the voters' addresses with an exclusive lower bound, cut off after
/// `limit` entries. It fails where one of those entries does not parse. The
/// upper bound keeps the scan among the keys that begin with the proposal's
/// prefix, whatever else the store holds; no address that reads as text lies
/// beyond it.
#[verifier::external_body]
pub(crate) fn ballots_after(ledger: &Ledger<'_>, proposal_id: u64, start_after: Option<String>, limit: usize) -> (r: Result<Vec<(String, BallotRecord)>, cosmwasm_std::StdError>)
    ensures
        scan_agrees(got_keyed(r), slots_scan(slots_of(stored_ballots(*ledger, proposal_id)), ascending_text(), cursor_view(start_after), limit as nat), ledger_keys_decode(*ledger)),
{
    let end = cw_storage_plus::Bound::InclusiveRaw(vec![BEYOND_TEXT]);
    cw_storage_plus::Map::<(u64, &cosmwasm_std::Addr), cw3::Ballot>::new(BALLOTS)
        .prefix(proposal_id)
        .range(ledger.storage, start_after.map(|s| cw_storage_plus::Bound::ExclusiveRaw(s.into())), Some(end), cosmwasm_std::Order::Ascending)
        .take(limit)
        .map(|item| item.map(decode_ballot_entry))
        .collect()
}

/// `cw_storage_plus::Map::may_load` on the voters: the weight stored for
/// `voter`, nothing where the key is absent, and the parser's error where the
/// value does not parse.
#[verifier::external_body]
pub(crate) fn load_voter(ledger: &Ledger<'_>, voter: &str) -> (r: Result<Option<u64>, cosmwasm_std::StdError>)
    ensures
        got(r) == slot_read(slots_of(stored_voters(*ledger)), voter@),
{
    cw_storage_plus::Map::<&cosmwasm_std::Addr, u64>::new(VOTERS)
        .may_load(ledger.storage, &cosmwasm_std::Addr::unchecked(voter))
}

/// `cw_storage_plus::Map::range` on the voters, in the order of their
/// addresses with an exclusive lower bound, cut off after `limit` entries. It
/// fails where one of those entries does not parse.
#[verifier::external_body]
pub(crate) fn voters_after(ledger: &Ledger<'_>, start_after: Option<String>, limit: usize) -> (r: Result<Vec<(String, u64)>, cosmwasm_std::StdError>)
    ensures
        scan_agrees(got_keyed(r), slots_scan(slots_of(stored_voters(*ledger)), ascending_text(), cursor_view(start_after), limit as nat), ledger_keys_decode(*ledger)),
{
    cw_storage_plus::Map::<&cosmwasm_std::Addr, u64>::new(VOTERS)
        .range(ledger.storage, start_after.map(|s| cw_storage_plus::Bound::ExclusiveRaw(s.into())), None, cosmwasm_std::Order::Ascending)
        .take(limit)
        .map(|item| item.map(decode_voter_entry))
        .collect()
}

} // verus!

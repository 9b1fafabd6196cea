//! The types of `cosmwasm_std`, `cw_utils` and `cw3` that this crate names.
//! Those whose fields are public and plain are declared with their fields, so
//! that stored records can be taken apart in checked code. The others are
//! carried as they are.

use vstd::prelude::*;

verus! {

#[verifier::external_type_specification]
#[verifier::external_body]
pub struct ExEmpty(cosmwasm_std::Empty);

#[verifier::external_type_specification]
#[verifier::external_body]
#[verifier::reject_recursive_types(T)]
pub struct ExCosmosMsg<T>(cosmwasm_std::CosmosMsg<T>);

#[verifier::external_type_specification]
#[verifier::external_body]
pub struct ExStdError(cosmwasm_std::StdError);

#[verifier::external_type_specification]
#[verifier::external_body]
pub struct ExAddr(cosmwasm_std::Addr);

#[verifier::external_type_specification]
#[verifier::external_body]
pub struct ExTimestamp(cosmwasm_std::Timestamp);

#[verifier::external_type_specification]
#[verifier::external_body]
pub struct ExDecimal(cosmwasm_std::Decimal);

#[verifier::external_type_specification]
#[verifier::external_body]
pub struct ExDepositInfo(cw3::DepositInfo);

#[verifier::external_type_specification]
pub struct ExExpiration(cw_utils::Expiration);

#[verifier::external_type_specification]
pub struct ExThreshold(cw_utils::Threshold);

#[verifier::external_type_specification]
pub struct ExVote(cw3::Vote);

#[verifier::external_type_specification]
pub struct ExVotes(cw3::Votes);

#[verifier::external_type_specification]
pub struct ExStatus(cw3::Status);

#[verifier::external_type_specification]
pub struct ExBallot(cw3::Ballot);

#[verifier::external_type_specification]
pub struct ExProposal(cw3::Proposal);

/// The nanoseconds since the Unix epoch that a `cosmwasm_std::Timestamp` holds.
pub uninterp spec fn timestamp_nanos_of(time: cosmwasm_std::Timestamp) -> u64;

/// The text that a `cosmwasm_std::Addr` holds.
pub uninterp spec fn addr_text(address: cosmwasm_std::Addr) -> Seq<char>;

/// The number of units of `10^-18` that a `cosmwasm_std::Decimal` holds.
pub uninterp spec fn decimal_atomics_of(value: cosmwasm_std::Decimal) -> u128;

/// `cosmwasm_std::Timestamp::nanos`, which hands out the one number a
/// timestamp is made of.
#[verifier::external_body]
pub(crate) fn timestamp_nanos(time: cosmwasm_std::Timestamp) -> (nanos: u64)
    ensures
        nanos == timestamp_nanos_of(time),
{
    time.nanos()
}

/// `cosmwasm_std::Addr::into_string`, which hands out the text an address is
/// made of.
#[verifier::external_body]
pub(crate) fn addr_into_string(address: cosmwasm_std::Addr) -> (text: String)
    ensures
        text@ == addr_text(address),
{
    address.into_string()
}

/// `cosmwasm_std::Decimal::atomics`, which hands out the one number a decimal
/// is made of.
#[verifier::external_body]
pub(crate) fn decimal_atomics(value: cosmwasm_std::Decimal) -> (atomics: u128)
    ensures
        atomics == decimal_atomics_of(value),
{
    value.atomics().u128()
}

} // verus!

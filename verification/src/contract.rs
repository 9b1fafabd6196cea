//! The mutating entry points. All of them that succeed do one thing: they
//! move what is left of the reserve balance after tax to a fixed address.

use vstd::prelude::*;
use vstd::arithmetic::div_mod::lemma_div_by_multiple;
use crate::decimal::{
    decimal_checked_mul, decimal_checked_sub, decimal_from_atomics, decimal_to_uint_floor,
    lemma_pow10_places, FixedPoint, DECIMAL_FRACTIONAL,
};
use crate::error::{ArithmeticError, ContractError};

verus! {

/// Where the reserve balance is sent.
pub const BURN_ADDR: &'static str = "terra1sk06e3dyexuq4shw77y3dsv480xv42mq73anxu";

/// The denomination of the reserve asset.
pub const RESERVE_DENOM: &'static str = "uusd";

/// An instruction to the host to move `amount` of `denom` from the contract to
/// `to_address`.
#[derive(Clone, Debug, PartialEq, Eq)]
pub struct Transfer {
    pub to_address: String,
    pub denom: String,
    pub amount: u128,
}

pub struct TransferView {
    pub to_address: Seq<char>,
    pub denom: Seq<char>,
    pub amount: u128,
}

impl View for Transfer {
    type V = TransferView;

    open spec fn view(&self) -> TransferView {
        TransferView { to_address: self.to_address@, denom: self.denom@, amount: self.amount }
    }
}

/// What an entry point hands back, with the transfer taken by its view.
pub open spec fn effect(outcome: Result<Transfer, ContractError>) -> Result<
    TransferView,
    ContractError,
> {
    match outcome {
        Ok(transfer) => Ok(transfer@),
        Err(e) => Err(e),
    }
}

/// The amount that leaves the contract when it holds `balance` and the tax
/// rate is `tax_rate`: the balance less the tax on it, rounded toward zero.
/// The three failures are tried in this order: the balance has no fixed-point
/// form, the tax has none, the tax exceeds the balance.
pub open spec fn transferable(balance: u128, tax_rate: FixedPoint) -> Result<u128, ContractError> {
    if balance * DECIMAL_FRACTIONAL > u128::MAX {
        Err(ContractError::Arithmetic(ArithmeticError::BalanceOutOfRange))
    } else if tax_rate.atomics * balance > u128::MAX {
        Err(ContractError::Arithmetic(ArithmeticError::TaxOverflow))
    } else if tax_rate.atomics > DECIMAL_FRACTIONAL && balance > 0 {
        Err(ContractError::Arithmetic(ArithmeticError::NetUnderflow))
    } else {
        Ok(((balance * (DECIMAL_FRACTIONAL - tax_rate.atomics)) / (DECIMAL_FRACTIONAL as int)) as u128)
    }
}

/// The effect of draining `balance` at `tax_rate` toward `destination`: one
/// transfer of the transferable amount in the reserve denomination, or the
/// failure of the computation.
pub open spec fn drain_effect(destination: Seq<char>, balance: u128, tax_rate: FixedPoint) -> Result<
    TransferView,
    ContractError,
> {
    match transferable(balance, tax_rate) {
        Ok(amount) => Ok(TransferView { to_address: destination, denom: RESERVE_DENOM@, amount }),
        Err(e) => Err(e),
    }
}

/// The balance as a fixed-point number with no fractional part.
pub fn balance_as_fixed(balance: u128) -> (r: Result<FixedPoint, ContractError>)
    ensures
        r is Ok <==> balance * DECIMAL_FRACTIONAL <= u128::MAX,
        r matches Ok(held) ==> held.atomics == balance * DECIMAL_FRACTIONAL,
        r matches Err(e) ==> e == ContractError::Arithmetic(ArithmeticError::BalanceOutOfRange),
{
    proof {
        lemma_pow10_places();
    }
    match decimal_from_atomics(balance, 0) {
        Ok(held) => Ok(held),
        Err(_) => Err(ContractError::Arithmetic(ArithmeticError::BalanceOutOfRange)),
    }
}

/// Computes what is left of `balance` after tax at `tax_rate` and addresses it
/// to `where_to`. A transfer of zero is still a transfer.
pub fn do_burn(balance: u128, tax_rate: FixedPoint, where_to: String) -> (r: Result<Transfer, ContractError>)
    ensures
        effect(r) == drain_effect(where_to@, balance, tax_rate),
{
    let uusd_balance = match balance_as_fixed(balance) {
        Ok(held) => held,
        Err(e) => {
            return Err(e);
        },
    };
    proof {
        let unit = DECIMAL_FRACTIONAL as int;
        assert(tax_rate.atomics * uusd_balance.atomics == (tax_rate.atomics * balance) * unit)
            by (nonlinear_arith)
            requires
                uusd_balance.atomics == balance * unit,
        ;
        lemma_div_by_multiple(tax_rate.atomics * balance, unit);
    }
    let tax = match decimal_checked_mul(tax_rate, uusd_balance) {
        Ok(tax) => tax,
        Err(_) => {
            return Err(ContractError::Arithmetic(ArithmeticError::TaxOverflow));
        },
    };
    proof {
        let unit = DECIMAL_FRACTIONAL as int;
        assert(tax.atomics <= uusd_balance.atomics <==> !(tax_rate.atomics > unit && balance > 0))
            by (nonlinear_arith)
            requires
                tax.atomics == tax_rate.atomics * balance,
                uusd_balance.atomics == balance * unit,
        ;
        assert(uusd_balance.atomics - tax.atomics == balance * (unit - tax_rate.atomics))
            by (nonlinear_arith)
            requires
                tax.atomics == tax_rate.atomics * balance,
                uusd_balance.atomics == balance * unit,
        ;
    }
    let net = match decimal_checked_sub(uusd_balance, tax) {
        Ok(net) => net,
        Err(_) => {
            return Err(ContractError::Arithmetic(ArithmeticError::NetUnderflow));
        },
    };
    let to_send = decimal_to_uint_floor(net);
    Ok(Transfer { to_address: where_to, denom: RESERVE_DENOM.to_owned(), amount: to_send })
}

/// Runs when the contract is migrated to this code: drains the reserve balance
/// to the burn address and does nothing else.
pub fn migrate(balance: u128, tax_rate: FixedPoint, _msg: cosmwasm_std::Empty) -> (r: Result<Transfer, ContractError>)
    ensures
        effect(r) == drain_effect(BURN_ADDR@, balance, tax_rate),
{
    do_burn(balance, tax_rate, BURN_ADDR.to_owned())
}

/// Refuses every instantiation.
pub fn instantiate(_msg: cosmwasm_std::Empty) -> (r: Result<Transfer, ContractError>)
    ensures
        r matches Err(e) && e == ContractError::InstantiationDisabled,
{
    Err(ContractError::InstantiationDisabled)
}

/// Runs on every submitted message, whatever it holds: drains the reserve
/// balance to the burn address.
pub fn execute(balance: u128, tax_rate: FixedPoint, _msg: cosmwasm_std::Empty) -> (r: Result<Transfer, ContractError>)
    ensures
        effect(r) == drain_effect(BURN_ADDR@, balance, tax_rate),
{
    do_burn(balance, tax_rate, BURN_ADDR.to_owned())
}

/// With a tax rate of at most one and a balance that has a fixed-point form,
/// the drain succeeds and moves `floor(balance * (1 - tax_rate))`.
pub proof fn lemma_transferable_is_floor(balance: u128, tax_rate: FixedPoint)
    requires
        tax_rate.atomics <= DECIMAL_FRACTIONAL,
        balance * DECIMAL_FRACTIONAL <= u128::MAX,
    ensures
        transferable(balance, tax_rate) matches Ok(amount) && amount == (balance * (
            DECIMAL_FRACTIONAL - tax_rate.atomics)) / (DECIMAL_FRACTIONAL as int),
        transferable(balance, tax_rate) matches Ok(amount) && amount <= balance,
{
    let unit = DECIMAL_FRACTIONAL as int;
    let kept = unit - tax_rate.atomics;
    assert(tax_rate.atomics * balance <= balance * unit) by (nonlinear_arith)
        requires
            tax_rate.atomics <= unit,
            balance >= 0,
    ;
    assert(0 <= balance * kept <= balance * unit) by (nonlinear_arith)
        requires
            0 <= kept <= unit,
            balance >= 0,
    ;
    lemma_div_by_multiple(balance as int, unit);
    vstd::arithmetic::div_mod::lemma_div_is_ordered(balance * kept, balance * unit, unit);
    vstd::arithmetic::div_mod::lemma_div_pos_is_pos(balance * kept, unit);
}

/// Given the same balance and tax rate, `execute` and `migrate` have the same
/// effect: the same single transfer, or the same failure.
pub proof fn lemma_execute_matches_migrate(
    balance: u128,
    tax_rate: FixedPoint,
    executed: Result<Transfer, ContractError>,
    migrated: Result<Transfer, ContractError>,
)
    requires
        effect(executed) == drain_effect(BURN_ADDR@, balance, tax_rate),
        effect(migrated) == drain_effect(BURN_ADDR@, balance, tax_rate),
    ensures
        effect(executed) == effect(migrated),
{
}

} // verus!

//! What a request can fail with.

use vstd::prelude::*;

verus! {

/// The step of the reserve computation that left the representable range.
#[derive(Clone, Copy, Debug, PartialEq, Eq, Structural)]
pub enum ArithmeticError {
    /// The balance has no fixed-point representation.
    BalanceOutOfRange,
    /// The tax on the balance has no fixed-point representation.
    TaxOverflow,
    /// The tax is larger than the balance.
    NetUnderflow,
}

#[derive(Clone, Copy, Debug, PartialEq, Eq, Structural)]
pub enum ContractError {
    /// Raised by every attempt to instantiate.
    InstantiationDisabled,
    /// An address in the request was refused by the host.
    Validation,
    /// Nothing is stored under the requested key.
    NotFound,
    /// The reserve computation failed.
    Arithmetic(ArithmeticError),
    /// A stored entry could not be decoded.
    Storage,
}

impl ContractError {
    pub open spec fn text(self) -> Seq<char> {
        match self {
            ContractError::InstantiationDisabled => "Do not instantiate this code!"@,
            ContractError::Validation => "invalid address"@,
            ContractError::NotFound => "not found"@,
            ContractError::Arithmetic(ArithmeticError::BalanceOutOfRange) => "invalid uusd balance"@,
            ContractError::Arithmetic(ArithmeticError::TaxOverflow) => "tax overflows"@,
            ContractError::Arithmetic(ArithmeticError::NetUnderflow) => "tax exceeds balance"@,
            ContractError::Storage => "stored entry could not be decoded"@,
        }
    }

    /// The fixed text that goes with each error.
    pub fn message(&self) -> (message: String)
        ensures
            message@ == self.text(),
    {
        match self {
            ContractError::InstantiationDisabled => "Do not instantiate this code!".to_owned(),
            ContractError::Validation => "invalid address".to_owned(),
            ContractError::NotFound => "not found".to_owned(),
            ContractError::Arithmetic(ArithmeticError::BalanceOutOfRange) => "invalid uusd balance".to_owned(),
            ContractError::Arithmetic(ArithmeticError::TaxOverflow) => "tax overflows".to_owned(),
            ContractError::Arithmetic(ArithmeticError::NetUnderflow) => "tax exceeds balance".to_owned(),
            ContractError::Storage => "stored entry could not be decoded".to_owned(),
        }
    }
}

} // verus!

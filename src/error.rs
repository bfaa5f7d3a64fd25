//! Errors of the controller, and the plain values that describe a call.
use vstd::prelude::*;

verus! {

/// An amount of one denomination attached to a call.
#[derive(Clone, Debug, PartialEq, Eq)]
pub struct Coin {
    pub denom: String,
    pub amount: u128,
}

/// Who sent a call, and what funds came with it.
#[derive(Clone, Debug, PartialEq, Eq)]
pub struct MessageInfo {
    pub sender: String,
    pub funds: Vec<Coin>,
}

/// Every way in which an operation of the controller can fail.
#[derive(Clone, Debug, PartialEq, Eq)]
pub enum ContractError {
    Unauthorized {},
    UpdatableStatusExpected { request_hash: Vec<u8> },
    DepositAddressAssociatedByNonMerchant { address: String },
    CustodianDepositAddressNotFound { merchant: String },
    DuplicatedMerchant { address: String },
    TokenTransferPaused {},
    BurnAmountTooSmall { requested_burn_amount: u128, min_burn_amount: u128 },
    NonPayable {},
    /// The funds attached to a burn are not exactly the amount to burn, in the
    /// issued denomination.
    BurnFundsMismatch { requested_burn_amount: u128 },
    /// A mint request asks for no tokens.
    ZeroAmount {},
    CustodianNotFound {},
    RequestNotFound {},
}

/// Succeeds only when no funds are attached to the call.
pub fn non_payable(info: &MessageInfo) -> (r: Result<(), ContractError>)
    ensures
        r is Ok <==> info.funds@.len() == 0,
        r is Err ==> r == Err::<(), ContractError>(ContractError::NonPayable {}),
{
    if info.funds.len() == 0 {
        Ok(())
    } else {
        Err(ContractError::NonPayable {})
    }
}

} // verus!

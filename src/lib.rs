//! The authorization and lifecycle engine of a custodial token: merchants
//! ask for tokens to be minted against deposits of an outside asset, or burn
//! tokens to redeem it, and a custodian approves mints and confirms burns.
//! Every transition is gated by the roles of the owner, the custodian and the
//! merchants.
use vstd::prelude::*;

pub mod auth;
pub mod burn;
pub mod deposit;
pub mod digest;
pub mod error;
pub mod index;
pub mod mint;
pub mod order;
pub mod page;

pub use auth::{
    add_merchant, allow_only, get_custodian, is_custodian, is_merchant, list_merchants, remove_merchant,
    set_custodian, Role, RoleRegistry,
};
pub use burn::{BurnLedger, BurnRecord, BurnRequest, BurnRequestStatus, TxId};
pub use deposit::{
    get_custodian_deposit_address, get_merchant_deposit_address, set_custodian_deposit_address,
    set_merchant_deposit_address, DepositAddressRegistry,
};
pub use error::{non_payable, Coin, ContractError, MessageInfo};
pub use mint::{MintLedger, MintRecord, MintRequest, MintRequestStatus};

verus! {

} // verus!

use vstd::prelude::*;

pub mod account;
pub mod table;
pub mod ledger;

verus! {

/// Amount of the token held or moved.
pub type Balance = u128;

/// Why a ledger operation was refused.
#[derive(Debug, Clone, Copy, PartialEq, Eq, Structural)]
pub enum Error {
    InsufficientBalance,
    InsufficientApproval,
    IllegalManager,
}

} // verus!

pub use account::{AccountId, AllowanceKey};
pub use ledger::{Approval, Event, Transfer, Wasmerc20};

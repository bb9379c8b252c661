//! A fungible-token ledger: account balances, delegated allowances, and a
//! supply counter, with conservation and authorization proved as invariants.

pub mod address;
pub mod allowance;
pub mod auth;
pub mod encode;
pub mod error;
pub mod event;
pub mod ledger;
pub mod shim;
pub mod token;
pub mod uint256;

use vstd::prelude::*;

verus! {

} // verus!

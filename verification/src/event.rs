//! The events a token emits. The log is append-only: a successful
//! operation pushes exactly one event, a failed one pushes none.

use vstd::prelude::*;
use crate::address::Address;
use crate::uint256::Uint256;

verus! {

/// One entry of the token's event log.
///
/// A `Transfer` is recorded for every balance-moving success: ordinary
/// transfers, delegated transfers, mint (with `from` the zero identity)
/// and burn (with `to` the zero identity). An `Approval` is recorded for
/// every approve.
#[derive(Clone, Copy, Debug, PartialEq, Eq, Structural)]
pub enum Event {
    Transfer { from: Address, to: Address, value: Uint256 },
    Approval { owner: Address, spender: Address, value: Uint256 },
}

} // verus!

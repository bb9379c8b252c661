//! The authorization guard. Every operation that changes total supply,
//! or that touches an account other than the caller's own without an
//! allowance grant, must route through one of these checks.

use vstd::prelude::*;
use crate::address::Address;
use crate::error::Error;

verus! {

/// Passes exactly when `caller` is the privileged principal.
pub fn require_privileged(caller: Address, privileged: Address) -> (r: Result<(), Error>)
    ensures
        r matches Ok(()) <==> caller == privileged,
        r matches Err(e) ==> e == Error::Unauthorized,
{
    if caller == privileged {
        Ok(())
    } else {
        Err(Error::Unauthorized)
    }
}

/// Passes exactly when `caller` is `subject` itself or the privileged
/// principal.
pub fn require_self_or_privileged(caller: Address, subject: Address, privileged: Address) -> (r:
    Result<(), Error>)
    ensures
        r matches Ok(()) <==> (caller == subject || caller == privileged),
        r matches Err(e) ==> e == Error::Unauthorized,
{
    if caller == subject || caller == privileged {
        Ok(())
    } else {
        Err(Error::Unauthorized)
    }
}

} // verus!

//! The external-call shim. An outbound call to another contract comes
//! back as two plain facts — did the call itself succeed, and what bytes
//! did it return — and the shim classifies them into exactly one outcome.
//! Ignoring the returned boolean, or the call's own failure, is the
//! defect this classification closes: a caller must propagate any
//! non-`Success` outcome as an error.

use vstd::prelude::*;
use crate::error::Error;

verus! {

/// The judgement on one outbound call.
#[derive(Clone, Copy, Debug, PartialEq, Eq, Structural)]
pub enum CallOutcome {
    /// The call succeeded and declared success.
    Success,
    /// The call failed outright, or succeeded and declared failure.
    DeclaredFailure,
    /// The call succeeded but returned nothing decodable as a boolean.
    AmbiguousNoReturn,
}

/// The canonical 32-byte word encoding of a boolean: 31 zero bytes and a
/// final 0 or 1. Anything else does not decode.
pub open spec fn spec_decode_bool(d: Seq<u8>) -> Option<bool> {
    if d.len() == 32 && (forall|i: int| 0 <= i < 31 ==> d[i] == 0) && (d[31] == 0 || d[31] == 1) {
        Some(d[31] == 1)
    } else {
        None
    }
}

/// Decode a returned word as a boolean, if it is one.
pub fn decode_bool(data: &Vec<u8>) -> (r: Option<bool>)
    ensures
        r == spec_decode_bool(data@),
{
    if data.len() != 32 {
        return None;
    }
    let mut i: usize = 0;
    while i < 31
        invariant
            i <= 31,
            data@.len() == 32,
            forall|j: int| 0 <= j < i ==> data@[j] == 0,
        decreases 31 - i,
    {
        if data[i] != 0 {
            return None;
        }
        i = i + 1;
    }
    let last = data[31];
    if last == 0 {
        Some(false)
    } else if last == 1 {
        Some(true)
    } else {
        None
    }
}

/// The classification of a call result: failure of the call itself, or a
/// declared `false`, is a declared failure; a decoded `true` is success;
/// anything the target returned that is not a boolean is ambiguous.
pub open spec fn spec_classify(call_succeeded: bool, return_data: Seq<u8>) -> CallOutcome {
    if !call_succeeded {
        CallOutcome::DeclaredFailure
    } else {
        match spec_decode_bool(return_data) {
            Some(true) => CallOutcome::Success,
            Some(false) => CallOutcome::DeclaredFailure,
            None => CallOutcome::AmbiguousNoReturn,
        }
    }
}

/// Classify one outbound call from the two facts the host reports:
/// whether the call itself succeeded, and the bytes it returned.
pub fn classify_call(call_succeeded: bool, return_data: &Vec<u8>) -> (r: CallOutcome)
    ensures
        r == spec_classify(call_succeeded, return_data@),
{
    if !call_succeeded {
        return CallOutcome::DeclaredFailure;
    }
    match decode_bool(return_data) {
        Some(true) => CallOutcome::Success,
        Some(false) => CallOutcome::DeclaredFailure,
        None => CallOutcome::AmbiguousNoReturn,
    }
}

/// Whether an outcome counts as success. An ambiguous outcome is
/// accepted only when the target contract is known, by convention, to
/// return nothing; otherwise it is treated as a declared failure.
pub open spec fn spec_outcome_accepted(outcome: CallOutcome, target_returns_nothing: bool) -> bool {
    outcome == CallOutcome::Success || (outcome == CallOutcome::AmbiguousNoReturn
        && target_returns_nothing)
}

/// Turn an outcome into a result: anything short of accepted success is
/// propagated as `ExternalCallFailed`, never discarded.
pub fn require_call_success(outcome: CallOutcome, target_returns_nothing: bool) -> (r: Result<
    (),
    Error,
>)
    ensures
        r matches Ok(()) <==> spec_outcome_accepted(outcome, target_returns_nothing),
        r matches Err(e) ==> e == Error::ExternalCallFailed,
{
    match outcome {
        CallOutcome::Success => Ok(()),
        CallOutcome::AmbiguousNoReturn => {
            if target_returns_nothing {
                Ok(())
            } else {
                Err(Error::ExternalCallFailed)
            }
        },
        CallOutcome::DeclaredFailure => Err(Error::ExternalCallFailed),
    }
}

/// Judge a relayed token transfer from the host's report of the call:
/// succeeds exactly when the call succeeded and declared success (or
/// returned nothing while the target is known to return nothing).
pub fn check_external_transfer(
    call_succeeded: bool,
    return_data: &Vec<u8>,
    target_returns_nothing: bool,
) -> (r: Result<(), Error>)
    ensures
        r matches Ok(()) <==> spec_outcome_accepted(
            spec_classify(call_succeeded, return_data@),
            target_returns_nothing,
        ),
        r matches Err(e) ==> e == Error::ExternalCallFailed,
{
    let outcome = classify_call(call_succeeded, return_data);
    require_call_success(outcome, target_returns_nothing)
}

} // verus!

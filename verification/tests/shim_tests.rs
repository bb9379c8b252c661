use token_ledger::error::Error;
use token_ledger::shim::{
    check_external_transfer, classify_call, decode_bool, require_call_success, CallOutcome,
};

fn word(last: u8) -> Vec<u8> {
    let mut w = vec![0u8; 32];
    w[31] = last;
    w
}

#[test]
fn test_decode_bool_true_and_false() {
    assert_eq!(decode_bool(&word(1)), Some(true));
    assert_eq!(decode_bool(&word(0)), Some(false));
}

#[test]
fn test_decode_bool_rejects_garbage() {
    assert_eq!(decode_bool(&word(2)), None);
    assert_eq!(decode_bool(&Vec::new()), None);
    assert_eq!(decode_bool(&vec![1u8; 32]), None);
    assert_eq!(decode_bool(&vec![0u8; 31]), None);
}

#[test]
fn test_classify_success() {
    assert_eq!(classify_call(true, &word(1)), CallOutcome::Success);
}

#[test]
fn test_classify_declared_false() {
    assert_eq!(classify_call(true, &word(0)), CallOutcome::DeclaredFailure);
}

#[test]
fn test_classify_reverted_call() {
    assert_eq!(classify_call(false, &word(1)), CallOutcome::DeclaredFailure);
    assert_eq!(classify_call(false, &Vec::new()), CallOutcome::DeclaredFailure);
}

#[test]
fn test_classify_no_return() {
    assert_eq!(classify_call(true, &Vec::new()), CallOutcome::AmbiguousNoReturn);
    assert_eq!(classify_call(true, &vec![1u8, 2u8]), CallOutcome::AmbiguousNoReturn);
}

#[test]
fn test_require_call_success_policy() {
    assert_eq!(require_call_success(CallOutcome::Success, false), Ok(()));
    assert_eq!(require_call_success(CallOutcome::Success, true), Ok(()));
    assert_eq!(
        require_call_success(CallOutcome::DeclaredFailure, true),
        Err(Error::ExternalCallFailed)
    );
    assert_eq!(require_call_success(CallOutcome::AmbiguousNoReturn, true), Ok(()));
    assert_eq!(
        require_call_success(CallOutcome::AmbiguousNoReturn, false),
        Err(Error::ExternalCallFailed)
    );
}

#[test]
fn test_check_external_transfer_end_to_end() {
    assert_eq!(check_external_transfer(true, &word(1), false), Ok(()));
    assert_eq!(
        check_external_transfer(true, &word(0), false),
        Err(Error::ExternalCallFailed)
    );
    assert_eq!(
        check_external_transfer(false, &word(1), false),
        Err(Error::ExternalCallFailed)
    );
    assert_eq!(check_external_transfer(true, &Vec::new(), true), Ok(()));
    assert_eq!(
        check_external_transfer(true, &Vec::new(), false),
        Err(Error::ExternalCallFailed)
    );
}

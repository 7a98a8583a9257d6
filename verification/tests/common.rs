use lily_contracts::common::{
    require, require_auth_or_error, require_caller, require_compatible_schema, require_non_empty,
    require_non_whitespace, require_valid_bps, Address, AddressKind, Authorizations, CallError,
    GuardFlags, NonReentrantGuard, ProtocolError, DEFAULT_SCHEMA_VERSION, MAX_BPS,
};

fn addr(n: u128) -> Address {
    Address { kind: AddressKind::Account, key_hi: 19, key_lo: n }
}

#[test]
fn guard_acquire_and_release_cycle() {
    let mut flags = GuardFlags::new();
    let key = b"reent".to_vec();
    assert!(!flags.is_held(&key));
    let guard = NonReentrantGuard::acquire(&mut flags, key.clone()).unwrap();
    assert!(flags.is_held(&key));
    guard.release(&mut flags);
    assert!(!flags.is_held(&key));
    let again = NonReentrantGuard::acquire(&mut flags, key.clone()).unwrap();
    again.release(&mut flags);
}

#[test]
fn guard_rejects_nested_acquisition_in_same_frame() {
    let mut flags = GuardFlags::new();
    let _first = NonReentrantGuard::acquire(&mut flags, b"reent".to_vec()).unwrap();
    let second = NonReentrantGuard::acquire(&mut flags, b"reent".to_vec());
    assert!(matches!(second, Err(CallError::Contract(ProtocolError::ReentrantCall))));
    match second {
        Err(CallError::Contract(e)) => assert_eq!(e.code(), 10),
        _ => panic!("expected ReentrantCall"),
    }
}

#[test]
fn guards_for_distinct_keys_are_independent() {
    let mut flags = GuardFlags::new();
    let settle = NonReentrantGuard::acquire(&mut flags, b"settle".to_vec()).unwrap();
    let cancel = NonReentrantGuard::acquire(&mut flags, b"cancel".to_vec()).unwrap();
    settle.release(&mut flags);
    assert!(!flags.is_held(&b"settle".to_vec()));
    assert!(flags.is_held(&b"cancel".to_vec()));
    cancel.release(&mut flags);
    assert!(!flags.is_held(&b"cancel".to_vec()));
}

#[test]
fn require_caller_raises_typed_unauthorized() {
    let (caller, expected) = (addr(1), addr(2));
    let err = require_caller(caller, expected).unwrap_err();
    assert_eq!(err, CallError::Contract(ProtocolError::Unauthorized));
    match err {
        CallError::Contract(e) => assert_eq!(e.code(), 3),
        _ => panic!("expected a typed contract error"),
    }
}

#[test]
fn require_caller_passes_for_matching_principal() {
    let caller = addr(1);
    assert_eq!(require_caller(caller, caller), Ok(()));
}

#[test]
fn validates_valid_strings_with_whitespace_guard() {
    assert_eq!(require_non_whitespace(&b"ipfs://agent-lily/profile-v1".to_vec()), Ok(()));
    assert_eq!(require_non_whitespace(&b"  valid memo  ".to_vec()), Ok(()));
}

#[test]
fn rejects_empty_string_with_whitespace_guard() {
    assert_eq!(
        require_non_whitespace(&b"".to_vec()),
        Err(CallError::Contract(ProtocolError::InvalidInput))
    );
}

#[test]
fn rejects_spaces_only_string() {
    assert_eq!(
        require_non_whitespace(&b"    ".to_vec()),
        Err(CallError::Contract(ProtocolError::InvalidInput))
    );
}

#[test]
fn rejects_tabs_and_newlines_only_string() {
    assert_eq!(
        require_non_whitespace(&b"\t\n\r  ".to_vec()),
        Err(CallError::Contract(ProtocolError::InvalidInput))
    );
}

#[test]
fn validates_fee_bps_and_schema_compatibility() {
    assert_eq!(require_valid_bps(0), Ok(()));
    assert_eq!(require_valid_bps(500), Ok(()));
    assert_eq!(require_valid_bps(MAX_BPS), Ok(()));
    assert_eq!(require_compatible_schema(DEFAULT_SCHEMA_VERSION, 1), Ok(()));
    assert_eq!(require_non_empty(5), Ok(()));
}

#[test]
fn test_rejects_fee_bps_above_max() {
    assert_eq!(require_valid_bps(MAX_BPS + 1), Err(CallError::Contract(ProtocolError::FeeBpsTooHigh)));
}

#[test]
fn rejects_mismatched_schema_version() {
    assert_eq!(require_compatible_schema(2, 1), Err(CallError::Contract(ProtocolError::InvalidInput)));
}

#[test]
fn require_and_empty_string_guards() {
    assert_eq!(require(true, ProtocolError::AlreadyExists), Ok(()));
    assert_eq!(require(false, ProtocolError::AlreadyExists), Err(CallError::Contract(ProtocolError::AlreadyExists)));
    assert_eq!(require_non_empty(0), Err(CallError::Contract(ProtocolError::InvalidInput)));
}

#[test]
fn authorization_checks_follow_the_signers() {
    let (a, b) = (addr(1), addr(2));
    assert_eq!(require_auth_or_error(a, &Authorizations::all()), Ok(()));
    assert_eq!(require_auth_or_error(a, &Authorizations::none()), Err(CallError::Auth(a)));
    let only_b = Authorizations::only(vec![b]);
    assert_eq!(require_auth_or_error(b, &only_b), Ok(()));
    assert_eq!(require_auth_or_error(a, &only_b), Err(CallError::Auth(a)));
    assert!(only_b.is_authorized(b));
    assert!(!only_b.is_authorized(a));
}

#[test]
fn error_codes_are_stable() {
    let errors = [
        ProtocolError::AlreadyInitialized,
        ProtocolError::NotInitialized,
        ProtocolError::Unauthorized,
        ProtocolError::InvalidInput,
        ProtocolError::FeeBpsTooHigh,
        ProtocolError::AlreadyExists,
        ProtocolError::MissingRecord,
        ProtocolError::PaymentAlreadyFinalized,
        ProtocolError::WalletAlreadyBound,
        ProtocolError::ReentrantCall,
    ];
    let codes: Vec<u32> = errors.iter().map(|e| e.code()).collect();
    assert_eq!(codes, (1..=10).collect::<Vec<u32>>());
}

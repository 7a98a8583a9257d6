use lily_contracts::common::{Address, AddressKind, Authorizations, CallError, ProtocolError};
use lily_contracts::protocol::{ProtocolConfig, ProtocolContract, ProtocolEvent, SCHEMA_VERSION};

fn addr(n: u128) -> Address {
    Address { kind: AddressKind::Account, key_hi: 7, key_lo: n }
}

fn deployed() -> (ProtocolContract, Address, Address) {
    let admin = addr(1);
    let treasury = addr(2);
    (ProtocolContract::new(admin), admin, treasury)
}

fn contract_error(e: ProtocolError) -> CallError {
    CallError::Contract(e)
}

#[test]
fn protocol_returns_schema_version() {
    let (mut client, admin, treasury) = deployed();
    client.initialize(&Authorizations::all(), admin, treasury, 250).unwrap();
    assert_eq!(client.schema_version(), Ok(SCHEMA_VERSION));
}

#[test]
fn initializes_once_and_reads_config() {
    let (mut client, admin, treasury) = deployed();
    client.initialize(&Authorizations::all(), admin, treasury, 250).unwrap();
    assert!(client.is_initialized());
    assert_eq!(client.get_config(), Ok(ProtocolConfig { admin, treasury, fee_bps: 250 }));
}

#[test]
fn initialize_emits_init_event() {
    let (mut client, admin, treasury) = deployed();
    let events = client.initialize(&Authorizations::all(), admin, treasury, 250).unwrap();
    assert_eq!(events.len(), 1);
    assert_eq!(
        events[0],
        ProtocolEvent::Initialized { admin, config: ProtocolConfig { admin, treasury, fee_bps: 250 } }
    );
}

#[test]
fn rejects_config_read_before_initialization() {
    let (client, _admin, _treasury) = deployed();
    assert_eq!(client.get_config(), Err(contract_error(ProtocolError::NotInitialized)));
}

#[test]
fn rejects_reinitialization() {
    let (mut client, admin, treasury) = deployed();
    client.initialize(&Authorizations::all(), admin, treasury, 100).unwrap();
    assert_eq!(
        client.initialize(&Authorizations::all(), admin, treasury, 100),
        Err(contract_error(ProtocolError::AlreadyInitialized))
    );
}

#[test]
fn get_config_before_initialize_panics_not_initialized() {
    let (client, _admin, _treasury) = deployed();
    assert_eq!(client.get_config(), Err(contract_error(ProtocolError::NotInitialized)));
}

#[test]
fn rejects_fee_bps_above_max() {
    let (mut client, admin, treasury) = deployed();
    assert_eq!(
        client.initialize(&Authorizations::all(), admin, treasury, 10_001),
        Err(contract_error(ProtocolError::FeeBpsTooHigh))
    );
    assert!(!client.is_initialized());
}

#[test]
fn unauthenticated_invalid_initialization_fails_at_auth() {
    let (mut client, admin, treasury) = deployed();
    assert_eq!(
        client.initialize(&Authorizations::none(), admin, treasury, 10_001),
        Err(CallError::Auth(admin))
    );
}

#[test]
fn unauthenticated_fee_update_fails_before_validation() {
    let (mut client, admin, treasury) = deployed();
    client.initialize(&Authorizations::all(), admin, treasury, 100).unwrap();
    assert_eq!(client.set_fee_bps(&Authorizations::none(), 10_001), Err(CallError::Auth(admin)));
}

#[test]
fn updates_fee_and_treasury() {
    let (mut client, admin, treasury) = deployed();
    let next_treasury = addr(3);
    client.initialize(&Authorizations::all(), admin, treasury, 100).unwrap();
    client.set_fee_bps(&Authorizations::all(), 375).unwrap();
    client.set_treasury(&Authorizations::all(), next_treasury).unwrap();
    let config = client.get_config().unwrap();
    assert_eq!(config.fee_bps, 375);
    assert_eq!(config.treasury, next_treasury);
}

#[test]
fn transfers_admin_and_emits_event() {
    let (mut client, admin, treasury) = deployed();
    let next_admin = addr(3);
    client.initialize(&Authorizations::all(), admin, treasury, 100).unwrap();
    assert_eq!(client.get_pending_admin(), Ok(None));

    let events = client.transfer_admin(&Authorizations::all(), next_admin).unwrap();
    assert_eq!(events, vec![ProtocolEvent::AdminProposed { admin, proposed: next_admin }]);
    assert_eq!(client.get_pending_admin(), Ok(Some(next_admin)));
    assert_eq!(client.get_config().unwrap().admin, admin);

    let events = client.accept_admin(&Authorizations::all()).unwrap();
    assert_eq!(events, vec![ProtocolEvent::AdminTransferred { previous: admin, admin: next_admin }]);
    assert_eq!(client.get_pending_admin(), Ok(None));
    assert_eq!(client.get_config().unwrap().admin, next_admin);
}

#[test]
fn rejects_accept_admin_by_unauthorized_party() {
    let (mut client, admin, treasury) = deployed();
    let next_admin = addr(3);
    let unauthorized = addr(4);
    client.initialize(&Authorizations::all(), admin, treasury, 100).unwrap();
    client.transfer_admin(&Authorizations::all(), next_admin).unwrap();
    assert_eq!(
        client.accept_admin(&Authorizations::only(vec![unauthorized])),
        Err(CallError::Auth(next_admin))
    );
}

#[test]
fn rejects_accept_admin_without_pending() {
    let (mut client, admin, treasury) = deployed();
    client.initialize(&Authorizations::all(), admin, treasury, 100).unwrap();
    assert_eq!(
        client.accept_admin(&Authorizations::all()),
        Err(contract_error(ProtocolError::MissingRecord))
    );
}

#[test]
fn rejects_set_fee_bps_above_max() {
    let (mut client, admin, treasury) = deployed();
    client.initialize(&Authorizations::all(), admin, treasury, 100).unwrap();
    assert_eq!(
        client.set_fee_bps(&Authorizations::all(), 10_001),
        Err(contract_error(ProtocolError::FeeBpsTooHigh))
    );
    assert_eq!(client.get_config().unwrap().fee_bps, 100);
}

#[test]
fn get_pending_admin_before_initialize_panics_not_initialized() {
    let (client, _admin, _treasury) = deployed();
    assert_eq!(client.get_pending_admin(), Err(contract_error(ProtocolError::NotInitialized)));
}

#[test]
fn get_pending_admin_lifecycle_after_transfer_and_accept() {
    let (mut client, admin, treasury) = deployed();
    let next_admin = addr(3);
    client.initialize(&Authorizations::all(), admin, treasury, 100).unwrap();
    assert_eq!(client.get_pending_admin(), Ok(None));
    client.transfer_admin(&Authorizations::all(), next_admin).unwrap();
    assert_eq!(client.get_pending_admin(), Ok(Some(next_admin)));
    client.accept_admin(&Authorizations::all()).unwrap();
    assert_eq!(client.get_pending_admin(), Ok(None));
}

#[test]
fn transfer_admin_sets_pending_and_preserves_current_admin() {
    let (mut client, admin, treasury) = deployed();
    let next_admin = addr(3);
    client.initialize(&Authorizations::all(), admin, treasury, 100).unwrap();
    assert_eq!(client.get_pending_admin(), Ok(None));
    client.transfer_admin(&Authorizations::all(), next_admin).unwrap();
    assert_eq!(client.get_pending_admin(), Ok(Some(next_admin)));
    assert_eq!(client.get_config().unwrap().admin, admin);
}

#[test]
fn rejects_accept_admin_by_old_admin() {
    let (mut client, admin, treasury) = deployed();
    let next_admin = addr(3);
    client.initialize(&Authorizations::all(), admin, treasury, 100).unwrap();
    client.transfer_admin(&Authorizations::all(), next_admin).unwrap();
    assert_eq!(
        client.accept_admin(&Authorizations::only(vec![admin])),
        Err(CallError::Auth(next_admin))
    );
    assert_eq!(client.get_config().unwrap().admin, admin);
}

#[test]
fn old_admin_authority_holds_until_pending_admin_accepts() {
    let (mut client, admin, treasury) = deployed();
    let next_admin = addr(3);
    client.initialize(&Authorizations::all(), admin, treasury, 100).unwrap();
    client.transfer_admin(&Authorizations::all(), next_admin).unwrap();

    client.set_fee_bps(&Authorizations::only(vec![admin]), 200).unwrap();
    assert_eq!(client.get_config().unwrap().fee_bps, 200);

    client.accept_admin(&Authorizations::only(vec![next_admin])).unwrap();
    assert_eq!(client.get_config().unwrap().admin, next_admin);

    client.set_fee_bps(&Authorizations::only(vec![next_admin]), 300).unwrap();
    assert_eq!(client.get_config().unwrap().fee_bps, 300);
}

#[test]
fn second_accept_admin_panics_missing_record() {
    let (mut client, admin, treasury) = deployed();
    let next_admin = addr(3);
    client.initialize(&Authorizations::all(), admin, treasury, 100).unwrap();
    client.transfer_admin(&Authorizations::all(), next_admin).unwrap();
    client.accept_admin(&Authorizations::all()).unwrap();
    assert_eq!(client.get_config().unwrap().admin, next_admin);
    assert_eq!(client.get_pending_admin(), Ok(None));
    assert_eq!(
        client.accept_admin(&Authorizations::all()),
        Err(contract_error(ProtocolError::MissingRecord))
    );
}

#[test]
fn second_accept_admin_panics() {
    let (mut client, admin, treasury) = deployed();
    let next_admin = addr(3);
    client.initialize(&Authorizations::all(), admin, treasury, 100).unwrap();
    client.transfer_admin(&Authorizations::all(), next_admin).unwrap();
    client.accept_admin(&Authorizations::all()).unwrap();
    assert_eq!(client.get_pending_admin(), Ok(None));
    assert!(client.accept_admin(&Authorizations::all()).is_err());
}

#[test]
fn initialize_rejects_an_admin_other_than_the_pinned_one() {
    let (mut client, _admin, treasury) = deployed();
    let front_runner = addr(9);
    assert_eq!(
        client.initialize(&Authorizations::all(), front_runner, treasury, 100),
        Err(contract_error(ProtocolError::Unauthorized))
    );
    assert!(!client.is_initialized());
}

#[test]
fn operations_before_initialization_are_rejected() {
    let (mut client, _admin, treasury) = deployed();
    let all = Authorizations::all();
    let not_initialized = Err(contract_error(ProtocolError::NotInitialized));
    assert_eq!(client.set_fee_bps(&all, 10), not_initialized);
    assert_eq!(client.set_treasury(&all, treasury), not_initialized);
    assert_eq!(client.transfer_admin(&all, treasury), not_initialized);
    assert_eq!(client.accept_admin(&all), not_initialized);
    assert_eq!(client.schema_version(), Err(contract_error(ProtocolError::NotInitialized)));
}

#[test]
fn fee_accepts_the_full_range_of_basis_points() {
    let (mut client, admin, treasury) = deployed();
    client.initialize(&Authorizations::all(), admin, treasury, 0).unwrap();
    let events = client.set_fee_bps(&Authorizations::all(), 10_000).unwrap();
    assert_eq!(events, vec![ProtocolEvent::FeeUpdated { admin, fee_bps: 10_000 }]);
    assert_eq!(client.get_config().unwrap().fee_bps, 10_000);
}

#[test]
fn stored_state_restores_the_same_contract() {
    let (mut client, admin, treasury) = deployed();
    client.initialize(&Authorizations::all(), admin, treasury, 100).unwrap();
    client.transfer_admin(&Authorizations::all(), addr(3)).unwrap();
    let state = client.state();
    let restored = ProtocolContract::from_state(state);
    assert_eq!(restored.state(), state);
    assert_eq!(restored.get_pending_admin(), Ok(Some(addr(3))));
    assert_eq!(restored.get_config(), client.get_config());
}

use lily_contracts::common::{Address, AddressKind, Authorizations, CallError, ProtocolError};
use lily_contracts::wallet::{WalletBinding, WalletContract, WalletEvent};

fn addr(n: u128) -> Address {
    Address { kind: AddressKind::Account, key_hi: 13, key_lo: n }
}

fn usdc() -> Vec<u8> {
    b"USDC".to_vec()
}

fn initialized(admin: Address) -> WalletContract {
    let mut client = WalletContract::new(admin);
    client.initialize(&Authorizations::all(), admin).unwrap();
    client
}

#[test]
fn binds_wallet_and_updates_policy() {
    let (admin, agent, wallet) = (addr(1), addr(2), addr(3));
    let mut client = initialized(admin);
    client.bind_wallet(&Authorizations::all(), agent, wallet, usdc(), 1_000).unwrap();

    let binding = client.get_binding(agent).unwrap();
    assert_eq!(
        binding,
        WalletBinding { wallet, settlement_asset: usdc(), spend_limit: 1_000, enabled: true, revision: 0 }
    );

    client.update_spend_limit(&Authorizations::all(), agent, 2_500).unwrap();
    client.set_enabled(&Authorizations::all(), agent, false).unwrap();

    let updated = client.get_binding(agent).unwrap();
    assert_eq!(updated.spend_limit, 2_500);
    assert!(!updated.enabled);
    assert_eq!(updated.revision, 2);
}

#[test]
fn rejects_double_binding_while_active() {
    let (admin, agent, wallet) = (addr(1), addr(2), addr(3));
    let mut client = initialized(admin);
    client.bind_wallet(&Authorizations::all(), agent, wallet, usdc(), 100).unwrap();
    assert_eq!(
        client.bind_wallet(&Authorizations::all(), agent, wallet, usdc(), 100),
        Err(CallError::Contract(ProtocolError::WalletAlreadyBound))
    );
}

#[test]
fn rejects_zero_spend_limit() {
    let (admin, agent, wallet) = (addr(1), addr(2), addr(3));
    let mut client = initialized(admin);
    assert_eq!(
        client.bind_wallet(&Authorizations::all(), agent, wallet, usdc(), 0),
        Err(CallError::Contract(ProtocolError::InvalidInput))
    );
}

#[test]
fn unbind_wallet_removes_persistent_storage() {
    let (admin, agent, wallet) = (addr(1), addr(2), addr(3));
    let mut client = initialized(admin);
    client.bind_wallet(&Authorizations::all(), agent, wallet, usdc(), 1_000).unwrap();
    assert_eq!(client.get_binding(agent).unwrap().spend_limit, 1_000);

    let events = client.unbind_wallet(&Authorizations::all(), agent).unwrap();
    assert_eq!(events, vec![WalletEvent::Unbound { agent }]);
    assert_eq!(client.get_binding_opt(agent), Ok(None));

    let new_wallet = addr(4);
    client.bind_wallet(&Authorizations::all(), agent, new_wallet, usdc(), 2_000).unwrap();
    let new_binding = client.get_binding(agent).unwrap();
    assert_eq!(new_binding.wallet, new_wallet);
    assert_eq!(new_binding.spend_limit, 2_000);
}

#[test]
fn rejects_unbind_when_not_bound() {
    let (admin, agent) = (addr(1), addr(2));
    let mut client = initialized(admin);
    assert_eq!(
        client.unbind_wallet(&Authorizations::all(), agent),
        Err(CallError::Contract(ProtocolError::MissingRecord))
    );
}

#[test]
fn rejects_repeated_unbind() {
    let (admin, agent, wallet) = (addr(1), addr(2), addr(3));
    let mut client = initialized(admin);
    client.bind_wallet(&Authorizations::all(), agent, wallet, usdc(), 1_000).unwrap();
    client.unbind_wallet(&Authorizations::all(), agent).unwrap();
    assert_eq!(
        client.unbind_wallet(&Authorizations::all(), agent),
        Err(CallError::Contract(ProtocolError::MissingRecord))
    );
}

#[test]
fn binding_needs_both_signatures() {
    let (admin, agent, wallet) = (addr(1), addr(2), addr(3));
    let mut client = initialized(admin);
    assert_eq!(
        client.bind_wallet(&Authorizations::only(vec![wallet]), agent, wallet, usdc(), 10),
        Err(CallError::Auth(agent))
    );
    assert_eq!(
        client.bind_wallet(&Authorizations::only(vec![agent]), agent, wallet, usdc(), 10),
        Err(CallError::Auth(wallet))
    );
    client.bind_wallet(&Authorizations::only(vec![agent, wallet]), agent, wallet, usdc(), 10).unwrap();
}

#[test]
fn bind_rejects_a_disabled_binding_and_rebind_replaces_it() {
    let (admin, agent, wallet, next_wallet) = (addr(1), addr(2), addr(3), addr(4));
    let mut client = initialized(admin);
    client.bind_wallet(&Authorizations::all(), agent, wallet, usdc(), 10).unwrap();
    client.set_enabled(&Authorizations::all(), agent, false).unwrap();
    assert_eq!(
        client.bind_wallet(&Authorizations::all(), agent, next_wallet, usdc(), 20),
        Err(CallError::Contract(ProtocolError::WalletAlreadyBound))
    );
    client.rebind_wallet(&Authorizations::all(), agent, next_wallet, b"XLM".to_vec(), 20).unwrap();
    assert_eq!(
        client.get_binding(agent),
        Ok(WalletBinding {
            wallet: next_wallet,
            settlement_asset: b"XLM".to_vec(),
            spend_limit: 20,
            enabled: true,
            revision: 0,
        })
    );
    assert_eq!(
        client.rebind_wallet(&Authorizations::all(), addr(9), next_wallet, usdc(), 20),
        Err(CallError::Contract(ProtocolError::MissingRecord))
    );
}

#[test]
fn limit_updates_need_an_enabled_binding() {
    let (admin, agent, wallet) = (addr(1), addr(2), addr(3));
    let mut client = initialized(admin);
    client.bind_wallet(&Authorizations::all(), agent, wallet, usdc(), 10).unwrap();
    assert_eq!(
        client.update_spend_limit(&Authorizations::all(), agent, -5),
        Err(CallError::Contract(ProtocolError::InvalidInput))
    );
    client.admin_deactivate(&Authorizations::only(vec![admin]), agent).unwrap();
    let binding = client.get_binding(agent).unwrap();
    assert!(!binding.enabled);
    assert_eq!(binding.revision, 1);
    assert_eq!(
        client.update_spend_limit(&Authorizations::all(), agent, 50),
        Err(CallError::Contract(ProtocolError::InvalidInput))
    );
    assert_eq!(client.admin_deactivate(&Authorizations::only(vec![agent]), agent), Err(CallError::Auth(admin)));
}

#[test]
fn wallet_calls_before_initialization_are_rejected() {
    let mut client = WalletContract::new(addr(1));
    let not_initialized = CallError::Contract(ProtocolError::NotInitialized);
    assert!(!client.is_initialized());
    assert_eq!(client.get_binding(addr(2)), Err(not_initialized));
    assert_eq!(client.bind_wallet(&Authorizations::all(), addr(2), addr(3), usdc(), 10), Err(not_initialized));
}

#[test]
fn stored_records_restore_the_same_wallet_registry() {
    let (admin, agent, wallet) = (addr(1), addr(2), addr(3));
    let mut client = initialized(admin);
    client.bind_wallet(&Authorizations::all(), agent, wallet, usdc(), 10).unwrap();
    let binding = client.get_binding(agent).unwrap();
    let (pinned, stored_admin, records) = client.into_parts();
    assert_eq!(pinned, admin);
    assert_eq!(stored_admin, Some(admin));
    let restored = WalletContract::restore(pinned, stored_admin, records);
    assert_eq!(restored.get_binding(agent), Ok(binding));
    assert!(restored.is_initialized());
}

#[test]
fn only_the_pinned_admin_initializes_the_wallet_registry() {
    let (pinned, intruder) = (addr(1), addr(9));
    let mut client = WalletContract::new(pinned);
    assert_eq!(
        client.initialize(&Authorizations::all(), intruder),
        Err(CallError::Contract(ProtocolError::Unauthorized))
    );
    assert!(!client.is_initialized());
    assert_eq!(client.initialize(&Authorizations::only(vec![intruder]), pinned), Err(CallError::Auth(pinned)));
    assert!(!client.is_initialized());
    let events = client.initialize(&Authorizations::only(vec![pinned]), pinned).unwrap();
    assert_eq!(events, vec![WalletEvent::Initialized { admin: pinned }]);
    assert!(client.is_initialized());
    assert_eq!(
        client.initialize(&Authorizations::all(), pinned),
        Err(CallError::Contract(ProtocolError::AlreadyInitialized))
    );
}

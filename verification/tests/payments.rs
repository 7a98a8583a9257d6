use lily_contracts::common::{
    Address, AddressKind, Authorizations, CallError, PaymentStatus, ProtocolError,
};
use lily_contracts::payments::{
    bps_share, fee_split, PaymentIntent, PaymentsContract, PaymentsEvent, MAX_INTENTS_PAGE_SIZE,
    MAX_PAYMENT_AMOUNT, SCHEMA_VERSION,
};
use lily_contracts::wallet::WalletContract;

fn addr(n: u128) -> Address {
    Address { kind: AddressKind::Account, key_hi: 17, key_lo: n }
}

fn text(s: &str) -> Vec<u8> {
    s.as_bytes().to_vec()
}

struct Setup {
    admin: Address,
    treasury: Address,
    wallet: WalletContract,
    client: PaymentsContract,
}

fn bootstrap() -> Setup {
    let treasury = addr(1);
    let admin = addr(2);
    let wallet_id = Address { kind: AddressKind::Contract, key_hi: 0, key_lo: 99 };
    let mut wallet = WalletContract::new(admin);
    wallet.initialize(&Authorizations::all(), admin).unwrap();
    let mut client = PaymentsContract::new(admin);
    client.initialize(&Authorizations::all(), admin, treasury, 50, wallet_id).unwrap();
    Setup { admin, treasury, wallet, client }
}

fn bind_payer(setup: &mut Setup, payer: Address, spend_limit: i128) {
    let wallet_addr = Address { kind: AddressKind::Account, key_hi: 1, key_lo: payer.key_lo };
    setup.wallet.bind_wallet(&Authorizations::all(), payer, wallet_addr, b"USDC".to_vec(), spend_limit).unwrap();
}

fn create(setup: &mut Setup, payer: Address, payee: Address, amount: i128, memo: &str, now: u64) -> Result<u64, CallError> {
    let binding = setup.wallet.get_binding(payer);
    setup
        .client
        .create_intent(&Authorizations::all(), payer, payee, amount, text(memo), binding, now)
        .map(|(id, _events)| id)
}

#[test]
fn test_returns_protocol_version() {
    let setup = bootstrap();
    assert_eq!(setup.client.schema_version(), Ok(SCHEMA_VERSION));
}

#[test]
fn creates_and_settles_payment_intents() {
    let mut setup = bootstrap();
    let (payer, payee) = (addr(10), addr(11));
    bind_payer(&mut setup, payer, 10_000);

    let id = create(&mut setup, payer, payee, 5_000, "settle agent service fee", 0).unwrap();
    assert_eq!(id, 1);
    assert_eq!(setup.client.get_next_intent_id(), Ok(2));

    let config = setup.client.get_config().unwrap();
    assert_eq!(config.admin, setup.admin);
    assert_eq!(config.treasury, setup.treasury);
    assert_eq!(config.fee_bps, 50);

    let intent = setup.client.get_intent(id).unwrap();
    assert_eq!(
        intent,
        PaymentIntent {
            id: 1,
            payer_agent: payer,
            payee_agent: payee,
            amount: 5_000,
            memo: text("settle agent service fee"),
            settlement_reference: text(""),
            status: PaymentStatus::Pending,
            created_at: 0,
        }
    );

    let admin = setup.admin;
    setup.client.settle_intent(&Authorizations::all(), admin, id, text("tx-0001")).unwrap();
    let settled = setup.client.get_intent(id).unwrap();
    assert_eq!(settled.status, PaymentStatus::Settled);
    assert_eq!(settled.settlement_reference, text("tx-0001"));
}

#[test]
fn created_at_uses_mocked_ledger_timestamp() {
    let mut setup = bootstrap();
    let (payer, payee) = (addr(10), addr(11));
    bind_payer(&mut setup, payer, 10_000);
    let created_at: u64 = 1_750_000_000;
    let id = create(&mut setup, payer, payee, 5_000, "timestamps come from the ledger", created_at).unwrap();
    assert_eq!(setup.client.get_intent(id).unwrap().created_at, created_at);
}

#[test]
fn payer_can_cancel_pending_intents() {
    let mut setup = bootstrap();
    let (payer, payee) = (addr(10), addr(11));
    bind_payer(&mut setup, payer, 10_000);
    let id = create(&mut setup, payer, payee, 5_000, "cancel me", 0).unwrap();
    setup.client.cancel_intent(&Authorizations::all(), id).unwrap();
    assert_eq!(setup.client.get_intent(id).unwrap().status, PaymentStatus::Cancelled);
}

#[test]
fn accepts_the_maximum_payment_amount() {
    let mut setup = bootstrap();
    let (payer, payee) = (addr(10), addr(11));
    bind_payer(&mut setup, payer, MAX_PAYMENT_AMOUNT);
    let id = create(&mut setup, payer, payee, MAX_PAYMENT_AMOUNT, "maximum payment", 0).unwrap();
    assert_eq!(setup.client.get_intent(id).unwrap().amount, MAX_PAYMENT_AMOUNT);
}

#[test]
fn lists_payer_intents_with_cursor_pagination() {
    let mut setup = bootstrap();
    let (payer, other_payer, payee) = (addr(10), addr(12), addr(11));
    bind_payer(&mut setup, payer, 10_000);
    bind_payer(&mut setup, other_payer, 10_000);

    let first_id = create(&mut setup, payer, payee, 10, "first", 0).unwrap();
    let second_id = create(&mut setup, payer, payee, 20, "second", 0).unwrap();
    let third_id = create(&mut setup, payer, payee, 30, "third", 0).unwrap();
    create(&mut setup, other_payer, payee, 40, "other payer", 0).unwrap();

    let first_page = setup.client.list_intents(payer, 0, 2).unwrap();
    assert_eq!(first_page.len(), 2);
    assert_eq!(first_page[0].id, first_id);
    assert_eq!(first_page[1].id, second_id);

    let second_page = setup.client.list_intents(payer, 2, 2).unwrap();
    assert_eq!(second_page.len(), 1);
    assert_eq!(second_page[0].id, third_id);

    let exhausted_page = setup.client.list_intents(payer, 3, 2).unwrap();
    assert!(exhausted_page.is_empty());
}

#[test]
fn rejects_zero_page_limit() {
    let setup = bootstrap();
    assert_eq!(
        setup.client.list_intents(addr(10), 0, 0),
        Err(CallError::Contract(ProtocolError::InvalidInput))
    );
}

#[test]
fn rejects_payment_amount_above_the_maximum() {
    let mut setup = bootstrap();
    let (payer, payee) = (addr(10), addr(11));
    bind_payer(&mut setup, payer, MAX_PAYMENT_AMOUNT);
    assert_eq!(
        create(&mut setup, payer, payee, MAX_PAYMENT_AMOUNT + 1, "too large", 0),
        Err(CallError::Contract(ProtocolError::InvalidInput))
    );
}

#[test]
fn test_rejects_config_read_before_initialization() {
    let client = PaymentsContract::new(addr(3));
    assert_eq!(client.get_config(), Err(CallError::Contract(ProtocolError::NotInitialized)));
}

#[test]
fn rejects_settle_after_cancellation() {
    let mut setup = bootstrap();
    let (payer, payee) = (addr(10), addr(11));
    bind_payer(&mut setup, payer, 10_000);
    let id = create(&mut setup, payer, payee, 5_000, "cancel me", 0).unwrap();
    setup.client.cancel_intent(&Authorizations::all(), id).unwrap();
    let admin = setup.admin;
    assert_eq!(
        setup.client.settle_intent(&Authorizations::all(), admin, id, text("tx-0002")),
        Err(CallError::Contract(ProtocolError::PaymentAlreadyFinalized))
    );
}

#[test]
fn settle_rejects_non_admin_caller_with_typed_unauthorized() {
    let mut setup = bootstrap();
    let (payer, payee) = (addr(10), addr(11));
    bind_payer(&mut setup, payer, 10_000);
    let id = create(&mut setup, payer, payee, 5_000, "not yours", 0).unwrap();
    let err = setup.client.settle_intent(&Authorizations::all(), payer, id, text("tx-not-admin")).unwrap_err();
    assert_eq!(err, CallError::Contract(ProtocolError::Unauthorized));
    match err {
        CallError::Contract(e) => assert_eq!(e.code(), 3),
        _ => panic!("expected a typed contract error"),
    }
}

#[test]
fn rejects_zero_amount_intent() {
    let mut setup = bootstrap();
    let (payer, payee) = (addr(10), addr(11));
    assert_eq!(
        create(&mut setup, payer, payee, 0, "invalid zero amount", 0),
        Err(CallError::Contract(ProtocolError::InvalidInput))
    );
}

#[test]
fn rejects_get_intent_on_missing_record() {
    let setup = bootstrap();
    assert_eq!(setup.client.get_intent(999), Err(CallError::Contract(ProtocolError::MissingRecord)));
}

#[test]
fn create_intent_respects_the_wallet_policy() {
    let mut setup = bootstrap();
    let (payer, payee, unbound) = (addr(10), addr(11), addr(12));
    bind_payer(&mut setup, payer, 100);
    assert_eq!(
        create(&mut setup, payer, payee, 101, "over the limit", 0),
        Err(CallError::Contract(ProtocolError::InvalidInput))
    );
    assert_eq!(
        create(&mut setup, unbound, payee, 10, "no binding", 0),
        Err(CallError::Contract(ProtocolError::MissingRecord))
    );
    setup.wallet.set_enabled(&Authorizations::all(), payer, false).unwrap();
    assert_eq!(
        create(&mut setup, payer, payee, 10, "disabled", 0),
        Err(CallError::Contract(ProtocolError::InvalidInput))
    );
    assert_eq!(setup.client.get_next_intent_id(), Ok(1));
}

#[test]
fn create_intent_rejects_self_payment_empty_memo_and_missing_signature() {
    let mut setup = bootstrap();
    let (payer, payee) = (addr(10), addr(11));
    bind_payer(&mut setup, payer, 100);
    assert_eq!(create(&mut setup, payer, payer, 10, "self", 0), Err(CallError::Contract(ProtocolError::InvalidInput)));
    assert_eq!(create(&mut setup, payer, payee, 10, "", 0), Err(CallError::Contract(ProtocolError::InvalidInput)));
    let binding = setup.wallet.get_binding(payer);
    assert_eq!(
        setup.client.create_intent(&Authorizations::only(vec![payee]), payer, payee, 10, text("memo"), binding, 0),
        Err(CallError::Auth(payer))
    );
}

#[test]
fn only_the_payer_cancels_and_only_once() {
    let mut setup = bootstrap();
    let (payer, payee) = (addr(10), addr(11));
    bind_payer(&mut setup, payer, 100);
    let id = create(&mut setup, payer, payee, 10, "memo", 0).unwrap();
    let admin = setup.admin;
    assert_eq!(setup.client.cancel_intent(&Authorizations::only(vec![admin]), id), Err(CallError::Auth(payer)));
    let events = setup.client.cancel_intent(&Authorizations::only(vec![payer]), id).unwrap();
    assert_eq!(events, vec![PaymentsEvent::IntentCancelled { id, intent: setup.client.get_intent(id).unwrap() }]);
    assert_eq!(
        setup.client.cancel_intent(&Authorizations::all(), id),
        Err(CallError::Contract(ProtocolError::PaymentAlreadyFinalized))
    );
}

#[test]
fn settled_intents_cannot_be_cancelled() {
    let mut setup = bootstrap();
    let (payer, payee) = (addr(10), addr(11));
    bind_payer(&mut setup, payer, 100);
    let id = create(&mut setup, payer, payee, 10, "memo", 0).unwrap();
    let admin = setup.admin;
    setup.client.settle_intent(&Authorizations::only(vec![admin]), admin, id, text("tx")).unwrap();
    assert_eq!(
        setup.client.cancel_intent(&Authorizations::all(), id),
        Err(CallError::Contract(ProtocolError::PaymentAlreadyFinalized))
    );
    assert_eq!(
        setup.client.settle_intent(&Authorizations::all(), admin, id, text("tx-again")),
        Err(CallError::Contract(ProtocolError::PaymentAlreadyFinalized))
    );
    assert_eq!(setup.client.get_intent(id).unwrap().settlement_reference, text("tx"));
}

#[test]
fn pages_of_a_payer_concatenate_to_its_history() {
    let mut setup = bootstrap();
    let (payer, other, payee) = (addr(10), addr(12), addr(11));
    bind_payer(&mut setup, payer, 1_000);
    bind_payer(&mut setup, other, 1_000);
    let mut expected = Vec::new();
    for n in 0..7 {
        if n % 3 == 1 {
            create(&mut setup, other, payee, 5, "other", 0).unwrap();
        }
        expected.push(create(&mut setup, payer, payee, 10 + n, "mine", 0).unwrap());
    }
    let whole: Vec<u64> = setup.client.list_intents(payer, 0, 100).unwrap().iter().map(|i| i.id).collect();
    assert_eq!(whole, expected);
    let mut stitched: Vec<u64> = setup.client.list_intents(payer, 0, 3).unwrap().iter().map(|i| i.id).collect();
    stitched.extend(setup.client.list_intents(payer, 3, 4).unwrap().iter().map(|i| i.id));
    assert_eq!(stitched, expected);
    assert!(setup.client.list_intents(payer, 50, 10).unwrap().is_empty());
    assert_eq!(
        setup.client.list_intents(payer, 0, MAX_INTENTS_PAGE_SIZE + 1),
        Err(CallError::Contract(ProtocolError::InvalidInput))
    );
    assert_eq!(setup.client.get_intent_opt(1000), Ok(None));
}

#[test]
fn payments_admin_updates_fee_treasury_and_admin() {
    let mut setup = bootstrap();
    let admin = setup.admin;
    let next = addr(20);
    assert_eq!(
        setup.client.set_fee_bps(&Authorizations::all(), 10_001),
        Err(CallError::Contract(ProtocolError::FeeBpsTooHigh))
    );
    setup.client.set_fee_bps(&Authorizations::only(vec![admin]), 75).unwrap();
    setup.client.set_treasury(&Authorizations::only(vec![admin]), next).unwrap();
    setup.client.transfer_admin(&Authorizations::only(vec![admin]), next).unwrap();
    let config = setup.client.get_config().unwrap();
    assert_eq!((config.admin, config.treasury, config.fee_bps), (next, next, 75));
    assert_eq!(setup.client.set_fee_bps(&Authorizations::only(vec![admin]), 10), Err(CallError::Auth(next)));
}

#[test]
fn payments_initialize_checks_pinned_admin_and_runs_once() {
    let mut client = PaymentsContract::new(addr(2));
    assert_eq!(
        client.initialize(&Authorizations::all(), addr(3), addr(1), 50, addr(4)),
        Err(CallError::Contract(ProtocolError::Unauthorized))
    );
    assert_eq!(client.initialize(&Authorizations::none(), addr(2), addr(1), 50, addr(4)), Err(CallError::Auth(addr(2))));
    assert_eq!(
        client.initialize(&Authorizations::none(), addr(2), addr(1), 10_001, addr(4)),
        Err(CallError::Contract(ProtocolError::FeeBpsTooHigh))
    );
    let events = client.initialize(&Authorizations::all(), addr(2), addr(1), 50, addr(4)).unwrap();
    assert_eq!(events, vec![PaymentsEvent::Initialized { treasury: addr(1) }]);
    assert_eq!(
        client.initialize(&Authorizations::all(), addr(2), addr(1), 50, addr(4)),
        Err(CallError::Contract(ProtocolError::AlreadyInitialized))
    );
}

#[test]
fn fee_split_follows_the_documented_examples() {
    assert_eq!(fee_split(1_000_000, 100), (10_000, 990_000));
    assert_eq!(fee_split(1_000_000, 50), (5_000, 995_000));
    assert_eq!(fee_split(100, 30), (0, 100));
    assert_eq!(fee_split(10_000, 1), (1, 9_999));
    assert_eq!(fee_split(12_345, 0), (0, 12_345));
    assert_eq!(fee_split(12_345, 10_000), (12_345, 0));
    let (fee, net) = fee_split(MAX_PAYMENT_AMOUNT, 10_000);
    assert_eq!((fee, net), (MAX_PAYMENT_AMOUNT, 0));
    assert_eq!(bps_share(MAX_PAYMENT_AMOUNT, 5_000), MAX_PAYMENT_AMOUNT / 2);
}

#[test]
fn stored_records_restore_the_same_contract() {
    let mut setup = bootstrap();
    let (payer, other, payee) = (addr(10), addr(12), addr(11));
    bind_payer(&mut setup, payer, 1_000);
    bind_payer(&mut setup, other, 1_000);
    create(&mut setup, payer, payee, 10, "a", 5).unwrap();
    create(&mut setup, other, payee, 20, "b", 6).unwrap();
    create(&mut setup, payer, payee, 30, "c", 7).unwrap();
    let before: Vec<u64> = setup.client.list_intents(payer, 0, 10).unwrap().iter().map(|i| i.id).collect();
    let config = setup.client.get_config().unwrap();

    let (pinned, settings, schema, intents) = setup.client.into_parts();
    assert_eq!(intents.len(), 3);
    let restored = PaymentsContract::restore(pinned, settings, schema, intents.clone()).unwrap();
    assert_eq!(restored.get_config(), Ok(config));
    let after: Vec<u64> = restored.list_intents(payer, 0, 10).unwrap().iter().map(|i| i.id).collect();
    assert_eq!(after, before);
    assert_eq!(after, vec![1, 3]);

    let mut shuffled = intents;
    shuffled.swap(0, 1);
    assert!(PaymentsContract::restore(pinned, settings, schema, shuffled).is_none());
}

#[test]
fn created_intents_take_consecutive_ids_and_keep_earlier_ones() {
    let mut setup = bootstrap();
    let (payer, other, payee) = (addr(10), addr(12), addr(11));
    bind_payer(&mut setup, payer, 10_000);
    bind_payer(&mut setup, other, 10_000);
    let first = create(&mut setup, payer, payee, 100, "first", 5).unwrap();
    let before = setup.client.get_intent(first).unwrap();
    assert_eq!(setup.client.get_intent(2), Err(CallError::Contract(ProtocolError::MissingRecord)));
    let second = create(&mut setup, other, payee, 200, "second", 6).unwrap();
    let third = create(&mut setup, payer, payee, 300, "third", 7).unwrap();
    assert_eq!((first, second, third), (1, 2, 3));
    assert_eq!(setup.client.get_next_intent_id(), Ok(4));
    assert_eq!(setup.client.get_intent(first), Ok(before));
    assert_eq!(setup.client.get_intent(third).unwrap().status, PaymentStatus::Pending);
    assert_eq!(setup.client.get_intent(third).unwrap().created_at, 7);
    let page = setup.client.list_intents(payer, 0, 10).unwrap();
    assert_eq!(page.iter().map(|i| i.id).collect::<Vec<u64>>(), vec![1, 3]);
}

//! Payment intents and settlement: a payer opens an intent within its wallet
//! policy, the admin settles it or the payer cancels it, and each payer's
//! intents are indexed in creation order for cursor-paginated reads.

use crate::common::{
    copy_bytes, require, require_auth_or_error, require_caller, require_valid_bps, Address,
    Authorizations, CallError, GuardFlags, NonReentrantGuard, PaymentStatus, ProtocolError, MAX_BPS,
};
use crate::outcome::{commits, next_state, seq_views, Transition};
use crate::table::AddressTable;
use crate::wallet::{WalletBinding, WalletBindingView};
use vstd::prelude::*;

verus! {

/// Storage schema version of the payments contract.
pub const SCHEMA_VERSION: u32 = 1;

/// Largest payment amount that keeps basis-point multiplication within
/// `i128`: `i128::MAX / MAX_BPS`.
pub const MAX_PAYMENT_AMOUNT: i128 = 17_014_118_346_046_923_173_168_730_371_588_410;

/// Largest page `list_intents` returns.
pub const MAX_INTENTS_PAGE_SIZE: u32 = 100;

/// The settlement configuration as reported by `get_config`.
#[derive(Clone, Copy, Debug, PartialEq, Eq, Structural)]
pub struct PaymentsConfig {
    pub admin: Address,
    pub treasury: Address,
    pub fee_bps: u32,
    pub next_intent_id: u64,
}

/// The settlement configuration written at initialization.
#[derive(Clone, Copy, Debug, PartialEq, Eq, Structural)]
pub struct PaymentsSettings {
    pub admin: Address,
    pub treasury: Address,
    pub fee_bps: u32,
    /// The wallet policy contract whose bindings bound what payers may commit.
    pub wallet_contract: Address,
}

/// A payment intent.
#[derive(Clone, Debug, PartialEq, Eq)]
pub struct PaymentIntent {
    pub id: u64,
    pub payer_agent: Address,
    pub payee_agent: Address,
    pub amount: i128,
    pub memo: Vec<u8>,
    pub settlement_reference: Vec<u8>,
    pub status: PaymentStatus,
    /// Ledger timestamp captured at intent creation.
    pub created_at: u64,
}

/// The value of a payment intent.
pub struct PaymentIntentView {
    pub id: u64,
    pub payer_agent: Address,
    pub payee_agent: Address,
    pub amount: i128,
    pub memo: Seq<u8>,
    pub settlement_reference: Seq<u8>,
    pub status: PaymentStatus,
    pub created_at: u64,
}

impl View for PaymentIntent {
    type V = PaymentIntentView;

    open spec fn view(&self) -> PaymentIntentView {
        PaymentIntentView {
            id: self.id,
            payer_agent: self.payer_agent,
            payee_agent: self.payee_agent,
            amount: self.amount,
            memo: self.memo@,
            settlement_reference: self.settlement_reference@,
            status: self.status,
            created_at: self.created_at,
        }
    }
}

impl PaymentIntent {
    /// A copy of this intent.
    pub fn duplicate(&self) -> (r: PaymentIntent)
        ensures
            r@ == self@,
    {
        PaymentIntent {
            id: self.id,
            payer_agent: self.payer_agent,
            payee_agent: self.payee_agent,
            amount: self.amount,
            memo: copy_bytes(&self.memo),
            settlement_reference: copy_bytes(&self.settlement_reference),
            status: self.status,
            created_at: self.created_at,
        }
    }
}

/// Events published by the payments contract; each names its topics.
#[derive(Clone, Debug, PartialEq, Eq)]
pub enum PaymentsEvent {
    /// `("init",)` carrying the treasury.
    Initialized { treasury: Address },
    /// `("create", id)` carrying the new intent.
    IntentCreated { id: u64, intent: PaymentIntent },
    /// `("settle", id)` carrying the settled intent.
    IntentSettled { id: u64, intent: PaymentIntent },
    /// `("cancel", id)` carrying the cancelled intent.
    IntentCancelled { id: u64, intent: PaymentIntent },
    /// `("fee", admin)` carrying the new fee.
    FeeUpdated { admin: Address, fee_bps: u32 },
    /// `("treasury", admin)` carrying the new treasury.
    TreasuryUpdated { admin: Address, treasury: Address },
    /// `("admin", previous)` carrying the new admin.
    AdminTransferred { previous: Address, admin: Address },
}

/// The value of a payments event.
pub enum PaymentsEventView {
    Initialized { treasury: Address },
    IntentCreated { id: u64, intent: PaymentIntentView },
    IntentSettled { id: u64, intent: PaymentIntentView },
    IntentCancelled { id: u64, intent: PaymentIntentView },
    FeeUpdated { admin: Address, fee_bps: u32 },
    TreasuryUpdated { admin: Address, treasury: Address },
    AdminTransferred { previous: Address, admin: Address },
}

impl View for PaymentsEvent {
    type V = PaymentsEventView;

    open spec fn view(&self) -> PaymentsEventView {
        match self {
            PaymentsEvent::Initialized { treasury } => PaymentsEventView::Initialized { treasury: *treasury },
            PaymentsEvent::IntentCreated { id, intent } => PaymentsEventView::IntentCreated {
                id: *id,
                intent: intent@,
            },
            PaymentsEvent::IntentSettled { id, intent } => PaymentsEventView::IntentSettled {
                id: *id,
                intent: intent@,
            },
            PaymentsEvent::IntentCancelled { id, intent } => PaymentsEventView::IntentCancelled {
                id: *id,
                intent: intent@,
            },
            PaymentsEvent::FeeUpdated { admin, fee_bps } => PaymentsEventView::FeeUpdated {
                admin: *admin,
                fee_bps: *fee_bps,
            },
            PaymentsEvent::TreasuryUpdated { admin, treasury } => PaymentsEventView::TreasuryUpdated {
                admin: *admin,
                treasury: *treasury,
            },
            PaymentsEvent::AdminTransferred { previous, admin } => PaymentsEventView::AdminTransferred {
                previous: *previous,
                admin: *admin,
            },
        }
    }
}

/// Everything the payments contract keeps in storage.
pub struct PaymentsState {
    /// The only address allowed to initialize, captured at deploy time.
    pub pinned_admin: Address,
    /// The settlement configuration; `None` until initialized.
    pub settings: Option<PaymentsSettings>,
    /// The schema version written at initialization (0 before).
    pub schema_version: u32,
    /// Every intent ever created; the intent with id `n` is at position `n - 1`.
    pub intents: Seq<PaymentIntentView>,
    /// The ids of the intents each payer created, in creation order.
    pub payer_index: Map<Address, Seq<u64>>,
}

/// The ids an index records for `payer`; none when it has no entry.
pub open spec fn index_ids(index: Map<Address, Seq<u64>>, payer: Address) -> Seq<u64> {
    if index.contains_key(payer) {
        index[payer]
    } else {
        Seq::empty()
    }
}

/// The ids of the intents `payer` created, as the index records them.
pub open spec fn payer_ids(s: PaymentsState, payer: Address) -> Seq<u64> {
    index_ids(s.payer_index, payer)
}

/// The id and payer of each intent, in creation order.
pub open spec fn intent_keys(intents: Seq<PaymentIntentView>) -> Seq<(u64, Address)> {
    intents.map_values(|x: PaymentIntentView| (x.id, x.payer_agent))
}

/// The ids, in order, of the entries of `keys` whose payer is `payer`.
pub open spec fn history(keys: Seq<(u64, Address)>, payer: Address) -> Seq<u64>
    decreases keys.len(),
{
    if keys.len() == 0 {
        Seq::empty()
    } else if keys.last().1 == payer {
        history(keys.drop_last(), payer).push(keys.last().0)
    } else {
        history(keys.drop_last(), payer)
    }
}

/// The storage invariant: intent ids run from 1 without gaps, the next id
/// fits in a `u64`, and each payer's index lists exactly that payer's intents
/// in creation order.
pub open spec fn consistent(s: PaymentsState) -> bool {
    &&& s.intents.len() < u64::MAX
    &&& forall|i: int| 0 <= i < s.intents.len() ==> #[trigger] s.intents[i].id == i + 1
    &&& forall|p: Address| #[trigger] payer_ids(s, p) == history(intent_keys(s.intents), p)
}

/// The intent stored under `id`, if any.
pub open spec fn intent_of(s: PaymentsState, id: u64) -> Option<PaymentIntentView> {
    if 1 <= id && id <= s.intents.len() {
        Some(s.intents[id - 1])
    } else {
        None
    }
}

/// The id the next created intent receives.
pub open spec fn next_id(s: PaymentsState) -> int {
    s.intents.len() + 1int
}

/// What a lookup of the payer's wallet binding returned, by value.
pub open spec fn binding_result_view(r: Result<WalletBinding, CallError>) -> Result<WalletBindingView, CallError> {
    match r {
        Ok(b) => Ok(b@),
        Err(e) => Err(e),
    }
}

/// `initialize`: once, by the pinned admin, with a valid fee, checked before
/// the admin's signature.
pub open spec fn initialize_spec(
    s: PaymentsState,
    auth: &Authorizations,
    admin: Address,
    treasury: Address,
    fee_bps: u32,
    wallet_contract: Address,
) -> Transition<PaymentsState, PaymentsEventView> {
    if s.settings is Some {
        Err(CallError::Contract(ProtocolError::AlreadyInitialized))
    } else if admin != s.pinned_admin {
        Err(CallError::Contract(ProtocolError::Unauthorized))
    } else if fee_bps > MAX_BPS {
        Err(CallError::Contract(ProtocolError::FeeBpsTooHigh))
    } else if !auth.authorizes(admin) {
        Err(CallError::Auth(admin))
    } else {
        Ok((
            PaymentsState {
                settings: Some(PaymentsSettings { admin, treasury, fee_bps, wallet_contract }),
                schema_version: SCHEMA_VERSION,
                ..s
            },
            seq![PaymentsEventView::Initialized { treasury }],
        ))
    }
}

/// `create_intent`: a payer, signing, commits to pay a distinct payee a
/// positive amount up to `MAX_PAYMENT_AMOUNT` with a non-empty memo, within
/// the enabled spend limit of its wallet binding (`payer_binding` is what the
/// wallet contract's `get_binding` answered for the payer). The intent takes
/// the next id, starts pending, records `now`, and joins the payer's index.
pub open spec fn create_intent_spec(
    s: PaymentsState,
    auth: &Authorizations,
    payer_agent: Address,
    payee_agent: Address,
    amount: i128,
    memo: Seq<u8>,
    payer_binding: Result<WalletBindingView, CallError>,
    now: u64,
) -> Transition<PaymentsState, PaymentsEventView> {
    if s.settings is None {
        Err(CallError::Contract(ProtocolError::NotInitialized))
    } else if amount <= 0 || amount > MAX_PAYMENT_AMOUNT {
        Err(CallError::Contract(ProtocolError::InvalidInput))
    } else if memo.len() == 0 {
        Err(CallError::Contract(ProtocolError::InvalidInput))
    } else if payer_agent == payee_agent {
        Err(CallError::Contract(ProtocolError::InvalidInput))
    } else if !auth.authorizes(payer_agent) {
        Err(CallError::Auth(payer_agent))
    } else {
        match payer_binding {
            Err(e) => Err(e),
            Ok(b) => if !b.enabled || amount > b.spend_limit {
                Err(CallError::Contract(ProtocolError::InvalidInput))
            } else if next_id(s) >= u64::MAX {
                Err(CallError::Overflow)
            } else {
                let id = next_id(s) as u64;
                let intent = PaymentIntentView {
                    id,
                    payer_agent,
                    payee_agent,
                    amount,
                    memo,
                    settlement_reference: Seq::empty(),
                    status: PaymentStatus::Pending,
                    created_at: now,
                };
                Ok((
                    PaymentsState {
                        intents: s.intents.push(intent),
                        payer_index: s.payer_index.insert(payer_agent, payer_ids(s, payer_agent).push(id)),
                        ..s
                    },
                    seq![PaymentsEventView::IntentCreated { id, intent }],
                ))
            },
        }
    }
}

/// `settle_intent`: the stored admin, named as `caller` and signing, marks a
/// pending intent settled under a non-empty settlement reference.
pub open spec fn settle_intent_spec(
    s: PaymentsState,
    auth: &Authorizations,
    caller: Address,
    intent_id: u64,
    settlement_reference: Seq<u8>,
) -> Transition<PaymentsState, PaymentsEventView> {
    match s.settings {
        None => Err(CallError::Contract(ProtocolError::NotInitialized)),
        Some(c) => if settlement_reference.len() == 0 {
            Err(CallError::Contract(ProtocolError::InvalidInput))
        } else if caller != c.admin {
            Err(CallError::Contract(ProtocolError::Unauthorized))
        } else if !auth.authorizes(caller) {
            Err(CallError::Auth(caller))
        } else {
            match intent_of(s, intent_id) {
                None => Err(CallError::Contract(ProtocolError::MissingRecord)),
                Some(x) => if x.status != PaymentStatus::Pending {
                    Err(CallError::Contract(ProtocolError::PaymentAlreadyFinalized))
                } else {
                    let y = PaymentIntentView { status: PaymentStatus::Settled, settlement_reference, ..x };
                    Ok((
                        PaymentsState { intents: s.intents.update(intent_id - 1, y), ..s },
                        seq![PaymentsEventView::IntentSettled { id: intent_id, intent: y }],
                    ))
                },
            }
        },
    }
}

/// `cancel_intent`: the payer recorded on a pending intent, signing, cancels it.
pub open spec fn cancel_intent_spec(s: PaymentsState, auth: &Authorizations, intent_id: u64) -> Transition<
    PaymentsState,
    PaymentsEventView,
> {
    if s.settings is None {
        Err(CallError::Contract(ProtocolError::NotInitialized))
    } else {
        match intent_of(s, intent_id) {
            None => Err(CallError::Contract(ProtocolError::MissingRecord)),
            Some(x) => if !auth.authorizes(x.payer_agent) {
                Err(CallError::Auth(x.payer_agent))
            } else if x.status != PaymentStatus::Pending {
                Err(CallError::Contract(ProtocolError::PaymentAlreadyFinalized))
            } else {
                let y = PaymentIntentView { status: PaymentStatus::Cancelled, ..x };
                Ok((
                    PaymentsState { intents: s.intents.update(intent_id - 1, y), ..s },
                    seq![PaymentsEventView::IntentCancelled { id: intent_id, intent: y }],
                ))
            },
        }
    }
}

/// `set_fee_bps`: the stored admin signs before the fee is validated.
pub open spec fn set_fee_bps_spec(s: PaymentsState, auth: &Authorizations, fee_bps: u32) -> Transition<
    PaymentsState,
    PaymentsEventView,
> {
    match s.settings {
        None => Err(CallError::Contract(ProtocolError::NotInitialized)),
        Some(c) => if !auth.authorizes(c.admin) {
            Err(CallError::Auth(c.admin))
        } else if fee_bps > MAX_BPS {
            Err(CallError::Contract(ProtocolError::FeeBpsTooHigh))
        } else {
            Ok((
                PaymentsState { settings: Some(PaymentsSettings { fee_bps, ..c }), ..s },
                seq![PaymentsEventView::FeeUpdated { admin: c.admin, fee_bps }],
            ))
        },
    }
}

/// `set_treasury`: the stored admin redirects fee collection.
pub open spec fn set_treasury_spec(s: PaymentsState, auth: &Authorizations, treasury: Address) -> Transition<
    PaymentsState,
    PaymentsEventView,
> {
    match s.settings {
        None => Err(CallError::Contract(ProtocolError::NotInitialized)),
        Some(c) => if !auth.authorizes(c.admin) {
            Err(CallError::Auth(c.admin))
        } else {
            Ok((
                PaymentsState { settings: Some(PaymentsSettings { treasury, ..c }), ..s },
                seq![PaymentsEventView::TreasuryUpdated { admin: c.admin, treasury }],
            ))
        },
    }
}

/// `transfer_admin`: the stored admin hands settlement authority to `new_admin`.
pub open spec fn transfer_admin_spec(s: PaymentsState, auth: &Authorizations, new_admin: Address) -> Transition<
    PaymentsState,
    PaymentsEventView,
> {
    match s.settings {
        None => Err(CallError::Contract(ProtocolError::NotInitialized)),
        Some(c) => if !auth.authorizes(c.admin) {
            Err(CallError::Auth(c.admin))
        } else {
            Ok((
                PaymentsState { settings: Some(PaymentsSettings { admin: new_admin, ..c }), ..s },
                seq![PaymentsEventView::AdminTransferred { previous: c.admin, admin: new_admin }],
            ))
        },
    }
}

/// The slice of `ids` starting at position `cursor` and at most `limit` long;
/// empty when the cursor is at or beyond the end.
pub open spec fn page(ids: Seq<u64>, cursor: int, limit: int) -> Seq<u64> {
    let start = if cursor < ids.len() { cursor } else { ids.len() as int };
    let end = if cursor + limit < ids.len() { cursor + limit } else { ids.len() as int };
    ids.subrange(start, end)
}

/// `list_intents`: a page of the payer's intents, in creation order.
pub open spec fn list_intents_spec(s: PaymentsState, payer: Address, cursor: u32, limit: u32) -> Result<
    Seq<PaymentIntentView>,
    CallError,
> {
    if s.settings is None {
        Err(CallError::Contract(ProtocolError::NotInitialized))
    } else if limit == 0 || limit > MAX_INTENTS_PAGE_SIZE {
        Err(CallError::Contract(ProtocolError::InvalidInput))
    } else {
        Ok(page(payer_ids(s, payer), cursor as int, limit as int).map_values(|id: u64| s.intents[id - 1]))
    }
}

/// The share of `amount` that `bps` basis points denote, rounded down.
pub open spec fn bps_portion(amount: int, bps: int) -> int {
    amount * bps / (MAX_BPS as int)
}

/// Appending an entry extends the history of its payer by its id and leaves
/// every other payer's history as it was.
proof fn lemma_history_push(keys: Seq<(u64, Address)>, k: (u64, Address))
    ensures
        history(keys.push(k), k.1) == history(keys, k.1).push(k.0),
        forall|p: Address| p != k.1 ==> #[trigger] history(keys.push(k), p) == history(keys, p),
{
    assert(keys.push(k).drop_last() =~= keys);
}

/// Whether `keys` holds the entry `(id, payer)`.
pub open spec fn has_entry(keys: Seq<(u64, Address)>, id: u64, payer: Address) -> bool {
    exists|j: int| 0 <= j < keys.len() && #[trigger] keys[j] == (id, payer)
}

/// Every id in a payer's history comes from an entry of that payer.
proof fn lemma_history_members(keys: Seq<(u64, Address)>, p: Address)
    ensures
        forall|m: int|
            0 <= m < history(keys, p).len() ==> #[trigger] has_entry(keys, history(keys, p)[m], p),
    decreases keys.len(),
{
    if keys.len() > 0 {
        let rest = keys.drop_last();
        lemma_history_members(rest, p);
        assert forall|m: int| 0 <= m < history(keys, p).len() implies #[trigger] has_entry(keys, history(keys, p)[m], p) by {
            if m < history(rest, p).len() {
                assert(has_entry(rest, history(rest, p)[m], p));
                let j = choose|j: int| 0 <= j < rest.len() && #[trigger] rest[j] == (history(rest, p)[m], p);
                assert(keys[j] == rest[j]);
            } else {
                assert(keys[keys.len() - 1] == (history(keys, p)[m], p));
            }
        }
    }
}

/// In a consistent state every id in a payer's index names a stored intent
/// of that payer.
proof fn lemma_index_ids_are_stored(s: PaymentsState, p: Address)
    requires
        consistent(s),
    ensures
        forall|m: int|
            0 <= m < payer_ids(s, p).len() ==> 1 <= #[trigger] payer_ids(s, p)[m] <= s.intents.len()
                && s.intents[payer_ids(s, p)[m] - 1].payer_agent == p,
{
    let keys = intent_keys(s.intents);
    lemma_history_members(keys, p);
    assert(payer_ids(s, p) == history(keys, p));
    assert forall|m: int| 0 <= m < payer_ids(s, p).len() implies 1 <= #[trigger] payer_ids(s, p)[m] <= s.intents.len()
        && s.intents[payer_ids(s, p)[m] - 1].payer_agent == p by {
        assert(has_entry(keys, history(keys, p)[m], p));
        let j = choose|j: int| 0 <= j < keys.len() && #[trigger] keys[j] == (history(keys, p)[m], p);
        assert(s.intents[j].id == j + 1);
    }
}

/// Creating an intent keeps the state consistent.
proof fn lemma_create_keeps_consistency(s: PaymentsState, t: PaymentsState, x: PaymentIntentView)
    requires
        consistent(s),
        x.id == next_id(s),
        next_id(s) < u64::MAX,
        t.intents == s.intents.push(x),
        t.payer_index == s.payer_index.insert(x.payer_agent, payer_ids(s, x.payer_agent).push(x.id)),
    ensures
        consistent(t),
{
    assert(intent_keys(t.intents) =~= intent_keys(s.intents).push((x.id, x.payer_agent)));
    lemma_history_push(intent_keys(s.intents), (x.id, x.payer_agent));
    assert forall|i: int| 0 <= i < t.intents.len() implies #[trigger] t.intents[i].id == i + 1 by {
        if i < s.intents.len() {
            assert(t.intents[i] == s.intents[i]);
        }
    }
    assert forall|p: Address| #[trigger] payer_ids(t, p) == history(intent_keys(t.intents), p) by {
        assert(payer_ids(s, p) == history(intent_keys(s.intents), p));
    }
}

/// Replacing an intent by one with the same id and payer keeps the state
/// consistent.
proof fn lemma_update_keeps_consistency(s: PaymentsState, t: PaymentsState, i: int, y: PaymentIntentView)
    requires
        consistent(s),
        0 <= i < s.intents.len(),
        y.id == s.intents[i].id,
        y.payer_agent == s.intents[i].payer_agent,
        t.intents == s.intents.update(i, y),
        t.payer_index == s.payer_index,
    ensures
        consistent(t),
{
    assert(intent_keys(t.intents) =~= intent_keys(s.intents));
    assert forall|j: int| 0 <= j < t.intents.len() implies #[trigger] t.intents[j].id == j + 1 by {
        if j != i {
            assert(t.intents[j] == s.intents[j]);
        }
    }
    assert forall|p: Address| #[trigger] payer_ids(t, p) == history(intent_keys(t.intents), p) by {
        assert(payer_ids(s, p) == history(intent_keys(s.intents), p));
    }
}

/// Consistency depends only on the intents and the index.
proof fn lemma_same_store_keeps_consistency(s: PaymentsState, t: PaymentsState)
    requires
        consistent(s),
        t.intents == s.intents,
        t.payer_index == s.payer_index,
    ensures
        consistent(t),
{
    assert forall|p: Address| #[trigger] payer_ids(t, p) == history(intent_keys(t.intents), p) by {
        assert(payer_ids(s, p) == history(intent_keys(s.intents), p));
    }
}

/// Whether an intent is no longer pending.
pub open spec fn finalized(x: PaymentIntentView) -> bool {
    x.status != PaymentStatus::Pending
}

/// The terms fixed when an intent is created: id, parties, amount, memo and
/// creation time.
pub open spec fn same_terms(x: PaymentIntentView, y: PaymentIntentView) -> bool {
    &&& x.id == y.id
    &&& x.payer_agent == y.payer_agent
    &&& x.payee_agent == y.payee_agent
    &&& x.amount == y.amount
    &&& x.memo == y.memo
    &&& x.created_at == y.created_at
}

/// `t` keeps every intent of `s` under its id with the same terms, and a
/// finalized intent of `s` entirely unchanged.
pub open spec fn keeps_intents(s: PaymentsState, t: PaymentsState) -> bool {
    &&& s.intents.len() <= t.intents.len()
    &&& forall|i: int|
        0 <= i < s.intents.len() ==> same_terms(#[trigger] s.intents[i], t.intents[i])
            && (finalized(s.intents[i]) ==> t.intents[i] == s.intents[i])
}

/// Ids listed in a history of entries numbered from 1 increase strictly and
/// never exceed the number of entries.
proof fn lemma_history_sorted(keys: Seq<(u64, Address)>, p: Address)
    requires
        forall|j: int| 0 <= j < keys.len() ==> (#[trigger] keys[j]).0 == j + 1,
    ensures
        forall|m: int| 0 <= m < history(keys, p).len() ==> #[trigger] history(keys, p)[m] <= keys.len(),
        forall|a: int, b: int|
            0 <= a < b < history(keys, p).len() ==> #[trigger] history(keys, p)[a] < #[trigger] history(keys, p)[b],
    decreases keys.len(),
{
    if keys.len() > 0 {
        let rest = keys.drop_last();
        assert forall|j: int| 0 <= j < rest.len() implies (#[trigger] rest[j]).0 == j + 1 by {
            assert(rest[j] == keys[j]);
        }
        lemma_history_sorted(rest, p);
        let h = history(keys, p);
        let g = history(rest, p);
        assert(keys[keys.len() - 1].0 == keys.len());
        if keys.last().1 == p {
            assert(h == g.push(keys.last().0));
            assert forall|m: int| 0 <= m < h.len() implies #[trigger] h[m] <= keys.len() by {
                if m < g.len() {
                    assert(h[m] == g[m]);
                }
            }
            assert forall|a: int, b: int| 0 <= a < b < h.len() implies #[trigger] h[a] < #[trigger] h[b] by {
                assert(h[a] == g[a]);
                if b < g.len() {
                    assert(h[b] == g[b]);
                } else {
                    assert(g[a] <= rest.len());
                }
            }
        } else {
            assert(h == g);
        }
    }
}

/// Every entry of a payer shows up in that payer's history.
proof fn lemma_history_complete(keys: Seq<(u64, Address)>, p: Address)
    ensures
        forall|j: int| 0 <= j < keys.len() && (#[trigger] keys[j]).1 == p ==> history(keys, p).contains(keys[j].0),
    decreases keys.len(),
{
    if keys.len() > 0 {
        let rest = keys.drop_last();
        lemma_history_complete(rest, p);
        assert forall|j: int| 0 <= j < keys.len() && (#[trigger] keys[j]).1 == p implies history(keys, p).contains(keys[j].0) by {
            if j < rest.len() {
                assert(rest[j] == keys[j]);
                let h = history(rest, p);
                let m = choose|m: int| 0 <= m < h.len() && h[m] == rest[j].0;
                assert(history(keys, p)[m] == h[m]);
            } else {
                assert(history(keys, p)[history(keys, p).len() - 1] == keys[j].0);
            }
        }
    }
}

/// Payment intents are indexed per payer in creation order: in a consistent
/// state the index of a payer lists, in strictly increasing id order, the ids
/// of exactly the intents that payer created.
pub proof fn payer_index_lists_exactly_the_payers_intents(s: PaymentsState, p: Address)
    requires
        consistent(s),
    ensures
        forall|a: int, b: int|
            0 <= a < b < payer_ids(s, p).len() ==> #[trigger] payer_ids(s, p)[a] < #[trigger] payer_ids(s, p)[b],
        forall|m: int|
            0 <= m < payer_ids(s, p).len() ==> intent_of(s, #[trigger] payer_ids(s, p)[m]) is Some
                && intent_of(s, payer_ids(s, p)[m])->0.payer_agent == p,
        forall|i: int|
            0 <= i < s.intents.len() && (#[trigger] s.intents[i]).payer_agent == p ==> payer_ids(s, p).contains(
                s.intents[i].id,
            ),
{
    let keys = intent_keys(s.intents);
    assert(payer_ids(s, p) == history(keys, p));
    assert forall|j: int| 0 <= j < keys.len() implies (#[trigger] keys[j]).0 == j + 1 by {
        assert(s.intents[j].id == j + 1);
    }
    lemma_history_sorted(keys, p);
    lemma_history_complete(keys, p);
    lemma_index_ids_are_stored(s, p);
    assert forall|i: int| 0 <= i < s.intents.len() && (#[trigger] s.intents[i]).payer_agent == p
        implies payer_ids(s, p).contains(s.intents[i].id) by {
        assert(keys[i] == (s.intents[i].id, s.intents[i].payer_agent));
    }
}

/// Pages concatenate: the page of `first` items at `cursor` followed by the
/// page of `second` items right after it is the page of `first + second`
/// items at `cursor`.
pub proof fn pages_concatenate(ids: Seq<u64>, cursor: nat, first: nat, second: nat)
    ensures
        page(ids, cursor as int, first as int) + page(ids, (cursor + first) as int, second as int)
            == page(ids, cursor as int, (first + second) as int),
{
    assert(page(ids, cursor as int, first as int) + page(ids, (cursor + first) as int, second as int)
        =~= page(ids, cursor as int, (first + second) as int));
}

/// A page never holds more than `limit` ids, so a read returns at most
/// `MAX_INTENTS_PAGE_SIZE` intents.
pub proof fn pages_are_bounded(ids: Seq<u64>, cursor: nat, limit: nat)
    ensures
        page(ids, cursor as int, limit as int).len() <= limit,
{
}

/// What `list_intents` returns: on a consistent, initialized contract, a
/// limit outside `1..=MAX_INTENTS_PAGE_SIZE` is rejected with `InvalidInput`;
/// otherwise the result holds `min(limit, n - cursor)` intents (none when the
/// cursor is at or past the end), where `n` is the number of intents the
/// payer created, and its `i`-th entry is the stored intent, whatever its
/// status, at position `cursor + i` of the payer's intents in creation order.
pub proof fn list_intents_pages_the_payers_history(s: PaymentsState, payer: Address, cursor: u32, limit: u32)
    requires
        consistent(s),
        s.settings is Some,
    ensures
        limit == 0 || limit > MAX_INTENTS_PAGE_SIZE ==> list_intents_spec(s, payer, cursor, limit)
            == Err::<Seq<PaymentIntentView>, CallError>(CallError::Contract(ProtocolError::InvalidInput)),
        1 <= limit <= MAX_INTENTS_PAGE_SIZE ==> {
            let r = list_intents_spec(s, payer, cursor, limit);
            let v = r->Ok_0;
            let h = history(intent_keys(s.intents), payer);
            &&& r is Ok
            &&& v.len() == (if cursor >= h.len() {
                0int
            } else if cursor + limit <= h.len() {
                limit as int
            } else {
                h.len() - cursor
            })
            &&& forall|i: int|
                0 <= i < v.len() ==> #[trigger] v[i].id == h[cursor + i] && v[i].payer_agent == payer
                    && intent_of(s, v[i].id) == Some(v[i])
        },
{
    let h = history(intent_keys(s.intents), payer);
    assert(payer_ids(s, payer) == h);
    lemma_index_ids_are_stored(s, payer);
    if 1 <= limit <= MAX_INTENTS_PAGE_SIZE {
        let v = list_intents_spec(s, payer, cursor, limit)->Ok_0;
        let w = page(h, cursor as int, limit as int);
        assert forall|i: int| 0 <= i < v.len() implies #[trigger] v[i].id == h[cursor + i] && v[i].payer_agent
            == payer && intent_of(s, v[i].id) == Some(v[i]) by {
            assert(w[i] == h[cursor + i]);
            assert(v[i] == s.intents[w[i] - 1]);
            assert(1 <= h[cursor + i] <= s.intents.len());
            assert(s.intents[h[cursor + i] - 1].id == h[cursor + i] - 1 + 1);
        }
    }
}

/// What settling does: on an initialized contract, the admin naming itself
/// as caller and signing, with a non-empty reference, settles any pending
/// intent; afterwards that intent reads settled under the given reference
/// with its terms unchanged, every other intent, the settings and the next
/// id are as they were, and the event carries the stored intent.
pub proof fn settle_marks_the_intent_settled(
    s: PaymentsState,
    auth: Authorizations,
    caller: Address,
    intent_id: u64,
    settlement_reference: Seq<u8>,
    other_id: u64,
)
    requires
        other_id != intent_id,
    ensures
        s.settings is Some && settlement_reference.len() > 0 && caller == s.settings->0.admin && auth.authorizes(caller)
            && intent_of(s, intent_id) is Some && intent_of(s, intent_id)->0.status == PaymentStatus::Pending
            ==> settle_intent_spec(s, &auth, caller, intent_id, settlement_reference) is Ok,
        settle_intent_spec(s, &auth, caller, intent_id, settlement_reference) is Ok ==> {
            let r = settle_intent_spec(s, &auth, caller, intent_id, settlement_reference);
            let t = next_state(s, r);
            let x = intent_of(s, intent_id)->0;
            let y = intent_of(t, intent_id)->0;
            &&& intent_of(s, intent_id) is Some && intent_of(t, intent_id) is Some
            &&& x.status == PaymentStatus::Pending
            &&& y.status == PaymentStatus::Settled
            &&& y.settlement_reference == settlement_reference
            &&& same_terms(x, y)
            &&& intent_of(t, other_id) == intent_of(s, other_id)
            &&& t.settings == s.settings
            &&& next_id(t) == next_id(s)
            &&& t.payer_index == s.payer_index
            &&& r->Ok_0.1 == seq![PaymentsEventView::IntentSettled { id: intent_id, intent: y }]
        },
{
}

/// What cancelling does: on an initialized contract, the payer of a pending
/// intent, signing, cancels it; afterwards that intent reads cancelled with
/// its terms and reference unchanged, every other intent, the settings and
/// the next id are as they were, and the event carries the stored intent.
pub proof fn cancel_marks_the_intent_cancelled(
    s: PaymentsState,
    auth: Authorizations,
    intent_id: u64,
    other_id: u64,
)
    requires
        other_id != intent_id,
    ensures
        s.settings is Some && intent_of(s, intent_id) is Some && auth.authorizes(intent_of(s, intent_id)->0.payer_agent)
            && intent_of(s, intent_id)->0.status == PaymentStatus::Pending
            ==> cancel_intent_spec(s, &auth, intent_id) is Ok,
        cancel_intent_spec(s, &auth, intent_id) is Ok ==> {
            let r = cancel_intent_spec(s, &auth, intent_id);
            let t = next_state(s, r);
            let x = intent_of(s, intent_id)->0;
            let y = intent_of(t, intent_id)->0;
            &&& intent_of(s, intent_id) is Some && intent_of(t, intent_id) is Some
            &&& x.status == PaymentStatus::Pending
            &&& auth.authorizes(x.payer_agent)
            &&& y.status == PaymentStatus::Cancelled
            &&& y.settlement_reference == x.settlement_reference
            &&& same_terms(x, y)
            &&& intent_of(t, other_id) == intent_of(s, other_id)
            &&& t.settings == s.settings
            &&& next_id(t) == next_id(s)
            &&& t.payer_index == s.payer_index
            &&& r->Ok_0.1 == seq![PaymentsEventView::IntentCancelled { id: intent_id, intent: y }]
        },
{
}

/// What the admin's settings do: signed by the stored admin of an
/// initialized contract, any fee up to `MAX_BPS`, any treasury and any new
/// admin are accepted; afterwards the configured fee, treasury or admin is
/// exactly the one given, the other settings, the intents and the pinned
/// admin are as they were, and the event names the old admin and the new value.
pub proof fn settings_take_the_given_values(
    s: PaymentsState,
    auth: Authorizations,
    fee_bps: u32,
    treasury: Address,
    new_admin: Address,
)
    ensures
        s.settings is Some && auth.authorizes(s.settings->0.admin) ==> {
            &&& (fee_bps <= MAX_BPS ==> set_fee_bps_spec(s, &auth, fee_bps) is Ok)
            &&& set_treasury_spec(s, &auth, treasury) is Ok
            &&& transfer_admin_spec(s, &auth, new_admin) is Ok
        },
        set_fee_bps_spec(s, &auth, fee_bps) is Ok ==> {
            let r = set_fee_bps_spec(s, &auth, fee_bps);
            let t = next_state(s, r);
            let c = s.settings->0;
            &&& t.settings is Some
            &&& t.settings->0.fee_bps == fee_bps
            &&& t.settings->0.admin == c.admin
            &&& t.settings->0.treasury == c.treasury
            &&& t.settings->0.wallet_contract == c.wallet_contract
            &&& t.intents == s.intents && t.payer_index == s.payer_index
            &&& t.pinned_admin == s.pinned_admin
            &&& r->Ok_0.1 == seq![PaymentsEventView::FeeUpdated { admin: c.admin, fee_bps }]
        },
        set_treasury_spec(s, &auth, treasury) is Ok ==> {
            let r = set_treasury_spec(s, &auth, treasury);
            let t = next_state(s, r);
            let c = s.settings->0;
            &&& t.settings is Some
            &&& t.settings->0.treasury == treasury
            &&& t.settings->0.admin == c.admin
            &&& t.settings->0.fee_bps == c.fee_bps
            &&& t.settings->0.wallet_contract == c.wallet_contract
            &&& t.intents == s.intents && t.payer_index == s.payer_index
            &&& t.pinned_admin == s.pinned_admin
            &&& r->Ok_0.1 == seq![PaymentsEventView::TreasuryUpdated { admin: c.admin, treasury }]
        },
        transfer_admin_spec(s, &auth, new_admin) is Ok ==> {
            let r = transfer_admin_spec(s, &auth, new_admin);
            let t = next_state(s, r);
            let c = s.settings->0;
            &&& t.settings is Some
            &&& t.settings->0.admin == new_admin
            &&& t.settings->0.treasury == c.treasury
            &&& t.settings->0.fee_bps == c.fee_bps
            &&& t.settings->0.wallet_contract == c.wallet_contract
            &&& t.intents == s.intents && t.payer_index == s.payer_index
            &&& t.pinned_admin == s.pinned_admin
            &&& r->Ok_0.1 == seq![PaymentsEventView::AdminTransferred { previous: c.admin, admin: new_admin }]
        },
{
}

/// Fee boundaries: a fee of 0 basis points takes nothing, a fee of
/// `MAX_BPS` takes the whole amount, and every fee lies between the two.
pub proof fn fee_boundaries(amount: nat, fee_bps: nat)
    requires
        fee_bps <= MAX_BPS,
    ensures
        bps_portion(amount as int, 0) == 0,
        bps_portion(amount as int, MAX_BPS as int) == amount,
        0 <= bps_portion(amount as int, fee_bps as int) <= amount,
{
    assert(amount * fee_bps <= amount * MAX_BPS) by (nonlinear_arith)
        requires
            fee_bps <= MAX_BPS,
    ;
    assert(amount * fee_bps / 10_000 <= amount) by (nonlinear_arith)
        requires
            amount * fee_bps <= amount * 10_000,
    ;
    assert(amount * MAX_BPS / (MAX_BPS as int) == amount) by (nonlinear_arith);
}

/// Every operation keeps the storage consistent: ids stay gapless from 1 and
/// each payer's index keeps listing exactly that payer's intents in creation
/// order.
pub proof fn consistency_is_invariant(
    s: PaymentsState,
    auth: Authorizations,
    admin: Address,
    treasury: Address,
    fee_bps: u32,
    wallet_contract: Address,
    payer: Address,
    payee: Address,
    amount: i128,
    memo: Seq<u8>,
    binding: Result<WalletBindingView, CallError>,
    now: u64,
    intent_id: u64,
    reference: Seq<u8>,
)
    requires
        consistent(s),
    ensures
        consistent(next_state(s, initialize_spec(s, &auth, admin, treasury, fee_bps, wallet_contract))),
        consistent(next_state(s, create_intent_spec(s, &auth, payer, payee, amount, memo, binding, now))),
        consistent(next_state(s, settle_intent_spec(s, &auth, admin, intent_id, reference))),
        consistent(next_state(s, cancel_intent_spec(s, &auth, intent_id))),
        consistent(next_state(s, set_fee_bps_spec(s, &auth, fee_bps))),
        consistent(next_state(s, set_treasury_spec(s, &auth, treasury))),
        consistent(next_state(s, transfer_admin_spec(s, &auth, admin))),
{
    lemma_same_store_keeps_consistency(s, next_state(s, initialize_spec(s, &auth, admin, treasury, fee_bps, wallet_contract)));
    lemma_same_store_keeps_consistency(s, next_state(s, set_fee_bps_spec(s, &auth, fee_bps)));
    lemma_same_store_keeps_consistency(s, next_state(s, set_treasury_spec(s, &auth, treasury)));
    lemma_same_store_keeps_consistency(s, next_state(s, transfer_admin_spec(s, &auth, admin)));
    if let Ok((t, _)) = create_intent_spec(s, &auth, payer, payee, amount, memo, binding, now) {
        lemma_create_keeps_consistency(s, t, t.intents.last());
    }
    if let Ok((t, _)) = settle_intent_spec(s, &auth, admin, intent_id, reference) {
        lemma_update_keeps_consistency(s, t, intent_id - 1, t.intents[intent_id - 1]);
    }
    if let Ok((t, _)) = cancel_intent_spec(s, &auth, intent_id) {
        lemma_update_keeps_consistency(s, t, intent_id - 1, t.intents[intent_id - 1]);
    }
}

/// Intents are append-only and their terms are fixed at creation: every
/// operation keeps each existing intent under its id with the same payer,
/// payee, amount, memo and creation time, and leaves a settled or cancelled
/// intent entirely unchanged; a successful `create_intent` appends exactly one
/// pending intent, under the next id.
pub proof fn intents_are_append_only_and_final(
    s: PaymentsState,
    auth: Authorizations,
    admin: Address,
    treasury: Address,
    fee_bps: u32,
    wallet_contract: Address,
    payer: Address,
    payee: Address,
    amount: i128,
    memo: Seq<u8>,
    binding: Result<WalletBindingView, CallError>,
    now: u64,
    caller: Address,
    intent_id: u64,
    reference: Seq<u8>,
)
    ensures
        keeps_intents(s, next_state(s, initialize_spec(s, &auth, admin, treasury, fee_bps, wallet_contract))),
        keeps_intents(s, next_state(s, create_intent_spec(s, &auth, payer, payee, amount, memo, binding, now))),
        keeps_intents(s, next_state(s, settle_intent_spec(s, &auth, caller, intent_id, reference))),
        keeps_intents(s, next_state(s, cancel_intent_spec(s, &auth, intent_id))),
        keeps_intents(s, next_state(s, set_fee_bps_spec(s, &auth, fee_bps))),
        keeps_intents(s, next_state(s, set_treasury_spec(s, &auth, treasury))),
        keeps_intents(s, next_state(s, transfer_admin_spec(s, &auth, admin))),
        create_intent_spec(s, &auth, payer, payee, amount, memo, binding, now) is Ok ==> {
            let t = next_state(s, create_intent_spec(s, &auth, payer, payee, amount, memo, binding, now));
            &&& t.intents.len() == s.intents.len() + 1
            &&& t.intents.last().id == next_id(s)
            &&& t.intents.last().status == PaymentStatus::Pending
            &&& t.intents.last().payer_agent == payer
        },
{
    if let Ok((t, _)) = create_intent_spec(s, &auth, payer, payee, amount, memo, binding, now) {
        assert forall|i: int| 0 <= i < s.intents.len() implies same_terms(#[trigger] s.intents[i], t.intents[i])
            && (finalized(s.intents[i]) ==> t.intents[i] == s.intents[i]) by {
            assert(t.intents[i] == s.intents[i]);
        }
    }
}

/// The input checks of `create_intent`: for an initialized contract, a payer
/// that signs, an enabled binding that covers any valid amount, and a free
/// next id, the call is rejected with `InvalidInput` exactly when the amount
/// is not in `1..=MAX_PAYMENT_AMOUNT`, the memo is empty or the payer pays
/// itself, and it succeeds otherwise.
pub proof fn create_intent_input_checks(
    s: PaymentsState,
    auth: Authorizations,
    payer: Address,
    payee: Address,
    amount: i128,
    memo: Seq<u8>,
    binding: WalletBindingView,
    now: u64,
)
    requires
        s.settings is Some,
        auth.authorizes(payer),
        binding.enabled,
        0 < amount <= MAX_PAYMENT_AMOUNT ==> amount <= binding.spend_limit,
        next_id(s) < u64::MAX,
    ensures
        ({
            let invalid = amount <= 0 || amount > MAX_PAYMENT_AMOUNT || memo.len() == 0 || payer == payee;
            let r = create_intent_spec(s, &auth, payer, payee, amount, memo, Ok(binding), now);
            &&& (r == Err::<(PaymentsState, Seq<PaymentsEventView>), CallError>(
                CallError::Contract(ProtocolError::InvalidInput),
            )) <==> invalid
            &&& r is Ok <==> !invalid
        }),
{
}

/// A successful `create_intent` on a consistent state stores the new intent
/// under the next id, which was free, pending and with the given terms;
/// the next id grows by one, every earlier intent and the settings stay as
/// they were, the payer's index gains the id, and the state stays consistent.
pub proof fn create_intent_assigns_next_id(
    s: PaymentsState,
    auth: Authorizations,
    payer: Address,
    payee: Address,
    amount: i128,
    memo: Seq<u8>,
    binding: WalletBindingView,
    now: u64,
)
    requires
        consistent(s),
        s.settings is Some,
        0 < amount <= MAX_PAYMENT_AMOUNT,
        memo.len() > 0,
        payer != payee,
        auth.authorizes(payer),
        binding.enabled,
        amount <= binding.spend_limit,
        next_id(s) < u64::MAX,
    ensures
        ({
            let r = create_intent_spec(s, &auth, payer, payee, amount, memo, Ok(binding), now);
            let t = next_state(s, r);
            let n = next_id(s) as u64;
            let x = PaymentIntentView {
                id: n,
                payer_agent: payer,
                payee_agent: payee,
                amount,
                memo,
                settlement_reference: Seq::empty(),
                status: PaymentStatus::Pending,
                created_at: now,
            };
            &&& r == Ok::<(PaymentsState, Seq<PaymentsEventView>), CallError>((
                t,
                seq![PaymentsEventView::IntentCreated { id: n, intent: x }],
            ))
            &&& intent_of(s, n) is None
            &&& intent_of(t, n) == Some(x)
            &&& next_id(t) == next_id(s) + 1
            &&& t.settings == s.settings
            &&& t.pinned_admin == s.pinned_admin
            &&& t.schema_version == s.schema_version
            &&& forall|id: u64| #[trigger] intent_of(s, id) is Some ==> intent_of(t, id) == intent_of(s, id)
            &&& payer_ids(t, payer) == payer_ids(s, payer).push(n)
            &&& consistent(t)
        }),
{
    let r = create_intent_spec(s, &auth, payer, payee, amount, memo, Ok(binding), now);
    let t = next_state(s, r);
    lemma_create_keeps_consistency(s, t, t.intents.last());
    assert forall|id: u64| #[trigger] intent_of(s, id) is Some implies intent_of(t, id) == intent_of(s, id) by {
        assert(t.intents[id - 1] == s.intents[id - 1]);
    }
}

/// A settled or cancelled intent can be neither settled nor cancelled again:
/// once the other checks of the call pass, both are rejected with
/// `PaymentAlreadyFinalized`.
pub proof fn finalized_intents_reject_transitions(
    s: PaymentsState,
    auth: Authorizations,
    intent_id: u64,
    reference: Seq<u8>,
)
    requires
        s.settings is Some,
        intent_of(s, intent_id) matches Some(x) && finalized(x),
        reference.len() > 0,
        auth.authorizes(s.settings->0.admin),
        auth.authorizes(intent_of(s, intent_id)->0.payer_agent),
    ensures
        settle_intent_spec(s, &auth, s.settings->0.admin, intent_id, reference)
            == Err::<(PaymentsState, Seq<PaymentsEventView>), CallError>(
            CallError::Contract(ProtocolError::PaymentAlreadyFinalized),
        ),
        cancel_intent_spec(s, &auth, intent_id) == Err::<(PaymentsState, Seq<PaymentsEventView>), CallError>(
            CallError::Contract(ProtocolError::PaymentAlreadyFinalized),
        ),
{
}

/// Initialization happens at most once.
pub proof fn initialize_is_one_time(
    s: PaymentsState,
    auth: Authorizations,
    admin: Address,
    treasury: Address,
    fee_bps: u32,
    wallet_contract: Address,
    again_auth: Authorizations,
    again_admin: Address,
    again_treasury: Address,
    again_fee_bps: u32,
    again_wallet: Address,
)
    requires
        initialize_spec(s, &auth, admin, treasury, fee_bps, wallet_contract) is Ok,
    ensures
        initialize_spec(
            next_state(s, initialize_spec(s, &auth, admin, treasury, fee_bps, wallet_contract)),
            &again_auth,
            again_admin,
            again_treasury,
            again_fee_bps,
            again_wallet,
        ) == Err::<(PaymentsState, Seq<PaymentsEventView>), CallError>(
            CallError::Contract(ProtocolError::AlreadyInitialized),
        ),
{
}

/// The payments contract.
pub struct PaymentsContract {
    pinned_admin: Address,
    settings: Option<PaymentsSettings>,
    schema_version: u32,
    intents: Vec<PaymentIntent>,
    payer_index: AddressTable<Vec<u64>>,
    guards: GuardFlags,
}

impl View for PaymentsContract {
    type V = PaymentsState;

    closed spec fn view(&self) -> PaymentsState {
        PaymentsState {
            pinned_admin: self.pinned_admin,
            settings: self.settings,
            schema_version: self.schema_version,
            intents: seq_views(self.intents@),
            payer_index: self.payer_index@,
        }
    }
}

/// A copy of a list of ids.
fn copy_ids(ids: &Vec<u64>) -> (r: Vec<u64>)
    ensures
        r@ == ids@,
{
    let mut out: Vec<u64> = Vec::new();
    let n = ids.len();
    for i in 0..n
        invariant
            n == ids@.len(),
            out@ =~= ids@.subrange(0, i as int),
    {
        out.push(ids[i]);
    }
    out
}

/// The key of the guard held across settlement: the bytes of `settle`.
fn settle_guard_key() -> (k: Vec<u8>)
    ensures
        k@ == seq![115u8, 101u8, 116u8, 116u8, 108u8, 101u8],
{
    let mut k: Vec<u8> = Vec::new();
    k.push(115);
    k.push(101);
    k.push(116);
    k.push(116);
    k.push(108);
    k.push(101);
    assert(k@ =~= seq![115u8, 101u8, 116u8, 116u8, 108u8, 101u8]);
    k
}

/// The key of the guard held across cancellation: the bytes of `cancel`.
fn cancel_guard_key() -> (k: Vec<u8>)
    ensures
        k@ == seq![99u8, 97u8, 110u8, 99u8, 101u8, 108u8],
{
    let mut k: Vec<u8> = Vec::new();
    k.push(99);
    k.push(97);
    k.push(110);
    k.push(99);
    k.push(101);
    k.push(108);
    assert(k@ =~= seq![99u8, 97u8, 110u8, 99u8, 101u8, 108u8]);
    k
}

impl PaymentsContract {
    /// Storage is consistent and no reentrancy guard is held between calls.
    pub closed spec fn wf(&self) -> bool {
        &&& self.payer_index.wf()
        &&& self.guards.is_clear()
        &&& consistent(self@)
    }

    /// Deploy the contract, pinning the address allowed to initialize it.
    pub fn new(initial_admin: Address) -> (c: Self)
        ensures
            c.wf(),
            c@.pinned_admin == initial_admin,
            c@.settings is None,
            c@.schema_version == 0,
            c@.intents == Seq::<PaymentIntentView>::empty(),
            c@.payer_index == Map::<Address, Seq<u64>>::empty(),
    {
        let c = PaymentsContract {
            pinned_admin: initial_admin,
            settings: None,
            schema_version: 0,
            intents: Vec::new(),
            payer_index: AddressTable::new(),
            guards: GuardFlags::new(),
        };
        proof {
            assert(c@.intents =~= Seq::<PaymentIntentView>::empty());
            assert forall|p: Address| #[trigger] payer_ids(c@, p) == history(intent_keys(c@.intents), p) by {
                assert(intent_keys(c@.intents) =~= Seq::<(u64, Address)>::empty());
            }
        }
        c
    }

    /// Rebuild the contract from its stored records, recomputing each payer's
    /// index from the intents in order; `None` when the intents are not
    /// numbered 1, 2, 3, ... in order or leave no next id.
    pub fn restore(
        pinned_admin: Address,
        settings: Option<PaymentsSettings>,
        schema_version: u32,
        intents: Vec<PaymentIntent>,
    ) -> (r: Option<Self>)
        ensures
            match r {
                Some(c) => c.wf() && c@.pinned_admin == pinned_admin && c@.settings == settings
                    && c@.schema_version == schema_version && c@.intents == seq_views(intents@),
                None => !(intents@.len() < u64::MAX && forall|i: int|
                    0 <= i < intents@.len() ==> (#[trigger] intents@[i]).id == i + 1),
            },
    {
        let n = intents.len();
        if n as u64 == u64::MAX {
            return None;
        }
        let ghost views = seq_views(intents@);
        let mut index: AddressTable<Vec<u64>> = AddressTable::new();
        let mut i: usize = 0;
        proof {
            assert(intent_keys(views.take(0)) =~= Seq::<(u64, Address)>::empty());
        }
        while i < n
            invariant
                n == intents@.len(),
                i <= n,
                views == seq_views(intents@),
                index.wf(),
                forall|j: int| 0 <= j < i ==> (#[trigger] intents@[j]).id == j + 1,
                forall|p: Address| #[trigger] index_ids(index@, p) == history(intent_keys(views.take(i as int)), p),
            decreases n - i,
        {
            let x = &intents[i];
            if x.id != i as u64 + 1 {
                return None;
            }
            let mut ids = match index.get(x.payer_agent) {
                Some(v) => copy_ids(v),
                None => Vec::new(),
            };
            proof {
                assert(ids@ == index_ids(index@, x.payer_agent));
            }
            ids.push(x.id);
            let ghost before = index@;
            index.insert(x.payer_agent, ids);
            proof {
                let key = (x.id, x.payer_agent);
                assert(intent_keys(views.take(i + 1)) =~= intent_keys(views.take(i as int)).push(key));
                lemma_history_push(intent_keys(views.take(i as int)), key);
                assert forall|p: Address| #[trigger] index_ids(index@, p) == history(
                    intent_keys(views.take(i + 1)),
                    p,
                ) by {
                    assert(index_ids(before, p) == history(intent_keys(views.take(i as int)), p));
                }
            }
            i = i + 1;
        }
        let c = PaymentsContract {
            pinned_admin,
            settings,
            schema_version,
            intents,
            payer_index: index,
            guards: GuardFlags::new(),
        };
        proof {
            assert(views.take(n as int) =~= views);
            assert forall|j: int| 0 <= j < c@.intents.len() implies #[trigger] c@.intents[j].id == j + 1 by {
                assert(c@.intents[j] == c.intents@[j]@);
            }
            assert forall|p: Address| #[trigger] payer_ids(c@, p) == history(intent_keys(c@.intents), p) by {
                assert(index_ids(c.payer_index@, p) == history(intent_keys(views.take(n as int)), p));
            }
        }
        Some(c)
    }

    /// The stored records of the contract: the pinned admin, the settings,
    /// the schema version and every intent in id order.
    pub fn into_parts(self) -> (r: (Address, Option<PaymentsSettings>, u32, Vec<PaymentIntent>))
        ensures
            r.0 == self@.pinned_admin,
            r.1 == self@.settings,
            r.2 == self@.schema_version,
            seq_views(r.3@) == self@.intents,
    {
        (self.pinned_admin, self.settings, self.schema_version, self.intents)
    }

    /// Initialize settlement configuration once.
    pub fn initialize(
        &mut self,
        auth: &Authorizations,
        admin: Address,
        treasury: Address,
        fee_bps: u32,
        wallet_contract: Address,
    ) -> (r: Result<Vec<PaymentsEvent>, CallError>)
        requires
            old(self).wf(),
        ensures
            final(self).wf(),
            commits(
                r,
                old(self)@,
                final(self)@,
                initialize_spec(old(self)@, auth, admin, treasury, fee_bps, wallet_contract),
            ),
    {
        if self.settings.is_some() {
            return Err(CallError::Contract(ProtocolError::AlreadyInitialized));
        }
        if let Err(e) = require(admin == self.pinned_admin, ProtocolError::Unauthorized) {
            return Err(e);
        }
        if let Err(e) = require_valid_bps(fee_bps) {
            return Err(e);
        }
        if let Err(e) = require_auth_or_error(admin, auth) {
            return Err(e);
        }
        self.settings = Some(PaymentsSettings { admin, treasury, fee_bps, wallet_contract });
        self.schema_version = SCHEMA_VERSION;
        proof {
            lemma_same_store_keeps_consistency(old(self)@, self@);
        }
        let mut events = Vec::new();
        events.push(PaymentsEvent::Initialized { treasury });
        proof {
            assert(seq_views(events@) =~= seq![PaymentsEventView::Initialized { treasury }]);
        }
        Ok(events)
    }

    /// Whether the contract has been initialized.
    pub fn is_initialized(&self) -> (r: bool)
        ensures
            r == self@.settings is Some,
    {
        self.settings.is_some()
    }

    /// The stored schema version.
    pub fn schema_version(&self) -> (r: Result<u32, CallError>)
        ensures
            r == if self@.settings is Some {
                Ok::<u32, CallError>(self@.schema_version)
            } else {
                Err(CallError::Contract(ProtocolError::NotInitialized))
            },
    {
        if self.settings.is_none() {
            return Err(CallError::Contract(ProtocolError::NotInitialized));
        }
        Ok(self.schema_version)
    }

    /// The active payments configuration.
    pub fn get_config(&self) -> (r: Result<PaymentsConfig, CallError>)
        requires
            self.wf(),
        ensures
            r == match self@.settings {
                Some(c) => Ok::<PaymentsConfig, CallError>(
                    PaymentsConfig {
                        admin: c.admin,
                        treasury: c.treasury,
                        fee_bps: c.fee_bps,
                        next_intent_id: next_id(self@) as u64,
                    },
                ),
                None => Err(CallError::Contract(ProtocolError::NotInitialized)),
            },
    {
        let c = match self.settings {
            Some(c) => c,
            None => return Err(CallError::Contract(ProtocolError::NotInitialized)),
        };
        Ok(PaymentsConfig {
            admin: c.admin,
            treasury: c.treasury,
            fee_bps: c.fee_bps,
            next_intent_id: self.intents.len() as u64 + 1,
        })
    }

    /// The id the next created intent will receive.
    pub fn get_next_intent_id(&self) -> (r: Result<u64, CallError>)
        requires
            self.wf(),
        ensures
            r == if self@.settings is Some {
                Ok::<u64, CallError>(next_id(self@) as u64)
            } else {
                Err(CallError::Contract(ProtocolError::NotInitialized))
            },
    {
        if self.settings.is_none() {
            return Err(CallError::Contract(ProtocolError::NotInitialized));
        }
        Ok(self.intents.len() as u64 + 1)
    }
    /// Create a payment intent that can be settled asynchronously; returns
    /// its id.
    pub fn create_intent(
        &mut self,
        auth: &Authorizations,
        payer_agent: Address,
        payee_agent: Address,
        amount: i128,
        memo: Vec<u8>,
        payer_binding: Result<WalletBinding, CallError>,
        now: u64,
    ) -> (r: Result<(u64, Vec<PaymentsEvent>), CallError>)
        requires
            old(self).wf(),
        ensures
            final(self).wf(),
            match create_intent_spec(
                old(self)@,
                auth,
                payer_agent,
                payee_agent,
                amount,
                memo@,
                binding_result_view(payer_binding),
                now,
            ) {
                Ok((next, events)) => r is Ok && final(self)@ == next && r->Ok_0.0 == next_id(old(self)@)
                    && seq_views(r->Ok_0.1@) == events,
                Err(e) => r == Err::<(u64, Vec<PaymentsEvent>), CallError>(e) && final(self)@ == old(self)@,
            },
    {
        if self.settings.is_none() {
            return Err(CallError::Contract(ProtocolError::NotInitialized));
        }
        if let Err(e) = require(amount > 0 && amount <= MAX_PAYMENT_AMOUNT, ProtocolError::InvalidInput) {
            return Err(e);
        }
        if let Err(e) = require(memo.len() > 0, ProtocolError::InvalidInput) {
            return Err(e);
        }
        if let Err(e) = require(payer_agent != payee_agent, ProtocolError::InvalidInput) {
            return Err(e);
        }
        if let Err(e) = require_auth_or_error(payer_agent, auth) {
            return Err(e);
        }
        let binding = match payer_binding {
            Ok(b) => b,
            Err(e) => return Err(e),
        };
        if let Err(e) = require(binding.enabled && amount <= binding.spend_limit, ProtocolError::InvalidInput) {
            return Err(e);
        }
        let count = self.intents.len() as u64;
        if count >= u64::MAX - 1 {
            return Err(CallError::Overflow);
        }
        let id = count + 1;
        let intent = PaymentIntent {
            id,
            payer_agent,
            payee_agent,
            amount,
            memo,
            settlement_reference: Vec::new(),
            status: PaymentStatus::Pending,
            created_at: now,
        };
        let published = intent.duplicate();
        let ghost before = self@;
        let ghost x = intent@;
        self.intents.push(intent);
        let mut ids = match self.payer_index.get(payer_agent) {
            Some(v) => copy_ids(v),
            None => Vec::new(),
        };
        proof {
            assert(ids@ == payer_ids(before, payer_agent));
        }
        ids.push(id);
        self.payer_index.insert(payer_agent, ids);
        proof {
            assert(x.settlement_reference =~= Seq::<u8>::empty());
            assert(self@.intents =~= before.intents.push(x));
            lemma_create_keeps_consistency(before, self@, x);
        }
        let mut events = Vec::new();
        events.push(PaymentsEvent::IntentCreated { id, intent: published });
        proof {
            assert(seq_views(events@) =~= seq![PaymentsEventView::IntentCreated { id, intent: x }]);
        }
        Ok((id, events))
    }

    /// Mark a payment intent as settled.
    ///
    /// `caller` is the principal authorized to settle: the typed role check
    /// raises `Unauthorized` when it is not the stored admin, before its
    /// signature is checked.
    pub fn settle_intent(
        &mut self,
        auth: &Authorizations,
        caller: Address,
        intent_id: u64,
        settlement_reference: Vec<u8>,
    ) -> (r: Result<Vec<PaymentsEvent>, CallError>)
        requires
            old(self).wf(),
        ensures
            final(self).wf(),
            commits(
                r,
                old(self)@,
                final(self)@,
                settle_intent_spec(old(self)@, auth, caller, intent_id, settlement_reference@),
            ),
    {
        let c = match self.settings {
            Some(c) => c,
            None => return Err(CallError::Contract(ProtocolError::NotInitialized)),
        };
        if let Err(e) = require(settlement_reference.len() > 0, ProtocolError::InvalidInput) {
            return Err(e);
        }
        if let Err(e) = require_caller(caller, c.admin) {
            return Err(e);
        }
        if let Err(e) = require_auth_or_error(caller, auth) {
            return Err(e);
        }
        let guard = match NonReentrantGuard::acquire(&mut self.guards, settle_guard_key()) {
            Ok(g) => g,
            Err(e) => return Err(e),
        };
        let n = self.intents.len();
        if intent_id == 0 || intent_id > n as u64 {
            guard.release(&mut self.guards);
            return Err(CallError::Contract(ProtocolError::MissingRecord));
        }
        let i = (intent_id - 1) as usize;
        let x = &self.intents[i];
        if x.status != PaymentStatus::Pending {
            guard.release(&mut self.guards);
            return Err(CallError::Contract(ProtocolError::PaymentAlreadyFinalized));
        }
        let settled = PaymentIntent {
            id: x.id,
            payer_agent: x.payer_agent,
            payee_agent: x.payee_agent,
            amount: x.amount,
            memo: copy_bytes(&x.memo),
            settlement_reference,
            status: PaymentStatus::Settled,
            created_at: x.created_at,
        };
        let published = settled.duplicate();
        let ghost before = self@;
        let ghost y = settled@;
        self.intents.set(i, settled);
        guard.release(&mut self.guards);
        proof {
            assert(self@.intents =~= before.intents.update(i as int, y));
            lemma_update_keeps_consistency(before, self@, i as int, y);
        }
        let mut events = Vec::new();
        events.push(PaymentsEvent::IntentSettled { id: intent_id, intent: published });
        proof {
            assert(seq_views(events@) =~= seq![PaymentsEventView::IntentSettled { id: intent_id, intent: y }]);
        }
        Ok(events)
    }

    /// Cancel a payment intent before settlement; only its payer can.
    pub fn cancel_intent(&mut self, auth: &Authorizations, intent_id: u64) -> (r: Result<
        Vec<PaymentsEvent>,
        CallError,
    >)
        requires
            old(self).wf(),
        ensures
            final(self).wf(),
            commits(r, old(self)@, final(self)@, cancel_intent_spec(old(self)@, auth, intent_id)),
    {
        if self.settings.is_none() {
            return Err(CallError::Contract(ProtocolError::NotInitialized));
        }
        let n = self.intents.len();
        if intent_id == 0 || intent_id > n as u64 {
            return Err(CallError::Contract(ProtocolError::MissingRecord));
        }
        let i = (intent_id - 1) as usize;
        let x = &self.intents[i];
        if let Err(e) = require_auth_or_error(x.payer_agent, auth) {
            return Err(e);
        }
        let guard = match NonReentrantGuard::acquire(&mut self.guards, cancel_guard_key()) {
            Ok(g) => g,
            Err(e) => return Err(e),
        };
        if x.status != PaymentStatus::Pending {
            guard.release(&mut self.guards);
            return Err(CallError::Contract(ProtocolError::PaymentAlreadyFinalized));
        }
        let cancelled = PaymentIntent {
            id: x.id,
            payer_agent: x.payer_agent,
            payee_agent: x.payee_agent,
            amount: x.amount,
            memo: copy_bytes(&x.memo),
            settlement_reference: copy_bytes(&x.settlement_reference),
            status: PaymentStatus::Cancelled,
            created_at: x.created_at,
        };
        let published = cancelled.duplicate();
        let ghost before = self@;
        let ghost y = cancelled@;
        self.intents.set(i, cancelled);
        guard.release(&mut self.guards);
        proof {
            assert(self@.intents =~= before.intents.update(i as int, y));
            lemma_update_keeps_consistency(before, self@, i as int, y);
        }
        let mut events = Vec::new();
        events.push(PaymentsEvent::IntentCancelled { id: intent_id, intent: published });
        proof {
            assert(seq_views(events@) =~= seq![PaymentsEventView::IntentCancelled { id: intent_id, intent: y }]);
        }
        Ok(events)
    }
    /// Update the settlement fee in basis points.
    pub fn set_fee_bps(&mut self, auth: &Authorizations, fee_bps: u32) -> (r: Result<
        Vec<PaymentsEvent>,
        CallError,
    >)
        requires
            old(self).wf(),
        ensures
            final(self).wf(),
            commits(r, old(self)@, final(self)@, set_fee_bps_spec(old(self)@, auth, fee_bps)),
    {
        let c = match self.settings {
            Some(c) => c,
            None => return Err(CallError::Contract(ProtocolError::NotInitialized)),
        };
        if let Err(e) = require_auth_or_error(c.admin, auth) {
            return Err(e);
        }
        if let Err(e) = require_valid_bps(fee_bps) {
            return Err(e);
        }
        self.settings = Some(PaymentsSettings { fee_bps, ..c });
        proof {
            lemma_same_store_keeps_consistency(old(self)@, self@);
        }
        let mut events = Vec::new();
        events.push(PaymentsEvent::FeeUpdated { admin: c.admin, fee_bps });
        proof {
            assert(seq_views(events@) =~= seq![PaymentsEventView::FeeUpdated { admin: c.admin, fee_bps }]);
        }
        Ok(events)
    }

    /// Update the treasury that receives settlement fees.
    pub fn set_treasury(&mut self, auth: &Authorizations, treasury: Address) -> (r: Result<
        Vec<PaymentsEvent>,
        CallError,
    >)
        requires
            old(self).wf(),
        ensures
            final(self).wf(),
            commits(r, old(self)@, final(self)@, set_treasury_spec(old(self)@, auth, treasury)),
    {
        let c = match self.settings {
            Some(c) => c,
            None => return Err(CallError::Contract(ProtocolError::NotInitialized)),
        };
        if let Err(e) = require_auth_or_error(c.admin, auth) {
            return Err(e);
        }
        self.settings = Some(PaymentsSettings { treasury, ..c });
        proof {
            lemma_same_store_keeps_consistency(old(self)@, self@);
        }
        let mut events = Vec::new();
        events.push(PaymentsEvent::TreasuryUpdated { admin: c.admin, treasury });
        proof {
            assert(seq_views(events@) =~= seq![PaymentsEventView::TreasuryUpdated { admin: c.admin, treasury }]);
        }
        Ok(events)
    }

    /// Transfer settlement authority to a new admin.
    pub fn transfer_admin(&mut self, auth: &Authorizations, new_admin: Address) -> (r: Result<
        Vec<PaymentsEvent>,
        CallError,
    >)
        requires
            old(self).wf(),
        ensures
            final(self).wf(),
            commits(r, old(self)@, final(self)@, transfer_admin_spec(old(self)@, auth, new_admin)),
    {
        let c = match self.settings {
            Some(c) => c,
            None => return Err(CallError::Contract(ProtocolError::NotInitialized)),
        };
        if let Err(e) = require_auth_or_error(c.admin, auth) {
            return Err(e);
        }
        self.settings = Some(PaymentsSettings { admin: new_admin, ..c });
        proof {
            lemma_same_store_keeps_consistency(old(self)@, self@);
        }
        let mut events = Vec::new();
        events.push(PaymentsEvent::AdminTransferred { previous: c.admin, admin: new_admin });
        proof {
            assert(seq_views(events@) =~= seq![PaymentsEventView::AdminTransferred { previous: c.admin, admin: new_admin }]);
        }
        Ok(events)
    }

    /// Read an individual payment intent.
    pub fn get_intent(&self, intent_id: u64) -> (r: Result<PaymentIntent, CallError>)
        requires
            self.wf(),
        ensures
            match r {
                Ok(x) => self@.settings is Some && intent_of(self@, intent_id) == Some(x@),
                Err(e) => (self@.settings is None && e == CallError::Contract(ProtocolError::NotInitialized))
                    || (self@.settings is Some && intent_of(self@, intent_id) is None && e == CallError::Contract(
                    ProtocolError::MissingRecord,
                )),
            },
    {
        if self.settings.is_none() {
            return Err(CallError::Contract(ProtocolError::NotInitialized));
        }
        let n = self.intents.len();
        if intent_id == 0 || intent_id > n as u64 {
            return Err(CallError::Contract(ProtocolError::MissingRecord));
        }
        Ok(self.intents[(intent_id - 1) as usize].duplicate())
    }

    /// Read an individual payment intent, or `None` for an unknown id.
    pub fn get_intent_opt(&self, intent_id: u64) -> (r: Result<Option<PaymentIntent>, CallError>)
        requires
            self.wf(),
        ensures
            match r {
                Ok(Some(x)) => self@.settings is Some && intent_of(self@, intent_id) == Some(x@),
                Ok(None) => self@.settings is Some && intent_of(self@, intent_id) is None,
                Err(e) => self@.settings is None && e == CallError::Contract(ProtocolError::NotInitialized),
            },
    {
        if self.settings.is_none() {
            return Err(CallError::Contract(ProtocolError::NotInitialized));
        }
        let n = self.intents.len();
        if intent_id == 0 || intent_id > n as u64 {
            return Ok(None);
        }
        Ok(Some(self.intents[(intent_id - 1) as usize].duplicate()))
    }

    /// A page of the intents `payer` created, in creation order: at most
    /// `limit` (1 to `MAX_INTENTS_PAGE_SIZE`) intents from position `cursor`
    /// of the payer's history on.
    pub fn list_intents(&self, payer: Address, cursor: u32, limit: u32) -> (r: Result<
        Vec<PaymentIntent>,
        CallError,
    >)
        requires
            self.wf(),
        ensures
            match (r, list_intents_spec(self@, payer, cursor, limit)) {
                (Ok(v), Ok(w)) => seq_views(v@) == w,
                (Err(e), Err(f)) => e == f,
                _ => false,
            },
    {
        if self.settings.is_none() {
            return Err(CallError::Contract(ProtocolError::NotInitialized));
        }
        if let Err(e) = require(limit > 0 && limit <= MAX_INTENTS_PAGE_SIZE, ProtocolError::InvalidInput) {
            return Err(e);
        }
        let empty: Vec<u64> = Vec::new();
        let ids = match self.payer_index.get(payer) {
            Some(v) => v,
            None => &empty,
        };
        proof {
            assert(ids@ == payer_ids(self@, payer));
            lemma_index_ids_are_stored(self@, payer);
        }
        let len = ids.len();
        let start: usize = if (cursor as usize) < len { cursor as usize } else { len };
        let wanted: u64 = cursor as u64 + limit as u64;
        let end: usize = if wanted < len as u64 { wanted as usize } else { len };
        let ghost intents = self@.intents;
        let stored = self.intents.len();
        let mut out: Vec<PaymentIntent> = Vec::new();
        let mut k = start;
        while k < end
            invariant
                start <= k <= end <= len,
                len == ids@.len(),
                ids@ == payer_ids(self@, payer),
                intents == self@.intents,
                intents.len() == self.intents@.len(),
                stored == self.intents@.len(),
                forall|m: int| 0 <= m < ids@.len() ==> 1 <= #[trigger] ids@[m] <= intents.len(),
                seq_views(out@) =~= ids@.subrange(start as int, k as int).map_values(|id: u64| intents[id - 1]),
            decreases end - k,
        {
            let id = ids[k];
            assert(1 <= ids@[k as int] <= intents.len());
            assert(id - 1 < stored);
            let idx = (id - 1) as usize;
            assert(intents[idx as int] == self.intents@[idx as int]@);
            let x = self.intents[idx].duplicate();
            let ghost prev = out@;
            out.push(x);
            proof {
                assert(x@ == intents[id - 1]);
                assert(seq_views(out@) =~= seq_views(prev).push(x@));
                assert(ids@.subrange(start as int, k + 1) =~= ids@.subrange(start as int, k as int).push(id));
                assert(ids@.subrange(start as int, k + 1).map_values(|id: u64| intents[id - 1])
                    =~= ids@.subrange(start as int, k as int).map_values(|id: u64| intents[id - 1]).push(intents[id - 1]));
            }
            k = k + 1;
        }
        Ok(out)
    }
}

/// The share of `amount` that `bps` basis points denote, rounded down.
pub fn bps_share(amount: i128, bps: u32) -> (r: i128)
    requires
        0 <= amount <= MAX_PAYMENT_AMOUNT,
        bps <= MAX_BPS,
    ensures
        r == bps_portion(amount as int, bps as int),
        0 <= r <= amount,
{
    proof {
        assert(amount * bps <= MAX_PAYMENT_AMOUNT * MAX_BPS) by (nonlinear_arith)
            requires
                0 <= amount <= MAX_PAYMENT_AMOUNT,
                0 <= bps <= MAX_BPS,
        ;
        assert(0 <= amount * bps) by (nonlinear_arith)
            requires
                0 <= amount,
                0 <= bps,
        ;
        assert(amount * bps / 10_000 <= amount) by (nonlinear_arith)
            requires
                0 <= amount,
                0 <= bps <= 10_000,
        ;
    }
    amount * (bps as i128) / 10_000
}

/// Split a gross settlement amount into the fee the treasury receives
/// (rounded down) and the net amount the payee receives.
pub fn fee_split(amount: i128, fee_bps: u32) -> (r: (i128, i128))
    requires
        0 <= amount <= MAX_PAYMENT_AMOUNT,
        fee_bps <= MAX_BPS,
    ensures
        r.0 == bps_portion(amount as int, fee_bps as int),
        r.1 == amount - r.0,
        0 <= r.0 <= amount,
        0 <= r.1 <= amount,
{
    let fee = bps_share(amount, fee_bps);
    (fee, amount - fee)
}

} // verus!

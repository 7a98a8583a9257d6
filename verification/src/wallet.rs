//! Wallet policy registry: each agent binds one settlement wallet with a
//! settlement asset and a positive spend limit, and keeps that policy (limit,
//! enabled state) up to date; the admin can disable a binding in an emergency.

use crate::common::{
    copy_bytes, require, require_auth_or_error, Address, Authorizations, CallError, ProtocolError,
};
use crate::outcome::{commits, seq_views, next_state, Transition};
use crate::table::AddressTable;
use vstd::prelude::*;

verus! {

/// An agent's wallet binding and policy envelope.
#[derive(Clone, Debug, PartialEq, Eq)]
pub struct WalletBinding {
    pub wallet: Address,
    pub settlement_asset: Vec<u8>,
    pub spend_limit: i128,
    pub enabled: bool,
    pub revision: u64,
}

/// The value of a wallet binding.
pub struct WalletBindingView {
    pub wallet: Address,
    pub settlement_asset: Seq<u8>,
    pub spend_limit: i128,
    pub enabled: bool,
    pub revision: u64,
}

impl View for WalletBinding {
    type V = WalletBindingView;

    open spec fn view(&self) -> WalletBindingView {
        WalletBindingView {
            wallet: self.wallet,
            settlement_asset: self.settlement_asset@,
            spend_limit: self.spend_limit,
            enabled: self.enabled,
            revision: self.revision,
        }
    }
}

impl WalletBinding {
    /// A copy of this binding.
    pub fn duplicate(&self) -> (r: WalletBinding)
        ensures
            r@ == self@,
    {
        WalletBinding {
            wallet: self.wallet,
            settlement_asset: copy_bytes(&self.settlement_asset),
            spend_limit: self.spend_limit,
            enabled: self.enabled,
            revision: self.revision,
        }
    }
}

/// Events published by the wallet registry; each names its topics.
#[derive(Clone, Debug, PartialEq, Eq)]
pub enum WalletEvent {
    /// `("init",)` carrying the admin.
    Initialized { admin: Address },
    /// `("bind", agent)` carrying the new binding.
    Bound { agent: Address, binding: WalletBinding },
    /// `("rebind", agent)` carrying the replacement binding.
    Rebound { agent: Address, binding: WalletBinding },
    /// `("limit", agent)` carrying the updated binding.
    LimitUpdated { agent: Address, binding: WalletBinding },
    /// `("state", agent)` carrying the updated binding.
    StateChanged { agent: Address, binding: WalletBinding },
    /// `("adm_deact", agent)` carrying the disabled binding.
    AdminDeactivated { agent: Address, binding: WalletBinding },
    /// `("unbind", agent)`.
    Unbound { agent: Address },
}

/// The value of a wallet event.
pub enum WalletEventView {
    Initialized { admin: Address },
    Bound { agent: Address, binding: WalletBindingView },
    Rebound { agent: Address, binding: WalletBindingView },
    LimitUpdated { agent: Address, binding: WalletBindingView },
    StateChanged { agent: Address, binding: WalletBindingView },
    AdminDeactivated { agent: Address, binding: WalletBindingView },
    Unbound { agent: Address },
}

impl View for WalletEvent {
    type V = WalletEventView;

    open spec fn view(&self) -> WalletEventView {
        match self {
            WalletEvent::Initialized { admin } => WalletEventView::Initialized { admin: *admin },
            WalletEvent::Bound { agent, binding } => WalletEventView::Bound {
                agent: *agent,
                binding: binding@,
            },
            WalletEvent::Rebound { agent, binding } => WalletEventView::Rebound {
                agent: *agent,
                binding: binding@,
            },
            WalletEvent::LimitUpdated { agent, binding } => WalletEventView::LimitUpdated {
                agent: *agent,
                binding: binding@,
            },
            WalletEvent::StateChanged { agent, binding } => WalletEventView::StateChanged {
                agent: *agent,
                binding: binding@,
            },
            WalletEvent::AdminDeactivated { agent, binding } => WalletEventView::AdminDeactivated {
                agent: *agent,
                binding: binding@,
            },
            WalletEvent::Unbound { agent } => WalletEventView::Unbound { agent: *agent },
        }
    }
}

/// Everything the wallet registry keeps in storage.
pub struct WalletState {
    /// The admin pinned at deployment, the only one `initialize` accepts.
    pub pinned_admin: Address,
    /// The registry admin; `None` until initialized.
    pub admin: Option<Address>,
    /// The binding of each bound agent.
    pub bindings: Map<Address, WalletBindingView>,
}

/// The wallet policy registry.
pub struct WalletContract {
    pinned_admin: Address,
    admin: Option<Address>,
    bindings: AddressTable<WalletBinding>,
}

impl View for WalletContract {
    type V = WalletState;

    closed spec fn view(&self) -> WalletState {
        WalletState { pinned_admin: self.pinned_admin, admin: self.admin, bindings: self.bindings@ }
    }
}

/// `initialize`: once, by the admin pinned at deployment, who must sign.
pub open spec fn initialize_spec(s: WalletState, auth: &Authorizations, admin: Address) -> Transition<
    WalletState,
    WalletEventView,
> {
    if s.admin is Some {
        Err(CallError::Contract(ProtocolError::AlreadyInitialized))
    } else if admin != s.pinned_admin {
        Err(CallError::Contract(ProtocolError::Unauthorized))
    } else if !auth.authorizes(admin) {
        Err(CallError::Auth(admin))
    } else {
        Ok((
            WalletState { admin: Some(admin), ..s },
            seq![WalletEventView::Initialized { admin }],
        ))
    }
}

/// A fresh binding: enabled, at revision 0.
pub open spec fn fresh_binding(wallet: Address, settlement_asset: Seq<u8>, spend_limit: i128) -> WalletBindingView {
    WalletBindingView { wallet, settlement_asset, spend_limit, enabled: true, revision: 0 }
}

/// The checks shared by `bind_wallet` and `rebind_wallet`, in order: the
/// registry is initialized, the limit is positive, agent and wallet both sign.
pub open spec fn binding_checks(
    s: WalletState,
    auth: &Authorizations,
    agent: Address,
    wallet: Address,
    spend_limit: i128,
) -> Result<(), CallError> {
    if s.admin is None {
        Err(CallError::Contract(ProtocolError::NotInitialized))
    } else if spend_limit <= 0 {
        Err(CallError::Contract(ProtocolError::InvalidInput))
    } else if !auth.authorizes(agent) {
        Err(CallError::Auth(agent))
    } else if !auth.authorizes(wallet) {
        Err(CallError::Auth(wallet))
    } else {
        Ok(())
    }
}

/// `bind_wallet`: agent and wallet both sign a brand-new binding; an agent
/// that already has a binding, enabled or not, is rejected.
pub open spec fn bind_wallet_spec(
    s: WalletState,
    auth: &Authorizations,
    agent: Address,
    wallet: Address,
    settlement_asset: Seq<u8>,
    spend_limit: i128,
) -> Transition<WalletState, WalletEventView> {
    match binding_checks(s, auth, agent, wallet, spend_limit) {
        Err(e) => Err(e),
        Ok(_) => if s.bindings.contains_key(agent) {
            Err(CallError::Contract(ProtocolError::WalletAlreadyBound))
        } else {
            let b = fresh_binding(wallet, settlement_asset, spend_limit);
            Ok((
                WalletState { bindings: s.bindings.insert(agent, b), ..s },
                seq![WalletEventView::Bound { agent, binding: b }],
            ))
        },
    }
}

/// `rebind_wallet`: agent and new wallet both sign a replacement of an
/// existing binding, which starts over enabled at revision 0.
pub open spec fn rebind_wallet_spec(
    s: WalletState,
    auth: &Authorizations,
    agent: Address,
    wallet: Address,
    settlement_asset: Seq<u8>,
    spend_limit: i128,
) -> Transition<WalletState, WalletEventView> {
    match binding_checks(s, auth, agent, wallet, spend_limit) {
        Err(e) => Err(e),
        Ok(_) => if !s.bindings.contains_key(agent) {
            Err(CallError::Contract(ProtocolError::MissingRecord))
        } else {
            let b = fresh_binding(wallet, settlement_asset, spend_limit);
            Ok((
                WalletState { bindings: s.bindings.insert(agent, b), ..s },
                seq![WalletEventView::Rebound { agent, binding: b }],
            ))
        },
    }
}

/// `update_spend_limit`: the agent sets a new positive limit on its enabled
/// binding; the revision grows by 1.
pub open spec fn update_spend_limit_spec(
    s: WalletState,
    auth: &Authorizations,
    agent: Address,
    spend_limit: i128,
) -> Transition<WalletState, WalletEventView> {
    if s.admin is None {
        Err(CallError::Contract(ProtocolError::NotInitialized))
    } else if spend_limit <= 0 {
        Err(CallError::Contract(ProtocolError::InvalidInput))
    } else if !auth.authorizes(agent) {
        Err(CallError::Auth(agent))
    } else if !s.bindings.contains_key(agent) {
        Err(CallError::Contract(ProtocolError::MissingRecord))
    } else if !s.bindings[agent].enabled {
        Err(CallError::Contract(ProtocolError::InvalidInput))
    } else if s.bindings[agent].revision == u64::MAX {
        Err(CallError::Overflow)
    } else {
        let b = s.bindings[agent];
        let c = WalletBindingView { spend_limit, revision: (b.revision + 1) as u64, ..b };
        Ok((
            WalletState { bindings: s.bindings.insert(agent, c), ..s },
            seq![WalletEventView::LimitUpdated { agent, binding: c }],
        ))
    }
}

/// `set_enabled`: the agent enables or disables its binding; the revision grows by 1.
pub open spec fn set_enabled_spec(
    s: WalletState,
    auth: &Authorizations,
    agent: Address,
    enabled: bool,
) -> Transition<WalletState, WalletEventView> {
    if s.admin is None {
        Err(CallError::Contract(ProtocolError::NotInitialized))
    } else if !auth.authorizes(agent) {
        Err(CallError::Auth(agent))
    } else if !s.bindings.contains_key(agent) {
        Err(CallError::Contract(ProtocolError::MissingRecord))
    } else if s.bindings[agent].revision == u64::MAX {
        Err(CallError::Overflow)
    } else {
        let b = s.bindings[agent];
        let c = WalletBindingView { enabled, revision: (b.revision + 1) as u64, ..b };
        Ok((
            WalletState { bindings: s.bindings.insert(agent, c), ..s },
            seq![WalletEventView::StateChanged { agent, binding: c }],
        ))
    }
}

/// `admin_deactivate`: the admin disables an agent's binding; the revision grows by 1.
pub open spec fn admin_deactivate_spec(s: WalletState, auth: &Authorizations, agent: Address) -> Transition<
    WalletState,
    WalletEventView,
> {
    match s.admin {
        None => Err(CallError::Contract(ProtocolError::NotInitialized)),
        Some(admin) => if !auth.authorizes(admin) {
            Err(CallError::Auth(admin))
        } else if !s.bindings.contains_key(agent) {
            Err(CallError::Contract(ProtocolError::MissingRecord))
        } else if s.bindings[agent].revision == u64::MAX {
            Err(CallError::Overflow)
        } else {
            let b = s.bindings[agent];
            let c = WalletBindingView { enabled: false, revision: (b.revision + 1) as u64, ..b };
            Ok((
                WalletState { bindings: s.bindings.insert(agent, c), ..s },
                seq![WalletEventView::AdminDeactivated { agent, binding: c }],
            ))
        },
    }
}

/// `unbind_wallet`: the agent removes its binding from storage.
pub open spec fn unbind_wallet_spec(s: WalletState, auth: &Authorizations, agent: Address) -> Transition<
    WalletState,
    WalletEventView,
> {
    if s.admin is None {
        Err(CallError::Contract(ProtocolError::NotInitialized))
    } else if !auth.authorizes(agent) {
        Err(CallError::Auth(agent))
    } else if !s.bindings.contains_key(agent) {
        Err(CallError::Contract(ProtocolError::MissingRecord))
    } else {
        Ok((
            WalletState { bindings: s.bindings.remove(agent), ..s },
            seq![WalletEventView::Unbound { agent }],
        ))
    }
}

/// What `get_binding` returns for `agent`.
pub open spec fn binding_lookup(s: WalletState, agent: Address) -> Result<WalletBindingView, CallError> {
    if s.admin is None {
        Err(CallError::Contract(ProtocolError::NotInitialized))
    } else if !s.bindings.contains_key(agent) {
        Err(CallError::Contract(ProtocolError::MissingRecord))
    } else {
        Ok(s.bindings[agent])
    }
}

/// Every stored binding has a positive spend limit.
pub open spec fn limits_positive(s: WalletState) -> bool {
    forall|a: Address| #[trigger] s.bindings.contains_key(a) ==> s.bindings[a].spend_limit > 0
}

/// Only the admin pinned at deployment can initialize the registry: any
/// other admin is refused with `Unauthorized`, whoever signs, and the pinned
/// admin succeeds exactly when it signs.
pub proof fn only_the_pinned_admin_initializes(s: WalletState, auth: Authorizations, admin: Address)
    requires
        s.admin is None,
    ensures
        admin != s.pinned_admin ==> initialize_spec(s, &auth, admin)
            == Err::<(WalletState, Seq<WalletEventView>), CallError>(
            CallError::Contract(ProtocolError::Unauthorized),
        ),
        admin == s.pinned_admin ==> (initialize_spec(s, &auth, admin) is Ok <==> auth.authorizes(admin)),
{
}

/// Initialization happens once: after `initialize` has succeeded, every
/// further `initialize` is rejected with `AlreadyInitialized`.
pub proof fn initialize_is_one_time(
    s: WalletState,
    auth: Authorizations,
    admin: Address,
    again_auth: Authorizations,
    again_admin: Address,
)
    requires
        initialize_spec(s, &auth, admin) is Ok,
    ensures
        initialize_spec(next_state(s, initialize_spec(s, &auth, admin)), &again_auth, again_admin)
            == Err::<(WalletState, Seq<WalletEventView>), CallError>(
            CallError::Contract(ProtocolError::AlreadyInitialized),
        ),
{
}

/// No operation moves the admin pinned at deployment.
pub proof fn pinned_admin_is_fixed(
    s: WalletState,
    auth: Authorizations,
    admin: Address,
    agent: Address,
    wallet: Address,
    settlement_asset: Seq<u8>,
    spend_limit: i128,
    enabled: bool,
)
    ensures
        next_state(s, initialize_spec(s, &auth, admin)).pinned_admin == s.pinned_admin,
        next_state(s, bind_wallet_spec(s, &auth, agent, wallet, settlement_asset, spend_limit)).pinned_admin
            == s.pinned_admin,
        next_state(s, rebind_wallet_spec(s, &auth, agent, wallet, settlement_asset, spend_limit)).pinned_admin
            == s.pinned_admin,
        next_state(s, update_spend_limit_spec(s, &auth, agent, spend_limit)).pinned_admin == s.pinned_admin,
        next_state(s, set_enabled_spec(s, &auth, agent, enabled)).pinned_admin == s.pinned_admin,
        next_state(s, admin_deactivate_spec(s, &auth, agent)).pinned_admin == s.pinned_admin,
        next_state(s, unbind_wallet_spec(s, &auth, agent)).pinned_admin == s.pinned_admin,
{
}

/// An agent holds at most one binding: once `bind_wallet` has succeeded, a
/// second `bind_wallet` for the same agent that passes the signature and
/// limit checks is rejected with `WalletAlreadyBound`, enabled or not.
pub proof fn binding_is_exclusive(
    s: WalletState,
    auth: Authorizations,
    agent: Address,
    wallet: Address,
    settlement_asset: Seq<u8>,
    spend_limit: i128,
    again_auth: Authorizations,
    again_wallet: Address,
    again_asset: Seq<u8>,
    again_limit: i128,
)
    requires
        bind_wallet_spec(s, &auth, agent, wallet, settlement_asset, spend_limit) is Ok,
        binding_checks(
            next_state(s, bind_wallet_spec(s, &auth, agent, wallet, settlement_asset, spend_limit)),
            &again_auth,
            agent,
            again_wallet,
            again_limit,
        ) is Ok,
    ensures
        bind_wallet_spec(
            next_state(s, bind_wallet_spec(s, &auth, agent, wallet, settlement_asset, spend_limit)),
            &again_auth,
            agent,
            again_wallet,
            again_asset,
            again_limit,
        ) == Err::<(WalletState, Seq<WalletEventView>), CallError>(
            CallError::Contract(ProtocolError::WalletAlreadyBound),
        ),
{
}

/// Unbinding frees the agent: after `unbind_wallet` has succeeded, a second
/// unbind is rejected with `MissingRecord`, and a `bind_wallet` that passes
/// its checks succeeds with a fresh binding.
pub proof fn unbind_frees_the_agent(
    s: WalletState,
    auth: Authorizations,
    agent: Address,
    wallet: Address,
    settlement_asset: Seq<u8>,
    spend_limit: i128,
)
    requires
        unbind_wallet_spec(s, &auth, agent) is Ok,
        binding_checks(next_state(s, unbind_wallet_spec(s, &auth, agent)), &auth, agent, wallet, spend_limit) is Ok,
    ensures
        unbind_wallet_spec(next_state(s, unbind_wallet_spec(s, &auth, agent)), &auth, agent)
            == Err::<(WalletState, Seq<WalletEventView>), CallError>(
            CallError::Contract(ProtocolError::MissingRecord),
        ),
        bind_wallet_spec(
            next_state(s, unbind_wallet_spec(s, &auth, agent)),
            &auth,
            agent,
            wallet,
            settlement_asset,
            spend_limit,
        ) is Ok,
        next_state(
            next_state(s, unbind_wallet_spec(s, &auth, agent)),
            bind_wallet_spec(
                next_state(s, unbind_wallet_spec(s, &auth, agent)),
                &auth,
                agent,
                wallet,
                settlement_asset,
                spend_limit,
            ),
        ).bindings[agent] == fresh_binding(wallet, settlement_asset, spend_limit),
{
}

/// No operation can store a binding whose spend limit is not positive.
pub proof fn positive_limits_are_invariant(
    s: WalletState,
    auth: Authorizations,
    admin: Address,
    agent: Address,
    wallet: Address,
    settlement_asset: Seq<u8>,
    spend_limit: i128,
    enabled: bool,
)
    requires
        limits_positive(s),
    ensures
        limits_positive(next_state(s, initialize_spec(s, &auth, admin))),
        limits_positive(next_state(s, bind_wallet_spec(s, &auth, agent, wallet, settlement_asset, spend_limit))),
        limits_positive(next_state(s, rebind_wallet_spec(s, &auth, agent, wallet, settlement_asset, spend_limit))),
        limits_positive(next_state(s, update_spend_limit_spec(s, &auth, agent, spend_limit))),
        limits_positive(next_state(s, set_enabled_spec(s, &auth, agent, enabled))),
        limits_positive(next_state(s, admin_deactivate_spec(s, &auth, agent))),
        limits_positive(next_state(s, unbind_wallet_spec(s, &auth, agent))),
{
}

/// What a limit update does: once initialized, a positive limit signed by
/// the agent on its enabled binding (below the last revision) is accepted;
/// after it, `get_binding` for the agent returns the new limit at the next
/// revision with wallet, asset and enabled flag as before, the event carries
/// exactly that binding, and every other agent reads what it read before.
pub proof fn update_spend_limit_sets_the_limit(
    s: WalletState,
    auth: Authorizations,
    agent: Address,
    spend_limit: i128,
    other: Address,
)
    requires
        other != agent,
    ensures
        s.admin is Some && spend_limit > 0 && auth.authorizes(agent) && s.bindings.contains_key(agent)
            && s.bindings[agent].enabled && s.bindings[agent].revision < u64::MAX
            ==> update_spend_limit_spec(s, &auth, agent, spend_limit) is Ok,
        update_spend_limit_spec(s, &auth, agent, spend_limit) is Ok ==> {
            let t = next_state(s, update_spend_limit_spec(s, &auth, agent, spend_limit));
            let b = s.bindings[agent];
            &&& binding_lookup(t, agent) is Ok
            &&& t.bindings[agent].spend_limit == spend_limit
            &&& t.bindings[agent].revision == b.revision + 1
            &&& t.bindings[agent].wallet == b.wallet
            &&& t.bindings[agent].settlement_asset == b.settlement_asset
            &&& t.bindings[agent].enabled == b.enabled
            &&& binding_lookup(t, other) == binding_lookup(s, other)
            &&& update_spend_limit_spec(s, &auth, agent, spend_limit)
                == Ok::<(WalletState, Seq<WalletEventView>), CallError>((
                t,
                seq![WalletEventView::LimitUpdated { agent, binding: t.bindings[agent] }],
            ))
        },
{
}

/// What `set_enabled` does: once initialized, the agent's signature on its
/// own binding (below the last revision) is enough; after it, `get_binding`
/// for the agent returns the requested flag at the next revision with wallet,
/// asset and limit as before, the event carries exactly that binding, and
/// every other agent reads what it read before. Disabling and re-enabling
/// brings the flag back.
pub proof fn set_enabled_sets_the_flag(
    s: WalletState,
    auth: Authorizations,
    agent: Address,
    enabled: bool,
    other: Address,
)
    requires
        other != agent,
    ensures
        s.admin is Some && auth.authorizes(agent) && s.bindings.contains_key(agent)
            && s.bindings[agent].revision < u64::MAX ==> set_enabled_spec(s, &auth, agent, enabled) is Ok,
        set_enabled_spec(s, &auth, agent, enabled) is Ok ==> {
            let t = next_state(s, set_enabled_spec(s, &auth, agent, enabled));
            let b = s.bindings[agent];
            &&& binding_lookup(t, agent) is Ok
            &&& t.bindings[agent].enabled == enabled
            &&& t.bindings[agent].revision == b.revision + 1
            &&& t.bindings[agent].wallet == b.wallet
            &&& t.bindings[agent].settlement_asset == b.settlement_asset
            &&& t.bindings[agent].spend_limit == b.spend_limit
            &&& binding_lookup(t, other) == binding_lookup(s, other)
            &&& set_enabled_spec(s, &auth, agent, enabled)
                == Ok::<(WalletState, Seq<WalletEventView>), CallError>((
                t,
                seq![WalletEventView::StateChanged { agent, binding: t.bindings[agent] }],
            ))
            &&& (t.bindings[agent].revision < u64::MAX ==> set_enabled_spec(t, &auth, agent, !enabled) is Ok
                && next_state(t, set_enabled_spec(t, &auth, agent, !enabled)).bindings[agent].enabled == !enabled)
        },
{
}

/// What `admin_deactivate` does: once initialized, the admin's signature on
/// a bound agent (below the last revision) is enough; after it the agent's
/// binding reads disabled at the next revision with wallet, asset and limit
/// as before, and every other agent reads what it read before.
pub proof fn admin_deactivate_disables(s: WalletState, auth: Authorizations, agent: Address, other: Address)
    requires
        other != agent,
    ensures
        s.admin is Some && auth.authorizes(s.admin->0) && s.bindings.contains_key(agent)
            && s.bindings[agent].revision < u64::MAX ==> admin_deactivate_spec(s, &auth, agent) is Ok,
        admin_deactivate_spec(s, &auth, agent) is Ok ==> {
            let t = next_state(s, admin_deactivate_spec(s, &auth, agent));
            let b = s.bindings[agent];
            &&& binding_lookup(t, agent) is Ok
            &&& !t.bindings[agent].enabled
            &&& t.bindings[agent].revision == b.revision + 1
            &&& t.bindings[agent].wallet == b.wallet
            &&& t.bindings[agent].settlement_asset == b.settlement_asset
            &&& t.bindings[agent].spend_limit == b.spend_limit
            &&& binding_lookup(t, other) == binding_lookup(s, other)
            &&& admin_deactivate_spec(s, &auth, agent)
                == Ok::<(WalletState, Seq<WalletEventView>), CallError>((
                t,
                seq![WalletEventView::AdminDeactivated { agent, binding: t.bindings[agent] }],
            ))
        },
{
}

/// What binding and rebinding store: after a successful `bind_wallet` (for
/// an unbound agent) or `rebind_wallet` (for a bound one), `get_binding` for
/// the agent returns the given wallet, asset and limit, enabled, at revision
/// 0, and every other agent reads what it read before; both succeed once
/// the registry is initialized, the limit is positive and agent and wallet sign.
pub proof fn binding_stores_the_given_terms(
    s: WalletState,
    auth: Authorizations,
    agent: Address,
    wallet: Address,
    settlement_asset: Seq<u8>,
    spend_limit: i128,
    other: Address,
)
    requires
        other != agent,
    ensures
        s.admin is Some && spend_limit > 0 && auth.authorizes(agent) && auth.authorizes(wallet) ==> {
            &&& (!s.bindings.contains_key(agent)
                ==> bind_wallet_spec(s, &auth, agent, wallet, settlement_asset, spend_limit) is Ok)
            &&& (s.bindings.contains_key(agent)
                ==> rebind_wallet_spec(s, &auth, agent, wallet, settlement_asset, spend_limit) is Ok)
        },
        bind_wallet_spec(s, &auth, agent, wallet, settlement_asset, spend_limit) is Ok ==> {
            let t = next_state(s, bind_wallet_spec(s, &auth, agent, wallet, settlement_asset, spend_limit));
            &&& binding_lookup(t, agent) is Ok
            &&& t.bindings[agent].wallet == wallet
            &&& t.bindings[agent].settlement_asset == settlement_asset
            &&& t.bindings[agent].spend_limit == spend_limit
            &&& t.bindings[agent].enabled
            &&& t.bindings[agent].revision == 0
            &&& binding_lookup(t, other) == binding_lookup(s, other)
        },
        rebind_wallet_spec(s, &auth, agent, wallet, settlement_asset, spend_limit) is Ok ==> {
            let t = next_state(s, rebind_wallet_spec(s, &auth, agent, wallet, settlement_asset, spend_limit));
            &&& binding_lookup(t, agent) is Ok
            &&& t.bindings[agent].wallet == wallet
            &&& t.bindings[agent].settlement_asset == settlement_asset
            &&& t.bindings[agent].spend_limit == spend_limit
            &&& t.bindings[agent].enabled
            &&& t.bindings[agent].revision == 0
            &&& binding_lookup(t, other) == binding_lookup(s, other)
        },
{
}

impl WalletContract {
    /// The table is well formed.
    pub closed spec fn wf(&self) -> bool {
        self.bindings.wf()
    }

    /// Deploy an empty, uninitialized registry that only `initial_admin`
    /// can initialize.
    pub fn new(initial_admin: Address) -> (c: Self)
        ensures
            c.wf(),
            c@.pinned_admin == initial_admin,
            c@.admin is None,
            c@.bindings == Map::<Address, WalletBindingView>::empty(),
    {
        WalletContract { pinned_admin: initial_admin, admin: None, bindings: AddressTable::new() }
    }

    /// Rebuild the registry from its stored records; where an agent occurs
    /// more than once, its last binding wins.
    pub fn restore(
        pinned_admin: Address,
        admin: Option<Address>,
        bindings: Vec<(Address, WalletBinding)>,
    ) -> (c: Self)
        ensures
            c.wf(),
            c@.pinned_admin == pinned_admin,
            c@.admin == admin,
            forall|a: Address|
                #[trigger] c@.bindings.contains_key(a) <==> exists|i: int|
                    0 <= i < bindings@.len() && (#[trigger] bindings@[i]).0 == a,
            forall|i: int|
                0 <= i < bindings@.len() && (forall|j: int| i < j < bindings@.len() ==> bindings@[j].0 != bindings@[i].0)
                    ==> c@.bindings[(#[trigger] bindings@[i]).0] == bindings@[i].1@,
    {
        WalletContract { pinned_admin, admin, bindings: AddressTable::from_entries(bindings) }
    }

    /// The stored records of the registry: its pinned admin, its admin and
    /// every binding with its agent, each agent once.
    pub fn into_parts(self) -> (r: (Address, Option<Address>, Vec<(Address, WalletBinding)>))
        requires
            self.wf(),
        ensures
            r.0 == self@.pinned_admin,
            r.1 == self@.admin,
            forall|i: int, j: int|
                0 <= i < j < r.2@.len() ==> (#[trigger] r.2@[i]).0 != (#[trigger] r.2@[j]).0,
            forall|i: int|
                0 <= i < r.2@.len() ==> self@.bindings.contains_key((#[trigger] r.2@[i]).0)
                    && self@.bindings[r.2@[i].0] == r.2@[i].1@,
            forall|a: Address|
                #[trigger] self@.bindings.contains_key(a) ==> exists|i: int|
                    0 <= i < r.2@.len() && (#[trigger] r.2@[i]).0 == a,
    {
        let ghost stored = self@.bindings;
        let WalletContract { pinned_admin, admin, bindings } = self;
        let entries = bindings.into_entries();
        let r = (pinned_admin, admin, entries);
        proof {
            assert forall|a: Address| #[trigger] stored.contains_key(a) implies exists|i: int|
                0 <= i < r.2@.len() && (#[trigger] r.2@[i]).0 == a by {
                assert(bindings.view().contains_key(a));
                let i = choose|i: int| 0 <= i < entries@.len() && (#[trigger] entries@[i]).0 == a;
                assert(r.2@[i] == entries@[i]);
            }
        }
        r
    }

    /// Initialize the wallet policy registry.
    pub fn initialize(&mut self, auth: &Authorizations, admin: Address) -> (r: Result<
        Vec<WalletEvent>,
        CallError,
    >)
        requires
            old(self).wf(),
        ensures
            final(self).wf(),
            commits(r, old(self)@, final(self)@, initialize_spec(old(self)@, auth, admin)),
    {
        if self.admin.is_some() {
            return Err(CallError::Contract(ProtocolError::AlreadyInitialized));
        }
        if let Err(e) = require(admin == self.pinned_admin, ProtocolError::Unauthorized) {
            return Err(e);
        }
        if let Err(e) = require_auth_or_error(admin, auth) {
            return Err(e);
        }
        self.admin = Some(admin);
        let mut events = Vec::new();
        events.push(WalletEvent::Initialized { admin });
        proof {
            assert(seq_views(events@) =~= seq![WalletEventView::Initialized { admin }]);
        }
        Ok(events)
    }

    /// Whether the registry has been initialized.
    pub fn is_initialized(&self) -> (r: bool)
        ensures
            r == self@.admin is Some,
    {
        self.admin.is_some()
    }

    /// The checks shared by `bind_wallet` and `rebind_wallet`.
    fn check_binding(
        &self,
        auth: &Authorizations,
        agent: Address,
        wallet: Address,
        spend_limit: i128,
    ) -> (r: Result<(), CallError>)
        ensures
            r == binding_checks(self@, auth, agent, wallet, spend_limit),
    {
        if self.admin.is_none() {
            return Err(CallError::Contract(ProtocolError::NotInitialized));
        }
        if let Err(e) = require(spend_limit > 0, ProtocolError::InvalidInput) {
            return Err(e);
        }
        if let Err(e) = require_auth_or_error(agent, auth) {
            return Err(e);
        }
        require_auth_or_error(wallet, auth)
    }

    /// Bind an agent to a settlement wallet and policy envelope.
    pub fn bind_wallet(
        &mut self,
        auth: &Authorizations,
        agent: Address,
        wallet: Address,
        settlement_asset: Vec<u8>,
        spend_limit: i128,
    ) -> (r: Result<Vec<WalletEvent>, CallError>)
        requires
            old(self).wf(),
        ensures
            final(self).wf(),
            commits(
                r,
                old(self)@,
                final(self)@,
                bind_wallet_spec(old(self)@, auth, agent, wallet, settlement_asset@, spend_limit),
            ),
    {
        if let Err(e) = self.check_binding(auth, agent, wallet, spend_limit) {
            return Err(e);
        }
        if self.bindings.contains(agent) {
            return Err(CallError::Contract(ProtocolError::WalletAlreadyBound));
        }
        let binding = WalletBinding { wallet, settlement_asset, spend_limit, enabled: true, revision: 0 };
        let mut events = Vec::new();
        events.push(WalletEvent::Bound { agent, binding: binding.duplicate() });
        proof {
            assert(seq_views(events@) =~= seq![WalletEventView::Bound { agent, binding: binding@ }]);
        }
        self.bindings.insert(agent, binding);
        Ok(events)
    }

    /// Replace an existing binding with a new wallet, asset and spend limit.
    pub fn rebind_wallet(
        &mut self,
        auth: &Authorizations,
        agent: Address,
        wallet: Address,
        settlement_asset: Vec<u8>,
        spend_limit: i128,
    ) -> (r: Result<Vec<WalletEvent>, CallError>)
        requires
            old(self).wf(),
        ensures
            final(self).wf(),
            commits(
                r,
                old(self)@,
                final(self)@,
                rebind_wallet_spec(old(self)@, auth, agent, wallet, settlement_asset@, spend_limit),
            ),
    {
        if let Err(e) = self.check_binding(auth, agent, wallet, spend_limit) {
            return Err(e);
        }
        if !self.bindings.contains(agent) {
            return Err(CallError::Contract(ProtocolError::MissingRecord));
        }
        let binding = WalletBinding { wallet, settlement_asset, spend_limit, enabled: true, revision: 0 };
        let mut events = Vec::new();
        events.push(WalletEvent::Rebound { agent, binding: binding.duplicate() });
        proof {
            assert(seq_views(events@) =~= seq![WalletEventView::Rebound { agent, binding: binding@ }]);
        }
        self.bindings.insert(agent, binding);
        Ok(events)
    }

    /// Update the spend limit for an enabled binding.
    pub fn update_spend_limit(&mut self, auth: &Authorizations, agent: Address, spend_limit: i128) -> (r:
        Result<Vec<WalletEvent>, CallError>)
        requires
            old(self).wf(),
        ensures
            final(self).wf(),
            commits(r, old(self)@, final(self)@, update_spend_limit_spec(old(self)@, auth, agent, spend_limit)),
    {
        if self.admin.is_none() {
            return Err(CallError::Contract(ProtocolError::NotInitialized));
        }
        if let Err(e) = require(spend_limit > 0, ProtocolError::InvalidInput) {
            return Err(e);
        }
        if let Err(e) = require_auth_or_error(agent, auth) {
            return Err(e);
        }
        let b = match self.bindings.get(agent) {
            Some(b) => b,
            None => return Err(CallError::Contract(ProtocolError::MissingRecord)),
        };
        if let Err(e) = require(b.enabled, ProtocolError::InvalidInput) {
            return Err(e);
        }
        if b.revision == u64::MAX {
            return Err(CallError::Overflow);
        }
        let updated = WalletBinding {
            wallet: b.wallet,
            settlement_asset: copy_bytes(&b.settlement_asset),
            spend_limit,
            enabled: b.enabled,
            revision: b.revision + 1,
        };
        let mut events = Vec::new();
        events.push(WalletEvent::LimitUpdated { agent, binding: updated.duplicate() });
        proof {
            assert(seq_views(events@) =~= seq![WalletEventView::LimitUpdated { agent, binding: updated@ }]);
        }
        self.bindings.insert(agent, updated);
        Ok(events)
    }

    /// Enable or disable a wallet binding.
    pub fn set_enabled(&mut self, auth: &Authorizations, agent: Address, enabled: bool) -> (r: Result<
        Vec<WalletEvent>,
        CallError,
    >)
        requires
            old(self).wf(),
        ensures
            final(self).wf(),
            commits(r, old(self)@, final(self)@, set_enabled_spec(old(self)@, auth, agent, enabled)),
    {
        if self.admin.is_none() {
            return Err(CallError::Contract(ProtocolError::NotInitialized));
        }
        if let Err(e) = require_auth_or_error(agent, auth) {
            return Err(e);
        }
        let b = match self.bindings.get(agent) {
            Some(b) => b,
            None => return Err(CallError::Contract(ProtocolError::MissingRecord)),
        };
        if b.revision == u64::MAX {
            return Err(CallError::Overflow);
        }
        let updated = WalletBinding {
            wallet: b.wallet,
            settlement_asset: copy_bytes(&b.settlement_asset),
            spend_limit: b.spend_limit,
            enabled,
            revision: b.revision + 1,
        };
        let mut events = Vec::new();
        events.push(WalletEvent::StateChanged { agent, binding: updated.duplicate() });
        proof {
            assert(seq_views(events@) =~= seq![WalletEventView::StateChanged { agent, binding: updated@ }]);
        }
        self.bindings.insert(agent, updated);
        Ok(events)
    }

    /// Admin emergency deactivation of a wallet binding.
    pub fn admin_deactivate(&mut self, auth: &Authorizations, agent: Address) -> (r: Result<
        Vec<WalletEvent>,
        CallError,
    >)
        requires
            old(self).wf(),
        ensures
            final(self).wf(),
            commits(r, old(self)@, final(self)@, admin_deactivate_spec(old(self)@, auth, agent)),
    {
        let admin = match self.admin {
            Some(a) => a,
            None => return Err(CallError::Contract(ProtocolError::NotInitialized)),
        };
        if let Err(e) = require_auth_or_error(admin, auth) {
            return Err(e);
        }
        let b = match self.bindings.get(agent) {
            Some(b) => b,
            None => return Err(CallError::Contract(ProtocolError::MissingRecord)),
        };
        if b.revision == u64::MAX {
            return Err(CallError::Overflow);
        }
        let updated = WalletBinding {
            wallet: b.wallet,
            settlement_asset: copy_bytes(&b.settlement_asset),
            spend_limit: b.spend_limit,
            enabled: false,
            revision: b.revision + 1,
        };
        let mut events = Vec::new();
        events.push(WalletEvent::AdminDeactivated { agent, binding: updated.duplicate() });
        proof {
            assert(seq_views(events@) =~= seq![WalletEventView::AdminDeactivated { agent, binding: updated@ }]);
        }
        self.bindings.insert(agent, updated);
        Ok(events)
    }

    /// Remove an agent's binding from storage.
    pub fn unbind_wallet(&mut self, auth: &Authorizations, agent: Address) -> (r: Result<
        Vec<WalletEvent>,
        CallError,
    >)
        requires
            old(self).wf(),
        ensures
            final(self).wf(),
            commits(r, old(self)@, final(self)@, unbind_wallet_spec(old(self)@, auth, agent)),
    {
        if self.admin.is_none() {
            return Err(CallError::Contract(ProtocolError::NotInitialized));
        }
        if let Err(e) = require_auth_or_error(agent, auth) {
            return Err(e);
        }
        if !self.bindings.contains(agent) {
            return Err(CallError::Contract(ProtocolError::MissingRecord));
        }
        let _removed = self.bindings.remove(agent);
        let mut events = Vec::new();
        events.push(WalletEvent::Unbound { agent });
        proof {
            assert(seq_views(events@) =~= seq![WalletEventView::Unbound { agent }]);
        }
        Ok(events)
    }

    /// Read the current binding for an agent.
    pub fn get_binding(&self, agent: Address) -> (r: Result<WalletBinding, CallError>)
        requires
            self.wf(),
        ensures
            match (r, binding_lookup(self@, agent)) {
                (Ok(b), Ok(v)) => b@ == v,
                (Err(e), Err(f)) => e == f,
                _ => false,
            },
    {
        if self.admin.is_none() {
            return Err(CallError::Contract(ProtocolError::NotInitialized));
        }
        match self.bindings.get(agent) {
            Some(b) => Ok(b.duplicate()),
            None => Err(CallError::Contract(ProtocolError::MissingRecord)),
        }
    }

    /// Read the current binding for an agent, or `None` if it has none.
    pub fn get_binding_opt(&self, agent: Address) -> (r: Result<Option<WalletBinding>, CallError>)
        requires
            self.wf(),
        ensures
            match r {
                Ok(Some(b)) => self@.admin is Some && self@.bindings.contains_key(agent)
                    && b@ == self@.bindings[agent],
                Ok(None) => self@.admin is Some && !self@.bindings.contains_key(agent),
                Err(e) => self@.admin is None && e == CallError::Contract(ProtocolError::NotInitialized),
            },
    {
        if self.admin.is_none() {
            return Err(CallError::Contract(ProtocolError::NotInitialized));
        }
        match self.bindings.get(agent) {
            Some(b) => Ok(Some(b.duplicate())),
            None => Ok(None),
        }
    }
}

} // verus!

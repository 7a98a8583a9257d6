//! Global protocol configuration: one-time initialization by the deploy-time
//! pinned admin, fee basis points, treasury, and a two-step admin handover.

use crate::common::{require, require_auth_or_error, require_valid_bps, Address, Authorizations, CallError, ProtocolError, MAX_BPS};
use crate::outcome::{commits, seq_views, next_state, Transition};
use vstd::prelude::*;

verus! {

/// Storage schema version of the protocol contract.
pub const SCHEMA_VERSION: u32 = 1;

/// The protocol-wide configuration.
#[derive(Clone, Copy, Debug, PartialEq, Eq, Structural)]
pub struct ProtocolConfig {
    pub admin: Address,
    pub treasury: Address,
    pub fee_bps: u32,
}

/// Events published by the protocol contract; each names its topics.
#[derive(Clone, Copy, Debug, PartialEq, Eq, Structural)]
pub enum ProtocolEvent {
    /// `("init", admin)` carrying the new configuration.
    Initialized { admin: Address, config: ProtocolConfig },
    /// `("fee", admin)` carrying the new fee.
    FeeUpdated { admin: Address, fee_bps: u32 },
    /// `("treasury", admin)` carrying the new treasury.
    TreasuryUpdated { admin: Address, treasury: Address },
    /// `("propose", admin)` carrying the proposed admin.
    AdminProposed { admin: Address, proposed: Address },
    /// `("admin", previous)` carrying the admin that accepted.
    AdminTransferred { previous: Address, admin: Address },
}

impl View for ProtocolEvent {
    type V = ProtocolEvent;

    open spec fn view(&self) -> ProtocolEvent {
        *self
    }
}

/// Everything the protocol contract keeps in storage.
#[derive(Clone, Copy, Debug, PartialEq, Eq, Structural)]
pub struct ProtocolState {
    /// The only address allowed to initialize, captured at deploy time.
    pub pinned_admin: Address,
    /// The configuration; `None` until initialized.
    pub config: Option<ProtocolConfig>,
    /// The admin proposed by `transfer_admin`, awaiting acceptance.
    pub pending_admin: Option<Address>,
    /// The schema version written at initialization (0 before).
    pub schema_version: u32,
}

/// The protocol configuration contract.
pub struct ProtocolContract {
    state: ProtocolState,
}

impl View for ProtocolContract {
    type V = ProtocolState;

    closed spec fn view(&self) -> ProtocolState {
        self.state
    }
}

/// `initialize`: once, by the pinned admin, who must sign, with a valid fee.
pub open spec fn initialize_spec(
    s: ProtocolState,
    auth: &Authorizations,
    admin: Address,
    treasury: Address,
    fee_bps: u32,
) -> Transition<ProtocolState, ProtocolEvent> {
    if s.config is Some {
        Err(CallError::Contract(ProtocolError::AlreadyInitialized))
    } else if admin != s.pinned_admin {
        Err(CallError::Contract(ProtocolError::Unauthorized))
    } else if !auth.authorizes(admin) {
        Err(CallError::Auth(admin))
    } else if fee_bps > MAX_BPS {
        Err(CallError::Contract(ProtocolError::FeeBpsTooHigh))
    } else {
        let config = ProtocolConfig { admin, treasury, fee_bps };
        Ok((
            ProtocolState {
                pinned_admin: s.pinned_admin,
                config: Some(config),
                pending_admin: s.pending_admin,
                schema_version: SCHEMA_VERSION,
            },
            seq![ProtocolEvent::Initialized { admin, config }],
        ))
    }
}

/// `set_fee_bps`: the stored admin signs before the fee is validated.
pub open spec fn set_fee_bps_spec(
    s: ProtocolState,
    auth: &Authorizations,
    fee_bps: u32,
) -> Transition<ProtocolState, ProtocolEvent> {
    match s.config {
        None => Err(CallError::Contract(ProtocolError::NotInitialized)),
        Some(c) => if !auth.authorizes(c.admin) {
            Err(CallError::Auth(c.admin))
        } else if fee_bps > MAX_BPS {
            Err(CallError::Contract(ProtocolError::FeeBpsTooHigh))
        } else {
            Ok((
                ProtocolState { config: Some(ProtocolConfig { fee_bps, ..c }), ..s },
                seq![ProtocolEvent::FeeUpdated { admin: c.admin, fee_bps }],
            ))
        },
    }
}

/// `set_treasury`: the stored admin redirects fee collection.
pub open spec fn set_treasury_spec(
    s: ProtocolState,
    auth: &Authorizations,
    treasury: Address,
) -> Transition<ProtocolState, ProtocolEvent> {
    match s.config {
        None => Err(CallError::Contract(ProtocolError::NotInitialized)),
        Some(c) => if !auth.authorizes(c.admin) {
            Err(CallError::Auth(c.admin))
        } else {
            Ok((
                ProtocolState { config: Some(ProtocolConfig { treasury, ..c }), ..s },
                seq![ProtocolEvent::TreasuryUpdated { admin: c.admin, treasury }],
            ))
        },
    }
}

/// `transfer_admin`: the stored admin proposes a successor and stays in power.
pub open spec fn transfer_admin_spec(
    s: ProtocolState,
    auth: &Authorizations,
    new_admin: Address,
) -> Transition<ProtocolState, ProtocolEvent> {
    match s.config {
        None => Err(CallError::Contract(ProtocolError::NotInitialized)),
        Some(c) => if !auth.authorizes(c.admin) {
            Err(CallError::Auth(c.admin))
        } else {
            Ok((
                ProtocolState { pending_admin: Some(new_admin), ..s },
                seq![ProtocolEvent::AdminProposed { admin: c.admin, proposed: new_admin }],
            ))
        },
    }
}

/// `accept_admin`: the proposed admin signs and takes over; the proposal clears.
pub open spec fn accept_admin_spec(
    s: ProtocolState,
    auth: &Authorizations,
) -> Transition<ProtocolState, ProtocolEvent> {
    match s.config {
        None => Err(CallError::Contract(ProtocolError::NotInitialized)),
        Some(c) => match s.pending_admin {
            None => Err(CallError::Contract(ProtocolError::MissingRecord)),
            Some(p) => if !auth.authorizes(p) {
                Err(CallError::Auth(p))
            } else {
                Ok((
                    ProtocolState {
                        config: Some(ProtocolConfig { admin: p, ..c }),
                        pending_admin: None,
                        ..s
                    },
                    seq![ProtocolEvent::AdminTransferred { previous: c.admin, admin: p }],
                ))
            },
        },
    }
}

/// A view that needs an initialized contract.
pub open spec fn initialized_view<T>(s: ProtocolState, value: T) -> Result<T, CallError> {
    if s.config is Some {
        Ok(value)
    } else {
        Err(CallError::Contract(ProtocolError::NotInitialized))
    }
}

/// Every configured fee lies within `0..=MAX_BPS`.
pub open spec fn fee_within_bounds(s: ProtocolState) -> bool {
    s.config matches Some(c) ==> c.fee_bps <= MAX_BPS
}

/// Initialization happens at most once: once `initialize` has succeeded, every
/// later `initialize`, whatever its arguments and signers, is rejected with
/// `AlreadyInitialized`.
pub proof fn initialize_is_one_time(
    s: ProtocolState,
    auth: Authorizations,
    admin: Address,
    treasury: Address,
    fee_bps: u32,
    again_auth: Authorizations,
    again_admin: Address,
    again_treasury: Address,
    again_fee_bps: u32,
)
    requires
        initialize_spec(s, &auth, admin, treasury, fee_bps) is Ok,
    ensures
        initialize_spec(
            next_state(s, initialize_spec(s, &auth, admin, treasury, fee_bps)),
            &again_auth,
            again_admin,
            again_treasury,
            again_fee_bps,
        ) == Err::<(ProtocolState, Seq<ProtocolEvent>), CallError>(
            CallError::Contract(ProtocolError::AlreadyInitialized),
        ),
{
}

/// Two-step admin handover: when the admin proposes a successor, the admin
/// and the rest of the configuration stay as they were and the proposal is
/// recorded; when the proposed admin then accepts, it becomes the admin with
/// treasury and fee unchanged, the proposal is cleared, and a second
/// acceptance is rejected with `MissingRecord`.
pub proof fn admin_handover(
    s: ProtocolState,
    admin_auth: Authorizations,
    new_admin: Address,
    new_admin_auth: Authorizations,
    later_auth: Authorizations,
)
    requires
        s.config is Some,
        admin_auth.authorizes(s.config->0.admin),
        new_admin_auth.authorizes(new_admin),
    ensures
        transfer_admin_spec(s, &admin_auth, new_admin) is Ok,
        next_state(s, transfer_admin_spec(s, &admin_auth, new_admin)).config == s.config,
        next_state(s, transfer_admin_spec(s, &admin_auth, new_admin)).pending_admin == Some(new_admin),
        accept_admin_spec(next_state(s, transfer_admin_spec(s, &admin_auth, new_admin)), &new_admin_auth) is Ok,
        next_state(
            next_state(s, transfer_admin_spec(s, &admin_auth, new_admin)),
            accept_admin_spec(next_state(s, transfer_admin_spec(s, &admin_auth, new_admin)), &new_admin_auth),
        ).config == Some(ProtocolConfig { admin: new_admin, ..s.config->0 }),
        next_state(
            next_state(s, transfer_admin_spec(s, &admin_auth, new_admin)),
            accept_admin_spec(next_state(s, transfer_admin_spec(s, &admin_auth, new_admin)), &new_admin_auth),
        ).pending_admin is None,
        accept_admin_spec(
            next_state(
                next_state(s, transfer_admin_spec(s, &admin_auth, new_admin)),
                accept_admin_spec(next_state(s, transfer_admin_spec(s, &admin_auth, new_admin)), &new_admin_auth),
            ),
            &later_auth,
        ) == Err::<(ProtocolState, Seq<ProtocolEvent>), CallError>(
            CallError::Contract(ProtocolError::MissingRecord),
        ),
{
}

/// Authority stays with the stored admin until acceptance: while a successor
/// is only proposed, a fee, treasury or admin change that the stored admin has
/// not signed is rejected with that admin's authorization error.
pub proof fn proposal_grants_no_authority(
    s: ProtocolState,
    auth: Authorizations,
    fee_bps: u32,
    treasury: Address,
    new_admin: Address,
)
    requires
        s.config is Some,
        !auth.authorizes(s.config->0.admin),
    ensures
        set_fee_bps_spec(s, &auth, fee_bps) == Err::<(ProtocolState, Seq<ProtocolEvent>), CallError>(
            CallError::Auth(s.config->0.admin),
        ),
        set_treasury_spec(s, &auth, treasury) == Err::<(ProtocolState, Seq<ProtocolEvent>), CallError>(
            CallError::Auth(s.config->0.admin),
        ),
        transfer_admin_spec(s, &auth, new_admin) == Err::<(ProtocolState, Seq<ProtocolEvent>), CallError>(
            CallError::Auth(s.config->0.admin),
        ),
{
}

/// No operation can leave a fee above `MAX_BPS` in the configuration.
pub proof fn fee_bound_is_invariant(
    s: ProtocolState,
    auth: Authorizations,
    admin: Address,
    treasury: Address,
    fee_bps: u32,
    new_admin: Address,
)
    requires
        fee_within_bounds(s),
    ensures
        fee_within_bounds(next_state(s, initialize_spec(s, &auth, admin, treasury, fee_bps))),
        fee_within_bounds(next_state(s, set_fee_bps_spec(s, &auth, fee_bps))),
        fee_within_bounds(next_state(s, set_treasury_spec(s, &auth, treasury))),
        fee_within_bounds(next_state(s, transfer_admin_spec(s, &auth, new_admin))),
        fee_within_bounds(next_state(s, accept_admin_spec(s, &auth))),
{
}

/// What the admin's settings do: once initialized and signed by the stored
/// admin, any fee up to `MAX_BPS` is accepted and afterwards the configured
/// fee is exactly the one given, and any treasury is accepted and afterwards
/// the configured treasury is exactly the one given; the admin, the other
/// setting, the proposal and the pinned admin stay as they were, and the
/// event names the admin and the new value.
pub proof fn settings_take_the_given_values(
    s: ProtocolState,
    auth: Authorizations,
    fee_bps: u32,
    treasury: Address,
)
    ensures
        s.config is Some && auth.authorizes(s.config->0.admin) ==> {
            &&& (fee_bps <= MAX_BPS ==> set_fee_bps_spec(s, &auth, fee_bps) is Ok)
            &&& set_treasury_spec(s, &auth, treasury) is Ok
        },
        set_fee_bps_spec(s, &auth, fee_bps) is Ok ==> {
            let r = set_fee_bps_spec(s, &auth, fee_bps);
            let t = next_state(s, r);
            let c = s.config->0;
            &&& t.config is Some
            &&& t.config->0.fee_bps == fee_bps
            &&& t.config->0.admin == c.admin
            &&& t.config->0.treasury == c.treasury
            &&& t.pending_admin == s.pending_admin
            &&& t.pinned_admin == s.pinned_admin
            &&& t.schema_version == s.schema_version
            &&& r->Ok_0.1 == seq![ProtocolEvent::FeeUpdated { admin: c.admin, fee_bps }]
        },
        set_treasury_spec(s, &auth, treasury) is Ok ==> {
            let r = set_treasury_spec(s, &auth, treasury);
            let t = next_state(s, r);
            let c = s.config->0;
            &&& t.config is Some
            &&& t.config->0.treasury == treasury
            &&& t.config->0.admin == c.admin
            &&& t.config->0.fee_bps == c.fee_bps
            &&& t.pending_admin == s.pending_admin
            &&& t.pinned_admin == s.pinned_admin
            &&& t.schema_version == s.schema_version
            &&& r->Ok_0.1 == seq![ProtocolEvent::TreasuryUpdated { admin: c.admin, treasury }]
        },
{
}

impl ProtocolContract {
    /// Deploy the contract, pinning the address allowed to initialize it.
    pub fn new(initial_admin: Address) -> (c: Self)
        ensures
            c@ == (ProtocolState {
                pinned_admin: initial_admin,
                config: None,
                pending_admin: None,
                schema_version: 0,
            }),
    {
        ProtocolContract {
            state: ProtocolState {
                pinned_admin: initial_admin,
                config: None,
                pending_admin: None,
                schema_version: 0,
            },
        }
    }

    /// Rebuild the contract from its stored state.
    pub fn from_state(state: ProtocolState) -> (c: Self)
        ensures
            c@ == state,
    {
        ProtocolContract { state }
    }

    /// The stored state of the contract.
    pub fn state(&self) -> (s: ProtocolState)
        ensures
            s == self@,
    {
        self.state
    }

    /// Initialize protocol-wide configuration once.
    pub fn initialize(
        &mut self,
        auth: &Authorizations,
        admin: Address,
        treasury: Address,
        fee_bps: u32,
    ) -> (r: Result<Vec<ProtocolEvent>, CallError>)
        ensures
            commits(r, old(self)@, final(self)@, initialize_spec(old(self)@, auth, admin, treasury, fee_bps)),
    {
        if self.state.config.is_some() {
            return Err(CallError::Contract(ProtocolError::AlreadyInitialized));
        }
        if let Err(e) = require(admin == self.state.pinned_admin, ProtocolError::Unauthorized) {
            return Err(e);
        }
        if let Err(e) = require_auth_or_error(admin, auth) {
            return Err(e);
        }
        if let Err(e) = require_valid_bps(fee_bps) {
            return Err(e);
        }
        let config = ProtocolConfig { admin, treasury, fee_bps };
        self.state.config = Some(config);
        self.state.schema_version = SCHEMA_VERSION;
        let mut events = Vec::new();
        events.push(ProtocolEvent::Initialized { admin, config });
        proof {
            assert(seq_views(events@) =~= seq![ProtocolEvent::Initialized { admin, config }]);
        }
        Ok(events)
    }

    /// Whether the contract has been initialized.
    pub fn is_initialized(&self) -> (r: bool)
        ensures
            r == self@.config is Some,
    {
        self.state.config.is_some()
    }

    /// The stored schema version.
    pub fn schema_version(&self) -> (r: Result<u32, CallError>)
        ensures
            r == initialized_view(self@, self@.schema_version),
    {
        if self.state.config.is_none() {
            return Err(CallError::Contract(ProtocolError::NotInitialized));
        }
        Ok(self.state.schema_version)
    }

    /// The current protocol configuration.
    pub fn get_config(&self) -> (r: Result<ProtocolConfig, CallError>)
        ensures
            r == match self@.config {
                Some(c) => Ok(c),
                None => Err(CallError::Contract(ProtocolError::NotInitialized)),
            },
    {
        match self.state.config {
            Some(c) => Ok(c),
            None => Err(CallError::Contract(ProtocolError::NotInitialized)),
        }
    }

    /// The admin proposed by `transfer_admin` and not yet accepted, if any.
    pub fn get_pending_admin(&self) -> (r: Result<Option<Address>, CallError>)
        ensures
            r == initialized_view(self@, self@.pending_admin),
    {
        if self.state.config.is_none() {
            return Err(CallError::Contract(ProtocolError::NotInitialized));
        }
        Ok(self.state.pending_admin)
    }

    /// Update the protocol fee in basis points.
    pub fn set_fee_bps(&mut self, auth: &Authorizations, fee_bps: u32) -> (r: Result<
        Vec<ProtocolEvent>,
        CallError,
    >)
        ensures
            commits(r, old(self)@, final(self)@, set_fee_bps_spec(old(self)@, auth, fee_bps)),
    {
        let c = match self.state.config {
            Some(c) => c,
            None => return Err(CallError::Contract(ProtocolError::NotInitialized)),
        };
        if let Err(e) = require_auth_or_error(c.admin, auth) {
            return Err(e);
        }
        if let Err(e) = require_valid_bps(fee_bps) {
            return Err(e);
        }
        self.state.config = Some(ProtocolConfig { admin: c.admin, treasury: c.treasury, fee_bps });
        let mut events = Vec::new();
        events.push(ProtocolEvent::FeeUpdated { admin: c.admin, fee_bps });
        proof {
            assert(seq_views(events@) =~= seq![ProtocolEvent::FeeUpdated { admin: c.admin, fee_bps }]);
        }
        Ok(events)
    }

    /// Update the treasury address used for fee collection.
    pub fn set_treasury(&mut self, auth: &Authorizations, treasury: Address) -> (r: Result<
        Vec<ProtocolEvent>,
        CallError,
    >)
        ensures
            commits(r, old(self)@, final(self)@, set_treasury_spec(old(self)@, auth, treasury)),
    {
        let c = match self.state.config {
            Some(c) => c,
            None => return Err(CallError::Contract(ProtocolError::NotInitialized)),
        };
        if let Err(e) = require_auth_or_error(c.admin, auth) {
            return Err(e);
        }
        self.state.config = Some(ProtocolConfig { admin: c.admin, treasury, fee_bps: c.fee_bps });
        let mut events = Vec::new();
        events.push(ProtocolEvent::TreasuryUpdated { admin: c.admin, treasury });
        proof {
            assert(seq_views(events@) =~= seq![ProtocolEvent::TreasuryUpdated { admin: c.admin, treasury }]);
        }
        Ok(events)
    }

    /// Propose a new admin; the current admin keeps authority until acceptance.
    pub fn transfer_admin(&mut self, auth: &Authorizations, new_admin: Address) -> (r: Result<
        Vec<ProtocolEvent>,
        CallError,
    >)
        ensures
            commits(r, old(self)@, final(self)@, transfer_admin_spec(old(self)@, auth, new_admin)),
    {
        let c = match self.state.config {
            Some(c) => c,
            None => return Err(CallError::Contract(ProtocolError::NotInitialized)),
        };
        if let Err(e) = require_auth_or_error(c.admin, auth) {
            return Err(e);
        }
        self.state.pending_admin = Some(new_admin);
        let mut events = Vec::new();
        events.push(ProtocolEvent::AdminProposed { admin: c.admin, proposed: new_admin });
        proof {
            assert(seq_views(events@) =~= seq![ProtocolEvent::AdminProposed { admin: c.admin, proposed: new_admin }]);
        }
        Ok(events)
    }

    /// Accept a pending admin proposal; only the proposed admin can sign it.
    pub fn accept_admin(&mut self, auth: &Authorizations) -> (r: Result<Vec<ProtocolEvent>, CallError>)
        ensures
            commits(r, old(self)@, final(self)@, accept_admin_spec(old(self)@, auth)),
    {
        let c = match self.state.config {
            Some(c) => c,
            None => return Err(CallError::Contract(ProtocolError::NotInitialized)),
        };
        let p = match self.state.pending_admin {
            Some(p) => p,
            None => return Err(CallError::Contract(ProtocolError::MissingRecord)),
        };
        if let Err(e) = require_auth_or_error(p, auth) {
            return Err(e);
        }
        self.state.config = Some(ProtocolConfig { admin: p, treasury: c.treasury, fee_bps: c.fee_bps });
        self.state.pending_admin = None;
        let mut events = Vec::new();
        events.push(ProtocolEvent::AdminTransferred { previous: c.admin, admin: p });
        proof {
            assert(seq_views(events@) =~= seq![ProtocolEvent::AdminTransferred { previous: c.admin, admin: p }]);
        }
        Ok(events)
    }
}

} // verus!

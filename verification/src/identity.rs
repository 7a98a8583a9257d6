//! Agent identity registry: agents register a profile naming the controller
//! that manages it; the controller updates metadata and rotates control; the
//! admin deactivates and reactivates profiles.

use crate::common::{
    bytes_equal, copy_bytes, require, require_auth_or_error, Address, Authorizations, CallError,
    ProtocolError, PROTOCOL_VERSION,
};
use crate::outcome::{commits, seq_views, next_state, Transition};
use crate::table::AddressTable;
use vstd::prelude::*;

verus! {

/// A registered agent profile.
#[derive(Clone, Debug, PartialEq, Eq)]
pub struct AgentProfile {
    pub controller: Address,
    pub metadata_uri: Vec<u8>,
    pub active: bool,
    pub revision: u64,
}

/// The value of an agent profile.
pub struct AgentProfileView {
    pub controller: Address,
    pub metadata_uri: Seq<u8>,
    pub active: bool,
    pub revision: u64,
}

impl View for AgentProfile {
    type V = AgentProfileView;

    open spec fn view(&self) -> AgentProfileView {
        AgentProfileView {
            controller: self.controller,
            metadata_uri: self.metadata_uri@,
            active: self.active,
            revision: self.revision,
        }
    }
}

impl AgentProfile {
    /// A copy of this profile.
    pub fn duplicate(&self) -> (r: AgentProfile)
        ensures
            r@ == self@,
    {
        AgentProfile {
            controller: self.controller,
            metadata_uri: copy_bytes(&self.metadata_uri),
            active: self.active,
            revision: self.revision,
        }
    }
}

/// The registry configuration.
#[derive(Clone, Copy, Debug, PartialEq, Eq, Structural)]
pub struct IdentityConfig {
    pub admin: Address,
}

/// Events published by the identity registry; each names its topics.
#[derive(Clone, Debug, PartialEq, Eq)]
pub enum IdentityEvent {
    /// `("init",)` carrying the admin.
    Initialized { admin: Address },
    /// `("register", agent)` carrying the new profile.
    Registered { agent: Address, profile: AgentProfile },
    /// `("update", agent)` carrying the updated profile.
    Updated { agent: Address, profile: AgentProfile },
    /// `("metadata_updated", agent)` carrying the new metadata URI.
    MetadataUpdated { agent: Address, metadata_uri: Vec<u8> },
    /// `("controller_rotated", agent)` carrying the previous and new controller.
    ControllerRotated { agent: Address, previous: Address, controller: Address },
    /// `("deact", agent)` carrying the deactivated profile.
    Deactivated { agent: Address, profile: AgentProfile },
    /// `("react", agent)` carrying the reactivated profile.
    Reactivated { agent: Address, profile: AgentProfile },
}

/// The value of an identity event.
pub enum IdentityEventView {
    Initialized { admin: Address },
    Registered { agent: Address, profile: AgentProfileView },
    Updated { agent: Address, profile: AgentProfileView },
    MetadataUpdated { agent: Address, metadata_uri: Seq<u8> },
    ControllerRotated { agent: Address, previous: Address, controller: Address },
    Deactivated { agent: Address, profile: AgentProfileView },
    Reactivated { agent: Address, profile: AgentProfileView },
}

impl View for IdentityEvent {
    type V = IdentityEventView;

    open spec fn view(&self) -> IdentityEventView {
        match self {
            IdentityEvent::Initialized { admin } => IdentityEventView::Initialized { admin: *admin },
            IdentityEvent::Registered { agent, profile } => IdentityEventView::Registered {
                agent: *agent,
                profile: profile@,
            },
            IdentityEvent::Updated { agent, profile } => IdentityEventView::Updated {
                agent: *agent,
                profile: profile@,
            },
            IdentityEvent::MetadataUpdated { agent, metadata_uri } => IdentityEventView::MetadataUpdated {
                agent: *agent,
                metadata_uri: metadata_uri@,
            },
            IdentityEvent::ControllerRotated { agent, previous, controller } => IdentityEventView::ControllerRotated {
                agent: *agent,
                previous: *previous,
                controller: *controller,
            },
            IdentityEvent::Deactivated { agent, profile } => IdentityEventView::Deactivated {
                agent: *agent,
                profile: profile@,
            },
            IdentityEvent::Reactivated { agent, profile } => IdentityEventView::Reactivated {
                agent: *agent,
                profile: profile@,
            },
        }
    }
}

/// Everything the identity registry keeps in storage.
pub struct IdentityState {
    /// The admin pinned at deployment, the only one `initialize` accepts.
    pub pinned_admin: Address,
    /// The registry configuration; `None` until initialized.
    pub config: Option<IdentityConfig>,
    /// The profile of each registered agent.
    pub profiles: Map<Address, AgentProfileView>,
}

/// The agent identity registry.
pub struct IdentityContract {
    pinned_admin: Address,
    config: Option<IdentityConfig>,
    profiles: AddressTable<AgentProfile>,
}

impl View for IdentityContract {
    type V = IdentityState;

    closed spec fn view(&self) -> IdentityState {
        IdentityState { pinned_admin: self.pinned_admin, config: self.config, profiles: self.profiles@ }
    }
}

/// `initialize`: once, by the admin pinned at deployment, who must sign.
pub open spec fn initialize_spec(s: IdentityState, auth: &Authorizations, admin: Address) -> Transition<
    IdentityState,
    IdentityEventView,
> {
    if s.config is Some {
        Err(CallError::Contract(ProtocolError::AlreadyInitialized))
    } else if admin != s.pinned_admin {
        Err(CallError::Contract(ProtocolError::Unauthorized))
    } else if !auth.authorizes(admin) {
        Err(CallError::Auth(admin))
    } else {
        Ok((
            IdentityState { config: Some(IdentityConfig { admin }), ..s },
            seq![IdentityEventView::Initialized { admin }],
        ))
    }
}

/// `register`: a new agent, signing for itself, names its controller and
/// metadata; the profile starts active at revision 0.
pub open spec fn register_spec(
    s: IdentityState,
    auth: &Authorizations,
    agent: Address,
    controller: Address,
    metadata_uri: Seq<u8>,
) -> Transition<IdentityState, IdentityEventView> {
    if s.config is None {
        Err(CallError::Contract(ProtocolError::NotInitialized))
    } else if metadata_uri.len() == 0 {
        Err(CallError::Contract(ProtocolError::InvalidInput))
    } else if s.profiles.contains_key(agent) {
        Err(CallError::Contract(ProtocolError::AlreadyExists))
    } else if !auth.authorizes(agent) {
        Err(CallError::Auth(agent))
    } else {
        let profile = AgentProfileView { controller, metadata_uri, active: true, revision: 0 };
        Ok((
            IdentityState { profiles: s.profiles.insert(agent, profile), ..s },
            seq![IdentityEventView::Registered { agent, profile }],
        ))
    }
}

/// The events of a successful profile update: the update itself, then a
/// metadata event when the URI changed and a rotation event when the
/// controller changed.
pub open spec fn update_events(
    agent: Address,
    before: AgentProfileView,
    after: AgentProfileView,
) -> Seq<IdentityEventView> {
    seq![IdentityEventView::Updated { agent, profile: after }]
        + (if after.metadata_uri != before.metadata_uri {
        seq![IdentityEventView::MetadataUpdated { agent, metadata_uri: after.metadata_uri }]
    } else {
        Seq::empty()
    }) + (if after.controller != before.controller {
        seq![
            IdentityEventView::ControllerRotated {
                agent,
                previous: before.controller,
                controller: after.controller,
            },
        ]
    } else {
        Seq::empty()
    })
}

/// `update_profile`: the controller of an active profile replaces its
/// metadata and may hand control to a new controller; the revision grows by 1.
pub open spec fn update_profile_spec(
    s: IdentityState,
    auth: &Authorizations,
    agent: Address,
    metadata_uri: Seq<u8>,
    new_controller: Option<Address>,
) -> Transition<IdentityState, IdentityEventView> {
    if s.config is None {
        Err(CallError::Contract(ProtocolError::NotInitialized))
    } else if metadata_uri.len() == 0 {
        Err(CallError::Contract(ProtocolError::InvalidInput))
    } else if !s.profiles.contains_key(agent) {
        Err(CallError::Contract(ProtocolError::MissingRecord))
    } else {
        let p = s.profiles[agent];
        if !p.active {
            Err(CallError::Contract(ProtocolError::InvalidInput))
        } else if !auth.authorizes(p.controller) {
            Err(CallError::Auth(p.controller))
        } else if p.revision == u64::MAX {
            Err(CallError::Overflow)
        } else {
            let q = AgentProfileView {
                controller: match new_controller {
                    Some(c) => c,
                    None => p.controller,
                },
                metadata_uri,
                active: true,
                revision: (p.revision + 1) as u64,
            };
            Ok((
                IdentityState { profiles: s.profiles.insert(agent, q), ..s },
                update_events(agent, p, q),
            ))
        }
    }
}

/// `deactivate`: the admin disables a registered profile; the revision grows by 1.
pub open spec fn deactivate_spec(s: IdentityState, auth: &Authorizations, agent: Address) -> Transition<
    IdentityState,
    IdentityEventView,
> {
    match s.config {
        None => Err(CallError::Contract(ProtocolError::NotInitialized)),
        Some(c) => if !auth.authorizes(c.admin) {
            Err(CallError::Auth(c.admin))
        } else if !s.profiles.contains_key(agent) {
            Err(CallError::Contract(ProtocolError::MissingRecord))
        } else if s.profiles[agent].revision == u64::MAX {
            Err(CallError::Overflow)
        } else {
            let p = s.profiles[agent];
            let q = AgentProfileView { active: false, revision: (p.revision + 1) as u64, ..p };
            Ok((
                IdentityState { profiles: s.profiles.insert(agent, q), ..s },
                seq![IdentityEventView::Deactivated { agent, profile: q }],
            ))
        },
    }
}

/// `reactivate`: the admin re-enables a deactivated profile, growing its
/// revision by 1; on an active profile it changes nothing and publishes nothing.
pub open spec fn reactivate_spec(s: IdentityState, auth: &Authorizations, agent: Address) -> Transition<
    IdentityState,
    IdentityEventView,
> {
    match s.config {
        None => Err(CallError::Contract(ProtocolError::NotInitialized)),
        Some(c) => if !auth.authorizes(c.admin) {
            Err(CallError::Auth(c.admin))
        } else if !s.profiles.contains_key(agent) {
            Err(CallError::Contract(ProtocolError::MissingRecord))
        } else if s.profiles[agent].active {
            Ok((s, Seq::empty()))
        } else if s.profiles[agent].revision == u64::MAX {
            Err(CallError::Overflow)
        } else {
            let p = s.profiles[agent];
            let q = AgentProfileView { active: true, revision: (p.revision + 1) as u64, ..p };
            Ok((
                IdentityState { profiles: s.profiles.insert(agent, q), ..s },
                seq![IdentityEventView::Reactivated { agent, profile: q }],
            ))
        },
    }
}

/// Only the admin pinned at deployment can initialize the registry: any
/// other admin is refused with `Unauthorized`, whoever signs, and the pinned
/// admin succeeds exactly when it signs.
pub proof fn only_the_pinned_admin_initializes(s: IdentityState, auth: Authorizations, admin: Address)
    requires
        s.config is None,
    ensures
        admin != s.pinned_admin ==> initialize_spec(s, &auth, admin)
            == Err::<(IdentityState, Seq<IdentityEventView>), CallError>(
            CallError::Contract(ProtocolError::Unauthorized),
        ),
        admin == s.pinned_admin ==> (initialize_spec(s, &auth, admin) is Ok <==> auth.authorizes(admin)),
{
}

/// Initialization happens once: after `initialize` has succeeded, every
/// further `initialize` is rejected with `AlreadyInitialized`.
pub proof fn initialize_is_one_time(
    s: IdentityState,
    auth: Authorizations,
    admin: Address,
    again_auth: Authorizations,
    again_admin: Address,
)
    requires
        initialize_spec(s, &auth, admin) is Ok,
    ensures
        initialize_spec(next_state(s, initialize_spec(s, &auth, admin)), &again_auth, again_admin)
            == Err::<(IdentityState, Seq<IdentityEventView>), CallError>(
            CallError::Contract(ProtocolError::AlreadyInitialized),
        ),
{
}

/// No operation moves the admin pinned at deployment.
pub proof fn pinned_admin_is_fixed(
    s: IdentityState,
    auth: Authorizations,
    admin: Address,
    agent: Address,
    controller: Address,
    metadata_uri: Seq<u8>,
    new_controller: Option<Address>,
)
    ensures
        next_state(s, initialize_spec(s, &auth, admin)).pinned_admin == s.pinned_admin,
        next_state(s, register_spec(s, &auth, agent, controller, metadata_uri)).pinned_admin
            == s.pinned_admin,
        next_state(s, update_profile_spec(s, &auth, agent, metadata_uri, new_controller)).pinned_admin
            == s.pinned_admin,
        next_state(s, deactivate_spec(s, &auth, agent)).pinned_admin == s.pinned_admin,
        next_state(s, reactivate_spec(s, &auth, agent)).pinned_admin == s.pinned_admin,
{
}

/// Each agent registers at most once: after `register` has succeeded for an
/// agent, registering that agent again is rejected with `AlreadyExists`.
pub proof fn registration_is_unique(
    s: IdentityState,
    auth: Authorizations,
    agent: Address,
    controller: Address,
    metadata_uri: Seq<u8>,
    again_auth: Authorizations,
    again_controller: Address,
    again_metadata_uri: Seq<u8>,
)
    requires
        register_spec(s, &auth, agent, controller, metadata_uri) is Ok,
        again_metadata_uri.len() > 0,
    ensures
        register_spec(
            next_state(s, register_spec(s, &auth, agent, controller, metadata_uri)),
            &again_auth,
            agent,
            again_controller,
            again_metadata_uri,
        ) == Err::<(IdentityState, Seq<IdentityEventView>), CallError>(
            CallError::Contract(ProtocolError::AlreadyExists),
        ),
{
}

/// A deactivated profile is frozen for its controller: after `deactivate`
/// has succeeded, `update_profile` on that agent is rejected with
/// `InvalidInput`, whoever signs.
pub proof fn deactivated_profile_rejects_updates(
    s: IdentityState,
    admin_auth: Authorizations,
    agent: Address,
    auth: Authorizations,
    metadata_uri: Seq<u8>,
    new_controller: Option<Address>,
)
    requires
        deactivate_spec(s, &admin_auth, agent) is Ok,
        metadata_uri.len() > 0,
    ensures
        update_profile_spec(
            next_state(s, deactivate_spec(s, &admin_auth, agent)),
            &auth,
            agent,
            metadata_uri,
            new_controller,
        ) == Err::<(IdentityState, Seq<IdentityEventView>), CallError>(
            CallError::Contract(ProtocolError::InvalidInput),
        ),
{
}

/// Reactivation is idempotent: reactivating an agent a second time changes
/// nothing and publishes nothing.
pub proof fn reactivate_is_idempotent(s: IdentityState, auth: Authorizations, agent: Address)
    requires
        reactivate_spec(s, &auth, agent) is Ok,
    ensures
        reactivate_spec(next_state(s, reactivate_spec(s, &auth, agent)), &auth, agent)
            == Ok::<(IdentityState, Seq<IdentityEventView>), CallError>((
            next_state(s, reactivate_spec(s, &auth, agent)),
            Seq::empty(),
        )),
{
}

/// A successful mutation of one agent's profile leaves every other profile
/// as it was and raises that agent's revision by at most one.
pub proof fn mutations_touch_only_their_agent(
    s: IdentityState,
    auth: Authorizations,
    agent: Address,
    metadata_uri: Seq<u8>,
    new_controller: Option<Address>,
    other: Address,
)
    requires
        other != agent,
        s.profiles.contains_key(agent),
    ensures
        ({
            let u = next_state(s, update_profile_spec(s, &auth, agent, metadata_uri, new_controller));
            let d = next_state(s, deactivate_spec(s, &auth, agent));
            let r = next_state(s, reactivate_spec(s, &auth, agent));
            &&& u.profiles.dom() == s.profiles.dom() && d.profiles.dom() == s.profiles.dom()
                && r.profiles.dom() == s.profiles.dom()
            &&& u.profiles[other] == s.profiles[other] && d.profiles[other] == s.profiles[other]
                && r.profiles[other] == s.profiles[other]
            &&& s.profiles[agent].revision <= u.profiles[agent].revision <= s.profiles[agent].revision + 1
            &&& s.profiles[agent].revision <= d.profiles[agent].revision <= s.profiles[agent].revision + 1
            &&& s.profiles[agent].revision <= r.profiles[agent].revision <= s.profiles[agent].revision + 1
        }),
{
    let u = next_state(s, update_profile_spec(s, &auth, agent, metadata_uri, new_controller));
    let d = next_state(s, deactivate_spec(s, &auth, agent));
    let r = next_state(s, reactivate_spec(s, &auth, agent));
    assert(u.profiles.dom() =~= s.profiles.dom());
    assert(d.profiles.dom() =~= s.profiles.dom());
    assert(r.profiles.dom() =~= s.profiles.dom());
}

/// What a profile update does: once initialized, a non-empty URI signed by
/// the controller of an active profile (below the last revision) is
/// accepted; after it the agent's profile holds the given URI, the given
/// controller (or the old one when none is given), stays active at the next
/// revision, and every other profile is as it was. The first event carries
/// the stored profile, a metadata event carrying the URI follows exactly when
/// the URI changed, and a rotation event naming the old and new controller
/// follows exactly when the controller changed.
pub proof fn update_profile_records_the_update(
    s: IdentityState,
    auth: Authorizations,
    agent: Address,
    metadata_uri: Seq<u8>,
    new_controller: Option<Address>,
    other: Address,
)
    requires
        other != agent,
    ensures
        s.config is Some && metadata_uri.len() > 0 && s.profiles.contains_key(agent) && s.profiles[agent].active
            && auth.authorizes(s.profiles[agent].controller) && s.profiles[agent].revision < u64::MAX
            ==> update_profile_spec(s, &auth, agent, metadata_uri, new_controller) is Ok,
        update_profile_spec(s, &auth, agent, metadata_uri, new_controller) is Ok ==> {
            let r = update_profile_spec(s, &auth, agent, metadata_uri, new_controller);
            let t = next_state(s, r);
            let events = r->Ok_0.1;
            let p = s.profiles[agent];
            let q = t.profiles[agent];
            let uri_changed = metadata_uri != p.metadata_uri;
            let rotated = q.controller != p.controller;
            &&& t.profiles.contains_key(agent)
            &&& q.metadata_uri == metadata_uri
            &&& q.controller == match new_controller {
                Some(c) => c,
                None => p.controller,
            }
            &&& q.active
            &&& q.revision == p.revision + 1
            &&& t.profiles.contains_key(other) == s.profiles.contains_key(other)
            &&& (s.profiles.contains_key(other) ==> t.profiles[other] == s.profiles[other])
            &&& t.config == s.config
            &&& events.len() == 1 + (if uri_changed { 1int } else { 0 }) + (if rotated { 1int } else { 0 })
            &&& events[0] == IdentityEventView::Updated { agent, profile: q }
            &&& (uri_changed ==> events[1] == IdentityEventView::MetadataUpdated { agent, metadata_uri })
            &&& (rotated ==> events[events.len() - 1] == IdentityEventView::ControllerRotated {
                agent,
                previous: p.controller,
                controller: q.controller,
            })
        },
{
}

/// What registration stores: once initialized, a new agent signing a
/// non-empty URI is registered; after it the agent's profile names the given
/// controller and URI, active at revision 0, every other profile is as it
/// was, and the event carries the stored profile.
pub proof fn register_stores_the_given_profile(
    s: IdentityState,
    auth: Authorizations,
    agent: Address,
    controller: Address,
    metadata_uri: Seq<u8>,
    other: Address,
)
    requires
        other != agent,
    ensures
        s.config is Some && metadata_uri.len() > 0 && !s.profiles.contains_key(agent) && auth.authorizes(agent)
            ==> register_spec(s, &auth, agent, controller, metadata_uri) is Ok,
        register_spec(s, &auth, agent, controller, metadata_uri) is Ok ==> {
            let r = register_spec(s, &auth, agent, controller, metadata_uri);
            let t = next_state(s, r);
            let q = t.profiles[agent];
            &&& t.profiles.contains_key(agent)
            &&& q.controller == controller
            &&& q.metadata_uri == metadata_uri
            &&& q.active
            &&& q.revision == 0
            &&& t.profiles.contains_key(other) == s.profiles.contains_key(other)
            &&& (s.profiles.contains_key(other) ==> t.profiles[other] == s.profiles[other])
            &&& r->Ok_0.1 == seq![IdentityEventView::Registered { agent, profile: q }]
        },
{
}

/// What the admin's switches do: `deactivate` leaves the profile inactive and
/// `reactivate` leaves it active, each keeping controller and URI; a change
/// of the flag raises the revision by one and is announced with the stored
/// profile, while reactivating an active profile changes nothing. Every other
/// profile is as it was.
pub proof fn admin_switches_set_the_flag(s: IdentityState, auth: Authorizations, agent: Address, other: Address)
    requires
        other != agent,
    ensures
        s.config is Some && auth.authorizes(s.config->0.admin) && s.profiles.contains_key(agent)
            && s.profiles[agent].revision < u64::MAX ==> {
            &&& deactivate_spec(s, &auth, agent) is Ok
            &&& reactivate_spec(s, &auth, agent) is Ok
        },
        deactivate_spec(s, &auth, agent) is Ok ==> {
            let r = deactivate_spec(s, &auth, agent);
            let t = next_state(s, r);
            let p = s.profiles[agent];
            let q = t.profiles[agent];
            &&& t.profiles.contains_key(agent)
            &&& !q.active
            &&& q.controller == p.controller && q.metadata_uri == p.metadata_uri
            &&& q.revision == p.revision + 1
            &&& t.profiles.contains_key(other) == s.profiles.contains_key(other)
            &&& (s.profiles.contains_key(other) ==> t.profiles[other] == s.profiles[other])
            &&& r->Ok_0.1 == seq![IdentityEventView::Deactivated { agent, profile: q }]
        },
        reactivate_spec(s, &auth, agent) is Ok ==> {
            let r = reactivate_spec(s, &auth, agent);
            let t = next_state(s, r);
            let p = s.profiles[agent];
            let q = t.profiles[agent];
            &&& t.profiles.contains_key(agent)
            &&& q.active
            &&& q.controller == p.controller && q.metadata_uri == p.metadata_uri
            &&& (p.active ==> t == s && r->Ok_0.1 == Seq::<IdentityEventView>::empty())
            &&& (!p.active ==> q.revision == p.revision + 1
                && r->Ok_0.1 == seq![IdentityEventView::Reactivated { agent, profile: q }])
            &&& t.profiles.contains_key(other) == s.profiles.contains_key(other)
            &&& (s.profiles.contains_key(other) ==> t.profiles[other] == s.profiles[other])
        },
{
}

impl IdentityContract {
    /// The table is well formed.
    pub closed spec fn wf(&self) -> bool {
        self.profiles.wf()
    }

    /// Deploy an empty, uninitialized registry that only `initial_admin`
    /// can initialize.
    pub fn new(initial_admin: Address) -> (c: Self)
        ensures
            c.wf(),
            c@.pinned_admin == initial_admin,
            c@.config is None,
            c@.profiles == Map::<Address, AgentProfileView>::empty(),
    {
        IdentityContract { pinned_admin: initial_admin, config: None, profiles: AddressTable::new() }
    }

    /// Rebuild the registry from its stored records; where an agent occurs
    /// more than once, its last record wins.
    pub fn restore(
        pinned_admin: Address,
        config: Option<IdentityConfig>,
        profiles: Vec<(Address, AgentProfile)>,
    ) -> (c: Self)
        ensures
            c.wf(),
            c@.pinned_admin == pinned_admin,
            c@.config == config,
            forall|a: Address|
                #[trigger] c@.profiles.contains_key(a) <==> exists|i: int|
                    0 <= i < profiles@.len() && (#[trigger] profiles@[i]).0 == a,
            forall|i: int|
                0 <= i < profiles@.len() && (forall|j: int| i < j < profiles@.len() ==> profiles@[j].0 != profiles@[i].0)
                    ==> c@.profiles[(#[trigger] profiles@[i]).0] == profiles@[i].1@,
    {
        IdentityContract { pinned_admin, config, profiles: AddressTable::from_entries(profiles) }
    }

    /// The stored records of the registry: its pinned admin, its
    /// configuration and every profile with its agent, each agent once.
    pub fn into_parts(self) -> (r: (Address, Option<IdentityConfig>, Vec<(Address, AgentProfile)>))
        requires
            self.wf(),
        ensures
            r.0 == self@.pinned_admin,
            r.1 == self@.config,
            forall|i: int, j: int|
                0 <= i < j < r.2@.len() ==> (#[trigger] r.2@[i]).0 != (#[trigger] r.2@[j]).0,
            forall|i: int|
                0 <= i < r.2@.len() ==> self@.profiles.contains_key((#[trigger] r.2@[i]).0)
                    && self@.profiles[r.2@[i].0] == r.2@[i].1@,
            forall|a: Address|
                #[trigger] self@.profiles.contains_key(a) ==> exists|i: int|
                    0 <= i < r.2@.len() && (#[trigger] r.2@[i]).0 == a,
    {
        let ghost stored = self@.profiles;
        let IdentityContract { pinned_admin, config, profiles } = self;
        let entries = profiles.into_entries();
        let r = (pinned_admin, config, entries);
        proof {
            assert forall|a: Address| #[trigger] stored.contains_key(a) implies exists|i: int|
                0 <= i < r.2@.len() && (#[trigger] r.2@[i]).0 == a by {
                assert(profiles.view().contains_key(a));
                let i = choose|i: int| 0 <= i < entries@.len() && (#[trigger] entries@[i]).0 == a;
                assert(r.2@[i] == entries@[i]);
            }
        }
        r
    }

    /// The shared protocol interface version.
    pub fn version(&self) -> (v: u32)
        ensures
            v == PROTOCOL_VERSION,
    {
        PROTOCOL_VERSION
    }

    /// Initialize the registry admin.
    pub fn initialize(&mut self, auth: &Authorizations, admin: Address) -> (r: Result<
        Vec<IdentityEvent>,
        CallError,
    >)
        requires
            old(self).wf(),
        ensures
            final(self).wf(),
            commits(r, old(self)@, final(self)@, initialize_spec(old(self)@, auth, admin)),
    {
        if self.config.is_some() {
            return Err(CallError::Contract(ProtocolError::AlreadyInitialized));
        }
        if let Err(e) = require(admin == self.pinned_admin, ProtocolError::Unauthorized) {
            return Err(e);
        }
        if let Err(e) = require_auth_or_error(admin, auth) {
            return Err(e);
        }
        self.config = Some(IdentityConfig { admin });
        let mut events = Vec::new();
        events.push(IdentityEvent::Initialized { admin });
        proof {
            assert(seq_views(events@) =~= seq![IdentityEventView::Initialized { admin }]);
        }
        Ok(events)
    }

    /// Whether the registry has been initialized.
    pub fn is_initialized(&self) -> (r: bool)
        ensures
            r == self@.config is Some,
    {
        self.config.is_some()
    }

    /// The registry configuration.
    pub fn get_config(&self) -> (r: Result<IdentityConfig, CallError>)
        ensures
            r == match self@.config {
                Some(c) => Ok(c),
                None => Err(CallError::Contract(ProtocolError::NotInitialized)),
            },
    {
        match self.config {
            Some(c) => Ok(c),
            None => Err(CallError::Contract(ProtocolError::NotInitialized)),
        }
    }

    /// Register a new agent profile controlled by a specific address.
    pub fn register(
        &mut self,
        auth: &Authorizations,
        agent: Address,
        controller: Address,
        metadata_uri: Vec<u8>,
    ) -> (r: Result<Vec<IdentityEvent>, CallError>)
        requires
            old(self).wf(),
        ensures
            final(self).wf(),
            commits(
                r,
                old(self)@,
                final(self)@,
                register_spec(old(self)@, auth, agent, controller, metadata_uri@),
            ),
    {
        if self.config.is_none() {
            return Err(CallError::Contract(ProtocolError::NotInitialized));
        }
        if let Err(e) = require(metadata_uri.len() > 0, ProtocolError::InvalidInput) {
            return Err(e);
        }
        if let Err(e) = require(!self.profiles.contains(agent), ProtocolError::AlreadyExists) {
            return Err(e);
        }
        if let Err(e) = require_auth_or_error(agent, auth) {
            return Err(e);
        }
        let profile = AgentProfile { controller, metadata_uri, active: true, revision: 0 };
        let published = profile.duplicate();
        self.profiles.insert(agent, profile);
        let mut events = Vec::new();
        events.push(IdentityEvent::Registered { agent, profile: published });
        proof {
            assert(seq_views(events@) =~= seq![IdentityEventView::Registered { agent, profile: published@ }]);
        }
        Ok(events)
    }

    /// Update metadata and optionally rotate the controller.
    pub fn update_profile(
        &mut self,
        auth: &Authorizations,
        agent: Address,
        metadata_uri: Vec<u8>,
        new_controller: Option<Address>,
    ) -> (r: Result<Vec<IdentityEvent>, CallError>)
        requires
            old(self).wf(),
        ensures
            final(self).wf(),
            commits(
                r,
                old(self)@,
                final(self)@,
                update_profile_spec(old(self)@, auth, agent, metadata_uri@, new_controller),
            ),
    {
        if self.config.is_none() {
            return Err(CallError::Contract(ProtocolError::NotInitialized));
        }
        if let Err(e) = require(metadata_uri.len() > 0, ProtocolError::InvalidInput) {
            return Err(e);
        }
        let p = match self.profiles.get(agent) {
            Some(p) => p,
            None => return Err(CallError::Contract(ProtocolError::MissingRecord)),
        };
        if let Err(e) = require(p.active, ProtocolError::InvalidInput) {
            return Err(e);
        }
        if let Err(e) = require_auth_or_error(p.controller, auth) {
            return Err(e);
        }
        if p.revision == u64::MAX {
            return Err(CallError::Overflow);
        }
        let metadata_changed = !bytes_equal(&p.metadata_uri, &metadata_uri);
        let previous = p.controller;
        let controller = match new_controller {
            Some(c) => c,
            None => previous,
        };
        let updated = AgentProfile {
            controller,
            metadata_uri,
            active: true,
            revision: p.revision + 1,
        };
        let ghost before = p@;
        let mut events = Vec::new();
        events.push(IdentityEvent::Updated { agent, profile: updated.duplicate() });
        if metadata_changed {
            events.push(IdentityEvent::MetadataUpdated {
                agent,
                metadata_uri: copy_bytes(&updated.metadata_uri),
            });
        }
        if controller != previous {
            events.push(IdentityEvent::ControllerRotated { agent, previous, controller });
        }
        proof {
            assert(seq_views(events@) =~= update_events(agent, before, updated@));
        }
        self.profiles.insert(agent, updated);
        Ok(events)
    }

    /// Disable an agent profile through admin action.
    pub fn deactivate(&mut self, auth: &Authorizations, agent: Address) -> (r: Result<
        Vec<IdentityEvent>,
        CallError,
    >)
        requires
            old(self).wf(),
        ensures
            final(self).wf(),
            commits(r, old(self)@, final(self)@, deactivate_spec(old(self)@, auth, agent)),
    {
        let c = match self.config {
            Some(c) => c,
            None => return Err(CallError::Contract(ProtocolError::NotInitialized)),
        };
        if let Err(e) = require_auth_or_error(c.admin, auth) {
            return Err(e);
        }
        let p = match self.profiles.get(agent) {
            Some(p) => p,
            None => return Err(CallError::Contract(ProtocolError::MissingRecord)),
        };
        if p.revision == u64::MAX {
            return Err(CallError::Overflow);
        }
        let updated = AgentProfile {
            controller: p.controller,
            metadata_uri: copy_bytes(&p.metadata_uri),
            active: false,
            revision: p.revision + 1,
        };
        let mut events = Vec::new();
        events.push(IdentityEvent::Deactivated { agent, profile: updated.duplicate() });
        proof {
            assert(seq_views(events@) =~= seq![IdentityEventView::Deactivated { agent, profile: updated@ }]);
        }
        self.profiles.insert(agent, updated);
        Ok(events)
    }

    /// Re-enable a previously deactivated agent profile through admin action.
    pub fn reactivate(&mut self, auth: &Authorizations, agent: Address) -> (r: Result<
        Vec<IdentityEvent>,
        CallError,
    >)
        requires
            old(self).wf(),
        ensures
            final(self).wf(),
            commits(r, old(self)@, final(self)@, reactivate_spec(old(self)@, auth, agent)),
    {
        let c = match self.config {
            Some(c) => c,
            None => return Err(CallError::Contract(ProtocolError::NotInitialized)),
        };
        if let Err(e) = require_auth_or_error(c.admin, auth) {
            return Err(e);
        }
        let p = match self.profiles.get(agent) {
            Some(p) => p,
            None => return Err(CallError::Contract(ProtocolError::MissingRecord)),
        };
        if p.active {
            let events: Vec<IdentityEvent> = Vec::new();
            proof {
                assert(seq_views(events@) =~= Seq::<IdentityEventView>::empty());
            }
            return Ok(events);
        }
        if p.revision == u64::MAX {
            return Err(CallError::Overflow);
        }
        let updated = AgentProfile {
            controller: p.controller,
            metadata_uri: copy_bytes(&p.metadata_uri),
            active: true,
            revision: p.revision + 1,
        };
        let mut events = Vec::new();
        events.push(IdentityEvent::Reactivated { agent, profile: updated.duplicate() });
        proof {
            assert(seq_views(events@) =~= seq![IdentityEventView::Reactivated { agent, profile: updated@ }]);
        }
        self.profiles.insert(agent, updated);
        Ok(events)
    }

    /// Fetch a registered profile.
    pub fn get_profile(&self, agent: Address) -> (r: Result<AgentProfile, CallError>)
        requires
            self.wf(),
        ensures
            match r {
                Ok(p) => self@.config is Some && self@.profiles.contains_key(agent)
                    && p@ == self@.profiles[agent],
                Err(e) => (self@.config is None && e == CallError::Contract(ProtocolError::NotInitialized))
                    || (self@.config is Some && !self@.profiles.contains_key(agent) && e == CallError::Contract(
                    ProtocolError::MissingRecord,
                )),
            },
    {
        if self.config.is_none() {
            return Err(CallError::Contract(ProtocolError::NotInitialized));
        }
        match self.profiles.get(agent) {
            Some(p) => Ok(p.duplicate()),
            None => Err(CallError::Contract(ProtocolError::MissingRecord)),
        }
    }

    /// Fetch a profile, or `None` for an unregistered agent.
    pub fn get_profile_opt(&self, agent: Address) -> (r: Result<Option<AgentProfile>, CallError>)
        requires
            self.wf(),
        ensures
            match r {
                Ok(Some(p)) => self@.config is Some && self@.profiles.contains_key(agent)
                    && p@ == self@.profiles[agent],
                Ok(None) => self@.config is Some && !self@.profiles.contains_key(agent),
                Err(e) => self@.config is None && e == CallError::Contract(ProtocolError::NotInitialized),
            },
    {
        if self.config.is_none() {
            return Err(CallError::Contract(ProtocolError::NotInitialized));
        }
        match self.profiles.get(agent) {
            Some(p) => Ok(Some(p.duplicate())),
            None => Ok(None),
        }
    }
}

} // verus!

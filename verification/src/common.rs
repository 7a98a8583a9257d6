//! Shared primitives used across the Lily Protocol contracts: typed protocol
//! errors, the payment status, addresses, the authorization context of a call,
//! and the validation guards every contract runs before touching state.

use vstd::prelude::*;

verus! {

/// Maximum basis points accepted by percentage-based configuration.
pub const MAX_BPS: u32 = 10_000;

/// Shared on-chain protocol interface version exposed by every contract.
pub const PROTOCOL_VERSION: u32 = 1;

/// Storage schema version written by a fresh deployment.
pub const DEFAULT_SCHEMA_VERSION: u32 = 1;

/// TTL threshold used when refreshing instance storage.
pub const INSTANCE_BUMP_THRESHOLD: u32 = 17_280;

/// TTL target used when refreshing instance storage.
pub const INSTANCE_BUMP_AMOUNT: u32 = 172_800;

/// Common protocol errors used across the contracts.
///
/// Each variant has a fixed numeric code (see [`ProtocolError::code`]) that is
/// part of the on-wire encoding; new variants are appended at the end.
#[derive(Clone, Copy, Debug, PartialEq, Eq, Structural, Hash)]
pub enum ProtocolError {
    AlreadyInitialized,
    NotInitialized,
    Unauthorized,
    InvalidInput,
    FeeBpsTooHigh,
    AlreadyExists,
    MissingRecord,
    PaymentAlreadyFinalized,
    WalletAlreadyBound,
    /// Raised when a reentrancy guard is already held in the current call.
    ReentrantCall,
}

impl ProtocolError {
    /// The numeric code of each error on the wire.
    pub open spec fn wire_code(self) -> u32 {
        match self {
            ProtocolError::AlreadyInitialized => 1,
            ProtocolError::NotInitialized => 2,
            ProtocolError::Unauthorized => 3,
            ProtocolError::InvalidInput => 4,
            ProtocolError::FeeBpsTooHigh => 5,
            ProtocolError::AlreadyExists => 6,
            ProtocolError::MissingRecord => 7,
            ProtocolError::PaymentAlreadyFinalized => 8,
            ProtocolError::WalletAlreadyBound => 9,
            ProtocolError::ReentrantCall => 10,
        }
    }

    /// Numeric code of the error, as carried by `Error(Contract, #code)`.
    pub fn code(&self) -> (c: u32)
        ensures
            c == self.wire_code(),
    {
        match self {
            ProtocolError::AlreadyInitialized => 1,
            ProtocolError::NotInitialized => 2,
            ProtocolError::Unauthorized => 3,
            ProtocolError::InvalidInput => 4,
            ProtocolError::FeeBpsTooHigh => 5,
            ProtocolError::AlreadyExists => 6,
            ProtocolError::MissingRecord => 7,
            ProtocolError::PaymentAlreadyFinalized => 8,
            ProtocolError::WalletAlreadyBound => 9,
            ProtocolError::ReentrantCall => 10,
        }
    }
}

/// Shared payment status used by settlement-oriented contracts.
#[derive(Clone, Copy, Debug, PartialEq, Eq, Structural, Hash)]
pub enum PaymentStatus {
    Pending,
    Settled,
    Cancelled,
}

/// The two kinds of Stellar address: an account key or a contract id.
#[derive(Clone, Copy, Debug, PartialEq, Eq, Structural, Hash)]
pub enum AddressKind {
    Account,
    Contract,
}

/// A Stellar address: its kind and its 32-byte payload, held as two words.
#[derive(Clone, Copy, Debug, PartialEq, Eq, Structural, Hash)]
pub struct Address {
    pub kind: AddressKind,
    pub key_hi: u128,
    pub key_lo: u128,
}

/// Why a contract call was rejected.
#[derive(Clone, Copy, Debug, PartialEq, Eq, Structural)]
pub enum CallError {
    /// A typed protocol error, surfaced as `Error(Contract, #code)`.
    Contract(ProtocolError),
    /// The given address did not authorize the call; the host traps with an
    /// authorization error.
    Auth(Address),
    /// An arithmetic overflow trapped the call.
    Overflow,
}

/// The addresses that have signed the current invocation.
///
/// `all_signed` stands for an environment in which every authorization is
/// granted (the `mock_all_auths` test setting).
pub struct Authorizations {
    pub all_signed: bool,
    pub signers: Vec<Address>,
}

impl Authorizations {
    /// Whether `a` has authorized the current invocation.
    pub open spec fn authorizes(&self, a: Address) -> bool {
        self.all_signed || self.signers@.contains(a)
    }

    /// Every address is authorized.
    pub fn all() -> (r: Authorizations)
        ensures
            forall|a: Address| r.authorizes(a),
    {
        Authorizations { all_signed: true, signers: Vec::new() }
    }

    /// No address is authorized.
    pub fn none() -> (r: Authorizations)
        ensures
            forall|a: Address| !r.authorizes(a),
    {
        Authorizations { all_signed: false, signers: Vec::new() }
    }

    /// Exactly the given addresses are authorized.
    pub fn only(signers: Vec<Address>) -> (r: Authorizations)
        ensures
            forall|a: Address| r.authorizes(a) <==> signers@.contains(a),
    {
        Authorizations { all_signed: false, signers }
    }

    /// Whether `a` has authorized the current invocation.
    pub fn is_authorized(&self, a: Address) -> (r: bool)
        ensures
            r == self.authorizes(a),
    {
        if self.all_signed {
            return true;
        }
        let n = self.signers.len();
        for i in 0..n
            invariant
                n == self.signers@.len(),
                !self.all_signed,
                forall|j: int| 0 <= j < i ==> self.signers@[j] != a,
        {
            if self.signers[i] == a {
                return true;
            }
        }
        false
    }
}

/// The outcome a guard gives: success, or the typed error it raises.
pub open spec fn guard_result(condition: bool, error: ProtocolError) -> Result<(), CallError> {
    if condition {
        Ok(())
    } else {
        Err(CallError::Contract(error))
    }
}

/// Fail with a typed contract error when a condition is not satisfied.
pub fn require(condition: bool, error: ProtocolError) -> (r: Result<(), CallError>)
    ensures
        r == guard_result(condition, error),
{
    if condition {
        Ok(())
    } else {
        Err(CallError::Contract(error))
    }
}

/// Reject empty strings for storage-bound metadata fields.
pub fn require_non_empty(len: u32) -> (r: Result<(), CallError>)
    ensures
        r == guard_result(len > 0, ProtocolError::InvalidInput),
{
    require(len > 0, ProtocolError::InvalidInput)
}

/// Reject fee values greater than 100%.
pub fn require_valid_bps(fee_bps: u32) -> (r: Result<(), CallError>)
    ensures
        r == guard_result(fee_bps <= MAX_BPS, ProtocolError::FeeBpsTooHigh),
{
    require(fee_bps <= MAX_BPS, ProtocolError::FeeBpsTooHigh)
}

/// Reject a stored schema version that differs from the expected one.
pub fn require_compatible_schema(stored: u32, expected: u32) -> (r: Result<(), CallError>)
    ensures
        r == guard_result(stored == expected, ProtocolError::InvalidInput),
{
    require(stored == expected, ProtocolError::InvalidInput)
}

/// The outcome of a signature check on `addr`.
pub open spec fn auth_result(auth: &Authorizations, addr: Address) -> Result<(), CallError> {
    if auth.authorizes(addr) {
        Ok(())
    } else {
        Err(CallError::Auth(addr))
    }
}

/// Single canonical entry point for signature checks: the call fails with an
/// authorization error when `addr` has not signed it.
pub fn require_auth_or_error(addr: Address, auth: &Authorizations) -> (r: Result<(), CallError>)
    ensures
        r == auth_result(auth, addr),
{
    if auth.is_authorized(addr) {
        Ok(())
    } else {
        Err(CallError::Auth(addr))
    }
}

/// Typed role guard: `Unauthorized` when `caller` is not the expected principal.
pub fn require_caller(caller: Address, expected: Address) -> (r: Result<(), CallError>)
    ensures
        r == guard_result(caller == expected, ProtocolError::Unauthorized),
{
    require(caller == expected, ProtocolError::Unauthorized)
}

/// ASCII whitespace: space, tab, line feed, form feed and carriage return.
pub open spec fn is_ascii_whitespace(b: u8) -> bool {
    b == 32 || b == 9 || b == 10 || b == 12 || b == 13
}

/// Whether a byte string holds at least one byte that is not whitespace.
pub open spec fn has_visible_byte(s: Seq<u8>) -> bool {
    exists|i: int| 0 <= i < s.len() && !is_ascii_whitespace(#[trigger] s[i])
}

/// Reject strings that are empty or made of whitespace only.
pub fn require_non_whitespace(value: &Vec<u8>) -> (r: Result<(), CallError>)
    ensures
        r == guard_result(has_visible_byte(value@), ProtocolError::InvalidInput),
{
    let n = value.len();
    for i in 0..n
        invariant
            n == value@.len(),
            forall|j: int| 0 <= j < i ==> is_ascii_whitespace(#[trigger] value@[j]),
    {
        let b = value[i];
        if !(b == 32 || b == 9 || b == 10 || b == 12 || b == 13) {
            return Ok(());
        }
    }
    Err(CallError::Contract(ProtocolError::InvalidInput))
}

/// Byte-wise equality of two strings.
pub fn bytes_equal(a: &Vec<u8>, b: &Vec<u8>) -> (r: bool)
    ensures
        r == (a@ == b@),
{
    if a.len() != b.len() {
        return false;
    }
    let n = a.len();
    for i in 0..n
        invariant
            n == a@.len(),
            n == b@.len(),
            forall|j: int| 0 <= j < i ==> a@[j] == b@[j],
    {
        if a[i] != b[i] {
            return false;
        }
    }
    assert(a@ =~= b@);
    true
}

/// A byte-for-byte copy of a string.
pub fn copy_bytes(s: &Vec<u8>) -> (r: Vec<u8>)
    ensures
        r@ == s@,
{
    let mut out: Vec<u8> = Vec::new();
    let n = s.len();
    for i in 0..n
        invariant
            n == s@.len(),
            out@ =~= s@.subrange(0, i as int),
    {
        out.push(s[i]);
    }
    out
}

/// Whether one of the first `upto` keys of `keys` equals `key`.
pub open spec fn listed(keys: Seq<Vec<u8>>, key: Seq<u8>, upto: int) -> bool {
    exists|j: int| 0 <= j < upto && (#[trigger] keys[j])@ == key
}

/// Reentrancy flags held in instance storage, one per guarded transition key.
pub struct GuardFlags {
    held: Vec<Vec<u8>>,
}

impl GuardFlags {
    /// Whether the guard for `key` is currently held.
    pub closed spec fn holds(&self, key: Seq<u8>) -> bool {
        listed(self.held@, key, self.held@.len() as int)
    }

    /// No guard is held.
    pub open spec fn is_clear(&self) -> bool {
        forall|k: Seq<u8>| !self.holds(k)
    }

    /// Flags with no guard held.
    pub fn new() -> (f: GuardFlags)
        ensures
            f.is_clear(),
    {
        GuardFlags { held: Vec::new() }
    }

    /// Whether the guard for `key` is currently held.
    pub fn is_held(&self, key: &Vec<u8>) -> (r: bool)
        ensures
            r == self.holds(key@),
    {
        let n = self.held.len();
        for i in 0..n
            invariant
                n == self.held@.len(),
                forall|j: int| 0 <= j < i ==> (#[trigger] self.held@[j])@ != key@,
        {
            if bytes_equal(&self.held[i], key) {
                return true;
            }
        }
        false
    }
}

/// A held reentrancy guard for one transition key.
///
/// Acquiring fails with `ReentrantCall` while the same key is held, which is
/// exactly a reentrant invocation of the guarded transition; releasing clears
/// the flag again.
pub struct NonReentrantGuard {
    key: Vec<u8>,
}

impl NonReentrantGuard {
    /// The key this guard holds.
    pub closed spec fn key(&self) -> Seq<u8> {
        self.key@
    }

    /// Acquire the guard for `key`.
    pub fn acquire(flags: &mut GuardFlags, key: Vec<u8>) -> (r: Result<NonReentrantGuard, CallError>)
        ensures
            match r {
                Ok(g) => !old(flags).holds(key@) && g.key() == key@ && forall|k: Seq<u8>|
                    #[trigger] final(flags).holds(k) <==> (old(flags).holds(k) || k == key@),
                Err(e) => old(flags).holds(key@) && e == CallError::Contract(ProtocolError::ReentrantCall)
                    && forall|k: Seq<u8>| #[trigger] final(flags).holds(k) == old(flags).holds(k),
            },
    {
        if flags.is_held(&key) {
            return Err(CallError::Contract(ProtocolError::ReentrantCall));
        }
        let flag = copy_bytes(&key);
        let ghost before = flags.held@;
        flags.held.push(flag);
        proof {
            assert forall|k: Seq<u8>| #[trigger] flags.holds(k) <==> (old(flags).holds(k) || k == key@) by {
                if listed(before, k, before.len() as int) {
                    let i = choose|i: int| 0 <= i < before.len() && (#[trigger] before[i])@ == k;
                    assert(flags.held@[i] == before[i]);
                }
                if k == key@ {
                    assert(flags.held@[before.len() as int]@ == k);
                }
                if flags.holds(k) {
                    let i = choose|i: int| 0 <= i < flags.held@.len() && (#[trigger] flags.held@[i])@ == k;
                    if i < before.len() {
                        assert(before[i] == flags.held@[i]);
                    }
                }
            }
        }
        Ok(NonReentrantGuard { key })
    }

    /// Release the guard, clearing its flag.
    pub fn release(self, flags: &mut GuardFlags)
        ensures
            forall|k: Seq<u8>| #[trigger] final(flags).holds(k) <==> (old(flags).holds(k) && k != self.key()),
    {
        let mut kept: Vec<Vec<u8>> = Vec::new();
        let n = flags.held.len();
        for i in 0..n
            invariant
                n == flags.held@.len(),
                forall|k: Seq<u8>| #![trigger listed(kept@, k, kept@.len() as int)] #![trigger listed(flags.held@, k, i as int)] listed(kept@, k, kept@.len() as int)
                    <==> (k != self.key@ && listed(flags.held@, k, i as int)),
        {
            let ghost prev = kept@;
            let keep = !bytes_equal(&flags.held[i], &self.key);
            if keep {
                kept.push(copy_bytes(&flags.held[i]));
            }
            proof {
                assert forall|k: Seq<u8>| #[trigger] listed(kept@, k, kept@.len() as int)
                    <==> (k != self.key@ && listed(flags.held@, k, i + 1)) by {
                    if listed(kept@, k, kept@.len() as int) {
                        let j = choose|j: int| 0 <= j < kept@.len() && (#[trigger] kept@[j])@ == k;
                        if j < prev.len() {
                            assert(prev[j] == kept@[j]);
                            assert(listed(prev, k, prev.len() as int));
                        } else {
                            assert(flags.held@[i as int]@ == k);
                        }
                    }
                    if k != self.key@ && listed(flags.held@, k, i + 1) {
                        let j = choose|j: int| 0 <= j < i + 1 && (#[trigger] flags.held@[j])@ == k;
                        if j < i {
                            assert(listed(flags.held@, k, i as int));
                            assert(listed(prev, k, prev.len() as int));
                            let j2 = choose|j2: int| 0 <= j2 < prev.len() && (#[trigger] prev[j2])@ == k;
                            assert(kept@[j2] == prev[j2]);
                        } else {
                            assert(kept@[kept@.len() - 1]@ == k);
                        }
                    }
                }
            }
        }
        flags.held = kept;
    }
}

} // verus!

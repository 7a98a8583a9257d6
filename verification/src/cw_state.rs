//! The CosmWasm variant of the Lily lifecycle: `instantiate` records the
//! contract as uninitialized, the configured owner alone moves it to
//! initialized through `execute`, and `query` reports which state it is in.

use vstd::prelude::*;

verus! {

/// The lifecycle state of the contract.
#[derive(Clone, Copy, Debug, PartialEq, Eq, Structural)]
pub enum State {
    Uninitialized,
    Initialized,
}

/// The contract configuration.
#[derive(Clone, Debug, PartialEq, Eq)]
pub struct Config {
    pub owner: String,
}

/// The items the contract keeps in storage; `None` where nothing was saved.
pub struct Storage {
    pub state: Option<State>,
    pub config: Option<Config>,
}

/// A key/value attribute of a response.
#[derive(Clone, Debug, PartialEq, Eq)]
pub struct Attribute {
    pub key: String,
    pub value: String,
}

/// The response of an entry point: its attributes.
#[derive(Clone, Debug, PartialEq, Eq)]
pub struct Response {
    pub attributes: Vec<Attribute>,
}

/// Why an entry point failed.
#[derive(Clone, Copy, Debug, PartialEq, Eq, Structural)]
pub enum ContractError {
    /// A storage item that was never saved was loaded.
    NotFound,
    /// The sender is not the configured owner.
    Unauthorized,
    /// The execute message is not one the contract handles.
    UnsupportedExecute,
    /// The query message is not one the contract handles.
    UnsupportedQuery,
    /// A reply could not be serialized.
    Serialize,
}

/// Execute messages.
#[derive(Clone, Copy, Debug, PartialEq, Eq, Structural)]
pub enum ExecuteMsg {
    Initialize,
    Unsupported,
}

/// Query messages.
#[derive(Clone, Copy, Debug, PartialEq, Eq, Structural)]
pub enum QueryMsg {
    IsInitialized,
    Unsupported,
}

#[verifier::external_type_specification]
#[verifier::external_body]
pub struct ExStdError(cosmwasm_std::StdError);

/// The JSON text of a boolean.
pub open spec fn json_bool(b: bool) -> Seq<u8> {
    if b {
        seq![116u8, 114u8, 117u8, 101u8]
    } else {
        seq![102u8, 97u8, 108u8, 115u8, 101u8]
    }
}

/// `cosmwasm_std::to_binary` on a boolean: the JSON serializer writes the
/// bytes `true` or `false` and cannot fail on a boolean.
#[verifier::external_body]
#[allow(deprecated)]
fn bool_to_binary(b: bool) -> (r: Result<Vec<u8>, cosmwasm_std::StdError>)
    ensures
        r is Ok && r->Ok_0@ == json_bool(b),
{
    cosmwasm_std::to_binary(&b).map(|bin| bin.to_vec())
}

/// The attributes of a response, as key and value texts.
pub open spec fn attribute_views(r: &Response) -> Seq<(Seq<char>, Seq<char>)> {
    r.attributes@.map_values(|a: Attribute| (a.key@, a.value@))
}

/// Record the contract as uninitialized.
pub fn instantiate(storage: &mut Storage) -> (r: Response)
    ensures
        final(storage).state == Some(State::Uninitialized),
        final(storage).config == old(storage).config,
        r.attributes@.len() == 0,
{
    storage.state = Some(State::Uninitialized);
    Response { attributes: Vec::new() }
}

/// Dispatch an execute message.
pub fn execute(storage: &mut Storage, sender: &String, msg: ExecuteMsg) -> (r: Result<Response, ContractError>)
    ensures
        match msg {
            ExecuteMsg::Initialize => initialize_outcome(*old(storage), *final(storage), sender@, r),
            ExecuteMsg::Unsupported => r == Err::<Response, ContractError>(ContractError::UnsupportedExecute)
                && final(storage).state == old(storage).state && final(storage).config == old(storage).config,
        },
{
    match msg {
        ExecuteMsg::Initialize => execute_initialize(storage, sender),
        ExecuteMsg::Unsupported => Err(ContractError::UnsupportedExecute),
    }
}

/// What `execute_initialize` does: with no saved config it fails with
/// `NotFound`; a sender other than the owner fails with `Unauthorized`; the
/// owner moves the contract to `Initialized` and gets an `action` attribute.
pub open spec fn initialize_outcome(
    before: Storage,
    after: Storage,
    sender: Seq<char>,
    r: Result<Response, ContractError>,
) -> bool {
    match before.config {
        None => r == Err::<Response, ContractError>(ContractError::NotFound) && after.state == before.state
            && after.config == before.config,
        Some(c) => if c.owner@ != sender {
            r == Err::<Response, ContractError>(ContractError::Unauthorized) && after.state == before.state
                && after.config == before.config
        } else {
            r is Ok && after.state == Some(State::Initialized) && after.config == before.config
                && attribute_views(&r->Ok_0) == seq![("action"@, "initialize"@)]
        },
    }
}

/// Move the contract to `Initialized`; only the configured owner may.
pub fn execute_initialize(storage: &mut Storage, sender: &String) -> (r: Result<Response, ContractError>)
    ensures
        initialize_outcome(*old(storage), *final(storage), sender@, r),
{
    let is_owner = match &storage.config {
        None => return Err(ContractError::NotFound),
        Some(c) => c.owner == *sender,
    };
    if !is_owner {
        return Err(ContractError::Unauthorized);
    }
    storage.state = Some(State::Initialized);
    let mut attributes = Vec::new();
    attributes.push(Attribute { key: "action".to_owned(), value: "initialize".to_owned() });
    let r = Response { attributes };
    proof {
        assert(attribute_views(&r) =~= seq![("action"@, "initialize"@)]);
    }
    Ok(r)
}

/// Whether the contract is initialized; fails with `NotFound` before
/// `instantiate` has saved a state.
pub fn query_is_initialized(storage: &Storage) -> (r: Result<bool, ContractError>)
    ensures
        r == match storage.state {
            Some(State::Initialized) => Ok::<bool, ContractError>(true),
            Some(State::Uninitialized) => Ok(false),
            None => Err(ContractError::NotFound),
        },
{
    match storage.state {
        Some(State::Initialized) => Ok(true),
        Some(State::Uninitialized) => Ok(false),
        None => Err(ContractError::NotFound),
    }
}

/// Answer a query message with its JSON-encoded reply.
pub fn query(storage: &Storage, msg: QueryMsg) -> (r: Result<Vec<u8>, ContractError>)
    ensures
        match msg {
            QueryMsg::IsInitialized => match storage.state {
                Some(s) => r is Ok && r->Ok_0@ == json_bool(s == State::Initialized),
                None => r == Err::<Vec<u8>, ContractError>(ContractError::NotFound),
            },
            QueryMsg::Unsupported => r == Err::<Vec<u8>, ContractError>(ContractError::UnsupportedQuery),
        },
{
    match msg {
        QueryMsg::IsInitialized => {
            let answer = match query_is_initialized(storage) {
                Ok(b) => b,
                Err(e) => return Err(e),
            };
            match bool_to_binary(answer) {
                Ok(bytes) => Ok(bytes),
                Err(_) => Err(ContractError::Serialize),
            }
        },
        QueryMsg::Unsupported => Err(ContractError::UnsupportedQuery),
    }
}

} // verus!

//! The CosmWasm variant of the Lily lifecycle that keeps an explicit
//! initialization flag: `instantiate` saves the flag as `false` next to a
//! default configuration, and the flag reads `false` until it is set.

use crate::cw_state::{attribute_views, Attribute, Response};
use vstd::prelude::*;

verus! {

/// The contract configuration.
#[derive(Clone, Debug, PartialEq, Eq)]
pub struct Config {
    pub owner: String,
}

impl Default for Config {
    /// A configuration with an empty owner.
    fn default() -> (c: Config)
        ensures
            c.owner@ == Seq::<char>::empty(),
    {
        Config { owner: String::new() }
    }
}

/// The items the contract keeps in storage; `None` where nothing was saved.
pub struct Storage {
    pub is_initialized: Option<bool>,
    pub config: Option<Config>,
}

/// Save the flag as `false` and a default configuration.
pub fn instantiate(storage: &mut Storage) -> (r: Response)
    ensures
        final(storage).is_initialized == Some(false),
        final(storage).config matches Some(c) && c.owner@ == Seq::<char>::empty(),
        attribute_views(&r) == seq![("action"@, "instantiate"@)],
{
    storage.is_initialized = Some(false);
    storage.config = Some(Config::default());
    let mut attributes = Vec::new();
    attributes.push(Attribute { key: "action".to_owned(), value: "instantiate".to_owned() });
    let r = Response { attributes };
    proof {
        assert(attribute_views(&r) =~= seq![("action"@, "instantiate"@)]);
    }
    r
}

/// Whether the contract is initialized: the saved flag, `false` when none
/// was saved yet.
pub fn is_initialized(storage: &Storage) -> (r: bool)
    ensures
        r == (storage.is_initialized == Some(true)),
{
    match storage.is_initialized {
        Some(b) => b,
        None => false,
    }
}

} // verus!

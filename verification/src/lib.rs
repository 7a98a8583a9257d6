//! Lily Protocol contract logic: protocol configuration, agent identity,
//! wallet policy and payment intents, each modelled as a state machine over
//! plain values whose transitions are verified against their specifications.

pub mod common;
pub mod table;
pub mod outcome;
pub mod protocol;
pub mod identity;
pub mod wallet;
pub mod payments;
pub mod cw_state;
pub mod cw_flag;

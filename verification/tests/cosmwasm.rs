use lily_contracts::cw_flag;
use lily_contracts::cw_state::{self, ContractError, ExecuteMsg, QueryMsg, State};

#[test]
fn test_is_initialized_returns_false_before_initialization() {
    let mut storage = cw_flag::Storage { is_initialized: None, config: None };
    assert!(!cw_flag::is_initialized(&storage));

    let res = cw_flag::instantiate(&mut storage);
    assert_eq!(res.attributes.len(), 1);
    assert_eq!(res.attributes[0].key, "action");
    assert_eq!(res.attributes[0].value, "instantiate");

    assert!(!cw_flag::is_initialized(&storage));
    assert_eq!(storage.config, Some(cw_flag::Config { owner: String::new() }));
}

#[test]
fn owner_initializes_and_query_reports_it() {
    let mut storage = cw_state::Storage {
        state: None,
        config: Some(cw_state::Config { owner: "owner".to_string() }),
    };
    assert_eq!(cw_state::query(&storage, QueryMsg::IsInitialized), Err(ContractError::NotFound));
    cw_state::instantiate(&mut storage);
    assert_eq!(storage.state, Some(State::Uninitialized));
    assert_eq!(cw_state::query(&storage, QueryMsg::IsInitialized), Ok(b"false".to_vec()));

    assert_eq!(
        cw_state::execute(&mut storage, &"intruder".to_string(), ExecuteMsg::Initialize),
        Err(ContractError::Unauthorized)
    );
    assert_eq!(cw_state::query_is_initialized(&storage), Ok(false));

    let res = cw_state::execute(&mut storage, &"owner".to_string(), ExecuteMsg::Initialize).unwrap();
    assert_eq!(res.attributes.len(), 1);
    assert_eq!(res.attributes[0].value, "initialize");
    assert_eq!(cw_state::query_is_initialized(&storage), Ok(true));
    assert_eq!(cw_state::query(&storage, QueryMsg::IsInitialized), Ok(b"true".to_vec()));
}

#[test]
fn unsupported_messages_and_missing_config_are_rejected() {
    let mut storage = cw_state::Storage { state: None, config: None };
    assert_eq!(cw_state::execute_initialize(&mut storage, &"owner".to_string()), Err(ContractError::NotFound));
    assert_eq!(
        cw_state::execute(&mut storage, &"owner".to_string(), ExecuteMsg::Unsupported),
        Err(ContractError::UnsupportedExecute)
    );
    assert_eq!(cw_state::query(&storage, QueryMsg::Unsupported), Err(ContractError::UnsupportedQuery));
    assert_eq!(cw_state::query_is_initialized(&storage), Err(ContractError::NotFound));
}

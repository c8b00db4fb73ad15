use cosmos_gaming::contract::{
    execute, execute_bet, execute_create_bet, instantiate, query, query_get_bets, QueryResponse,
};
use cosmos_gaming::error::ContractError;
use cosmos_gaming::msg::{ExecuteMsg, GetBetResponse, InstantiateMsg, QueryMsg};
use cosmos_gaming::response::Attribute;
use cosmos_gaming::state::{Bet, Config, State};

fn attr(key: &str, value: &str) -> Attribute {
    Attribute {
        key: key.to_string(),
        value: value.to_string(),
    }
}

#[test]
fn test_instantiate() {
    let mut state = State::new();
    let msg = InstantiateMsg {
        admin_address: "addr1".to_string(),
    };

    let resp = instantiate(&mut state, msg).unwrap();
    assert_eq!(resp.attributes, vec![attr("action", "instantiate")]);

    let msg = QueryMsg::GetConfig {};
    let resp = query(&state, msg).unwrap();
    assert_eq!(
        resp,
        QueryResponse::Config(Config {
            admin_address: "addr1".to_string()
        })
    );
}

#[test]
fn test_create_bet() {
    let mut state = State::new();
    let msg = InstantiateMsg {
        admin_address: "addr1".to_string(),
    };

    // Before you execute a contract you need to instantiate it
    let _resp = instantiate(&mut state, msg).unwrap();

    let msg = ExecuteMsg::CreateBet {
        teams: "FC Barcelona Vs Manchester City".to_string(),
    };
    let resp = execute(&mut state, msg).unwrap();
    assert_eq!(resp.attributes, vec![attr("action", "create_bet")]);

    let msg = QueryMsg::GetTeams {
        teams: "FC Barcelona Vs Manchester City".to_string(),
    };
    let resp = query(&state, msg).unwrap();
    assert_eq!(
        resp,
        QueryResponse::Teams(GetBetResponse {
            bet: Some(Bet {
                teams: "FC Barcelona Vs Manchester City".to_string(),
                team_a: 0,
                team_b: 0
            })
        })
    );

    let msg = ExecuteMsg::CreateBet {
        teams: "FC Barcelona Vs Manchester City".to_string(),
    };
    let _resp = execute(&mut state, msg).unwrap_err();
}

#[test]
fn test_bet() {
    let mut state = State::new();
    let msg = InstantiateMsg {
        admin_address: "addr1".to_string(),
    };

    // Before you execute a contract you need to instantiate it
    let _resp = instantiate(&mut state, msg).unwrap();

    // We need a bet to bet on!
    let msg = ExecuteMsg::CreateBet {
        teams: "FC Barcelona Vs Manchester City".to_string(),
    };
    let _resp = execute(&mut state, msg).unwrap();

    // Success case, we bet on a bet that exists, with a valid option
    let msg = ExecuteMsg::PlaceBet {
        teams: "FC Barcelona Vs Manchester City".to_string(),
        choice: "yes".to_string(),
    };
    let resp = execute(&mut state, msg).unwrap();
    assert_eq!(resp.attributes, vec![attr("action", "bet")]);

    let msg = QueryMsg::GetTeams {
        teams: "FC Barcelona Vs Manchester City".to_string(),
    };
    let resp = query(&state, msg).unwrap();
    assert_eq!(
        resp,
        QueryResponse::Teams(GetBetResponse {
            bet: Some(Bet {
                teams: "FC Barcelona Vs Manchester City".to_string(),
                team_a: 1,
                team_b: 0
            })
        })
    );

    // Error case 1: we bet on a bet that does not exist
    let msg = ExecuteMsg::PlaceBet {
        teams: "".to_string(),
        choice: "no".to_string(),
    };
    let _resp = execute(&mut state, msg).unwrap_err();

    // Error case 2: we bet on a bet that exists, but with an invalid choice
    let msg = ExecuteMsg::PlaceBet {
        teams: "FC Barcelona Vs Manchester City".to_string(),
        choice: "maybe".to_string(),
    };
    let _resp = execute(&mut state, msg).unwrap_err();
}

#[test]
fn test_create_bet_twice_keeps_record() {
    let mut state = State::new();
    let first = execute_create_bet(&mut state, "A vs B".to_string());
    assert!(first.is_ok());

    let second = execute_create_bet(&mut state, "A vs B".to_string());
    assert_eq!(second.unwrap_err(), ContractError::AlreadyExists);

    let resp = query_get_bets(&state, "A vs B".to_string());
    assert_eq!(
        resp.bet,
        Some(Bet {
            teams: "A vs B".to_string(),
            team_a: 0,
            team_b: 0
        })
    );
}

#[test]
fn test_get_bet_absent_before_create() {
    let mut state = State::new();
    let resp = query_get_bets(&state, "A vs B".to_string());
    assert_eq!(resp.bet, None);

    execute_create_bet(&mut state, "A vs B".to_string()).unwrap();
    let resp = query_get_bets(&state, "A vs B".to_string());
    assert_eq!(
        resp.bet,
        Some(Bet {
            teams: "A vs B".to_string(),
            team_a: 0,
            team_b: 0
        })
    );
}

#[test]
fn test_vote_tally_interleaved() {
    let mut state = State::new();
    execute_create_bet(&mut state, "A vs B".to_string()).unwrap();

    for choice in ["yes", "no", "yes", "yes", "no"] {
        execute_bet(&mut state, "A vs B".to_string(), choice.to_string()).unwrap();
    }

    let resp = query_get_bets(&state, "A vs B".to_string());
    assert_eq!(
        resp.bet,
        Some(Bet {
            teams: "A vs B".to_string(),
            team_a: 3,
            team_b: 2
        })
    );
}

#[test]
fn test_vote_on_missing_bet_reports_not_found() {
    let mut state = State::new();
    // Even with an invalid choice, existence is checked first.
    let err = execute_bet(&mut state, "A vs B".to_string(), "maybe".to_string()).unwrap_err();
    assert_eq!(err, ContractError::NotFound);

    let err = execute_bet(&mut state, "A vs B".to_string(), "yes".to_string()).unwrap_err();
    assert_eq!(err, ContractError::NotFound);
}

#[test]
fn test_invalid_choice_leaves_counters_unchanged() {
    let mut state = State::new();
    execute_create_bet(&mut state, "A vs B".to_string()).unwrap();
    execute_bet(&mut state, "A vs B".to_string(), "yes".to_string()).unwrap();

    // Case-sensitive: a near-match is rejected, as is an empty choice.
    let err = execute_bet(&mut state, "A vs B".to_string(), "Yes".to_string()).unwrap_err();
    assert_eq!(err, ContractError::InvalidChoice);
    let err = execute_bet(&mut state, "A vs B".to_string(), "".to_string()).unwrap_err();
    assert_eq!(err, ContractError::InvalidChoice);

    let resp = query_get_bets(&state, "A vs B".to_string());
    assert_eq!(
        resp.bet,
        Some(Bet {
            teams: "A vs B".to_string(),
            team_a: 1,
            team_b: 0
        })
    );
}

#[test]
fn test_get_config_after_initialize() {
    let mut state = State::new();
    let msg = InstantiateMsg {
        admin_address: "addr1".to_string(),
    };
    instantiate(&mut state, msg).unwrap();

    let resp = query(&state, QueryMsg::GetConfig {}).unwrap();
    assert_eq!(
        resp,
        QueryResponse::Config(Config {
            admin_address: "addr1".to_string()
        })
    );
}

#[test]
fn test_get_config_uninitialized_fails() {
    let state = State::new();
    let err = query(&state, QueryMsg::GetConfig {}).unwrap_err();
    assert_eq!(err, ContractError::RetrievalError);
}

#[test]
fn test_end_to_end_vote() {
    let mut state = State::new();
    instantiate(
        &mut state,
        InstantiateMsg {
            admin_address: "addr1".to_string(),
        },
    )
    .unwrap();
    execute_create_bet(&mut state, "A vs B".to_string()).unwrap();
    execute_bet(&mut state, "A vs B".to_string(), "yes".to_string()).unwrap();

    let resp = query_get_bets(&state, "A vs B".to_string());
    assert_eq!(
        resp.bet,
        Some(Bet {
            teams: "A vs B".to_string(),
            team_a: 1,
            team_b: 0
        })
    );
}

#[test]
fn test_empty_teams_is_a_legal_key() {
    let mut state = State::new();
    execute_create_bet(&mut state, "".to_string()).unwrap();
    execute_bet(&mut state, "".to_string(), "no".to_string()).unwrap();

    let resp = query_get_bets(&state, "".to_string());
    assert_eq!(
        resp.bet,
        Some(Bet {
            teams: "".to_string(),
            team_a: 0,
            team_b: 1
        })
    );
}

#[test]
fn test_distinct_bets_do_not_interfere() {
    let mut state = State::new();
    execute_create_bet(&mut state, "A vs B".to_string()).unwrap();
    execute_create_bet(&mut state, "C vs D".to_string()).unwrap();
    execute_bet(&mut state, "A vs B".to_string(), "yes".to_string()).unwrap();
    execute_bet(&mut state, "C vs D".to_string(), "no".to_string()).unwrap();

    let resp = query_get_bets(&state, "A vs B".to_string());
    assert_eq!(
        resp.bet,
        Some(Bet {
            teams: "A vs B".to_string(),
            team_a: 1,
            team_b: 0
        })
    );
    let resp = query_get_bets(&state, "C vs D".to_string());
    assert_eq!(
        resp.bet,
        Some(Bet {
            teams: "C vs D".to_string(),
            team_a: 0,
            team_b: 1
        })
    );
}

#[test]
fn test_error_messages() {
    assert_eq!(
        ContractError::AlreadyExists.message(),
        "Key already taken!".to_string()
    );
    assert_eq!(
        ContractError::NotFound.message(),
        "Bet does not exist!".to_string()
    );
    assert_eq!(
        ContractError::InvalidChoice.message(),
        "Unrecognised choice!".to_string()
    );
    assert_eq!(
        ContractError::ValidationError.message(),
        "Invalid admin address!".to_string()
    );
    assert_eq!(
        ContractError::RetrievalError.message(),
        "Config does not exist!".to_string()
    );
}

#[test]
fn test_instantiate_overwrites_config() {
    let mut state = State::new();
    instantiate(
        &mut state,
        InstantiateMsg {
            admin_address: "addr1".to_string(),
        },
    )
    .unwrap();
    instantiate(
        &mut state,
        InstantiateMsg {
            admin_address: "addr2".to_string(),
        },
    )
    .unwrap();

    let resp = query(&state, QueryMsg::GetConfig {}).unwrap();
    assert_eq!(
        resp,
        QueryResponse::Config(Config {
            admin_address: "addr2".to_string()
        })
    );
}

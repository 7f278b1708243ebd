use racers::contract::{execute, instantiate, query};
use racers::error::ContractError;
use racers::msg::{ConfigResponse, ExecuteMsg, InstantiateMsg, QueryMsg, QueryResponse};
use racers::state::Store;
use racers::types::{Coin, Env, MessageInfo, Rate, Timestamp, RATE_SCALE};

fn coin(denom: &str, amount: u128) -> Coin {
    Coin { denom: denom.to_string(), amount }
}

fn at(nanos: u64) -> Env {
    Env { time: Timestamp { nanos } }
}

fn msg_info(sender: &str, funds: Vec<Coin>) -> MessageInfo {
    MessageInfo { sender: sender.to_string(), funds }
}

const PERCENT_5: u128 = RATE_SCALE / 20;

fn init_msg() -> InstantiateMsg {
    InstantiateMsg {
        admin: "admin".to_string(),
        min_entry_fee: vec![coin("x", 1000)],
        fee_amount: Rate { atomics: PERCENT_5 },
        fee_address: "feebank".to_string(),
        max_players: 4,
    }
}

fn setup() -> Store {
    let mut store = Store::new();
    instantiate(&mut store, &at(0), &msg_info("admin", vec![]), init_msg()).unwrap();
    store
}

fn current_config(store: &Store) -> ConfigResponse {
    match query(store, QueryMsg::Config {}).unwrap() {
        QueryResponse::Config(c) => c,
        _ => panic!("expected a config response"),
    }
}

fn configure(
    store: &mut Store,
    sender: &str,
    admin: Option<&str>,
    fee_amount: Option<Rate>,
    fee_address: Option<&str>,
    max_players: Option<u8>,
) -> Result<(), ContractError> {
    execute(
        store,
        &at(0),
        &msg_info(sender, vec![]),
        ExecuteMsg::Configure {
            admin: admin.map(|a| a.to_string()),
            fee_amount,
            fee_address: fee_address.map(|a| a.to_string()),
            max_players,
        },
    )
    .map(|_| ())
}

fn create(store: &mut Store, start_nanos: u64, max_players: u8) {
    execute(
        store,
        &at(0),
        &msg_info("creator", vec![coin("x", 1000)]),
        ExecuteMsg::CreateGame { start_time: Timestamp { nanos: start_nanos }, max_players },
    )
    .unwrap();
}

fn listed_indices(store: &Store, limit: Option<u8>, start_after: Option<u128>) -> Vec<u128> {
    match query(store, QueryMsg::Games { limit, start_after }).unwrap() {
        QueryResponse::Games(page) => page.games.iter().map(|g| g.idx).collect(),
        _ => panic!("expected a games response"),
    }
}

#[test]
fn instantiate_stores_the_configuration() {
    let store = setup();
    let c = current_config(&store);
    assert_eq!(c.admin, "admin");
    assert_eq!(c.min_entry_fee, vec![coin("x", 1000)]);
    assert_eq!(c.fee_amount, Rate { atomics: PERCENT_5 });
    assert_eq!(c.fee_address, "feebank");
    assert_eq!(c.max_players, 4);
}

#[test]
fn instantiate_rejects_a_rate_above_one() {
    let mut store = Store::new();
    let mut msg = init_msg();
    msg.fee_amount = Rate { atomics: RATE_SCALE + 1 };
    let r = instantiate(&mut store, &at(0), &msg_info("admin", vec![]), msg);
    assert_eq!(r.unwrap_err(), ContractError::InvalidConfig);
    assert_eq!(
        query(&store, QueryMsg::Config {}).unwrap_err(),
        ContractError::NotFound
    );
}

#[test]
fn instantiate_accepts_a_rate_of_exactly_one() {
    let mut store = Store::new();
    let mut msg = init_msg();
    msg.fee_amount = Rate { atomics: RATE_SCALE };
    assert!(instantiate(&mut store, &at(0), &msg_info("admin", vec![]), msg).is_ok());
}

#[test]
fn query_config_without_one_fails() {
    let store = Store::new();
    assert_eq!(
        query(&store, QueryMsg::Config {}).unwrap_err(),
        ContractError::NotFound
    );
}

#[test]
fn configure_with_all_fields_absent_changes_nothing() {
    let mut store = setup();
    configure(&mut store, "admin", None, None, None, None).unwrap();
    let c = current_config(&store);
    assert_eq!(c.admin, "admin");
    assert_eq!(c.min_entry_fee, vec![coin("x", 1000)]);
    assert_eq!(c.fee_amount, Rate { atomics: PERCENT_5 });
    assert_eq!(c.fee_address, "feebank");
    assert_eq!(c.max_players, 4);
}

#[test]
fn configure_with_one_field_changes_only_that_field() {
    let mut store = setup();
    configure(&mut store, "admin", None, None, Some("vault"), None).unwrap();
    let c = current_config(&store);
    assert_eq!(c.fee_address, "vault");
    assert_eq!(c.admin, "admin");
    assert_eq!(c.min_entry_fee, vec![coin("x", 1000)]);
    assert_eq!(c.fee_amount, Rate { atomics: PERCENT_5 });
    assert_eq!(c.max_players, 4);
}

#[test]
fn configure_rejects_a_rate_above_one() {
    let mut store = setup();
    let r = configure(
        &mut store,
        "admin",
        None,
        Some(Rate { atomics: RATE_SCALE + 1 }),
        None,
        None,
    );
    assert_eq!(r.unwrap_err(), ContractError::InvalidConfig);
    assert_eq!(current_config(&store).fee_amount, Rate { atomics: PERCENT_5 });
}

#[test]
fn configure_requires_the_authority() {
    let mut store = setup();
    let r = configure(&mut store, "mallory", None, None, Some("mallory"), None);
    assert_eq!(r.unwrap_err(), ContractError::Unauthorized);
    assert_eq!(current_config(&store).fee_address, "feebank");
}

#[test]
fn configure_hands_authority_to_a_new_admin() {
    let mut store = setup();
    configure(&mut store, "admin", Some("steward"), None, None, None).unwrap();
    let old_admin = configure(&mut store, "admin", None, None, None, Some(2));
    assert_eq!(old_admin.unwrap_err(), ContractError::Unauthorized);
    configure(&mut store, "steward", None, None, None, Some(2)).unwrap();
    assert_eq!(current_config(&store).max_players, 2);
}

#[test]
fn list_games_returns_ascending_indices_up_to_the_default_limit() {
    let mut store = setup();
    for _ in 0..12 {
        create(&mut store, 1_000_000_000, 2);
    }
    let listed = listed_indices(&store, None, None);
    assert_eq!(listed, (0u128..10).collect::<Vec<u128>>());
}

#[test]
fn list_games_excludes_indices_at_or_below_start_after() {
    let mut store = setup();
    for _ in 0..12 {
        create(&mut store, 1_000_000_000, 2);
    }
    let listed = listed_indices(&store, None, Some(5));
    assert_eq!(listed, (6u128..12).collect::<Vec<u128>>());
}

#[test]
fn list_games_honours_an_explicit_limit() {
    let mut store = setup();
    for _ in 0..5 {
        create(&mut store, 1_000_000_000, 2);
    }
    assert_eq!(listed_indices(&store, Some(3), None), vec![0, 1, 2]);
    assert_eq!(listed_indices(&store, Some(2), Some(1)), vec![2, 3]);
}

#[test]
fn list_games_on_an_empty_store_is_empty() {
    let store = setup();
    assert_eq!(listed_indices(&store, None, None), Vec::<u128>::new());
}

#[test]
fn query_game_unknown_index_fails() {
    let store = setup();
    assert_eq!(
        query(&store, QueryMsg::Game { idx: 0 }).unwrap_err(),
        ContractError::NotFound
    );
}

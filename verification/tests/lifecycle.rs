use racers::contract::{execute, instantiate, query};
use racers::error::{ContractError, PaymentError};
use racers::game::Game;
use racers::msg::{ExecuteMsg, InstantiateMsg, QueryMsg, QueryResponse};
use racers::settle::settle;
use racers::state::Store;
use racers::types::{Coin, Env, MessageInfo, Rate, Timestamp, RATE_SCALE};

fn coin(denom: &str, amount: u128) -> Coin {
    Coin { denom: denom.to_string(), amount }
}

fn at(nanos: u64) -> Env {
    Env { time: Timestamp { nanos } }
}

fn msg_info(sender: &str, funds: Vec<Coin>) -> MessageInfo {
    MessageInfo { sender: sender.to_string(), funds }
}

const PERCENT_5: u128 = RATE_SCALE / 20;

fn init_msg() -> InstantiateMsg {
    InstantiateMsg {
        admin: "admin".to_string(),
        min_entry_fee: vec![coin("x", 1000)],
        fee_amount: Rate { atomics: PERCENT_5 },
        fee_address: "feebank".to_string(),
        max_players: 4,
    }
}

const SEC: u64 = 1_000_000_000;

/// A store with the default configuration and one game: entry fee
/// (x, 1000), start at second 100, player cap 3.
fn setup() -> Store {
    let mut store = Store::new();
    instantiate(&mut store, &at(0), &msg_info("admin", vec![]), init_msg()).unwrap();
    let created = execute(
        &mut store,
        &at(0),
        &msg_info("creator", vec![coin("x", 1000)]),
        ExecuteMsg::CreateGame { start_time: Timestamp { nanos: 100 * SEC }, max_players: 3 },
    );
    assert!(created.is_ok());
    store
}

fn join(store: &mut Store, now: u64, sender: &str, paid: Coin) -> Result<(), ContractError> {
    execute(
        store,
        &at(now),
        &msg_info(sender, vec![paid]),
        ExecuteMsg::JoinGame { idx: 0 },
    )
    .map(|_| ())
}

fn game_players(store: &Store, idx: u128) -> Vec<String> {
    match query(store, QueryMsg::Game { idx }).unwrap() {
        QueryResponse::Game(g) => g.players,
        _ => panic!("expected a game response"),
    }
}

#[test]
fn create_assigns_sequential_indices() {
    let mut store = setup();
    for expected in 1u128..4 {
        let r = execute(
            &mut store,
            &at(0),
            &msg_info("creator", vec![coin("x", 1000)]),
            ExecuteMsg::CreateGame { start_time: Timestamp { nanos: 100 * SEC }, max_players: 2 },
        );
        assert!(r.is_ok());
        match query(&store, QueryMsg::Game { idx: expected }).unwrap() {
            QueryResponse::Game(g) => assert_eq!(g.idx, expected),
            _ => panic!("expected a game response"),
        }
    }
}

#[test]
fn create_without_config_fails() {
    let mut store = Store::new();
    let r = execute(
        &mut store,
        &at(0),
        &msg_info("creator", vec![coin("x", 1000)]),
        ExecuteMsg::CreateGame { start_time: Timestamp { nanos: 0 }, max_players: 2 },
    );
    assert_eq!(r.unwrap_err(), ContractError::NotFound);
}

#[test]
fn create_rejects_cap_above_ceiling() {
    let mut store = setup();
    let r = execute(
        &mut store,
        &at(0),
        &msg_info("creator", vec![coin("x", 1000)]),
        ExecuteMsg::CreateGame { start_time: Timestamp { nanos: 100 * SEC }, max_players: 5 },
    );
    assert_eq!(r.unwrap_err(), ContractError::InvalidGame);
}

#[test]
fn create_rejects_payment_below_floor() {
    let mut store = setup();
    let r = execute(
        &mut store,
        &at(0),
        &msg_info("creator", vec![coin("x", 999)]),
        ExecuteMsg::CreateGame { start_time: Timestamp { nanos: 100 * SEC }, max_players: 2 },
    );
    assert_eq!(r.unwrap_err(), ContractError::InvalidEntryFee);
}

#[test]
fn create_rejects_unknown_denomination() {
    let mut store = setup();
    let r = execute(
        &mut store,
        &at(0),
        &msg_info("creator", vec![coin("y", 5000)]),
        ExecuteMsg::CreateGame { start_time: Timestamp { nanos: 100 * SEC }, max_players: 2 },
    );
    assert_eq!(r.unwrap_err(), ContractError::InvalidEntryFee);
}

#[test]
fn create_accepts_payment_above_floor_and_fixes_it_as_entry_fee() {
    let mut store = setup();
    let r = execute(
        &mut store,
        &at(0),
        &msg_info("creator", vec![coin("x", 1500)]),
        ExecuteMsg::CreateGame { start_time: Timestamp { nanos: 100 * SEC }, max_players: 2 },
    );
    assert!(r.is_ok());
    let floor_paid = execute(
        &mut store,
        &at(0),
        &msg_info("alice", vec![coin("x", 1000)]),
        ExecuteMsg::JoinGame { idx: 1 },
    );
    assert_eq!(floor_paid.unwrap_err(), ContractError::InvalidEntryFee);
    let exact_paid = execute(
        &mut store,
        &at(0),
        &msg_info("alice", vec![coin("x", 1500)]),
        ExecuteMsg::JoinGame { idx: 1 },
    );
    assert!(exact_paid.is_ok());
}

#[test]
fn create_rejects_missing_payment() {
    let mut store = setup();
    let r = execute(
        &mut store,
        &at(0),
        &msg_info("creator", vec![]),
        ExecuteMsg::CreateGame { start_time: Timestamp { nanos: 100 * SEC }, max_players: 2 },
    );
    assert_eq!(r.unwrap_err(), ContractError::Payment(PaymentError::NoFunds));
}

#[test]
fn create_rejects_zero_amount_payment() {
    let mut store = setup();
    let r = execute(
        &mut store,
        &at(0),
        &msg_info("creator", vec![coin("x", 0)]),
        ExecuteMsg::CreateGame { start_time: Timestamp { nanos: 100 * SEC }, max_players: 2 },
    );
    assert_eq!(r.unwrap_err(), ContractError::Payment(PaymentError::NoFunds));
}

#[test]
fn create_rejects_two_coins() {
    let mut store = setup();
    let r = execute(
        &mut store,
        &at(0),
        &msg_info("creator", vec![coin("x", 1000), coin("y", 1)]),
        ExecuteMsg::CreateGame { start_time: Timestamp { nanos: 100 * SEC }, max_players: 2 },
    );
    assert_eq!(
        r.unwrap_err(),
        ContractError::Payment(PaymentError::MultipleDenoms)
    );
}

#[test]
fn join_appends_sender_in_order() {
    let mut store = setup();
    join(&mut store, 0, "alice", coin("x", 1000)).unwrap();
    join(&mut store, 0, "bob", coin("x", 1000)).unwrap();
    assert_eq!(game_players(&store, 0), vec!["alice".to_string(), "bob".to_string()]);
}

#[test]
fn join_succeeds_up_to_start_time() {
    let mut store = setup();
    assert!(join(&mut store, 100 * SEC, "alice", coin("x", 1000)).is_ok());
}

#[test]
fn join_fails_after_start_time() {
    let mut store = setup();
    let r = join(&mut store, 101 * SEC, "late", coin("x", 1000));
    assert_eq!(r.unwrap_err(), ContractError::GameStarted);
    assert_eq!(game_players(&store, 0), Vec::<String>::new());
}

#[test]
fn join_fills_to_cap_then_fails() {
    let mut store = setup();
    join(&mut store, 0, "p1", coin("x", 1000)).unwrap();
    join(&mut store, 0, "p2", coin("x", 1000)).unwrap();
    assert!(join(&mut store, 0, "p3", coin("x", 1000)).is_ok());
    let r = join(&mut store, 0, "p4", coin("x", 1000));
    assert_eq!(r.unwrap_err(), ContractError::GameFull);
}

#[test]
fn join_rejects_wrong_amount() {
    let mut store = setup();
    let r = join(&mut store, 0, "alice", coin("x", 1001));
    assert_eq!(r.unwrap_err(), ContractError::InvalidEntryFee);
}

#[test]
fn join_rejects_wrong_denomination() {
    let mut store = setup();
    let r = join(&mut store, 0, "alice", coin("y", 1000));
    assert_eq!(r.unwrap_err(), ContractError::InvalidEntryFee);
}

#[test]
fn join_unknown_index_fails() {
    let mut store = setup();
    let r = execute(
        &mut store,
        &at(0),
        &msg_info("alice", vec![coin("x", 1000)]),
        ExecuteMsg::JoinGame { idx: 7 },
    );
    assert_eq!(r.unwrap_err(), ContractError::NotFound);
}

#[test]
fn join_allows_the_same_account_twice() {
    let mut store = setup();
    join(&mut store, 0, "alice", coin("x", 1000)).unwrap();
    join(&mut store, 0, "alice", coin("x", 1000)).unwrap();
    assert_eq!(game_players(&store, 0), vec!["alice".to_string(), "alice".to_string()]);
}

#[test]
fn end_game_settles_pot_between_winner_and_fee_recipient() {
    let mut store = setup();
    join(&mut store, 0, "alice", coin("x", 1000)).unwrap();
    join(&mut store, 0, "bob", coin("x", 1000)).unwrap();
    let resp = execute(
        &mut store,
        &at(100 * SEC),
        &msg_info("admin", vec![]),
        ExecuteMsg::EndGame { idx: 0, winner: "alice".to_string() },
    )
    .unwrap();
    assert_eq!(resp.messages.len(), 2);
    assert_eq!(resp.messages[0].to_address, "alice");
    assert_eq!(resp.messages[0].amount, coin("x", 1900));
    assert_eq!(resp.messages[1].to_address, "feebank");
    assert_eq!(resp.messages[1].amount, coin("x", 100));
    match query(&store, QueryMsg::Game { idx: 0 }).unwrap() {
        QueryResponse::Game(g) => assert_eq!(g.winner, Some("alice".to_string())),
        _ => panic!("expected a game response"),
    }
}

#[test]
fn end_game_truncates_the_fee_share() {
    let mut store = Store::new();
    let mut msg = init_msg();
    msg.fee_amount = Rate { atomics: 333_333_333_333_333_333 };
    instantiate(&mut store, &at(0), &msg_info("admin", vec![]), msg).unwrap();
    execute(
        &mut store,
        &at(0),
        &msg_info("creator", vec![coin("x", 1000)]),
        ExecuteMsg::CreateGame { start_time: Timestamp { nanos: 100 * SEC }, max_players: 3 },
    )
    .unwrap();
    join(&mut store, 0, "p1", coin("x", 1000)).unwrap();
    join(&mut store, 0, "p2", coin("x", 1000)).unwrap();
    join(&mut store, 0, "p3", coin("x", 1000)).unwrap();
    let resp = execute(
        &mut store,
        &at(200 * SEC),
        &msg_info("admin", vec![]),
        ExecuteMsg::EndGame { idx: 0, winner: "p2".to_string() },
    )
    .unwrap();
    assert_eq!(resp.messages[1].amount, coin("x", 999));
    assert_eq!(resp.messages[0].amount, coin("x", 2001));
}

#[test]
fn end_game_requires_the_authority() {
    let mut store = setup();
    let r = execute(
        &mut store,
        &at(100 * SEC),
        &msg_info("mallory", vec![]),
        ExecuteMsg::EndGame { idx: 0, winner: "mallory".to_string() },
    );
    assert_eq!(r.unwrap_err(), ContractError::Unauthorized);
}

#[test]
fn end_game_before_start_fails() {
    let mut store = setup();
    let r = execute(
        &mut store,
        &at(99 * SEC),
        &msg_info("admin", vec![]),
        ExecuteMsg::EndGame { idx: 0, winner: "alice".to_string() },
    );
    assert_eq!(r.unwrap_err(), ContractError::GameNotStarted);
}

#[test]
fn end_game_at_the_start_second_succeeds() {
    let mut store = setup();
    let r = execute(
        &mut store,
        &at(100 * SEC),
        &msg_info("admin", vec![]),
        ExecuteMsg::EndGame { idx: 0, winner: "nobody".to_string() },
    );
    assert!(r.is_ok());
}

#[test]
fn end_game_unknown_index_fails() {
    let mut store = setup();
    let r = execute(
        &mut store,
        &at(100 * SEC),
        &msg_info("admin", vec![]),
        ExecuteMsg::EndGame { idx: 9, winner: "alice".to_string() },
    );
    assert_eq!(r.unwrap_err(), ContractError::NotFound);
}

#[test]
fn end_game_twice_settles_twice() {
    let mut store = setup();
    join(&mut store, 0, "alice", coin("x", 1000)).unwrap();
    let first = execute(
        &mut store,
        &at(100 * SEC),
        &msg_info("admin", vec![]),
        ExecuteMsg::EndGame { idx: 0, winner: "alice".to_string() },
    )
    .unwrap();
    let second = execute(
        &mut store,
        &at(101 * SEC),
        &msg_info("admin", vec![]),
        ExecuteMsg::EndGame { idx: 0, winner: "bob".to_string() },
    )
    .unwrap();
    assert_eq!(first.messages[0].amount, coin("x", 950));
    assert_eq!(second.messages[0].amount, coin("x", 950));
    assert_eq!(second.messages[0].to_address, "bob");
}

#[test]
fn remove_frees_the_highest_index_for_reuse() {
    let mut store = setup();
    execute(
        &mut store,
        &at(0),
        &msg_info("creator", vec![coin("x", 1000)]),
        ExecuteMsg::CreateGame { start_time: Timestamp { nanos: 100 * SEC }, max_players: 2 },
    )
    .unwrap();
    let game = Game::load(&store, 1).unwrap();
    game.remove(&mut store);
    assert!(Game::load(&store, 1).is_err());
    execute(
        &mut store,
        &at(0),
        &msg_info("creator", vec![coin("x", 1000)]),
        ExecuteMsg::CreateGame { start_time: Timestamp { nanos: 100 * SEC }, max_players: 2 },
    )
    .unwrap();
    assert!(Game::load(&store, 1).is_ok());
}

#[test]
fn settle_splits_the_example_pot() {
    let (fee, winnings) = settle(2000, Rate { atomics: PERCENT_5 });
    assert_eq!(fee, 100);
    assert_eq!(winnings, 1900);
    assert_eq!(fee + winnings, 2000);
}

#[test]
fn settle_truncates_toward_zero() {
    let (fee, winnings) = settle(5, Rate { atomics: RATE_SCALE / 2 });
    assert_eq!(fee, 2);
    assert_eq!(winnings, 3);
}

#[test]
fn settle_with_rate_one_gives_everything_to_the_fee() {
    let (fee, winnings) = settle(777, Rate { atomics: RATE_SCALE });
    assert_eq!(fee, 777);
    assert_eq!(winnings, 0);
}

#[test]
fn settle_with_rate_zero_gives_everything_to_the_winner() {
    let (fee, winnings) = settle(777, Rate { atomics: 0 });
    assert_eq!(fee, 0);
    assert_eq!(winnings, 777);
}

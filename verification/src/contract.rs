use vstd::prelude::*;

use crate::config::{merge_view, Config};
use crate::error::{ContractError, PaymentError};
use crate::game::{Game, GameView};
use crate::msg::{
    ConfigResponse, ExecuteMsg, GameResponse, GamesResponse, InstantiateMsg, QueryMsg,
    QueryResponse,
};
use crate::settle::settle;
use crate::state::{
    game_at, has_idx, insert_pos, lemma_game_at, lemma_insert_pos_properties, next_idx_spec,
    saved_games, Store, StoreView,
};
use crate::types::{
    BankSend, BankSendView, Coin, CoinView, Env, MessageInfo, Rate, Response, Timestamp,
    RATE_SCALE,
};

verus! {

/// The attached payment is exactly one coin of a positive amount.
pub open spec fn one_coin_ok(funds: Seq<CoinView>) -> bool {
    funds.len() == 1 && funds[0].amount > 0
}

/// Which shape error an unacceptable payment raises.
pub open spec fn one_coin_err(funds: Seq<CoinView>) -> PaymentError {
    if funds.len() <= 1 {
        PaymentError::NoFunds
    } else {
        PaymentError::MultipleDenoms
    }
}

/// The single attached coin: zero coins or a zero amount fail `NoFunds`,
/// several coins fail `MultipleDenoms`.
pub fn one_coin(info: &MessageInfo) -> (r: Result<Coin, PaymentError>)
    ensures
        one_coin_ok(info@.funds) ==> (r matches Ok(c) && c@ == info@.funds[0]),
        !one_coin_ok(info@.funds) ==> r == Result::<Coin, PaymentError>::Err(
            one_coin_err(info@.funds),
        ),
{
    if info.funds.len() == 0 {
        Err(PaymentError::NoFunds)
    } else if info.funds.len() == 1 {
        let coin = &info.funds[0];
        if coin.amount == 0 {
            Err(PaymentError::NoFunds)
        } else {
            Ok(coin.clone())
        }
    } else {
        Err(PaymentError::MultipleDenoms)
    }
}

pub open spec fn is_err(r: Result<Response, ContractError>, e: ContractError) -> bool {
    r == Result::<Response, ContractError>::Err(e)
}

/// The response carries no transfer instructions.
pub open spec fn ok_empty(r: Result<Response, ContractError>) -> bool {
    r matches Ok(resp) && resp@.len() == 0
}

/// What creating a session does: with no configuration it fails
/// `NotFound`; an ill-shaped payment fails; a payment under every floor
/// fails `InvalidEntryFee`; a player cap above the configured ceiling
/// fails `InvalidGame`; otherwise a fresh session enters at the next free
/// index, with the paid coin as its fixed entry fee. Failures leave the
/// store unchanged.
pub open spec fn create_game_outcome(
    pre: StoreView,
    post: StoreView,
    sender: Seq<char>,
    funds: Seq<CoinView>,
    start_time: Timestamp,
    max_players: u8,
    r: Result<Response, ContractError>,
) -> bool {
    match pre.config {
        None => is_err(r, ContractError::NotFound) && post == pre,
        Some(c) => {
            if !one_coin_ok(funds) {
                is_err(r, ContractError::Payment(one_coin_err(funds))) && post == pre
            } else if !c.fee_acceptable(funds[0]) {
                is_err(r, ContractError::InvalidEntryFee) && post == pre
            } else if max_players > c.max_players {
                is_err(r, ContractError::InvalidGame) && post == pre
            } else {
                &&& ok_empty(r)
                &&& post.config == pre.config
                &&& post.games == pre.games.push(
                    GameView {
                        idx: next_idx_spec(pre.games) as u128,
                        entry_fee: funds[0],
                        start_time,
                        creator: sender,
                        max_players,
                        players: Seq::empty(),
                        winner: None,
                    },
                )
            }
        },
    }
}

/// What joining a session does: an unknown index fails `NotFound`; an
/// ill-shaped payment fails; a session past its start fails
/// `GameStarted`; a full one fails `GameFull`; a payment differing from
/// the fixed entry fee fails `InvalidEntryFee`; otherwise the sender is
/// appended to the session's players. Failures leave the store unchanged.
pub open spec fn join_game_outcome(
    pre: StoreView,
    post: StoreView,
    sender: Seq<char>,
    funds: Seq<CoinView>,
    now: Timestamp,
    idx: u128,
    r: Result<Response, ContractError>,
) -> bool {
    if !has_idx(pre.games, idx) {
        is_err(r, ContractError::NotFound) && post == pre
    } else {
        let g = game_at(pre.games, idx);
        if !one_coin_ok(funds) {
            is_err(r, ContractError::Payment(one_coin_err(funds))) && post == pre
        } else if g.started(now) {
            is_err(r, ContractError::GameStarted) && post == pre
        } else if g.players.len() == g.max_players {
            is_err(r, ContractError::GameFull) && post == pre
        } else if funds[0] != g.entry_fee {
            is_err(r, ContractError::InvalidEntryFee) && post == pre
        } else {
            &&& ok_empty(r)
            &&& post.config == pre.config
            &&& post.games == pre.games.update(
                insert_pos(pre.games, idx as int),
                GameView { players: g.players.push(sender), ..g },
            )
        }
    }
}

/// What closing a session does: it takes the configured authority; an
/// unknown index fails `NotFound`; before the start time it fails
/// `GameNotStarted`; otherwise the winner is recorded and two transfer
/// instructions leave, the floored fee share to the fee recipient and
/// the rest of the pot to the winner. Failures leave the store unchanged.
pub open spec fn end_game_outcome(
    pre: StoreView,
    post: StoreView,
    sender: Seq<char>,
    now: Timestamp,
    idx: u128,
    winner: Seq<char>,
    r: Result<Response, ContractError>,
) -> bool {
    match pre.config {
        None => is_err(r, ContractError::NotFound) && post == pre,
        Some(c) => {
            if sender != c.admin {
                is_err(r, ContractError::Unauthorized) && post == pre
            } else if !has_idx(pre.games, idx) {
                is_err(r, ContractError::NotFound) && post == pre
            } else {
                let g = game_at(pre.games, idx);
                if now.spec_seconds() < g.start_time.spec_seconds() {
                    is_err(r, ContractError::GameNotStarted) && post == pre
                } else {
                    let pot = g.entry_fee.amount * g.players.len();
                    let fee = (pot * c.fee_amount.atomics) / (RATE_SCALE as int);
                    &&& r matches Ok(resp) && resp@ == seq![
                        BankSendView {
                            to_address: winner,
                            amount: CoinView {
                                denom: g.entry_fee.denom,
                                amount: (pot - fee) as u128,
                            },
                        },
                        BankSendView {
                            to_address: c.fee_address,
                            amount: CoinView { denom: g.entry_fee.denom, amount: fee as u128 },
                        },
                    ]
                    &&& post.config == pre.config
                    &&& post.games == pre.games.update(
                        insert_pos(pre.games, idx as int),
                        GameView { winner: Some(winner), ..g },
                    )
                }
            }
        },
    }
}

/// What a partial configuration update does: it takes the configured
/// authority; the merged configuration replaces the stored one only if
/// its fee rate still is a fraction, else the call fails `InvalidConfig`.
/// Failures leave the store unchanged.
pub open spec fn configure_outcome(
    pre: StoreView,
    post: StoreView,
    sender: Seq<char>,
    admin: Option<Seq<char>>,
    fee_amount: Option<Rate>,
    fee_address: Option<Seq<char>>,
    max_players: Option<u8>,
    r: Result<Response, ContractError>,
) -> bool {
    match pre.config {
        None => is_err(r, ContractError::NotFound) && post == pre,
        Some(c) => {
            if sender != c.admin {
                is_err(r, ContractError::Unauthorized) && post == pre
            } else {
                let m = merge_view(c, admin, fee_amount, fee_address, max_players);
                if !m.is_valid() {
                    is_err(r, ContractError::InvalidConfig) && post == pre
                } else {
                    &&& ok_empty(r)
                    &&& post.config == Some(m)
                    &&& post.games == pre.games
                }
            }
        },
    }
}

/// Initializes the configuration; fails `InvalidConfig` when the fee rate
/// exceeds 1, leaving the store unchanged.
pub fn instantiate(
    store: &mut Store,
    _env: &Env,
    _info: &MessageInfo,
    msg: InstantiateMsg,
) -> (r: Result<Response, ContractError>)
    requires
        old(store).wf(),
    ensures
        final(store).wf(),
        msg.as_config().is_valid() ==> (ok_empty(r) && final(store)@.config == Some(
            msg.as_config(),
        ) && final(store)@.games == old(store)@.games),
        !msg.as_config().is_valid() ==> (is_err(r, ContractError::InvalidConfig) && final(store)@
            == old(store)@),
{
    let ghost cv = msg.as_config();
    let config = Config::from(msg);
    proof {
        assert(config@ =~= cv);
    }
    match config.validate() {
        Ok(()) => (),
        Err(e) => {
            return Err(e);
        },
    }
    store.save_config(config);
    Ok(Response::empty())
}

/// Applies one state-changing operation to the store, handing back the
/// transfer instructions it produces. Whenever an operation fails, the
/// store is left exactly as it was.
pub fn execute(store: &mut Store, env: &Env, info: &MessageInfo, msg: ExecuteMsg) -> (r: Result<
    Response,
    ContractError,
>)
    requires
        old(store).wf(),
        msg matches ExecuteMsg::CreateGame { start_time, max_players } ==> next_idx_spec(
            old(store)@.games,
        ) <= u128::MAX,
        msg matches ExecuteMsg::EndGame { idx, winner } ==> (has_idx(old(store)@.games, idx)
            ==> game_at(old(store)@.games, idx).entry_fee.amount * game_at(
            old(store)@.games,
            idx,
        ).players.len() <= u128::MAX),
    ensures
        final(store).wf(),
        msg matches ExecuteMsg::CreateGame { start_time, max_players } ==> create_game_outcome(
            old(store)@,
            final(store)@,
            info@.sender,
            info@.funds,
            start_time,
            max_players,
            r,
        ),
        msg matches ExecuteMsg::JoinGame { idx } ==> join_game_outcome(
            old(store)@,
            final(store)@,
            info@.sender,
            info@.funds,
            env.time,
            idx,
            r,
        ),
        msg matches ExecuteMsg::EndGame { idx, winner } ==> end_game_outcome(
            old(store)@,
            final(store)@,
            info@.sender,
            env.time,
            idx,
            winner@,
            r,
        ),
        msg matches ExecuteMsg::Configure { admin, fee_amount, fee_address, max_players }
            ==> configure_outcome(
            old(store)@,
            final(store)@,
            info@.sender,
            match admin {
                Some(a) => Some(a@),
                None => None,
            },
            fee_amount,
            match fee_address {
                Some(a) => Some(a@),
                None => None,
            },
            max_players,
            r,
        ),
{
    match msg {
        ExecuteMsg::CreateGame { start_time, max_players } => {
            let config = match store.load_config() {
                Ok(c) => c,
                Err(e) => {
                    return Err(e);
                },
            };
            let entry_fee = match one_coin(info) {
                Ok(c) => c,
                Err(e) => {
                    return Err(ContractError::Payment(e));
                },
            };
            match config.assert_entry_fee(&entry_fee) {
                Ok(()) => (),
                Err(e) => {
                    return Err(e);
                },
            }
            if max_players > config.max_players {
                return Err(ContractError::InvalidGame);
            }
            let game = Game::new(store, entry_fee, start_time, info.sender.clone(), max_players);
            let ghost s = store@.games;
            game.save(store);
            proof {
                assert forall|k: int| 0 <= k < s.len() implies (#[trigger] s[k]).idx
                    < next_idx_spec(s) by {
                    if k < s.len() - 1 {
                        assert(s[k].idx < s[s.len() - 1].idx);
                    }
                }
                assert(!has_idx(s, game@.idx));
                lemma_insert_pos_properties(s, game@.idx as int);
                assert(insert_pos(s, game@.idx as int) == s.len());
                s.insert_ensures(s.len() as int, game@);
                assert(saved_games(s, game@) =~= s.push(game@));
                assert(game@ =~= (GameView {
                    idx: next_idx_spec(s) as u128,
                    entry_fee: info@.funds[0],
                    start_time,
                    creator: info@.sender,
                    max_players,
                    players: Seq::empty(),
                    winner: None,
                }));
            }
            Ok(Response::empty())
        },
        ExecuteMsg::JoinGame { idx } => {
            let mut game = match Game::load(store, idx) {
                Ok(g) => g,
                Err(e) => {
                    return Err(e);
                },
            };
            let entry_fee = match one_coin(info) {
                Ok(c) => c,
                Err(e) => {
                    return Err(ContractError::Payment(e));
                },
            };
            proof {
                lemma_game_at(store@.games, idx);
            }
            match game.join(info.sender.clone(), entry_fee, env.time) {
                Ok(()) => (),
                Err(e) => {
                    return Err(e);
                },
            }
            game.save(store);
            Ok(Response::empty())
        },
        ExecuteMsg::EndGame { idx, winner } => {
            let config = match store.load_config() {
                Ok(c) => c,
                Err(e) => {
                    return Err(e);
                },
            };
            if !(info.sender == config.admin) {
                return Err(ContractError::Unauthorized);
            }
            let mut game = match Game::load(store, idx) {
                Ok(g) => g,
                Err(e) => {
                    return Err(e);
                },
            };
            proof {
                lemma_game_at(store@.games, idx);
            }
            let total = match game.close(winner.clone(), env.time) {
                Ok(t) => t,
                Err(e) => {
                    return Err(e);
                },
            };
            game.save(store);
            let (fee, winnings) = settle(total.amount, config.fee_amount);
            let winnings_coin = Coin { denom: total.denom.clone(), amount: winnings };
            let fee_coin = Coin { denom: total.denom, amount: fee };
            let mut messages: Vec<BankSend> = Vec::new();
            messages.push(BankSend { to_address: winner, amount: winnings_coin });
            messages.push(BankSend { to_address: config.fee_address, amount: fee_coin });
            let resp = Response { messages };
            proof {
                let g = game_at(old(store)@.games, idx);
                let pot = g.entry_fee.amount * g.players.len();
                let feev = (pot * config@.fee_amount.atomics) / (RATE_SCALE as int);
                assert(resp@ =~= seq![
                    BankSendView {
                        to_address: winner@,
                        amount: CoinView { denom: g.entry_fee.denom, amount: (pot - feev) as u128 },
                    },
                    BankSendView {
                        to_address: config@.fee_address,
                        amount: CoinView { denom: g.entry_fee.denom, amount: feev as u128 },
                    },
                ]);
            }
            Ok(resp)
        },
        ExecuteMsg::Configure { admin, fee_amount, fee_address, max_players } => {
            let mut config = match store.load_config() {
                Ok(c) => c,
                Err(e) => {
                    return Err(e);
                },
            };
            if !(info.sender == config.admin) {
                return Err(ContractError::Unauthorized);
            }
            config.update(admin, fee_amount, fee_address, max_players);
            match config.validate() {
                Ok(()) => (),
                Err(e) => {
                    return Err(e);
                },
            }
            store.save_config(config);
            Ok(Response::empty())
        },
    }
}

/// Where a page of sessions begins: past every index at or below
/// `start_after`, or at the start when no bound is given.
pub open spec fn page_lo(s: Seq<GameView>, start_after: Option<u128>) -> int {
    match start_after {
        None => 0,
        Some(b) => insert_pos(s, b as int + 1),
    }
}

/// The page a listing returns: sessions in ascending index order, past
/// `start_after`, at most `limit` of them (ten when absent).
pub open spec fn page_spec(
    s: Seq<GameView>,
    limit: Option<u8>,
    start_after: Option<u128>,
) -> Seq<GameView> {
    let lim = (match limit {
        Some(l) => l,
        None => 10u8,
    }) as int;
    let lo = page_lo(s, start_after);
    let hi = if lo + lim <= s.len() {
        lo + lim
    } else {
        s.len() as int
    };
    s.subrange(lo, hi)
}

/// Answers one read-only query against the store.
pub fn query(store: &Store, msg: QueryMsg) -> (r: Result<QueryResponse, ContractError>)
    requires
        store.wf(),
    ensures
        msg matches QueryMsg::Config {} ==> (match store@.config {
            None => r == Result::<QueryResponse, ContractError>::Err(ContractError::NotFound),
            Some(c) => r matches Ok(QueryResponse::Config(resp)) && resp@ == c,
        }),
        msg matches QueryMsg::Game { idx } ==> (if has_idx(store@.games, idx) {
            r matches Ok(QueryResponse::Game(resp)) && resp@ == game_at(store@.games, idx)
        } else {
            r == Result::<QueryResponse, ContractError>::Err(ContractError::NotFound)
        }),
        msg matches QueryMsg::Games { limit, start_after } ==> (r matches Ok(
            QueryResponse::Games(resp),
        ) && resp@ == page_spec(store@.games, limit, start_after)),
{
    match msg {
        QueryMsg::Config {} => {
            match store.load_config() {
                Ok(c) => Ok(QueryResponse::Config(ConfigResponse::from(c))),
                Err(e) => Err(e),
            }
        },
        QueryMsg::Game { idx } => {
            match Game::load(store, idx) {
                Ok(g) => Ok(QueryResponse::Game(GameResponse::from(g))),
                Err(e) => Err(e),
            }
        },
        QueryMsg::Games { limit, start_after } => {
            let lim: usize = match limit {
                Some(l) => l as usize,
                None => 10,
            };
            let n = store.games.len();
            let mut i: usize = 0;
            if let Some(b) = start_after {
                while i < n && store.games[i].idx <= b
                    invariant
                        store.wf(),
                        i <= n,
                        n == store.games.len(),
                        forall|j: int| 0 <= j < i ==> (#[trigger] store@.games[j]).idx <= b,
                    decreases n - i,
                {
                    i = i + 1;
                }
                proof {
                    lemma_insert_pos_properties(store@.games, b as int + 1);
                    let p = insert_pos(store@.games, b as int + 1);
                    if p < i as int {
                        assert(store@.games[p].idx <= b);
                        assert(store@.games[p].idx >= b + 1);
                    } else if p > i as int {
                        assert(store@.games[i as int].idx < b + 1);
                    }
                    assert(p == i as int);
                }
            }
            let ghost lo = i as int;
            proof {
                assert(lo == page_lo(store@.games, start_after));
            }
            let mut out: Vec<GameResponse> = Vec::new();
            let mut k: usize = i;
            while k < n && out.len() < lim
                invariant
                    store.wf(),
                    n == store.games.len(),
                    lo <= k as int <= n,
                    out@.len() == k as int - lo,
                    out@.len() <= lim,
                    forall|j: int|
                        0 <= j < out@.len() ==> (#[trigger] out@[j])@ == store@.games[lo + j],
                decreases n - k,
            {
                let g = store.games[k].clone();
                let resp = GameResponse::from(g);
                proof {
                    assert(resp@ =~= store@.games[k as int]);
                }
                out.push(resp);
                k = k + 1;
            }
            let page = GamesResponse { games: out };
            proof {
                let want = page_spec(store@.games, limit, start_after);
                assert forall|j: int| 0 <= j < page@.len() implies page@[j] == want[j] by {
                    assert(page@[j] == out@[j]@);
                }
                assert(page@ =~= want);
            }
            Ok(QueryResponse::Games(page))
        },
    }
}

} // verus!

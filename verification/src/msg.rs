use vstd::prelude::*;

use crate::config::{Config, ConfigView};
use crate::game::{Game, GameView};
use crate::types::{Coin, CoinView, Rate, Timestamp};

verus! {

/// The request that initializes the configuration.
pub struct InstantiateMsg {
    pub admin: String,
    pub min_entry_fee: Vec<Coin>,
    pub fee_amount: Rate,
    pub fee_address: String,
    pub max_players: u8,
}

impl InstantiateMsg {
    /// The configuration this request describes.
    pub open spec fn as_config(&self) -> ConfigView {
        ConfigView {
            admin: self.admin@,
            min_entry_fee: self.min_entry_fee@.map_values(|c: Coin| c@),
            fee_amount: self.fee_amount,
            fee_address: self.fee_address@,
            max_players: self.max_players,
        }
    }
}

/// The state-changing operations of the engine.
#[allow(inconsistent_fields)]
pub enum ExecuteMsg {
    /// Creates a session that starts at `start_time`; the attached single
    /// coin becomes its fixed entry fee.
    CreateGame { start_time: Timestamp, max_players: u8 },
    /// Joins a session that has not yet started, paying its entry fee.
    JoinGame { idx: u128 },
    /// Closes a session with a winner and settles the pot. Authority only.
    EndGame { idx: u128, winner: String },
    /// Partially updates the configuration. Authority only.
    Configure {
        admin: Option<String>,
        fee_amount: Option<Rate>,
        fee_address: Option<String>,
        max_players: Option<u8>,
    },
}

/// The read-only queries of the engine.
pub enum QueryMsg {
    /// The current configuration.
    Config {},
    /// The session at an index.
    Game { idx: u128 },
    /// Sessions in ascending index order, at most `limit` of them (ten if
    /// absent), skipping indices at or below `start_after` if given.
    Games { limit: Option<u8>, start_after: Option<u128> },
}

/// Projection of the configuration handed back to a caller.
#[derive(Debug)]
pub struct ConfigResponse {
    pub admin: String,
    pub min_entry_fee: Vec<Coin>,
    pub fee_amount: Rate,
    pub fee_address: String,
    pub max_players: u8,
}

impl View for ConfigResponse {
    type V = ConfigView;

    open spec fn view(&self) -> ConfigView {
        ConfigView {
            admin: self.admin@,
            min_entry_fee: self.min_entry_fee@.map_values(|c: Coin| c@),
            fee_amount: self.fee_amount,
            fee_address: self.fee_address@,
            max_players: self.max_players,
        }
    }
}

impl From<Config> for ConfigResponse {
    fn from(msg: Config) -> (res: Self) {
        ConfigResponse {
            admin: msg.admin,
            min_entry_fee: msg.min_entry_fee,
            fee_address: msg.fee_address,
            fee_amount: msg.fee_amount,
            max_players: msg.max_players,
        }
    }
}

impl vstd::std_specs::convert::FromSpecImpl<Config> for ConfigResponse {
    open spec fn obeys_from_spec() -> bool {
        true
    }

    open spec fn from_spec(msg: Config) -> ConfigResponse {
        ConfigResponse {
            admin: msg.admin,
            min_entry_fee: msg.min_entry_fee,
            fee_address: msg.fee_address,
            fee_amount: msg.fee_amount,
            max_players: msg.max_players,
        }
    }
}

/// Projection of one session handed back to a caller.
#[derive(Debug)]
pub struct GameResponse {
    pub idx: u128,
    pub entry_fee: Coin,
    pub start_time: Timestamp,
    pub creator: String,
    pub max_players: u8,
    pub players: Vec<String>,
    pub winner: Option<String>,
}

impl View for GameResponse {
    type V = GameView;

    open spec fn view(&self) -> GameView {
        GameView {
            idx: self.idx,
            entry_fee: self.entry_fee@,
            start_time: self.start_time,
            creator: self.creator@,
            max_players: self.max_players,
            players: self.players.deep_view(),
            winner: self.winner.deep_view(),
        }
    }
}

impl From<Game> for GameResponse {
    fn from(g: Game) -> (res: Self) {
        GameResponse {
            idx: g.idx,
            entry_fee: g.entry_fee,
            start_time: g.start_time,
            creator: g.creator,
            max_players: g.max_players,
            players: g.players,
            winner: g.winner,
        }
    }
}

impl vstd::std_specs::convert::FromSpecImpl<Game> for GameResponse {
    open spec fn obeys_from_spec() -> bool {
        true
    }

    open spec fn from_spec(g: Game) -> GameResponse {
        GameResponse {
            idx: g.idx,
            entry_fee: g.entry_fee,
            start_time: g.start_time,
            creator: g.creator,
            max_players: g.max_players,
            players: g.players,
            winner: g.winner,
        }
    }
}

/// Projection of a page of sessions, in ascending index order.
#[derive(Debug)]
pub struct GamesResponse {
    pub games: Vec<GameResponse>,
}

impl View for GamesResponse {
    type V = Seq<GameView>;

    open spec fn view(&self) -> Seq<GameView> {
        self.games@.map_values(|g: GameResponse| g@)
    }
}

/// What a query hands back: one variant per query kind.
#[derive(Debug)]
pub enum QueryResponse {
    Config(ConfigResponse),
    Game(GameResponse),
    Games(GamesResponse),
}

} // verus!

pub mod config;
pub mod contract;
pub mod error;
pub mod game;
pub mod laws;
pub mod msg;
pub mod settle;
pub mod state;
pub mod types;

pub use crate::error::ContractError;

use vstd::prelude::*;

verus! {

/// Why an attached payment had the wrong shape.
#[derive(Clone, Copy, PartialEq, Eq, Structural, Debug)]
pub enum PaymentError {
    /// No coin, or a single coin of amount zero, was attached.
    NoFunds,
    /// More than one coin was attached.
    MultipleDenoms,
}

/// Every way an engine operation can fail. Errors are terminal for the
/// current call: a failed operation leaves no state change behind.
#[derive(PartialEq, Eq, Structural, Debug)]
pub enum ContractError {
    /// The configuration, or the addressed session, does not exist.
    NotFound,
    /// The attached payment had the wrong shape.
    Payment(PaymentError),
    /// The sender is not the configured authority.
    Unauthorized,
    /// The fee rate exceeds 1.
    InvalidConfig,
    /// A join arrived after the session's start time.
    GameStarted,
    /// A close arrived before the session's start time.
    GameNotStarted,
    /// The session already holds its maximum number of players.
    GameFull,
    /// The payment does not meet a configured floor, or does not equal the
    /// session's fixed entry fee.
    InvalidEntryFee,
    /// The requested player cap exceeds the configured ceiling.
    InvalidGame,
}

} // verus!

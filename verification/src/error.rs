//! The closed set of conditions on which a market operation is rejected.
//!
//! Every operation is all-or-nothing: a call that returns one of these
//! errors leaves the market exactly as it found it.

use vstd::prelude::*;

verus! {

/// Why a market operation was rejected.
///
/// Validation errors (`EmptyFunds`, `MultipleDenoms`, `WrongDenom`) reject a
/// stake before anything is recorded.  State errors
/// (`PredictionStillInProgress`, `AlreadyResolved`, `PriceUnavailable`)
/// reject a settlement or claim whose precondition does not hold yet.
/// `NotFound` is raised when a round or wager record does not exist; a
/// missing record is never treated as a zero-valued one.
#[derive(Clone, Copy, Debug, PartialEq, Eq, Structural)]
pub enum ContractError {
    /// The caller is not allowed to perform the operation.
    Unauthorized {},
    /// A stake was sent in a denomination the market does not accept.
    WrongDenom {},
    /// A stake was sent as more than one funding entry.
    MultipleDenoms {},
    /// The round is not yet old enough to be settled or claimed.
    PredictionStillInProgress {},
    /// No funds accompanied a stake.
    EmptyFunds {},
    /// The wager was already claimed by this player.
    AlreadyResolved {},
    /// The price source returned no usable data.
    PriceUnavailable {},
    /// The requested round or wager record does not exist.
    NotFound {},
}

} // verus!

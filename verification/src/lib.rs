//! A round-based, pari-mutuel up/down prediction market.
//!
//! Players stake funds on a price direction for the current round.  A
//! permissionless settlement call compares a freshly fetched reference price
//! against the price locked at round open, decides the round's outcome, and
//! opens the next round.  Winners later claim a proportional share of the
//! combined pool net of a protocol fee; voided rounds refund every stake.

mod arith;
mod claims;
mod contract;
mod error;
mod helpers;
mod laws;
mod msg;
mod oracle;
mod records;
mod state;
mod sums;

pub use contract::{
    execute, instantiate, query, query_config, query_game, query_games, query_player,
    query_prediction, query_predictions, query_state, try_make_prediction, try_resolve_game,
    try_resolve_prediction, DEFAULT_LIMIT, MAX_LIMIT,
};
pub use error::ContractError;
pub use helpers::update_player;
pub use oracle::{fetch_price, instant_price, median_feed_price, twap_price, MID_RANK};
pub use msg::{
    Coin, ConfigResponse, ExecuteAnswer, ExecuteMsg, GameReceipt, InstantiateMsg,
    OracleInput, OracleListPriceFeedResponse, OraclePriceFeedQueryMsg, OraclePriceFeedResponse,
    OraclePriceFeedStateResponse, PredictionInfo, PredictionReceipt, QueryAnswer, QueryMsg,
    SettleReceipt, SettledRoundInfo, StateResponse, TransferMsg,
};
pub use state::{
    Config, Game, GameEntry, Market, Player, PlayerEntry, Prediction, State, RATE_SCALE,
};

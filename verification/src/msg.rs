//! Commands, queries and the structured answers the market returns.
//!
//! Amounts are plain `u128` micro-units; prices and rates are plain `u128`
//! values (rates in `RATE_SCALE` atomics).  Serialization of these shapes
//! for a particular host is a binding concern that lives outside the
//! library.

use vstd::prelude::*;

use crate::state::{Game, Player, Prediction};

verus! {

/// One funding entry accompanying a stake.
#[derive(Clone, Debug)]
pub struct Coin {
    pub denom: String,
    pub amount: u128,
}

/// Deployment configuration supplied at instantiation.
#[derive(Clone, Debug)]
pub struct InstantiateMsg {
    pub pool_address: String,
    pub collector_address: String,
    pub round_time: u64,
    pub limit_time: u64,
    pub denom: String,
    /// Protocol fee rate in `RATE_SCALE` atomics; at most `RATE_SCALE`.
    pub collector_ratio: u128,
}

/// State-mutating commands.
#[derive(Clone, Debug)]
pub enum ExecuteMsg {
    /// Stake the attached funds on the current round, on the up or down side.
    MakePrediction { up: bool },
    /// Collect prizes or refunds for a batch of settled rounds.
    ResolveGame { address: String, round: Vec<u64> },
    /// Settle the round whose betting window has closed and open the next.
    ResolvePrediction {},
}

/// Read-only queries.
#[derive(Clone, Debug)]
pub enum QueryMsg {
    /// The current round id.
    State {},
    /// The deployment configuration.
    Config {},
    /// One player's wager on one round.
    Game { address: String, round: u64 },
    /// One round record.
    Prediction { round: u64 },
    /// Round records, ascending by round id.
    Predictions { start_after: Option<u64>, limit: Option<u32> },
    /// One player's aggregate statistics.
    Player { address: String },
    /// One player's wager history, descending by round id.
    Games { address: String, start_after: Option<u64>, limit: Option<u32> },
}

/// The queries the market itself sends to a price-feed oracle.
#[derive(Clone, Debug)]
pub enum OraclePriceFeedQueryMsg {
    State {},
    GetListPriceFeed { start_after: Option<u64>, limit: Option<u32> },
}

/// Answer to `QueryMsg::State`.
#[derive(Clone, Copy, Debug, PartialEq, Eq, Structural)]
pub struct StateResponse {
    pub round: u64,
}

/// Answer to `QueryMsg::Config`.
#[derive(Clone, Debug)]
pub struct ConfigResponse {
    pub pool_address: String,
    pub round_time: u64,
    pub limit_time: u64,
    pub denom: String,
}

/// Shape of a price-feed oracle's own state answer.
#[derive(Clone, Debug)]
pub struct OraclePriceFeedStateResponse {
    pub pool_address: String,
    pub round: u64,
    pub denom_one: String,
    pub denom_two: String,
}

/// One timestamped price report from a feed.
#[derive(Clone, Debug)]
pub struct OraclePriceFeedResponse {
    pub timestamp: u64,
    pub price: u128,
    pub worker: String,
}

/// A window of price reports from a feed.
#[derive(Clone, Debug)]
pub struct OracleListPriceFeedResponse {
    pub list: Vec<OraclePriceFeedResponse>,
}

/// A round record as reported to queries.
#[derive(Clone, Copy, Debug, PartialEq, Eq, Structural)]
pub struct PredictionInfo {
    pub up: u128,
    pub down: u128,
    pub locked_price: u128,
    pub resolved_price: u128,
    pub closing_time: u64,
    pub expire_time: u64,
    pub success: bool,
    pub is_up: Option<bool>,
}

/// The raw material for one reference-price evaluation, fetched from the
/// configured price source by the caller and handed in as plain values.
#[derive(Clone, Debug)]
pub enum OracleInput {
    /// A liquidity-pool snapshot: price = scale × quote_reserve / base_reserve.
    Instant { scale: u128, quote_reserve: u128, base_reserve: u128 },
    /// Two cumulative-price snapshots with their timestamps, `t1 < t2`.
    Twap { s1: u128, t1: u64, s2: u128, t2: u64 },
    /// A window of timestamped price reports.
    Feed { list: Vec<OraclePriceFeedResponse> },
}

/// A funds-transfer instruction, in pre-tax units; the transfer collaborator
/// may deduct its own transport tax downstream.
#[derive(Clone, Debug, PartialEq, Eq)]
pub struct TransferMsg {
    pub to_address: String,
    pub amount: u128,
}

/// What a successful stake reports back.
#[derive(Clone, Copy, Debug, PartialEq, Eq, Structural)]
pub struct PredictionReceipt {
    pub entered_up: bool,
    pub committed: u128,
    pub prediction_id: u64,
}

/// How a settlement decided the round it finalized.
#[derive(Clone, Copy, Debug, PartialEq, Eq, Structural)]
pub struct SettledRoundInfo {
    pub prediction_id: u64,
    pub locked_price: u128,
    pub is_success: bool,
    /// Winning direction, present exactly when the round was decided.
    pub resolved: Option<bool>,
    /// Settlement price, present exactly when the round was decided.
    pub resolved_price: Option<u128>,
}

/// What a settlement call reports back.
#[derive(Clone, Copy, Debug, PartialEq, Eq, Structural)]
pub struct SettleReceipt {
    /// Evaluation of the finalized round; absent on the very first settlement.
    pub settled: Option<SettledRoundInfo>,
    /// Id of the round opened by this settlement.
    pub round: u64,
}

/// What a claim call reports back.
#[derive(Clone, Debug, PartialEq, Eq)]
pub struct GameReceipt {
    pub recipient: String,
    /// Gross winnings over the decided rounds in the batch.
    pub prize_amount: u128,
    /// Total refunds over the voided rounds in the batch.
    pub refund_amount: u128,
    /// Winnings net of the protocol fee.
    pub net_prize: u128,
    /// The protocol fee, taken from winnings only, never from refunds.
    pub collector_fee: u128,
    /// At most two instructions: net winnings plus refunds to the player,
    /// and the fee to the collector, each present only when nonzero.
    pub transfers: Vec<TransferMsg>,
}

/// Answer of the command dispatcher.
#[derive(Clone, Debug)]
pub enum ExecuteAnswer {
    Prediction(PredictionReceipt),
    Game(GameReceipt),
    Settle(SettleReceipt),
}

/// Answer of the query dispatcher.
#[derive(Clone, Debug)]
pub enum QueryAnswer {
    State(StateResponse),
    Config(ConfigResponse),
    Game(Game),
    Prediction(PredictionInfo),
    Predictions(Vec<(u64, Prediction)>),
    Player(Player),
    Games(Vec<(u64, Game)>),
}

} // verus!

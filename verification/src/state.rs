//! The market's data model: configuration, round records, wagers and
//! per-player aggregates, together with the well-formedness invariant that
//! every operation preserves.

use vstd::prelude::*;

verus! {

/// One whole unit in the fixed-point representation used for rates and
/// payout ratios: rates are carried as multiples of `1 / RATE_SCALE`.
pub const RATE_SCALE: u128 = 1_000_000_000_000_000_000;

/// Deployment configuration, fixed at instantiation.
#[derive(Clone, Debug)]
pub struct Config {
    /// Address of the price source queried at settlement (opaque to the logic).
    pub pool_address: String,
    /// Address that receives the protocol fee.
    pub collector_address: String,
    /// Length of one betting round, in seconds.
    pub round_time: u64,
    /// Settlement grace period added to the expiry window, in seconds.
    pub limit_time: u64,
    /// The only denomination accepted for stakes.
    pub denom: String,
    /// Protocol fee rate in `RATE_SCALE` atomics; at most `RATE_SCALE`.
    pub collector_fee: u128,
}

/// The mutable counter: id of the round currently open for wagering.
#[derive(Clone, Copy, Debug, PartialEq, Eq, Structural)]
pub struct State {
    pub round: u64,
}

/// One betting round.  Its id is its index in the market's round ledger.
///
/// `locked_price` is fixed when the round is created (carried over from the
/// settlement that opened it; zero for round 0, which has no prior
/// settlement) and never changes afterwards.  `success`, `is_up` and
/// `resolved_price` are written exactly once, by the settlement that decides
/// the round: `success == true` with `is_up == Some(..)` is a decided round,
/// `success == false` after evaluation (or forever, if none happens before
/// `expire_time`) means every stake is refunded.
#[derive(Clone, Copy, Debug, PartialEq, Eq, Structural)]
pub struct Prediction {
    pub up: u128,
    pub down: u128,
    pub locked_price: u128,
    pub resolved_price: u128,
    pub closing_time: u64,
    pub expire_time: u64,
    pub success: bool,
    pub is_up: Option<bool>,
}

/// A player's wager on one round.  Immutable once `resolved` is set.
#[derive(Clone, Copy, Debug, PartialEq, Eq, Structural)]
pub struct Game {
    pub up: u128,
    pub down: u128,
    pub prize: u128,
    pub resolved: bool,
}

/// Per-player aggregate, updated as claims are paid out.
#[derive(Clone, Copy, Debug, PartialEq, Eq, Structural)]
pub struct Player {
    pub game_won: u64,
    pub game_over: u64,
    pub game_rewards: u128,
}

/// A wager record keyed by (player identity, round id).
#[derive(Clone, Debug)]
pub struct GameEntry {
    pub player: String,
    pub round: u64,
    pub game: Game,
}

/// A player-stats record keyed by player identity.
#[derive(Clone, Debug)]
pub struct PlayerEntry {
    pub address: String,
    pub stats: Player,
}

/// The whole market: the explicit context object that every operation takes.
///
/// Round records are owned by `predictions` (index == round id), wager
/// records by `games`, player aggregates by `players`.  Nothing is shared.
#[derive(Debug)]
pub struct Market {
    pub config: Config,
    pub state: State,
    pub predictions: Vec<Prediction>,
    pub games: Vec<GameEntry>,
    pub players: Vec<PlayerEntry>,
}

/// What an entry contributes to the up-side pool of round `r`.
pub open spec fn up_part(e: GameEntry, r: u64) -> int {
    if e.round == r {
        e.game.up as int
    } else {
        0
    }
}

/// What an entry contributes to the down-side pool of round `r`.
pub open spec fn down_part(e: GameEntry, r: u64) -> int {
    if e.round == r {
        e.game.down as int
    } else {
        0
    }
}

/// Sum of all up-side stakes recorded against round `r`.
pub open spec fn up_sum(s: Seq<GameEntry>, r: u64) -> int
    decreases s.len(),
{
    if s.len() == 0 {
        0
    } else {
        up_sum(s.drop_last(), r) + up_part(s.last(), r)
    }
}

/// Sum of all down-side stakes recorded against round `r`.
pub open spec fn down_sum(s: Seq<GameEntry>, r: u64) -> int
    decreases s.len(),
{
    if s.len() == 0 {
        0
    } else {
        down_sum(s.drop_last(), r) + down_part(s.last(), r)
    }
}

/// Whether an entry is the wager of `player` on round `r`.
pub open spec fn game_key_is(e: GameEntry, player: Seq<char>, r: u64) -> bool {
    e.player@ == player && e.round == r
}

/// Whether a wager of `player` on round `r` exists.
pub open spec fn has_game(s: Seq<GameEntry>, player: Seq<char>, r: u64) -> bool {
    exists|i: int| 0 <= i < s.len() && game_key_is(#[trigger] s[i], player, r)
}

/// The wager of `player` on round `r`; meaningful only when `has_game`
/// holds (entries are unique by key under the market invariant).
pub open spec fn game_of(s: Seq<GameEntry>, player: Seq<char>, r: u64) -> Game {
    s[choose|i: int| 0 <= i < s.len() && game_key_is(#[trigger] s[i], player, r)].game
}

/// No two wager records share a (player, round) key.
pub open spec fn games_unique(s: Seq<GameEntry>) -> bool {
    forall|i: int, j: int|
        0 <= i < j < s.len() ==> !game_key_is(#[trigger] s[j], #[trigger] s[i].player@, s[i].round)
}

/// Whether a stats record for `player` exists.
pub open spec fn has_player(s: Seq<PlayerEntry>, player: Seq<char>) -> bool {
    exists|i: int| 0 <= i < s.len() && (#[trigger] s[i]).address@ == player
}

/// The stats of `player`; meaningful only when `has_player` holds.
pub open spec fn player_of(s: Seq<PlayerEntry>, player: Seq<char>) -> Player {
    s[choose|i: int| 0 <= i < s.len() && (#[trigger] s[i]).address@ == player].stats
}

/// No two stats records share a player identity.
pub open spec fn players_unique(s: Seq<PlayerEntry>) -> bool {
    forall|i: int, j: int| 0 <= i < j < s.len() ==> (#[trigger] s[i]).address@ != (#[trigger] s[j]).address@
}

/// Everything staked across all rounds.  Bounded by `u128::MAX` under the
/// market invariant, so no pool arithmetic can overflow.
pub open spec fn bank_sum(s: Seq<Prediction>) -> int
    decreases s.len(),
{
    if s.len() == 0 {
        0
    } else {
        bank_sum(s.drop_last()) + s.last().up as int + s.last().down as int
    }
}

/// Internal consistency of one round record: a decided round was decided
/// with both pools funded, and carries its winning direction.
pub open spec fn round_wf(p: Prediction) -> bool {
    &&& p.closing_time <= p.expire_time
    &&& (p.success <==> p.is_up is Some)
    &&& p.success ==> p.up != 0 && p.down != 0
}

impl Market {
    /// The market's well-formedness invariant: one round record per id from
    /// 0 to the current round, pool totals that reconcile exactly with the
    /// recorded wagers, unique record keys, and a total stake that fits in
    /// the amount type.
    pub open spec fn wf(self) -> bool {
        &&& self.predictions@.len() == self.state.round as int + 1
        &&& self.config.collector_fee <= RATE_SCALE
        &&& forall|i: int|
            0 <= i < self.predictions@.len() ==> round_wf(#[trigger] self.predictions@[i])
        &&& forall|i: int|
            0 <= i < self.predictions@.len() ==> (#[trigger] self.predictions@[i]).up as int
                == up_sum(self.games@, i as u64)
        &&& forall|i: int|
            0 <= i < self.predictions@.len() ==> (#[trigger] self.predictions@[i]).down as int
                == down_sum(self.games@, i as u64)
        &&& games_unique(self.games@)
        &&& forall|k: int|
            0 <= k < self.games@.len() ==> (#[trigger] self.games@[k]).round <= self.state.round
        &&& players_unique(self.players@)
        &&& bank_sum(self.predictions@) <= u128::MAX as int
    }

    /// The round currently open for wagering.
    pub open spec fn current(self) -> Prediction {
        self.predictions@[self.state.round as int]
    }
}

} // verus!

//! What a claim means: the validation scan over a batch of round ids, the
//! pari-mutuel prize of each wager, the stats fold, and the bounds that keep
//! the accumulated amounts inside the amount type.

use vstd::prelude::*;

use crate::arith::ratio_floor;
use crate::error::ContractError;
use crate::helpers::player_update_spec;
use crate::state::{bank_sum, game_of, has_game, has_player, player_of, Game, Market, Player, Prediction};
use crate::sums::{lemma_bank_nonneg, lemma_bank_update};

verus! {

/// Both pools of one round together.
pub open spec fn round_total(p: Prediction) -> int {
    p.up as int + p.down as int
}

/// The combined pools of the listed rounds.
pub open spec fn rounds_total(preds: Seq<Prediction>, rs: Seq<u64>) -> int
    decreases rs.len(),
{
    if rs.len() == 0 {
        0
    } else {
        rounds_total(preds, rs.drop_last()) + round_total(preds[rs.last() as int])
    }
}

/// No round id repeats.
pub open spec fn distinct_u64(rs: Seq<u64>) -> bool {
    forall|i: int, j: int| 0 <= i < j < rs.len() ==> rs[i] != rs[j]
}

/// `rounds_total` reads only the listed records.
pub proof fn lemma_rounds_total_agree(p1: Seq<Prediction>, p2: Seq<Prediction>, rs: Seq<u64>)
    requires
        forall|k: int|
            0 <= k < rs.len() ==> (#[trigger] rs[k]) < p1.len() && rs[k] < p2.len() && p1[rs[k] as int]
                == p2[rs[k] as int],
    ensures
        rounds_total(p1, rs) == rounds_total(p2, rs),
    decreases rs.len(),
{
    if rs.len() > 0 {
        lemma_rounds_total_agree(p1, p2, rs.drop_last());
    }
}

/// Distinct rounds together never hold more than the whole bank.
pub proof fn lemma_rounds_total_le_bank(preds: Seq<Prediction>, rs: Seq<u64>)
    requires
        distinct_u64(rs),
        forall|k: int| 0 <= k < rs.len() ==> (#[trigger] rs[k]) < preds.len(),
    ensures
        0 <= rounds_total(preds, rs) <= bank_sum(preds),
    decreases rs.len(),
{
    if rs.len() == 0 {
        lemma_bank_nonneg(preds);
    } else {
        let r = rs.last();
        let rest = rs.drop_last();
        let zeroed = preds.update(r as int, Prediction { up: 0, down: 0, ..preds[r as int] });
        lemma_bank_update(preds, r as int, zeroed[r as int]);
        lemma_rounds_total_le_bank(zeroed, rest);
        lemma_rounds_total_agree(preds, zeroed, rest);
    }
}

/// Why one round of a claim batch is rejected, if it is: an id that names
/// no round, a round whose expiry window has not passed, a player without a
/// wager on it, or a wager already claimed (`dup` marks an id repeated
/// within the batch, whose first occurrence already claimed the wager).
pub open spec fn round_claim_error(
    m: Market,
    now: u64,
    player: Seq<char>,
    r: u64,
    dup: bool,
) -> Option<ContractError> {
    if !(r < m.predictions@.len()) {
        Some(ContractError::NotFound {})
    } else if m.predictions@[r as int].expire_time > now {
        Some(ContractError::PredictionStillInProgress {})
    } else if !has_game(m.games@, player, r) {
        Some(ContractError::NotFound {})
    } else if dup || game_of(m.games@, player, r).resolved {
        Some(ContractError::AlreadyResolved {})
    } else {
        None
    }
}

/// Whether the wager `g` won the decided round `p`.
pub open spec fn won_round(p: Prediction, g: Game) -> bool {
    p.success && (match p.is_up {
        Some(true) => g.up > 0,
        Some(false) => g.down > 0,
        None => false,
    })
}

/// The prize one settled round owes one wager: on a decided round, the
/// winning-side stake multiplied by the pari-mutuel ratio
/// `total_pool / winning_pool` (exact rational arithmetic, floored once);
/// zero for a wager with nothing on the winning side.  On a voided round,
/// the wager's own stakes back in full.
pub open spec fn round_prize_spec(p: Prediction, g: Game) -> int {
    if p.success {
        match p.is_up {
            Some(true) => if g.up > 0 {
                ratio_floor(g.up as int, round_total(p), p.up as int)
            } else {
                0
            },
            Some(false) => if g.down > 0 {
                ratio_floor(g.down as int, round_total(p), p.down as int)
            } else {
                0
            },
            None => 0,
        }
    } else {
        g.up as int + g.down as int
    }
}

/// The validation-and-tally scan of a claim batch, in batch order: the
/// first rejected round decides the error; otherwise the gross winnings
/// (from decided rounds) and refunds (from voided rounds) are summed.
pub open spec fn claim_scan(m: Market, now: u64, player: Seq<char>, rounds: Seq<u64>) -> Result<
    (int, int),
    ContractError,
>
    decreases rounds.len(),
{
    if rounds.len() == 0 {
        Ok((0, 0))
    } else {
        match claim_scan(m, now, player, rounds.drop_last()) {
            Err(e) => Err(e),
            Ok(totals) => {
                let r = rounds.last();
                match round_claim_error(m, now, player, r, rounds.drop_last().contains(r)) {
                    Some(e) => Err(e),
                    None => {
                        let p = m.predictions@[r as int];
                        let g = game_of(m.games@, player, r);
                        if p.success {
                            Ok((totals.0 + round_prize_spec(p, g), totals.1))
                        } else {
                            Ok((totals.0, totals.1 + round_prize_spec(p, g)))
                        }
                    },
                }
            },
        }
    }
}

/// What one settled round contributes to the player's stats record: the
/// arguments handed to the stats updater.  A won round adds the profit
/// beyond the player's own total stake; a lost decided round subtracts the
/// lost stake; a voided round (handled by the caller) touches nothing.
pub open spec fn stats_args_spec(p: Prediction, g: Game) -> (u128, bool, Option<bool>) {
    if won_round(p, g) {
        if round_prize_spec(p, g) > g.up as int + g.down as int {
            ((round_prize_spec(p, g) - g.up as int - g.down as int) as u128, true, Some(true))
        } else {
            (0u128, true, None)
        }
    } else {
        ((g.up + g.down) as u128, false, Some(false))
    }
}

/// The player's stats record after claiming the listed rounds, in order:
/// every decided round folds one update in; voided rounds leave the record
/// as it stands.
pub open spec fn stats_after(m: Market, player: Seq<char>, rounds: Seq<u64>) -> Option<Player>
    decreases rounds.len(),
{
    if rounds.len() == 0 {
        if has_player(m.players@, player) {
            Some(player_of(m.players@, player))
        } else {
            None
        }
    } else {
        let mid = stats_after(m, player, rounds.drop_last());
        let r = rounds.last();
        let p = m.predictions@[r as int];
        if p.success {
            let g = game_of(m.games@, player, r);
            let args = stats_args_spec(p, g);
            Some(player_update_spec(mid, args.0, args.1, args.2))
        } else {
            mid
        }
    }
}

/// Once a prefix of the batch scans to an error, the whole batch does.
pub proof fn lemma_claim_scan_err(m: Market, now: u64, player: Seq<char>, rounds: Seq<u64>, k: int)
    requires
        0 <= k <= rounds.len(),
        claim_scan(m, now, player, rounds.take(k)) is Err,
    ensures
        claim_scan(m, now, player, rounds) == claim_scan(m, now, player, rounds.take(k)),
    decreases rounds.len(),
{
    if k < rounds.len() {
        assert(rounds.drop_last().take(k) =~= rounds.take(k));
        lemma_claim_scan_err(m, now, player, rounds.drop_last(), k);
    } else {
        assert(rounds.take(k) =~= rounds);
    }
}

/// The room a claim's stats fold needs so that no counter or reward sum can
/// overflow: the win and loss counters can take one step per batched round,
/// and the reward sum can absorb every profit the bank could possibly pay.
pub open spec fn stats_fits(m: Market, player: Seq<char>, n_rounds: int) -> bool {
    let base = match (if has_player(m.players@, player) {
        Some(player_of(m.players@, player))
    } else {
        None
    }) {
        Some(st) => st,
        None => Player { game_won: 0, game_over: 0, game_rewards: 0 },
    };
    &&& base.game_won + n_rounds <= u64::MAX
    &&& base.game_over + n_rounds <= u64::MAX
    &&& base.game_rewards + bank_sum(m.predictions@) <= u128::MAX
}

} // verus!

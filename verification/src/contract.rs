//! The market's entry points: instantiation, staking, settlement, claiming
//! and the read-only queries.

use vstd::prelude::*;

use crate::arith::{lemma_ratio_le_total, mul_ratio, ratio_floor};
use crate::claims::{
    claim_scan, distinct_u64, lemma_claim_scan_err, lemma_rounds_total_le_bank, round_prize_spec,
    round_total, rounds_total, stats_after, stats_fits,
};
use crate::error::ContractError;
use crate::helpers::{stats_of, update_player};
use crate::msg::{
    Coin, ConfigResponse, ExecuteAnswer, ExecuteMsg, GameReceipt, InstantiateMsg, OracleInput,
    PredictionInfo, PredictionReceipt, QueryAnswer, QueryMsg, SettleReceipt, SettledRoundInfo,
    StateResponse, TransferMsg,
};
use crate::oracle::{fetch_price, fetch_price_spec};
use crate::records::{
    find_game_index, find_player_index, lemma_game_at, lemma_game_push, lemma_game_update,
    lemma_players_frame,
};
use crate::state::{
    bank_sum, down_sum, game_key_is, game_of, games_unique, has_game, has_player, player_of,
    players_unique, up_sum, Config, Game, GameEntry, Market, Player, Prediction, State,
    RATE_SCALE,
};
use crate::sums::{
    lemma_bank_bounds, lemma_bank_push, lemma_bank_update, lemma_part_le_sum, lemma_sum_absent,
    lemma_sum_nonneg, lemma_sum_push, lemma_sum_update,
};
use vstd::pervasive::VecAdditionalExecFns;

verus! {

/// Which validation error, if any, the funding entries of a stake draw:
/// no entry, more than one entry, or a denomination the market does not
/// accept.
pub open spec fn funds_error(denom: Seq<char>, funds: Seq<Coin>) -> Option<ContractError> {
    if funds.len() == 0 {
        Some(ContractError::EmptyFunds {})
    } else if funds.len() > 1 {
        Some(ContractError::MultipleDenoms {})
    } else if funds[0].denom@ != denom {
        Some(ContractError::WrongDenom {})
    } else {
        None
    }
}

/// A stake of `amount` still fits in the market's amount type.
pub open spec fn stake_fits(m: Market, amount: u128) -> bool {
    bank_sum(m.predictions@) + amount <= u128::MAX
}

/// A newly opened round: empty pools, the carried lock price, a betting
/// window of one round length, and an expiry window of two round lengths
/// plus the settlement grace period.
pub open spec fn fresh_prediction(
    now: u64,
    round_time: u64,
    limit_time: u64,
    locked_price: u128,
) -> Prediction {
    Prediction {
        up: 0,
        down: 0,
        locked_price,
        resolved_price: 0,
        closing_time: (now + round_time) as u64,
        expire_time: (now + round_time + round_time + limit_time) as u64,
        success: false,
        is_up: None,
    }
}

/// A first wager: the staked side populated, the other empty.
pub open spec fn stake_game(up: bool, amount: u128) -> Game {
    Game {
        up: if up {
            amount
        } else {
            0
        },
        down: if up {
            0
        } else {
            amount
        },
        prize: 0,
        resolved: false,
    }
}

/// An existing wager increased by `amount` on one side.
pub open spec fn game_add(g: Game, up: bool, amount: u128) -> Game {
    Game {
        up: if up {
            (g.up + amount) as u128
        } else {
            g.up
        },
        down: if up {
            g.down
        } else {
            (g.down + amount) as u128
        },
        ..g
    }
}

/// A round's pool increased by `amount` on one side.
pub open spec fn pool_add(p: Prediction, up: bool, amount: u128) -> Prediction {
    Prediction {
        up: if up {
            (p.up + amount) as u128
        } else {
            p.up
        },
        down: if up {
            p.down
        } else {
            (p.down + amount) as u128
        },
        ..p
    }
}

/// Builds a newly opened round record.
fn new_prediction(now: u64, round_time: u64, limit_time: u64, locked_price: u128) -> (p: Prediction)
    requires
        now + round_time + round_time + limit_time <= u64::MAX,
    ensures
        p == fresh_prediction(now, round_time, limit_time, locked_price),
{
    Prediction {
        up: 0,
        down: 0,
        locked_price,
        resolved_price: 0,
        closing_time: now + round_time,
        expire_time: now + round_time + round_time + limit_time,
        success: false,
        is_up: None,
    }
}

/// Creates the market: stores the configuration and opens round 0 with
/// empty pools and a zero lock price (there is no prior settlement to carry
/// a price from, so round 0 can only be decided against a zero reference).
pub fn instantiate(now: u64, msg: InstantiateMsg) -> (m: Market)
    requires
        msg.collector_ratio <= RATE_SCALE,
        now + msg.round_time + msg.round_time + msg.limit_time <= u64::MAX,
    ensures
        m.wf(),
        m.state.round == 0,
        m.predictions@.len() == 1,
        m.predictions@[0] == fresh_prediction(now, msg.round_time, msg.limit_time, 0),
        m.games@.len() == 0,
        m.players@.len() == 0,
        bank_sum(m.predictions@) == 0,
        m.config.pool_address@ == msg.pool_address@,
        m.config.collector_address@ == msg.collector_address@,
        m.config.round_time == msg.round_time,
        m.config.limit_time == msg.limit_time,
        m.config.denom@ == msg.denom@,
        m.config.collector_fee == msg.collector_ratio,
{
    let config = Config {
        pool_address: msg.pool_address,
        collector_address: msg.collector_address,
        round_time: msg.round_time,
        limit_time: msg.limit_time,
        denom: msg.denom,
        collector_fee: msg.collector_ratio,
    };
    let first = new_prediction(now, config.round_time, config.limit_time, 0);
    let mut predictions: Vec<Prediction> = Vec::new();
    predictions.push(first);
    let games: Vec<GameEntry> = Vec::new();
    let players: Vec<crate::state::PlayerEntry> = Vec::new();
    let m = Market { config, state: State { round: 0 }, predictions, games, players };
    proof {
        assert(m.predictions@.drop_last() =~= Seq::<Prediction>::empty());
        assert(bank_sum(Seq::<Prediction>::empty()) == 0);
        assert(bank_sum(m.predictions@) == 0);
        assert forall|i: int| 0 <= i < m.predictions@.len() implies (
        #[trigger] m.predictions@[i]).up as int == up_sum(m.games@, i as u64) && m.predictions@[i].down
            as int == down_sum(m.games@, i as u64) by {
            lemma_sum_absent(m.games@, i as u64);
        }
    }
    m
}

/// Everything a stake call promises: on rejection the market is untouched
/// and the error is exactly what the funds validation yields; on success
/// the receipt echoes the stake, the current round's pool and the sender's
/// wager grow by the staked amount, and nothing else moves.
pub open spec fn stake_post(
    pre: Market,
    post: Market,
    sender: Seq<char>,
    funds: Seq<Coin>,
    up: bool,
    r: Result<PredictionReceipt, ContractError>,
) -> bool {
    &&& post.config == pre.config
    &&& post.state == pre.state
    &&& post.players == pre.players
    &&& match r {
        Err(e) => post == pre && Some(e) == funds_error(pre.config.denom@, funds),
        Ok(rec) => {
            let rid = pre.state.round;
            let amount = funds[0].amount;
            &&& funds_error(pre.config.denom@, funds) is None
            &&& rec == (PredictionReceipt { entered_up: up, committed: amount, prediction_id: rid })
            &&& post.predictions@ == pre.predictions@.update(
                rid as int,
                pool_add(pre.current(), up, amount),
            )
            &&& bank_sum(post.predictions@) == bank_sum(pre.predictions@) + amount
            &&& has_game(post.games@, sender, rid)
            &&& game_of(post.games@, sender, rid) == (if has_game(pre.games@, sender, rid) {
                game_add(game_of(pre.games@, sender, rid), up, amount)
            } else {
                stake_game(up, amount)
            })
            &&& forall|p: Seq<char>, q: u64|
                #![trigger has_game(post.games@, p, q)]
                !(p == sender && q == rid) ==> has_game(post.games@, p, q) == has_game(
                    pre.games@,
                    p,
                    q,
                )
            &&& forall|p: Seq<char>, q: u64|
                #![trigger game_of(post.games@, p, q)]
                !(p == sender && q == rid) && has_game(pre.games@, p, q) ==> game_of(
                    post.games@,
                    p,
                    q,
                ) == game_of(pre.games@, p, q)
        },
    }
}

/// Records a stake by `sender` of the attached funds on the `up` or down
/// side of the current round.
///
/// Exactly one funding entry in the accepted denomination must accompany
/// the call; otherwise the whole call is rejected and nothing is recorded.
/// On success both the player's wager and the round's pool grow by the
/// staked amount in the same atomic step, and every other record is
/// untouched.
pub fn try_make_prediction(
    market: &mut Market,
    sender: &String,
    funds: &Vec<Coin>,
    up: bool,
) -> (r: Result<PredictionReceipt, ContractError>)
    requires
        old(market).wf(),
        funds_error(old(market).config.denom@, funds@) is None ==> stake_fits(
            *old(market),
            funds@[0].amount,
        ),
    ensures
        final(market).wf(),
        stake_post(*old(market), *final(market), sender@, funds@, up, r),
{
    if funds.len() == 0 {
        return Err(ContractError::EmptyFunds {});
    }
    if funds.len() > 1 {
        return Err(ContractError::MultipleDenoms {});
    }
    if !(funds[0].denom == market.config.denom) {
        return Err(ContractError::WrongDenom {});
    }
    let amount = funds[0].amount;
    let rid = market.state.round;
    let ghost old_games = market.games@;
    let ghost old_preds = market.predictions@;
    proof {
        lemma_bank_bounds(old_preds, rid as int);
    }

    match find_game_index(&market.games, sender, rid) {
        Some(i) => {
            let entry_game = market.games[i].game;
            proof {
                lemma_part_le_sum(old_games, i as int, rid);
                lemma_sum_nonneg(old_games, rid);
            }
            let updated = if up {
                Game { up: entry_game.up + amount, ..entry_game }
            } else {
                Game { down: entry_game.down + amount, ..entry_game }
            };
            let player_key = market.games[i].player.clone();
            let new_entry = GameEntry { player: player_key, round: rid, game: updated };
            proof {
                assert(new_entry.player@ == old_games[i as int].player@);
                lemma_game_update(old_games, i as int, new_entry);
                lemma_game_at(old_games, i as int, sender@, rid);
            }
            market.games.set(i, new_entry);
        },
        None => {
            let staked = if up {
                Game { up: amount, down: 0, prize: 0, resolved: false }
            } else {
                Game { up: 0, down: amount, prize: 0, resolved: false }
            };
            let new_entry = GameEntry { player: sender.clone(), round: rid, game: staked };
            proof {
                lemma_game_push(old_games, new_entry);
            }
            market.games.push(new_entry);
        },
    }

    let n_rounds = market.predictions.len();
    let idx = rid as usize;
    proof {
        assert(n_rounds as int == rid as int + 1);
        assert(idx as int == rid as int);
        assert(old_preds[rid as int].up as int + old_preds[rid as int].down as int <= bank_sum(
            old_preds,
        ));
    }
    let prev = market.predictions[idx];
    let updated_round = if up {
        Prediction { up: prev.up + amount, ..prev }
    } else {
        Prediction { down: prev.down + amount, ..prev }
    };
    market.predictions.set(idx, updated_round);
    proof {
        lemma_bank_update(old_preds, rid as int, updated_round);
        assert forall|i: int| 0 <= i < market.predictions@.len() implies (
        #[trigger] market.predictions@[i]).up as int == up_sum(market.games@, i as u64)
            && market.predictions@[i].down as int == down_sum(
            market.games@,
            i as u64,
        ) by {
            if has_game(old_games, sender@, rid) {
                let gi = choose|gi: int|
                    0 <= gi < old_games.len() && game_key_is(#[trigger] old_games[gi], sender@, rid);
                lemma_sum_update(old_games, gi, market.games@[gi], i as u64);
            } else {
                lemma_sum_push(old_games, market.games@.last(), i as u64);
            }
        }
    }
    Ok(PredictionReceipt { entered_up: up, committed: amount, prediction_id: rid })
}

/// How a settlement with reference price `price` at time `now` decides a
/// round: decided (up when the price rose above the lock) exactly when the
/// settlement is not stale, both pools are funded and the price moved;
/// otherwise the round is voided and every stake refunded at claim time.
pub open spec fn settle_success(p: Prediction, now: u64, price: u128) -> bool {
    now < p.expire_time && p.up != 0 && p.down != 0 && price != p.locked_price
}

/// The round record after its settlement evaluation.
pub open spec fn settled_prediction(p: Prediction, now: u64, price: u128) -> Prediction {
    Prediction {
        success: settle_success(p, now, price),
        is_up: if settle_success(p, now, price) {
            Some(price > p.locked_price)
        } else {
            None
        },
        resolved_price: if settle_success(p, now, price) {
            price
        } else {
            p.resolved_price
        },
        ..p
    }
}

/// Everything a settlement call promises: rejection with the in-progress
/// error while the betting window is open, atomic abortion when the price
/// source fails, and otherwise the evaluation of the round before the
/// current one together with the opening of the next round, the fetched
/// price carried into its lock.
pub open spec fn settle_post(
    pre: Market,
    post: Market,
    now: u64,
    oracle: OracleInput,
    r: Result<SettleReceipt, ContractError>,
) -> bool {
    &&& post.config == pre.config
    &&& post.games == pre.games
    &&& post.players == pre.players
    &&& now < pre.current().closing_time ==> r == Err::<SettleReceipt, ContractError>(
        ContractError::PredictionStillInProgress {},
    ) && post == pre
    &&& now >= pre.current().closing_time && fetch_price_spec(oracle, now) is Err ==> (r matches
        Err(e) && Err::<u128, ContractError>(e) == fetch_price_spec(oracle, now)) && post == pre
    &&& now >= pre.current().closing_time && (fetch_price_spec(oracle, now) matches Ok(price))
        ==> {
        let rid = pre.state.round;
        let price = fetch_price_spec(oracle, now)->Ok_0;
        &&& post.state.round == rid + 1
        &&& post.predictions@.len() == rid + 2
        &&& bank_sum(post.predictions@) == bank_sum(pre.predictions@)
        &&& post.predictions@.last() == fresh_prediction(
            now,
            pre.config.round_time,
            pre.config.limit_time,
            price,
        )
        &&& rid > 0 ==> post.predictions@[rid - 1] == settled_prediction(
            pre.predictions@[rid - 1],
            now,
            price,
        )
        &&& forall|i: int|
            0 <= i <= rid && i != rid - 1 ==> post.predictions@[i] == pre.predictions@[i]
        &&& r == Ok::<SettleReceipt, ContractError>(
            SettleReceipt {
                settled: if rid == 0 {
                    None
                } else {
                    Some(
                        SettledRoundInfo {
                            prediction_id: (rid - 1) as u64,
                            locked_price: pre.predictions@[rid - 1].locked_price,
                            is_success: settle_success(pre.predictions@[rid - 1], now, price),
                            resolved: if settle_success(pre.predictions@[rid - 1], now, price) {
                                Some(price > pre.predictions@[rid - 1].locked_price)
                            } else {
                                None
                            },
                            resolved_price: if settle_success(
                                pre.predictions@[rid - 1],
                                now,
                                price,
                            ) {
                                Some(price)
                            } else {
                                None
                            },
                        },
                    )
                },
                round: (rid + 1) as u64,
            },
        )
    }
}

/// Settles the market: rejected while the current round's betting window is
/// still open, and atomically aborted when the price source yields nothing.
/// Otherwise the round before the current one (if any) is decided against
/// the fetched price, the current round stops taking wagers, and a new
/// round opens with the fetched price carried forward as its locked price.
pub fn try_resolve_prediction(
    market: &mut Market,
    now: u64,
    oracle: &OracleInput,
) -> (r: Result<SettleReceipt, ContractError>)
    requires
        old(market).wf(),
        now + old(market).config.round_time + old(market).config.round_time + old(
            market,
        ).config.limit_time <= u64::MAX,
    ensures
        final(market).wf(),
        settle_post(*old(market), *final(market), now, *oracle, r),
{
    let rid = market.state.round;
    let n_rounds = market.predictions.len();
    let idx = rid as usize;
    proof {
        assert(n_rounds as int == rid as int + 1);
        assert(idx as int == rid as int);
    }
    if market.predictions[idx].closing_time > now {
        return Err(ContractError::PredictionStillInProgress {});
    }
    let price = match fetch_price(oracle, now) {
        Ok(p) => p,
        Err(e) => { return Err(e) },
    };
    let ghost old_preds = market.predictions@;

    let mut settled_info: Option<SettledRoundInfo> = None;
    if rid != 0 {
        let pidx = (rid - 1) as usize;
        let prev = market.predictions[pidx];
        let is_success = now < prev.expire_time && prev.up != 0 && prev.down != 0 && price
            != prev.locked_price;
        let is_up = price > prev.locked_price;
        let updated = Prediction {
            success: is_success,
            is_up: if is_success {
                Some(is_up)
            } else {
                None
            },
            resolved_price: if is_success {
                price
            } else {
                prev.resolved_price
            },
            ..prev
        };
        market.predictions.set(pidx, updated);
        proof {
            lemma_bank_update(old_preds, pidx as int, updated);
        }
        settled_info = Some(
            SettledRoundInfo {
                prediction_id: rid - 1,
                locked_price: prev.locked_price,
                is_success,
                resolved: if is_success {
                    Some(is_up)
                } else {
                    None
                },
                resolved_price: if is_success {
                    Some(price)
                } else {
                    None
                },
            },
        );
    }

    let ghost mid_preds = market.predictions@;
    let opened = new_prediction(now, market.config.round_time, market.config.limit_time, price);
    market.predictions.push(opened);
    market.state.round = rid + 1;
    proof {
        lemma_bank_push(mid_preds, opened);
        assert forall|i: int| 0 <= i < market.predictions@.len() implies (
        #[trigger] market.predictions@[i]).up as int == up_sum(market.games@, i as u64)
            && market.predictions@[i].down as int == down_sum(market.games@, i as u64) by {
            if i == rid as int + 1 {
                assert forall|k: int| 0 <= k < market.games@.len() implies (
                #[trigger] market.games@[k]).round != i as u64 by {}
                lemma_sum_absent(market.games@, i as u64);
            }
        }
    }
    Ok(SettleReceipt { settled: settled_info, round: rid + 1 })
}

/// Whether `x` occurs in `v`.
fn contains_u64(v: &Vec<u64>, x: u64) -> (r: bool)
    ensures
        r == v@.contains(x),
{
    let mut i: usize = 0;
    while i < v.len()
        invariant
            0 <= i <= v@.len(),
            forall|j: int| 0 <= j < i ==> v@[j] != x,
        decreases v@.len() - i,
    {
        if v[i] == x {
            return true;
        }
        i = i + 1;
    }
    false
}

/// Everything a claim call promises: on rejection the market is untouched
/// and the error is what the batch scan yields; on success the receipt
/// carries the scanned gross winnings and refunds, the fee comes out of
/// winnings alone, every batched wager is marked claimed with its prize
/// recorded, the player's stats absorb one update per decided round, and
/// nothing else moves.
pub open spec fn claim_post(
    pre: Market,
    post: Market,
    now: u64,
    address: Seq<char>,
    rounds: Seq<u64>,
    r: Result<GameReceipt, ContractError>,
) -> bool {
    &&& post.config == pre.config
    &&& post.state == pre.state
    &&& post.predictions == pre.predictions
    &&& match r {
        Err(e) => post == pre && claim_scan(pre, now, address, rounds) == Err::<
            (int, int),
            ContractError,
        >(e),
        Ok(rec) => {
            let scan = claim_scan(pre, now, address, rounds);
            let fee_rate = pre.config.collector_fee;
            &&& scan matches Ok(totals) && rec.prize_amount as int == totals.0
                && rec.refund_amount as int == totals.1
            &&& rec.net_prize as int == ratio_floor(
                rec.prize_amount as int,
                RATE_SCALE - fee_rate,
                RATE_SCALE as int,
            )
            &&& rec.collector_fee == rec.prize_amount - rec.net_prize
            &&& rec.recipient@ == address
            &&& rec.transfers@.len() == (if rec.net_prize + rec.refund_amount > 0 {
                1int
            } else {
                0int
            }) + (if rec.collector_fee > 0 {
                1int
            } else {
                0int
            })
            &&& rec.net_prize + rec.refund_amount > 0 ==> rec.transfers@[0].to_address@ == address
                && rec.transfers@[0].amount as int == rec.net_prize + rec.refund_amount
            &&& rec.collector_fee > 0 ==> rec.transfers@[rec.transfers@.len() - 1].to_address@
                == pre.config.collector_address@ && rec.transfers@[rec.transfers@.len() - 1].amount
                == rec.collector_fee
            &&& post.games@.len() == pre.games@.len()
            &&& forall|q: u64|
                #[trigger] rounds.contains(q) ==> has_game(post.games@, address, q) && game_of(
                    post.games@,
                    address,
                    q,
                ) == (Game {
                    resolved: true,
                    prize: round_prize_spec(
                        pre.predictions@[q as int],
                        game_of(pre.games@, address, q),
                    ) as u128,
                    ..game_of(pre.games@, address, q)
                })
            &&& forall|p: Seq<char>, q: u64|
                #![trigger has_game(post.games@, p, q)]
                !(p == address && rounds.contains(q)) ==> has_game(post.games@, p, q) == has_game(
                    pre.games@,
                    p,
                    q,
                )
            &&& forall|p: Seq<char>, q: u64|
                #![trigger game_of(post.games@, p, q)]
                !(p == address && rounds.contains(q)) && has_game(pre.games@, p, q) ==> game_of(
                    post.games@,
                    p,
                    q,
                ) == game_of(pre.games@, p, q)
            &&& match stats_after(pre, address, rounds) {
                None => post.players == pre.players,
                Some(st) => has_player(post.players@, address) && player_of(post.players@, address)
                    == st && (forall|p: Seq<char>|
                    #![trigger has_player(post.players@, p)]
                    p != address ==> has_player(post.players@, p) == has_player(pre.players@, p))
                    && (forall|p: Seq<char>|
                    #![trigger player_of(post.players@, p)]
                    p != address && has_player(pre.players@, p) ==> player_of(post.players@, p)
                        == player_of(pre.players@, p)),
            }
        },
    }
}

/// Pays `address` out for a batch of settled rounds: the pari-mutuel prize
/// for each decided round won, nothing for one lost, and a full refund for
/// each voided round.
///
/// The whole batch is validated against the untouched market first — any
/// unknown round, round still inside its expiry window, missing wager, or
/// wager already claimed (also by an earlier repeat inside the batch)
/// rejects the call with nothing changed.  On success every batched wager
/// is marked claimed with its prize recorded, the player's stats take one
/// win or loss per decided round, and at most two transfer instructions
/// come back: winnings net of the protocol fee plus refunds to the player,
/// and the fee — taken from winnings only, never from refunds — to the
/// collector.
pub fn try_resolve_game(
    market: &mut Market,
    now: u64,
    address: &String,
    rounds: &Vec<u64>,
) -> (r: Result<GameReceipt, ContractError>)
    requires
        old(market).wf(),
        stats_fits(*old(market), address@, rounds@.len() as int),
    ensures
        final(market).wf(),
        claim_post(*old(market), *final(market), now, address@, rounds@, r),
{
    let ghost m0 = *old(market);
    let fee_num = RATE_SCALE - market.config.collector_fee;
    let n = rounds.len();
    let mut processed: Vec<u64> = Vec::new();
    let mut prizes: Vec<u128> = Vec::new();
    let mut prize_amount: u128 = 0;
    let mut refund_amount: u128 = 0;

    let mut i: usize = 0;
    while i < n
        invariant
            0 <= i <= n,
            n == rounds@.len(),
            *market == m0,
            m0.wf(),
            processed@ == rounds@.take(i as int),
            prizes@.len() == i,
            claim_scan(m0, now, address@, rounds@.take(i as int)) == Ok::<
                (int, int),
                ContractError,
            >((prize_amount as int, refund_amount as int)),
            prize_amount as int + refund_amount as int <= rounds_total(m0.predictions@, processed@),
            distinct_u64(processed@),
            forall|j: int|
                0 <= j < i ==> (#[trigger] processed@[j]) < m0.predictions@.len()
                    && m0.predictions@[processed@[j] as int].expire_time <= now && has_game(
                    m0.games@,
                    address@,
                    processed@[j],
                ) && !game_of(m0.games@, address@, processed@[j]).resolved,
            forall|j: int|
                0 <= j < i ==> (#[trigger] prizes@[j]) as int == round_prize_spec(
                    m0.predictions@[processed@[j] as int],
                    game_of(m0.games@, address@, processed@[j]),
                ) && prizes@[j] as int <= round_total(m0.predictions@[processed@[j] as int]),
        decreases n - i,
    {
        let rn = rounds[i];
        proof {
            assert(rounds@.take(i as int + 1).drop_last() =~= rounds@.take(i as int));
            assert(rounds@.take(i as int + 1).last() == rn);
        }
        if !(rn < market.predictions.len() as u64) {
            proof {
                lemma_claim_scan_err(m0, now, address@, rounds@, i as int + 1);
            }
            return Err(ContractError::NotFound {});
        }
        let pidx = rn as usize;
        let pred = market.predictions[pidx];
        if pred.expire_time > now {
            proof {
                lemma_claim_scan_err(m0, now, address@, rounds@, i as int + 1);
            }
            return Err(ContractError::PredictionStillInProgress {});
        }
        let gidx_opt = find_game_index(&market.games, address, rn);
        let gidx = match gidx_opt {
            Some(g) => g,
            None => {
                proof {
                    lemma_claim_scan_err(m0, now, address@, rounds@, i as int + 1);
                }
                return Err(ContractError::NotFound {});
            },
        };
        proof {
            lemma_game_at(m0.games@, gidx as int, address@, rn);
        }
        let entry_game = market.games[gidx].game;
        let dup = contains_u64(&processed, rn);
        if dup || entry_game.resolved {
            proof {
                lemma_claim_scan_err(m0, now, address@, rounds@, i as int + 1);
            }
            return Err(ContractError::AlreadyResolved {});
        }
        proof {
            lemma_part_le_sum(m0.games@, gidx as int, rn);
            lemma_sum_nonneg(m0.games@, rn);
            lemma_bank_bounds(m0.predictions@, rn as int);
        }
        let total = pred.up + pred.down;
        let round_prize: u128 = if pred.success {
            match pred.is_up {
                Some(true) => {
                    if entry_game.up > 0 {
                        proof {
                            lemma_ratio_le_total(
                                entry_game.up as int,
                                total as int,
                                pred.up as int,
                            );
                        }
                        match mul_ratio(entry_game.up, total, pred.up) {
                            Some(v) => v,
                            None => {
                                proof {
                                    assert(false);
                                }
                                0
                            },
                        }
                    } else {
                        0
                    }
                },
                Some(false) => {
                    if entry_game.down > 0 {
                        proof {
                            lemma_ratio_le_total(
                                entry_game.down as int,
                                total as int,
                                pred.down as int,
                            );
                        }
                        match mul_ratio(entry_game.down, total, pred.down) {
                            Some(v) => v,
                            None => {
                                proof {
                                    assert(false);
                                }
                                0
                            },
                        }
                    } else {
                        0
                    }
                },
                None => {
                    proof {
                        assert(false);
                    }
                    0
                },
            }
        } else {
            entry_game.up + entry_game.down
        };
        proof {
            assert(processed@.push(rn) =~= rounds@.take(i as int + 1));
            assert(distinct_u64(processed@.push(rn)));
            lemma_rounds_total_le_bank(m0.predictions@, processed@.push(rn));
            assert(processed@.push(rn).drop_last() =~= processed@);
            assert(round_prize as int == round_prize_spec(
                m0.predictions@[rn as int],
                game_of(m0.games@, address@, rn),
            ));
            assert(round_prize as int <= round_total(m0.predictions@[rn as int]));
        }
        if pred.success {
            prize_amount = prize_amount + round_prize;
        } else {
            refund_amount = refund_amount + round_prize;
        }
        processed.push(rn);
        prizes.push(round_prize);
        i = i + 1;
    }
    proof {
        assert(rounds@.take(n as int) =~= rounds@);
        lemma_rounds_total_le_bank(m0.predictions@, processed@);
    }

    let ghost base_st = match stats_of(m0.players@, address@) {
        Some(st) => st,
        None => Player { game_won: 0, game_over: 0, game_rewards: 0 },
    };
    let mut k: usize = 0;
    while k < n
        invariant
            0 <= k <= n,
            n == rounds@.len(),
            n == processed@.len(),
            n == prizes@.len(),
            m0.wf(),
            processed@ == rounds@,
            distinct_u64(processed@),
            stats_fits(m0, address@, n as int),
            base_st == (match stats_of(m0.players@, address@) {
                Some(st) => st,
                None => Player { game_won: 0, game_over: 0, game_rewards: 0 },
            }),
            forall|j: int|
                0 <= j < n ==> (#[trigger] processed@[j]) < m0.predictions@.len()
                    && m0.predictions@[processed@[j] as int].expire_time <= now && has_game(
                    m0.games@,
                    address@,
                    processed@[j],
                ) && !game_of(m0.games@, address@, processed@[j]).resolved,
            forall|j: int|
                0 <= j < n ==> (#[trigger] prizes@[j]) as int == round_prize_spec(
                    m0.predictions@[processed@[j] as int],
                    game_of(m0.games@, address@, processed@[j]),
                ) && prizes@[j] as int <= round_total(m0.predictions@[processed@[j] as int]),
            market.config == m0.config,
            market.state == m0.state,
            market.predictions == m0.predictions,
            market.games@.len() == m0.games@.len(),
            games_unique(market.games@),
            forall|c: int|
                0 <= c < market.games@.len() ==> (#[trigger] market.games@[c]).round
                    <= market.state.round,
            fee_num == RATE_SCALE - m0.config.collector_fee,
            prize_amount as int + refund_amount as int <= u128::MAX,
            claim_scan(m0, now, address@, rounds@) == Ok::<(int, int), ContractError>(
                (prize_amount as int, refund_amount as int),
            ),
            forall|q: u64| #[trigger] up_sum(market.games@, q) == up_sum(m0.games@, q),
            forall|q: u64| #[trigger] down_sum(market.games@, q) == down_sum(m0.games@, q),
            forall|j: int|
                0 <= j < k ==> has_game(market.games@, address@, #[trigger] processed@[j])
                    && game_of(market.games@, address@, processed@[j]) == (Game {
                    resolved: true,
                    prize: prizes@[j],
                    ..game_of(m0.games@, address@, processed@[j])
                }),
            forall|p: Seq<char>, q: u64|
                #![trigger has_game(market.games@, p, q)]
                !(p == address@ && processed@.take(k as int).contains(q)) ==> has_game(
                    market.games@,
                    p,
                    q,
                ) == has_game(m0.games@, p, q),
            forall|p: Seq<char>, q: u64|
                #![trigger game_of(market.games@, p, q)]
                !(p == address@ && processed@.take(k as int).contains(q)) && has_game(
                    m0.games@,
                    p,
                    q,
                ) ==> game_of(market.games@, p, q) == game_of(m0.games@, p, q),
            players_unique(market.players@),
            stats_of(market.players@, address@) == stats_after(
                m0,
                address@,
                processed@.take(k as int),
            ),
            forall|p: Seq<char>|
                #![trigger has_player(market.players@, p)]
                p != address@ ==> has_player(market.players@, p) == has_player(m0.players@, p),
            forall|p: Seq<char>|
                #![trigger player_of(market.players@, p)]
                p != address@ && has_player(m0.players@, p) ==> player_of(market.players@, p)
                    == player_of(m0.players@, p),
            match stats_after(m0, address@, processed@.take(k as int)) {
                Some(st) => st.game_won <= base_st.game_won + k && st.game_over <= base_st.game_over
                    + k && st.game_rewards as int <= base_st.game_rewards + rounds_total(
                    m0.predictions@,
                    processed@.take(k as int),
                ),
                None => market.players == m0.players,
            },
        decreases n - k,
    {
        let rn = processed[k];
        let prize = prizes[k];
        proof {
            assert(processed@.take(k as int + 1).drop_last() =~= processed@.take(k as int));
            assert(processed@.take(k as int + 1).last() == rn);
            assert(!processed@.take(k as int).contains(rn));
            lemma_rounds_total_le_bank(m0.predictions@, processed@.take(k as int + 1));
        }
        let gidx_opt = find_game_index(&market.games, address, rn);
        let gidx = match gidx_opt {
            Some(g) => g,
            None => {
                proof {
                    assert(false);
                }
                return Err(ContractError::NotFound {});
            },
        };
        let ghost games_pre = market.games@;
        proof {
            lemma_game_at(games_pre, gidx as int, address@, rn);
        }
        let old_game = market.games[gidx].game;
        let player_key = market.games[gidx].player.clone();
        let new_entry = GameEntry {
            player: player_key,
            round: rn,
            game: Game { up: old_game.up, down: old_game.down, prize, resolved: true },
        };
        proof {
            lemma_game_update(games_pre, gidx as int, new_entry);
            assert forall|q: u64| #[trigger] up_sum(
                games_pre.update(gidx as int, new_entry),
                q,
            ) == up_sum(games_pre, q) by {
                lemma_sum_update(games_pre, gidx as int, new_entry, q);
            }
            assert forall|q: u64| #[trigger] down_sum(
                games_pre.update(gidx as int, new_entry),
                q,
            ) == down_sum(games_pre, q) by {
                lemma_sum_update(games_pre, gidx as int, new_entry, q);
            }
        }
        market.games.set(gidx, new_entry);
        proof {
            assert forall|q: u64|
                processed@.take(k as int).contains(q) implies processed@.take(
                k as int + 1,
            ).contains(q) by {
                let j = choose|j: int|
                    0 <= j < processed@.take(k as int).len() && processed@.take(k as int)[j] == q;
                assert(processed@.take(k as int + 1)[j] == q);
            }
            assert forall|p: Seq<char>, q: u64|
                #![trigger has_game(market.games@, p, q)]
                !(p == address@ && processed@.take(k as int + 1).contains(q)) implies has_game(
                market.games@,
                p,
                q,
            ) == has_game(m0.games@, p, q) by {
                assert(!(p == address@ && processed@.take(k as int).contains(q)));
                assert(!(p == new_entry.player@ && q == new_entry.round));
                assert(has_game(games_pre, p, q) == has_game(m0.games@, p, q));
            }
            assert forall|p: Seq<char>, q: u64|
                #![trigger game_of(market.games@, p, q)]
                !(p == address@ && processed@.take(k as int + 1).contains(q)) && has_game(
                m0.games@,
                p,
                q,
            ) implies game_of(market.games@, p, q) == game_of(m0.games@, p, q) by {
                assert(!(p == address@ && processed@.take(k as int).contains(q)));
                assert(!(p == new_entry.player@ && q == new_entry.round));
                assert(has_game(games_pre, p, q) == has_game(m0.games@, p, q));
                assert(game_of(games_pre, p, q) == game_of(m0.games@, p, q));
            }
            assert forall|j: int|
                0 <= j < k + 1 implies has_game(market.games@, address@, #[trigger] processed@[j])
                    && game_of(market.games@, address@, processed@[j]) == (Game {
                    resolved: true,
                    prize: prizes@[j],
                    ..game_of(m0.games@, address@, processed@[j])
                }) by {
                if j < k {
                    assert(processed@[j] != rn);
                    assert(!(address@ == new_entry.player@ && processed@[j] == new_entry.round));
                }
            }
        }

        let np = market.predictions.len();
        proof {
            assert((rn as int) < (np as int));
        }
        let pred = market.predictions[rn as usize];
        proof {
            // the wager as the untouched market holds it
            assert(game_of(m0.games@, address@, rn) == old_game);
            let j0 = choose|j0: int|
                0 <= j0 < m0.games@.len() && game_key_is(#[trigger] m0.games@[j0], address@, rn);
            lemma_part_le_sum(m0.games@, j0, rn);
            lemma_sum_nonneg(m0.games@, rn);
            lemma_bank_bounds(m0.predictions@, rn as int);
        }
        proof {
            lemma_rounds_total_le_bank(m0.predictions@, processed@.take(k as int));
        }
        let ghost players_pre = market.players@;
        if pred.success {
            let won = match pred.is_up {
                Some(true) => old_game.up > 0,
                Some(false) => old_game.down > 0,
                None => false,
            };
            let stake = old_game.up + old_game.down;
            if won {
                if prize > stake {
                    update_player(&mut market.players, address, prize - stake, true, Some(true));
                } else {
                    update_player(&mut market.players, address, 0, true, None);
                }
            } else {
                update_player(&mut market.players, address, stake, false, Some(false));
            }
            proof {
                assert(stats_of(market.players@, address@) == stats_after(
                    m0,
                    address@,
                    processed@.take(k as int + 1),
                ));
                lemma_players_frame(m0.players@, players_pre, market.players@, address@);
            }
        } else {
            proof {
                assert(stats_after(m0, address@, processed@.take(k as int + 1)) == stats_after(
                    m0,
                    address@,
                    processed@.take(k as int),
                ));
            }
        }
        k = k + 1;
    }
    proof {
        assert(processed@.take(n as int) =~= processed@);
        assert forall|q: u64|
            #[trigger] rounds@.contains(q) implies has_game(market.games@, address@, q) && game_of(
            market.games@,
            address@,
            q,
        ) == (Game {
            resolved: true,
            prize: round_prize_spec(
                m0.predictions@[q as int],
                game_of(m0.games@, address@, q),
            ) as u128,
            ..game_of(m0.games@, address@, q)
        }) by {
            let j = choose|j: int| 0 <= j < processed@.len() && processed@[j] == q;
            assert(has_game(market.games@, address@, processed@[j]));
        }
    }

    let net_prize: u128 = if prize_amount > 0 {
        proof {
            vstd::arithmetic::mul::lemma_mul_is_commutative(
                prize_amount as int,
                fee_num as int,
            );
            lemma_ratio_le_total(fee_num as int, prize_amount as int, RATE_SCALE as int);
        }
        match mul_ratio(prize_amount, fee_num, RATE_SCALE) {
            Some(v) => v,
            None => {
                proof {
                    assert(false);
                }
                0
            },
        }
    } else {
        proof {
            assert(ratio_floor(0, fee_num as int, RATE_SCALE as int) == 0);
        }
        0
    };
    let collector_fee = prize_amount - net_prize;
    let final_amount = net_prize + refund_amount;
    let mut transfers: Vec<TransferMsg> = Vec::new();
    if final_amount > 0 {
        transfers.push(TransferMsg { to_address: address.clone(), amount: final_amount });
    }
    if collector_fee > 0 {
        let collector = market.config.collector_address.clone();
        transfers.push(TransferMsg { to_address: collector, amount: collector_fee });
    }
    Ok(
        GameReceipt {
            recipient: address.clone(),
            prize_amount,
            refund_amount,
            net_prize,
            collector_fee,
            transfers,
        },
    )
}

/// Default page size of the paginated queries.
pub const DEFAULT_LIMIT: u32 = 10;

/// Largest page size the paginated queries serve.
pub const MAX_LIMIT: u32 = 30;

/// The page size a query's `limit` argument selects.
pub open spec fn page_limit(limit: Option<u32>) -> int {
    let l = match limit {
        Some(v) => v,
        None => DEFAULT_LIMIT,
    };
    if l > MAX_LIMIT {
        MAX_LIMIT as int
    } else {
        l as int
    }
}

/// Round records from `start` on, ascending by id, at most `lim` of them.
pub open spec fn predictions_page(preds: Seq<Prediction>, start: int, lim: int) -> Seq<
    (u64, Prediction),
> {
    let avail = preds.len() - start;
    let count = if avail < 0 {
        0
    } else if lim < avail {
        lim
    } else {
        avail
    };
    Seq::new(count as nat, |j: int| ((start + j) as u64, preds[start + j]))
}

/// One player's wagers from round `from` downwards, descending by round
/// id, at most `lim` of them.
pub open spec fn games_desc(s: Seq<GameEntry>, addr: Seq<char>, from: int, lim: int) -> Seq<
    (u64, Game),
>
    decreases (if from < 0 { 0int } else { from + 1 }),
{
    if from < 0 || lim <= 0 {
        Seq::empty()
    } else if has_game(s, addr, from as u64) {
        seq![(from as u64, game_of(s, addr, from as u64))] + games_desc(s, addr, from - 1, lim - 1)
    } else {
        games_desc(s, addr, from - 1, lim)
    }
}

/// A round record as the queries report it.
pub open spec fn prediction_info_of(p: Prediction) -> PredictionInfo {
    PredictionInfo {
        up: p.up,
        down: p.down,
        locked_price: p.locked_price,
        resolved_price: p.resolved_price,
        closing_time: p.closing_time,
        expire_time: p.expire_time,
        success: p.success,
        is_up: p.is_up,
    }
}

/// The current round id.
pub fn query_state(market: &Market) -> (r: StateResponse)
    ensures
        r == (StateResponse { round: market.state.round }),
{
    StateResponse { round: market.state.round }
}

/// The deployment configuration.
pub fn query_config(market: &Market) -> (r: ConfigResponse)
    ensures
        r.pool_address@ == market.config.pool_address@,
        r.round_time == market.config.round_time,
        r.limit_time == market.config.limit_time,
        r.denom@ == market.config.denom@,
{
    ConfigResponse {
        pool_address: market.config.pool_address.clone(),
        round_time: market.config.round_time,
        limit_time: market.config.limit_time,
        denom: market.config.denom.clone(),
    }
}

/// One player's wager on one round; a missing record is reported, never
/// invented.
pub fn query_game(market: &Market, address: &String, round: u64) -> (r: Result<
    Game,
    ContractError,
>)
    requires
        market.wf(),
    ensures
        r == (if has_game(market.games@, address@, round) {
            Ok::<Game, ContractError>(game_of(market.games@, address@, round))
        } else {
            Err::<Game, ContractError>(ContractError::NotFound {})
        }),
{
    match find_game_index(&market.games, address, round) {
        Some(i) => {
            proof {
                lemma_game_at(market.games@, i as int, address@, round);
            }
            Ok(market.games[i].game)
        },
        None => Err(ContractError::NotFound {}),
    }
}

/// One round record.
pub fn query_prediction(market: &Market, round: u64) -> (r: Result<PredictionInfo, ContractError>)
    requires
        market.wf(),
    ensures
        r == (if round < market.predictions@.len() {
            Ok::<PredictionInfo, ContractError>(
                prediction_info_of(market.predictions@[round as int]),
            )
        } else {
            Err::<PredictionInfo, ContractError>(ContractError::NotFound {})
        }),
{
    let n = market.predictions.len();
    if round < n as u64 {
        let p = market.predictions[round as usize];
        Ok(
            PredictionInfo {
                up: p.up,
                down: p.down,
                locked_price: p.locked_price,
                resolved_price: p.resolved_price,
                closing_time: p.closing_time,
                expire_time: p.expire_time,
                success: p.success,
                is_up: p.is_up,
            },
        )
    } else {
        Err(ContractError::NotFound {})
    }
}

/// Round records ascending by id, starting after `start_after`, at most
/// `limit` (defaulting and capped) of them.
pub fn query_predictions(
    market: &Market,
    start_after: Option<u64>,
    limit: Option<u32>,
) -> (r: Vec<(u64, Prediction)>)
    requires
        market.wf(),
    ensures
        r@ == predictions_page(
            market.predictions@,
            match start_after {
                None => 0int,
                Some(s) => s as int + 1,
            },
            page_limit(limit),
        ),
{
    let lim: usize = match limit {
        Some(v) => if v > MAX_LIMIT {
            MAX_LIMIT as usize
        } else {
            v as usize
        },
        None => DEFAULT_LIMIT as usize,
    };
    let n = market.predictions.len();
    let ghost start_spec: int = match start_after {
        None => 0int,
        Some(s) => s as int + 1,
    };
    let mut out: Vec<(u64, Prediction)> = Vec::new();
    let start: usize = match start_after {
        None => 0,
        Some(s) => {
            if s >= n as u64 {
                proof {
                    assert(out@ =~= predictions_page(
                        market.predictions@,
                        start_spec,
                        page_limit(limit),
                    ));
                }
                return out;
            }
            (s + 1) as usize
        },
    };
    let mut idx: usize = start;
    while idx < n && out.len() < lim
        invariant
            market.wf(),
            n == market.predictions@.len(),
            start <= idx <= n,
            start == start_spec,
            lim == page_limit(limit),
            out@.len() == idx - start,
            out@.len() <= lim,
            forall|t: int|
                0 <= t < out@.len() ==> #[trigger] out@[t] == (
                    (start + t) as u64,
                    market.predictions@[start + t],
                ),
        decreases n - idx,
    {
        let p = market.predictions[idx];
        out.push((idx as u64, p));
        idx = idx + 1;
    }
    proof {
        assert(out@ =~= predictions_page(market.predictions@, start_spec, page_limit(limit)));
    }
    out
}

/// One player's aggregate statistics; a missing record is reported.
pub fn query_player(market: &Market, address: &String) -> (r: Result<Player, ContractError>)
    requires
        market.wf(),
    ensures
        r == (match stats_of(market.players@, address@) {
            Some(st) => Ok::<Player, ContractError>(st),
            None => Err::<Player, ContractError>(ContractError::NotFound {}),
        }),
{
    match find_player_index(&market.players, address) {
        Some(i) => {
            proof {
                crate::records::lemma_player_at(market.players@, i as int, address@);
            }
            Ok(market.players[i].stats)
        },
        None => Err(ContractError::NotFound {}),
    }
}

/// One player's wager history, descending by round id, starting below
/// `start_after` (from the current round when absent), at most `limit`
/// (defaulting and capped) records.
pub fn query_games(
    market: &Market,
    address: &String,
    start_after: Option<u64>,
    limit: Option<u32>,
) -> (r: Vec<(u64, Game)>)
    requires
        market.wf(),
    ensures
        r@ == games_desc(
            market.games@,
            address@,
            match start_after {
                None => market.state.round as int,
                Some(s) => s as int - 1,
            },
            page_limit(limit),
        ),
{
    let lim: usize = match limit {
        Some(v) => if v > MAX_LIMIT {
            MAX_LIMIT as usize
        } else {
            v as usize
        },
        None => DEFAULT_LIMIT as usize,
    };
    let ghost from_spec: int = match start_after {
        None => market.state.round as int,
        Some(s) => s as int - 1,
    };
    let mut out: Vec<(u64, Game)> = Vec::new();
    let n_rounds = market.predictions.len();
    proof {
        assert(n_rounds as int == market.state.round as int + 1);
    }
    let s0: u64 = match start_after {
        None => market.state.round,
        Some(s) => {
            if s == 0 {
                proof {
                    assert(out@ =~= games_desc(market.games@, address@, from_spec, lim as int));
                }
                return out;
            }
            s - 1
        },
    };
    if lim == 0 {
        proof {
            assert(out@ =~= games_desc(market.games@, address@, from_spec, lim as int));
        }
        return out;
    }
    let mut offset: u64 = 0;
    while offset <= s0 && out.len() < lim
        invariant
            market.wf(),
            s0 < u64::MAX,
            0 <= offset <= s0 + 1,
            s0 == from_spec,
            out@.len() <= lim,
            games_desc(market.games@, address@, from_spec, lim as int) == out@ + games_desc(
                market.games@,
                address@,
                s0 - offset,
                lim - out@.len(),
            ),
        decreases s0 + 1 - offset,
    {
        let rcur = s0 - offset;
        let ghost out_pre = out@;
        match find_game_index(&market.games, address, rcur) {
            Some(gi) => {
                proof {
                    lemma_game_at(market.games@, gi as int, address@, rcur);
                }
                let g = market.games[gi].game;
                out.push((rcur, g));
                proof {
                    assert(games_desc(market.games@, address@, rcur as int, lim - out_pre.len())
                        =~= seq![(rcur, g)] + games_desc(
                        market.games@,
                        address@,
                        rcur - 1,
                        lim - out@.len(),
                    ));
                    assert(out_pre + (seq![(rcur, g)] + games_desc(
                        market.games@,
                        address@,
                        rcur - 1,
                        lim - out@.len(),
                    )) =~= out@ + games_desc(
                        market.games@,
                        address@,
                        rcur - 1,
                        lim - out@.len(),
                    ));
                }
            },
            None => {
                proof {
                    assert(games_desc(market.games@, address@, rcur as int, lim - out@.len())
                        == games_desc(market.games@, address@, rcur - 1, lim - out@.len()));
                }
            },
        }
        offset = offset + 1;
    }
    proof {
        assert(games_desc(market.games@, address@, s0 - offset, lim - out@.len())
            =~= Seq::<(u64, Game)>::empty());
        assert(out@ + Seq::<(u64, Game)>::empty() =~= out@);
    }
    out
}

/// Per-command preconditions of the dispatcher: what each operation needs
/// so that no arithmetic can leave the machine's integer range.
pub open spec fn execute_requires(m: Market, now: u64, funds: Seq<Coin>, msg: ExecuteMsg) -> bool {
    match msg {
        ExecuteMsg::MakePrediction { up } => funds_error(m.config.denom@, funds) is None
            ==> stake_fits(m, funds[0].amount),
        ExecuteMsg::ResolveGame { address, round } => stats_fits(m, address@, round@.len() as int),
        ExecuteMsg::ResolvePrediction {  } => now + m.config.round_time + m.config.round_time
            + m.config.limit_time <= u64::MAX,
    }
}

/// Dispatches a state-mutating command to the operation it names; each
/// branch behaves exactly as the operation's own contract promises.
pub fn execute(
    market: &mut Market,
    now: u64,
    sender: &String,
    funds: &Vec<Coin>,
    oracle: &OracleInput,
    msg: ExecuteMsg,
) -> (r: Result<ExecuteAnswer, ContractError>)
    requires
        old(market).wf(),
        execute_requires(*old(market), now, funds@, msg),
    ensures
        final(market).wf(),
        match msg {
            ExecuteMsg::MakePrediction { up } => match r {
                Ok(ExecuteAnswer::Prediction(rec)) => stake_post(
                    *old(market),
                    *final(market),
                    sender@,
                    funds@,
                    up,
                    Ok(rec),
                ),
                Err(e) => stake_post(*old(market), *final(market), sender@, funds@, up, Err(e)),
                _ => false,
            },
            ExecuteMsg::ResolveGame { address, round } => match r {
                Ok(ExecuteAnswer::Game(rec)) => claim_post(
                    *old(market),
                    *final(market),
                    now,
                    address@,
                    round@,
                    Ok(rec),
                ),
                Err(e) => claim_post(*old(market), *final(market), now, address@, round@, Err(e)),
                _ => false,
            },
            ExecuteMsg::ResolvePrediction {  } => match r {
                Ok(ExecuteAnswer::Settle(rec)) => settle_post(
                    *old(market),
                    *final(market),
                    now,
                    *oracle,
                    Ok(rec),
                ),
                Err(e) => settle_post(*old(market), *final(market), now, *oracle, Err(e)),
                _ => false,
            },
        },
{
    match msg {
        ExecuteMsg::MakePrediction { up } => match try_make_prediction(market, sender, funds, up) {
            Ok(rec) => Ok(ExecuteAnswer::Prediction(rec)),
            Err(e) => Err(e),
        },
        ExecuteMsg::ResolveGame { address, round } => match try_resolve_game(
            market,
            now,
            &address,
            &round,
        ) {
            Ok(rec) => Ok(ExecuteAnswer::Game(rec)),
            Err(e) => Err(e),
        },
        ExecuteMsg::ResolvePrediction {  } => match try_resolve_prediction(market, now, oracle) {
            Ok(rec) => Ok(ExecuteAnswer::Settle(rec)),
            Err(e) => Err(e),
        },
    }
}

/// Dispatches a read-only query to the accessor it names.
pub fn query(market: &Market, msg: QueryMsg) -> (r: Result<QueryAnswer, ContractError>)
    requires
        market.wf(),
    ensures
        match msg {
            QueryMsg::State {  } => r matches Ok(a) && a matches QueryAnswer::State(st) && st == (
            StateResponse { round: market.state.round }),
            QueryMsg::Config {  } => r matches Ok(a) && a matches QueryAnswer::Config(c)
                && c.pool_address@ == market.config.pool_address@ && c.round_time
                == market.config.round_time && c.limit_time == market.config.limit_time && c.denom@
                == market.config.denom@,
            QueryMsg::Game { address, round } => if has_game(market.games@, address@, round) {
                r matches Ok(a) && a matches QueryAnswer::Game(g) && g == game_of(
                    market.games@,
                    address@,
                    round,
                )
            } else {
                r == Err::<QueryAnswer, ContractError>(ContractError::NotFound {})
            },
            QueryMsg::Prediction { round } => if round < market.predictions@.len() {
                r matches Ok(a) && a matches QueryAnswer::Prediction(info) && info
                    == prediction_info_of(market.predictions@[round as int])
            } else {
                r == Err::<QueryAnswer, ContractError>(ContractError::NotFound {})
            },
            QueryMsg::Predictions { start_after, limit } => r matches Ok(a) && a matches
                QueryAnswer::Predictions(v) && v@ == predictions_page(
                market.predictions@,
                match start_after {
                    None => 0int,
                    Some(s) => s as int + 1,
                },
                page_limit(limit),
            ),
            QueryMsg::Player { address } => match stats_of(market.players@, address@) {
                Some(st) => r matches Ok(a) && a matches QueryAnswer::Player(pl) && pl == st,
                None => r == Err::<QueryAnswer, ContractError>(ContractError::NotFound {}),
            },
            QueryMsg::Games { address, start_after, limit } => r matches Ok(a) && a matches
                QueryAnswer::Games(v) && v@ == games_desc(
                market.games@,
                address@,
                match start_after {
                    None => market.state.round as int,
                    Some(s) => s as int - 1,
                },
                page_limit(limit),
            ),
        },
{
    match msg {
        QueryMsg::State {  } => Ok(QueryAnswer::State(query_state(market))),
        QueryMsg::Config {  } => Ok(QueryAnswer::Config(query_config(market))),
        QueryMsg::Game { address, round } => match query_game(market, &address, round) {
            Ok(g) => Ok(QueryAnswer::Game(g)),
            Err(e) => Err(e),
        },
        QueryMsg::Prediction { round } => match query_prediction(market, round) {
            Ok(info) => Ok(QueryAnswer::Prediction(info)),
            Err(e) => Err(e),
        },
        QueryMsg::Predictions { start_after, limit } => Ok(
            QueryAnswer::Predictions(query_predictions(market, start_after, limit)),
        ),
        QueryMsg::Player { address } => match query_player(market, &address) {
            Ok(st) => Ok(QueryAnswer::Player(st)),
            Err(e) => Err(e),
        },
        QueryMsg::Games { address, start_after, limit } => Ok(
            QueryAnswer::Games(query_games(market, &address, start_after, limit)),
        ),
    }
}

} // verus!

//! The market's global guarantees, stated and proved once over the
//! operation contracts: pool and payout conservation, round monotonicity,
//! settlement gating, refund conservation and claim idempotence.

use vstd::prelude::*;

use crate::arith::{lemma_div_add_bounds, ratio_floor};
use crate::claims::{claim_scan, round_claim_error, round_prize_spec, round_total};
use crate::contract::{claim_post, settle_post, stake_post};
use crate::error::ContractError;
use crate::msg::{Coin, GameReceipt, OracleInput, PredictionReceipt, SettleReceipt};
use crate::state::{
    down_sum, game_of, has_game, up_sum, Game, GameEntry, Market, Prediction, RATE_SCALE,
};
use crate::sums::lemma_sum_nonneg;
use vstd::arithmetic::div_mod::{lemma_div_multiples_vanish, lemma_div_pos_is_pos};
use vstd::arithmetic::mul::{
    lemma_mul_is_commutative, lemma_mul_is_distributive_add, lemma_mul_nonnegative,
};

verus! {

/// Pool conservation: at any time, each round's `up` and `down` pools equal
/// the sums of every stake recorded against that round in the wager book,
/// side by side — so the combined pool is exactly the sum of every stake
/// ever taken for the round.
pub proof fn lemma_pool_conservation(m: Market, r: u64)
    requires
        m.wf(),
        r < m.predictions@.len(),
    ensures
        m.predictions@[r as int].up as int == up_sum(m.games@, r),
        m.predictions@[r as int].down as int == down_sum(m.games@, r),
        round_total(m.predictions@[r as int]) == up_sum(m.games@, r) + down_sum(m.games@, r),
{
}

/// Pool conservation, step form: one accepted stake moves exactly its
/// amount into the staked side of the current round's pool and leaves every
/// other round untouched.
pub proof fn lemma_stake_pool_delta(
    pre: Market,
    post: Market,
    sender: Seq<char>,
    funds: Seq<Coin>,
    up: bool,
    rec: PredictionReceipt,
)
    requires
        pre.wf(),
        crate::contract::stake_fits(pre, funds[0].amount),
        stake_post(pre, post, sender, funds, up, Ok(rec)),
    ensures
        round_total(post.predictions@[pre.state.round as int]) == round_total(
            pre.predictions@[pre.state.round as int],
        ) + funds[0].amount,
        forall|i: int|
            0 <= i < pre.predictions@.len() && i != pre.state.round ==> post.predictions@[i]
                == pre.predictions@[i],
{
    crate::sums::lemma_bank_bounds(pre.predictions@, pre.state.round as int);
    assert forall|i: int|
        0 <= i < pre.predictions@.len() && i != pre.state.round implies post.predictions@[i]
        == pre.predictions@[i] by {
        assert(post.predictions@[i] == pre.predictions@.update(
            pre.state.round as int,
            crate::contract::pool_add(pre.current(), up, funds[0].amount),
        )[i]);
    }
}

/// Round monotonicity: round ids are the ledger's indices, starting at 0;
/// a successful settlement advances the current round id by exactly one and
/// appends exactly one record, and a failed one changes nothing — so no id
/// is ever skipped or repeated.
pub proof fn lemma_round_monotonicity(
    pre: Market,
    post: Market,
    now: u64,
    oracle: OracleInput,
    r: Result<SettleReceipt, ContractError>,
)
    requires
        pre.wf(),
        post.wf(),
        settle_post(pre, post, now, oracle, r),
    ensures
        r is Ok ==> post.state.round == pre.state.round + 1 && post.predictions@.len()
            == pre.predictions@.len() + 1,
        r is Err ==> post == pre,
        post.predictions@.len() == post.state.round as int + 1,
{
    if r is Ok {
        assert(now >= pre.current().closing_time);
        assert(crate::oracle::fetch_price_spec(oracle, now) is Ok);
    } else {
        if now >= pre.current().closing_time {
            if crate::oracle::fetch_price_spec(oracle, now) is Ok {
                assert(false);
            }
        }
    }
}

/// Gating: a settlement attempt before the current round's closing time
/// always fails with the in-progress error and changes no state.
pub proof fn lemma_settle_gating(
    pre: Market,
    post: Market,
    now: u64,
    oracle: OracleInput,
    r: Result<SettleReceipt, ContractError>,
)
    requires
        settle_post(pre, post, now, oracle, r),
        now < pre.current().closing_time,
    ensures
        r == Err::<SettleReceipt, ContractError>(ContractError::PredictionStillInProgress {}),
        post == pre,
{
}

/// What the wagers of one round sum to when each is paid the round's prize:
/// the pari-mutuel payouts of a decided round, or the refunds of a voided
/// one.
pub open spec fn prizes_sum(s: Seq<GameEntry>, p: Prediction, r: u64) -> int
    decreases s.len(),
{
    if s.len() == 0 {
        0
    } else {
        prizes_sum(s.drop_last(), p, r) + if s.last().round == r {
            round_prize_spec(p, s.last().game)
        } else {
            0
        }
    }
}

/// How many wagers a round has.
pub open spec fn round_count(s: Seq<GameEntry>, r: u64) -> int
    decreases s.len(),
{
    if s.len() == 0 {
        0
    } else {
        round_count(s.drop_last(), r) + if s.last().round == r {
            1int
        } else {
            0int
        }
    }
}

/// A wager with nothing on the winning side of a decided round is paid
/// exactly zero.
pub proof fn lemma_loser_gets_nothing(p: Prediction, g: Game)
    requires
        p.success,
        (match p.is_up {
            Some(true) => g.up == 0,
            Some(false) => g.down == 0,
            None => true,
        }),
    ensures
        round_prize_spec(p, g) == 0,
{
}

/// On a decided round, every wager's prize is the uniform ratio formula
/// `(winning_stake * total) / win_pool` — zero stakes included.
proof fn lemma_prize_is_ratio(p: Prediction, g: Game)
    requires
        p.success,
        p.is_up is Some,
        p.up > 0,
        p.down > 0,
    ensures
        round_prize_spec(p, g) == ratio_floor(
            (if p.is_up == Some(true) {
                g.up
            } else {
                g.down
            }) as int,
            round_total(p),
            (if p.is_up == Some(true) {
                p.up
            } else {
                p.down
            }) as int,
        ),
{
    let stake = if p.is_up == Some(true) {
        g.up
    } else {
        g.down
    };
    let w: int = if p.is_up == Some(true) {
        p.up as int
    } else {
        p.down as int
    };
    if stake == 0 {
        assert(0int * round_total(p) == 0) by {
            lemma_mul_is_commutative(0int, round_total(p));
        }
        assert(0int / w == 0) by {
            lemma_div_pos_is_pos(0int, w);
            vstd::arithmetic::div_mod::lemma_div_nonincreasing(0int, w);
        }
        assert(ratio_floor(0, round_total(p), w) == 0);
    }
}

/// The partial-sum bound behind pari-mutuel conservation: over any prefix
/// of the wager book, the prizes of a decided round stay within one unit
/// per wager of the exact pro-rata share of the stakes counted so far.
proof fn lemma_prizes_sum_bounds(s: Seq<GameEntry>, p: Prediction, r: u64)
    requires
        p.success,
        p.is_up is Some,
        p.up > 0,
        p.down > 0,
    ensures
        ({
            let w: int = if p.is_up == Some(true) {
                p.up as int
            } else {
                p.down as int
            };
            let staked: int = if p.is_up == Some(true) {
                up_sum(s, r)
            } else {
                down_sum(s, r)
            };
            (staked * round_total(p)) / w - round_count(s, r) <= prizes_sum(s, p, r) <= (staked
                * round_total(p)) / w
        }),
    decreases s.len(),
{
    let t = round_total(p);
    let w: int = if p.is_up == Some(true) {
        p.up as int
    } else {
        p.down as int
    };
    lemma_sum_nonneg(s, r);
    if s.len() == 0 {
        assert((0int * t) / w == 0) by {
            lemma_div_pos_is_pos(0int * t, w);
            vstd::arithmetic::div_mod::lemma_div_is_ordered(0int * t, 0, w);
        }
    } else {
        let rest = s.drop_last();
        let staked_rest: int = if p.is_up == Some(true) {
            up_sum(rest, r)
        } else {
            down_sum(rest, r)
        };
        let staked: int = if p.is_up == Some(true) {
            up_sum(s, r)
        } else {
            down_sum(s, r)
        };
        lemma_prizes_sum_bounds(rest, p, r);
        lemma_sum_nonneg(rest, r);
        if s.last().round == r {
            let stake: int = if p.is_up == Some(true) {
                s.last().game.up as int
            } else {
                s.last().game.down as int
            };
            lemma_prize_is_ratio(p, s.last().game);
            assert(staked == staked_rest + stake);
            lemma_mul_nonnegative(staked_rest, t);
            lemma_mul_nonnegative(stake, t);
            lemma_div_add_bounds(staked_rest * t, stake * t, w);
            assert(staked * t == staked_rest * t + stake * t) by {
                lemma_mul_is_commutative(staked, t);
                lemma_mul_is_commutative(staked_rest, t);
                lemma_mul_is_commutative(stake, t);
                lemma_mul_is_distributive_add(t, staked_rest, stake);
            }
        } else {
            assert(staked == staked_rest);
            assert(round_count(s, r) == round_count(rest, r));
            assert(prizes_sum(s, p, r) == prizes_sum(rest, p, r));
        }
    }
}

/// Pari-mutuel conservation: on a decided round whose pools reconcile with
/// the wager book (the market invariant), paying every wager its prize
/// distributes the whole combined pool, short of at most one unit per
/// wager lost to integer rounding; wagers with nothing on the winning side
/// get exactly zero, so the winners alone receive that total.
pub proof fn lemma_parimutuel_conservation(m: Market, r: u64)
    requires
        m.wf(),
        r < m.predictions@.len(),
        m.predictions@[r as int].success,
    ensures
        ({
            let p = m.predictions@[r as int];
            round_total(p) - round_count(m.games@, r) <= prizes_sum(m.games@, p, r) <= round_total(
                p,
            )
        }),
{
    let p = m.predictions@[r as int];
    let t = round_total(p);
    let w: int = if p.is_up == Some(true) {
        p.up as int
    } else {
        p.down as int
    };
    lemma_prizes_sum_bounds(m.games@, p, r);
    assert((w * t) / w == t) by {
        lemma_div_multiples_vanish(t, w);
        lemma_mul_is_commutative(w, t);
    }
}

/// Refund conservation: on a voided round whose pools reconcile with the
/// wager book, the refunds owed to all wagers together equal the combined
/// pool exactly — nothing is lost and nothing is created.
pub proof fn lemma_refund_conservation(m: Market, r: u64)
    requires
        m.wf(),
        r < m.predictions@.len(),
        !m.predictions@[r as int].success,
    ensures
        prizes_sum(m.games@, m.predictions@[r as int], r) == round_total(m.predictions@[r as int]),
{
    let p = m.predictions@[r as int];
    lemma_refunds_are_stakes(m.games@, p, r);
}

/// On a voided round, summed refunds are exactly the summed stakes.
proof fn lemma_refunds_are_stakes(s: Seq<GameEntry>, p: Prediction, r: u64)
    requires
        !p.success,
    ensures
        prizes_sum(s, p, r) == up_sum(s, r) + down_sum(s, r),
    decreases s.len(),
{
    if s.len() > 0 {
        lemma_refunds_are_stakes(s.drop_last(), p, r);
    }
}

/// No fee from refunds: a claim whose batch holds only voided rounds
/// collects no winnings and therefore no protocol fee — the player is paid
/// the refunds in full.
pub proof fn lemma_void_claim_no_fee(
    pre: Market,
    post: Market,
    now: u64,
    player: Seq<char>,
    rounds: Seq<u64>,
    rec: GameReceipt,
)
    requires
        pre.wf(),
        claim_post(pre, post, now, player, rounds, Ok(rec)),
        forall|k: int|
            0 <= k < rounds.len() ==> !pre.predictions@[(#[trigger] rounds[k]) as int].success,
    ensures
        rec.prize_amount == 0,
        rec.collector_fee == 0,
        rec.net_prize == 0,
{
    lemma_void_scan(pre, now, player, rounds);
    assert(ratio_floor(0, RATE_SCALE - pre.config.collector_fee, RATE_SCALE as int) == 0) by {
        assert(0int * (RATE_SCALE - pre.config.collector_fee) == 0);
    }
}

/// A scan over voided rounds accumulates no winnings.
proof fn lemma_void_scan(m: Market, now: u64, player: Seq<char>, rounds: Seq<u64>)
    requires
        forall|k: int|
            0 <= k < rounds.len() ==> rounds[k] < m.predictions@.len() ==> !m.predictions@[(
            #[trigger] rounds[k]) as int].success,
    ensures
        claim_scan(m, now, player, rounds) matches Ok(totals) ==> totals.0 == 0,
    decreases rounds.len(),
{
    if rounds.len() > 0 {
        lemma_void_scan(m, now, player, rounds.drop_last());
    }
}

/// Claim idempotence: once a claim for a (player, round) pair has gone
/// through, a second claim of the same pair at any later time fails with
/// the already-claimed error and changes nothing.
pub proof fn lemma_claim_idempotence(
    m0: Market,
    m1: Market,
    m2: Market,
    now1: u64,
    now2: u64,
    player: Seq<char>,
    round: u64,
    rec: GameReceipt,
    r2: Result<GameReceipt, ContractError>,
)
    requires
        m0.wf(),
        m1.wf(),
        now1 <= now2,
        claim_post(m0, m1, now1, player, seq![round], Ok(rec)),
        claim_post(m1, m2, now2, player, seq![round], r2),
    ensures
        r2 == Err::<GameReceipt, ContractError>(ContractError::AlreadyResolved {}),
        m2 == m1,
{
    let one = seq![round];
    assert(one.drop_last() =~= Seq::<u64>::empty());
    assert(one.last() == round);
    assert(one.contains(round)) by {
        assert(one[0] == round);
    }
    // the first claim went through, so the round was valid and expired
    assert(claim_scan(m0, now1, player, one) is Ok);
    assert(round_claim_error(m0, now1, player, round, false) is None);
    // and it left the wager marked claimed
    assert(has_game(m1.games@, player, round));
    assert(game_of(m1.games@, player, round).resolved);
    // so the second scan rejects the round as already claimed
    assert(m1.predictions == m0.predictions);
    assert(round_claim_error(m1, now2, player, round, false) == Some(
        ContractError::AlreadyResolved {},
    ));
    assert(!one.drop_last().contains(round));
    assert(claim_scan(m1, now2, player, one.drop_last()) == Ok::<(int, int), ContractError>(
        (0, 0),
    ));
    assert(claim_scan(m1, now2, player, one) == Err::<(int, int), ContractError>(
        ContractError::AlreadyResolved {},
    ));
    match r2 {
        Ok(_) => {
            assert(false);
        },
        Err(e) => {
        },
    }
}

/// A round's reference price is fixed at its creation: neither staking nor
/// any later settlement rewrites the locked price of an existing round, and
/// a settlement only writes the outcome of the one round it finalizes.
pub proof fn lemma_locked_price_immutable(
    pre: Market,
    post: Market,
    now: u64,
    oracle: OracleInput,
    r: Result<SettleReceipt, ContractError>,
)
    requires
        pre.wf(),
        settle_post(pre, post, now, oracle, r),
    ensures
        forall|i: int|
            0 <= i < pre.predictions@.len() ==> (#[trigger] post.predictions@[i]).locked_price
                == pre.predictions@[i].locked_price,
{
    if now >= pre.current().closing_time && crate::oracle::fetch_price_spec(oracle, now) is Ok {
        assert forall|i: int|
            0 <= i < pre.predictions@.len() implies (#[trigger] post.predictions@[i]).locked_price
            == pre.predictions@[i].locked_price by {
            if i == pre.state.round as int - 1 {
                assert(post.predictions@[i] == crate::contract::settled_prediction(
                    pre.predictions@[i],
                    now,
                    crate::oracle::fetch_price_spec(oracle, now)->Ok_0,
                ));
            }
        }
    }
}

} // verus!

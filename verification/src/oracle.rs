//! Reference-price resolution: three interchangeable strategies that turn
//! raw price-source data into a single price, each a pure function of the
//! data handed in.
//!
//! A missing or unusable source never yields a default price: every such
//! case is the `PriceUnavailable` error.

use vstd::prelude::*;

use crate::arith::{mul_ratio, ratio_floor};
use crate::error::ContractError;
use crate::msg::{OracleInput, OraclePriceFeedResponse};

verus! {

/// Rank selected from the ascending-sorted feed window: a mid-window
/// element, manipulation-resistant because it is never an extremum.  The
/// window must hold at least `MID_RANK + 2` usable reports so that the rank
/// is strictly inside the sorted order.
pub const MID_RANK: usize = 5;

/// Prices of the reports not in the future relative to `now`, in feed order.
pub open spec fn past_prices(s: Seq<OraclePriceFeedResponse>, now: u64) -> Seq<u128>
    decreases s.len(),
{
    if s.len() == 0 {
        Seq::empty()
    } else if s.last().timestamp <= now {
        past_prices(s.drop_last(), now) + seq![s.last().price]
    } else {
        past_prices(s.drop_last(), now)
    }
}

/// `x` placed into an ascending sequence, after any equal values.
pub open spec fn sorted_insert(s: Seq<u128>, x: u128) -> Seq<u128>
    decreases s.len(),
{
    if s.len() == 0 {
        seq![x]
    } else if s[0] <= x {
        seq![s[0]] + sorted_insert(s.drop_first(), x)
    } else {
        seq![x] + s
    }
}

/// The sequence rearranged ascending by insertion.
pub open spec fn sort_prices(s: Seq<u128>) -> Seq<u128>
    decreases s.len(),
{
    if s.len() == 0 {
        Seq::empty()
    } else {
        sorted_insert(sort_prices(s.drop_last()), s.last())
    }
}

/// What the median-of-feed strategy yields: the `MID_RANK`-th smallest
/// usable price, or `PriceUnavailable` when the window is too small for
/// that rank to be strictly inside it.
pub open spec fn feed_price_spec(s: Seq<OraclePriceFeedResponse>, now: u64) -> Result<
    u128,
    ContractError,
> {
    if past_prices(s, now).len() < MID_RANK + 2 {
        Err(ContractError::PriceUnavailable {})
    } else {
        Ok(sort_prices(past_prices(s, now))[MID_RANK as int])
    }
}

/// What the instant-ratio strategy yields: `scale * quote / base` from a
/// liquidity-pool snapshot, or `PriceUnavailable` on an empty or
/// overflowing pool.
pub open spec fn instant_price_spec(scale: u128, quote: u128, base: u128) -> Result<
    u128,
    ContractError,
> {
    if base == 0 || ratio_floor(scale as int, quote as int, base as int) > u128::MAX as int {
        Err(ContractError::PriceUnavailable {})
    } else {
        Ok(ratio_floor(scale as int, quote as int, base as int) as u128)
    }
}

/// What the TWAP strategy yields: the difference of two cumulative-price
/// snapshots over elapsed time.  A non-increasing counter or a degenerate
/// interval marks the data unusable — the counters are monotonic at the
/// source, so a decrease means a counter reset, never a negative price.
pub open spec fn twap_price_spec(s1: u128, t1: u64, s2: u128, t2: u64) -> Result<
    u128,
    ContractError,
> {
    if t2 <= t1 || s2 < s1 {
        Err(ContractError::PriceUnavailable {})
    } else {
        Ok((((s2 - s1) as u128) / ((t2 - t1) as u128)) as u128)
    }
}

/// What one evaluation of the configured strategy yields on `input`.
pub open spec fn fetch_price_spec(input: OracleInput, now: u64) -> Result<u128, ContractError> {
    match input {
        OracleInput::Instant { scale, quote_reserve, base_reserve } => instant_price_spec(
            scale,
            quote_reserve,
            base_reserve,
        ),
        OracleInput::Twap { s1, t1, s2, t2 } => twap_price_spec(s1, t1, s2, t2),
        OracleInput::Feed { list } => feed_price_spec(list@, now),
    }
}

/// Inserting keeps every element and adds one.
proof fn lemma_sorted_insert_len(s: Seq<u128>, x: u128)
    ensures
        sorted_insert(s, x).len() == s.len() + 1,
    decreases s.len(),
{
    if s.len() > 0 && s[0] <= x {
        lemma_sorted_insert_len(s.drop_first(), x);
    }
}

/// Sorting keeps the length.
proof fn lemma_sort_prices_len(s: Seq<u128>)
    ensures
        sort_prices(s).len() == s.len(),
    decreases s.len(),
{
    if s.len() > 0 {
        lemma_sort_prices_len(s.drop_last());
        lemma_sorted_insert_len(sort_prices(s.drop_last()), s.last());
    }
}

/// Where the ascending insertion point of `x` lies, the insertion equals a
/// positional insert.
proof fn lemma_sorted_insert_at(s: Seq<u128>, x: u128, j: int)
    requires
        0 <= j <= s.len(),
        forall|k: int| 0 <= k < j ==> s[k] <= x,
        j < s.len() ==> s[j] > x,
    ensures
        sorted_insert(s, x) =~= s.insert(j, x),
    decreases s.len(),
{
    if s.len() == 0 {
    } else if j == 0 {
        assert(sorted_insert(s, x) =~= s.insert(0, x));
    } else {
        lemma_sorted_insert_at(s.drop_first(), x, j - 1);
        assert(sorted_insert(s, x) =~= s.insert(j, x));
    }
}

/// The usable prices of a feed window, in feed order.
fn filter_past(list: &Vec<OraclePriceFeedResponse>, now: u64) -> (out: Vec<u128>)
    ensures
        out@ == past_prices(list@, now),
{
    let mut out: Vec<u128> = Vec::new();
    let mut i: usize = 0;
    while i < list.len()
        invariant
            0 <= i <= list@.len(),
            out@ == past_prices(list@.take(i as int), now),
        decreases list@.len() - i,
    {
        if list[i].timestamp <= now {
            let p = list[i].price;
            out.push(p);
        }
        i = i + 1;
        proof {
            assert(list@.take(i as int).drop_last() =~= list@.take(i - 1 as int));
            assert(list@.take(i as int).last() == list@[i - 1]);
        }
    }
    proof {
        assert(list@.take(list@.len() as int) =~= list@);
    }
    out
}

/// Places `x` into an ascending vector, after any equal values.
fn insert_sorted(v: &mut Vec<u128>, x: u128)
    ensures
        final(v)@ == sorted_insert(old(v)@, x),
{
    let mut j: usize = 0;
    while j < v.len() && v[j] <= x
        invariant
            0 <= j <= v@.len(),
            v@ == old(v)@,
            forall|k: int| 0 <= k < j ==> v@[k] <= x,
        decreases v@.len() - j,
    {
        j = j + 1;
    }
    proof {
        lemma_sorted_insert_at(v@, x, j as int);
    }
    v.insert(j, x);
}

/// The median-of-feed strategy: discard reports in the future relative to
/// `now`, sort the remainder ascending by price, and take the price at rank
/// `MID_RANK`.  Fails with `PriceUnavailable` when fewer than
/// `MID_RANK + 2` usable reports remain, so the chosen rank is always
/// strictly inside the sorted window.
pub fn median_feed_price(list: &Vec<OraclePriceFeedResponse>, now: u64) -> (r: Result<
    u128,
    ContractError,
>)
    ensures
        r == feed_price_spec(list@, now),
{
    let past = filter_past(list, now);
    if past.len() < MID_RANK + 2 {
        return Err(ContractError::PriceUnavailable {});
    }
    let mut sorted: Vec<u128> = Vec::new();
    let mut i: usize = 0;
    while i < past.len()
        invariant
            0 <= i <= past@.len(),
            sorted@ == sort_prices(past@.take(i as int)),
        decreases past@.len() - i,
    {
        let p = past[i];
        insert_sorted(&mut sorted, p);
        i = i + 1;
        proof {
            assert(past@.take(i as int).drop_last() =~= past@.take(i - 1 as int));
            assert(past@.take(i as int).last() == past@[i - 1]);
        }
    }
    proof {
        assert(past@.take(past@.len() as int) =~= past@);
        lemma_sort_prices_len(past@);
    }
    Ok(sorted[MID_RANK])
}

/// The instant-ratio strategy on a liquidity-pool snapshot.
pub fn instant_price(scale: u128, quote_reserve: u128, base_reserve: u128) -> (r: Result<
    u128,
    ContractError,
>)
    ensures
        r == instant_price_spec(scale, quote_reserve, base_reserve),
{
    match mul_ratio(scale, quote_reserve, base_reserve) {
        Some(p) => Ok(p),
        None => Err(ContractError::PriceUnavailable {}),
    }
}

/// The TWAP strategy on two cumulative-price snapshots.
pub fn twap_price(s1: u128, t1: u64, s2: u128, t2: u64) -> (r: Result<u128, ContractError>)
    ensures
        r == twap_price_spec(s1, t1, s2, t2),
{
    if t2 <= t1 || s2 < s1 {
        return Err(ContractError::PriceUnavailable {});
    }
    Ok((s2 - s1) / ((t2 - t1) as u128))
}

/// One reference-price evaluation of the strategy selected by the shape of
/// `input`.
pub fn fetch_price(input: &OracleInput, now: u64) -> (r: Result<u128, ContractError>)
    ensures
        r == fetch_price_spec(*input, now),
{
    match input {
        OracleInput::Instant { scale, quote_reserve, base_reserve } => instant_price(
            *scale,
            *quote_reserve,
            *base_reserve,
        ),
        OracleInput::Twap { s1, t1, s2, t2 } => twap_price(*s1, *t1, *s2, *t2),
        OracleInput::Feed { list } => median_feed_price(list, now),
    }
}

} // verus!

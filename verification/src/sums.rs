//! Lemmas about the pool and bank sums: how they change when a wager record
//! is appended or updated, and elementary bounds used to rule out overflow.

use vstd::prelude::*;

use crate::state::{
    bank_sum, down_part, down_sum, up_part, up_sum, GameEntry, Prediction,
};

verus! {

/// Appending a wager record adds exactly its contribution to each pool sum.
pub proof fn lemma_sum_push(s: Seq<GameEntry>, e: GameEntry, r: u64)
    ensures
        up_sum(s.push(e), r) == up_sum(s, r) + up_part(e, r),
        down_sum(s.push(e), r) == down_sum(s, r) + down_part(e, r),
{
    assert(s.push(e).drop_last() =~= s);
}

/// Replacing the record at `i` shifts each pool sum by the difference of the
/// contributions of the new and old records.
pub proof fn lemma_sum_update(s: Seq<GameEntry>, i: int, e: GameEntry, r: u64)
    requires
        0 <= i < s.len(),
    ensures
        up_sum(s.update(i, e), r) == up_sum(s, r) - up_part(s[i], r) + up_part(e, r),
        down_sum(s.update(i, e), r) == down_sum(s, r) - down_part(s[i], r) + down_part(e, r),
    decreases s.len(),
{
    if i == s.len() - 1 {
        assert(s.update(i, e).drop_last() =~= s.drop_last());
        assert(s.update(i, e).last() == e);
    } else {
        assert(s.update(i, e).drop_last() =~= s.drop_last().update(i, e));
        assert(s.update(i, e).last() == s.last());
        lemma_sum_update(s.drop_last(), i, e, r);
    }
}

/// Pool sums are sums of non-negative amounts.
pub proof fn lemma_sum_nonneg(s: Seq<GameEntry>, r: u64)
    ensures
        up_sum(s, r) >= 0,
        down_sum(s, r) >= 0,
    decreases s.len(),
{
    if s.len() > 0 {
        lemma_sum_nonneg(s.drop_last(), r);
    }
}

/// A single record never exceeds the pool sum of its round.
pub proof fn lemma_part_le_sum(s: Seq<GameEntry>, i: int, r: u64)
    requires
        0 <= i < s.len(),
    ensures
        up_part(s[i], r) <= up_sum(s, r),
        down_part(s[i], r) <= down_sum(s, r),
    decreases s.len(),
{
    lemma_sum_nonneg(s.drop_last(), r);
    if i == s.len() - 1 {
    } else {
        lemma_part_le_sum(s.drop_last(), i, r);
    }
}

/// A round id that no record mentions has empty pools.
pub proof fn lemma_sum_absent(s: Seq<GameEntry>, r: u64)
    requires
        forall|k: int| 0 <= k < s.len() ==> (#[trigger] s[k]).round != r,
    ensures
        up_sum(s, r) == 0,
        down_sum(s, r) == 0,
    decreases s.len(),
{
    if s.len() > 0 {
        lemma_sum_absent(s.drop_last(), r);
    }
}

/// Appending a round record adds its pools to the bank sum.
pub proof fn lemma_bank_push(s: Seq<Prediction>, p: Prediction)
    ensures
        bank_sum(s.push(p)) == bank_sum(s) + p.up as int + p.down as int,
{
    assert(s.push(p).drop_last() =~= s);
}

/// Replacing the round record at `i` shifts the bank sum by the difference
/// of the new and old pools.
pub proof fn lemma_bank_update(s: Seq<Prediction>, i: int, p: Prediction)
    requires
        0 <= i < s.len(),
    ensures
        bank_sum(s.update(i, p)) == bank_sum(s) - s[i].up as int - s[i].down as int + p.up as int
            + p.down as int,
    decreases s.len(),
{
    if i == s.len() - 1 {
        assert(s.update(i, p).drop_last() =~= s.drop_last());
    } else {
        assert(s.update(i, p).drop_last() =~= s.drop_last().update(i, p));
        lemma_bank_update(s.drop_last(), i, p);
    }
}

/// The bank sum is a sum of non-negative pools, and each round's combined
/// pool is bounded by it.
pub proof fn lemma_bank_bounds(s: Seq<Prediction>, i: int)
    requires
        0 <= i < s.len(),
    ensures
        bank_sum(s) >= 0,
        s[i].up as int + s[i].down as int <= bank_sum(s),
    decreases s.len(),
{
    lemma_bank_nonneg(s.drop_last());
    if i == s.len() - 1 {
    } else {
        lemma_bank_bounds(s.drop_last(), i);
    }
}

/// The bank sum is never negative.
pub proof fn lemma_bank_nonneg(s: Seq<Prediction>)
    ensures
        bank_sum(s) >= 0,
    decreases s.len(),
{
    if s.len() > 0 {
        lemma_bank_nonneg(s.drop_last());
    }
}

} // verus!

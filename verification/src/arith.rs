//! Ratio arithmetic: the full-precision `(a * b) / c` primitive that prices,
//! payouts and fees are computed with, and the bounds on it that the payout
//! proofs rest on.

use vstd::prelude::*;

use vstd::arithmetic::div_mod::{
    lemma_div_is_ordered, lemma_div_multiples_vanish, lemma_div_pos_is_pos,
    lemma_fundamental_div_mod, lemma_fundamental_div_mod_converse, lemma_mod_bound,
};
use vstd::arithmetic::mul::{
    lemma_mul_inequality, lemma_mul_is_commutative, lemma_mul_is_distributive_add,
    lemma_mul_nonnegative,
};

verus! {

/// The exact rational floor `(a * b) / c` over unbounded integers.
pub open spec fn ratio_floor(a: int, b: int, c: int) -> int {
    (a * b) / c
}

/// Relies on cosmwasm_std's `Uint128::checked_multiply_ratio`: the result is
/// the full-precision quotient `(a * num) / den`, computed through a 256-bit
/// intermediate product, and `None` exactly when the denominator is zero or
/// the quotient does not fit in `u128`.
#[verifier::external_body]
pub(crate) fn mul_ratio(a: u128, num: u128, den: u128) -> (r: Option<u128>)
    ensures
        den == 0 ==> r is None,
        den != 0 && ratio_floor(a as int, num as int, den as int) <= u128::MAX as int ==> r
            == Some(ratio_floor(a as int, num as int, den as int) as u128),
        den != 0 && ratio_floor(a as int, num as int, den as int) > u128::MAX as int ==> r is None,
{
    match cosmwasm_std::Uint128::new(a).checked_multiply_ratio(num, den) {
        Ok(v) => Some(v.u128()),
        Err(_) => None,
    }
}

/// A stake no larger than the winning pool never draws more than the total
/// pool: `(stake * total) / win <= total`.
pub proof fn lemma_ratio_le_total(stake: int, total: int, win: int)
    requires
        0 <= stake <= win,
        0 < win,
        0 <= total,
    ensures
        0 <= ratio_floor(stake, total, win) <= total,
{
    lemma_mul_nonnegative(stake, total);
    lemma_div_pos_is_pos(stake * total, win);
    lemma_mul_inequality(stake, win, total);
    lemma_div_is_ordered(stake * total, win * total, win);
    lemma_mul_is_commutative(win, total);
    lemma_div_multiples_vanish(total, win);
}

/// Integer division distributes over addition up to one lost unit:
/// `a/d + b/d <= (a+b)/d <= a/d + b/d + 1`.
pub proof fn lemma_div_add_bounds(a: int, b: int, d: int)
    requires
        0 <= a,
        0 <= b,
        0 < d,
    ensures
        a / d + b / d <= (a + b) / d <= a / d + b / d + 1,
{
    let q1 = a / d;
    let r1 = a % d;
    let q2 = b / d;
    let r2 = b % d;
    lemma_fundamental_div_mod(a, d);
    lemma_fundamental_div_mod(b, d);
    lemma_mod_bound(a, d);
    lemma_mod_bound(b, d);
    assert(d * (q1 + q2) == d * q1 + d * q2) by {
        lemma_mul_is_distributive_add(d, q1, q2);
    }
    if r1 + r2 < d {
        assert((q1 + q2) * d == d * (q1 + q2)) by {
            lemma_mul_is_commutative(q1 + q2, d);
        }
        lemma_fundamental_div_mod_converse(a + b, d, q1 + q2, r1 + r2);
    } else {
        assert(d * (q1 + q2 + 1) == d * (q1 + q2) + d * 1) by {
            lemma_mul_is_distributive_add(d, q1 + q2, 1);
        }
        assert((q1 + q2 + 1) * d == d * (q1 + q2 + 1)) by {
            lemma_mul_is_commutative(q1 + q2 + 1, d);
        }
        lemma_fundamental_div_mod_converse(a + b, d, q1 + q2 + 1, r1 + r2 - d);
    }
}

/// The floor `(stake * total) / win` loses less than one unit against the
/// exact ratio: `stake * total < win * ((stake * total) / win + 1)`.
pub proof fn lemma_ratio_remainder(stake: int, total: int, win: int)
    requires
        0 <= stake,
        0 <= total,
        0 < win,
    ensures
        win * ratio_floor(stake, total, win) <= stake * total < win * (ratio_floor(stake, total, win) + 1),
{
    let q = (stake * total) / win;
    lemma_fundamental_div_mod(stake * total, win);
    lemma_mod_bound(stake * total, win);
    assert(win * (q + 1) == win * q + win * 1) by {
        lemma_mul_is_distributive_add(win, q, 1);
    }
}

} // verus!

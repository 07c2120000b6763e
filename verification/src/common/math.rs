//! Proportional arithmetic over unsigned magnitudes. Every division
//! truncates toward zero, and multiplication comes before division so that
//! no precision is lost beyond the final truncation.

use vstd::prelude::*;

verus! {

pub const BASIS_POINTS: u16 = 10_000;

/// The fee on `amount` at `fee_bps` basis points, truncated:
/// `amount * fee_bps / 10000`, computed without intermediate overflow.
///
/// The true quotient must fit; an input whose fee would exceed the
/// magnitude range is excluded.
pub fn calculate_fee(amount: u128, fee_bps: u16) -> (r: u128)
    requires
        amount * fee_bps / (BASIS_POINTS as int) <= u128::MAX,
    ensures
        r == amount * fee_bps / (BASIS_POINTS as int),
{
    if fee_bps == 0 {
        return 0;
    }
    let b: u128 = BASIS_POINTS as u128;
    let q: u128 = amount / b;
    let rem: u128 = amount % b;
    let f: u128 = fee_bps as u128;
    proof {
        lemma_split_mul_div(amount as int, f as int, b as int);
        assert(rem * f < 10000 * 0x10000) by (nonlinear_arith)
            requires
                0 <= rem < 10000 && 0 <= f < 0x10000,
        ;
    }
    q * f + rem * f / b
}

/// Splitting `a` into `(a / b) * b + a % b` splits the truncated product
/// quotient the same way.
pub proof fn lemma_split_mul_div(a: int, f: int, b: int)
    requires
        0 <= a,
        0 <= f,
        0 < b,
    ensures
        a * f / b == (a / b) * f + (a % b) * f / b,
        (a / b) * f <= a * f / b,
        0 <= (a % b) * f / b,
        a % b < b,
{
    let q = a / b;
    let rem = a % b;
    vstd::arithmetic::div_mod::lemma_fundamental_div_mod(a, b);
    vstd::arithmetic::div_mod::lemma_mod_division_less_than_divisor(a, b);
    assert(a * f == rem * f + (q * f) * b) by (nonlinear_arith)
        requires
            a == b * q + rem,
    ;
    vstd::arithmetic::mul::lemma_mul_nonnegative(rem, f);
    vstd::arithmetic::mul::lemma_mul_nonnegative(q, f);
    vstd::arithmetic::div_mod::lemma_hoist_over_denominator(rem * f, q * f, b as nat);
    vstd::arithmetic::div_mod::lemma_div_pos_is_pos(rem * f, b);
}

/// Shares minted for a deposit: the deposit itself into an empty pool
/// (bootstrap pricing), else `deposit * total_shares / total_assets`,
/// truncated. The product must fit in the magnitude range.
pub fn calculate_shares(deposit_amount: u128, total_shares: u128, total_assets: u128) -> (r: u128)
    requires
        total_shares == 0 || total_assets == 0 || deposit_amount * total_shares <= u128::MAX,
    ensures
        r == if total_shares == 0 || total_assets == 0 {
            deposit_amount as int
        } else {
            deposit_amount * total_shares / total_assets as int
        },
{
    if total_shares == 0 || total_assets == 0 {
        return deposit_amount;
    }
    deposit_amount * total_shares / total_assets
}

/// Assets owed for burning `shares`: `shares * total_assets /
/// total_shares`, truncated; zero when no shares exist. The product must
/// fit in the magnitude range.
pub fn calculate_assets_from_shares(shares: u128, total_shares: u128, total_assets: u128) -> (r:
    u128)
    requires
        total_shares == 0 || shares * total_assets <= u128::MAX,
    ensures
        r == if total_shares == 0 {
            0
        } else {
            shares * total_assets / total_shares as int
        },
{
    if total_shares == 0 {
        return 0;
    }
    shares * total_assets / total_shares
}

pub open spec fn sum_weights(s: Seq<u16>) -> int
    decreases s.len(),
{
    if s.len() == 0 {
        0
    } else {
        sum_weights(s.drop_last()) + s.last()
    }
}

proof fn lemma_sum_weights_prefix(s: Seq<u16>, i: int)
    requires
        0 <= i <= s.len(),
    ensures
        sum_weights(s.subrange(0, i)) <= sum_weights(s),
    decreases s.len() - i,
{
    if i == s.len() {
        assert(s.subrange(0, i) =~= s);
    } else {
        lemma_sum_weights_prefix(s, i + 1);
        assert(s.subrange(0, i + 1).drop_last() =~= s.subrange(0, i));
        assert(sum_weights(s.subrange(0, i + 1)) == sum_weights(s.subrange(0, i)) + s[i]);
    }
}

/// Accepts a weight list exactly when the weights sum to 10000 basis
/// points (a full allocation).
pub fn validate_allocation_weights(weights: &[u16]) -> (r: bool)
    ensures
        r <==> sum_weights(weights@) == BASIS_POINTS as int,
{
    let n = weights.len();
    let mut total: u32 = 0;
    let mut i: usize = 0;
    while i < n
        invariant
            0 <= i <= n == weights@.len(),
            total == sum_weights(weights@.subrange(0, i as int)),
            total <= BASIS_POINTS,
        decreases n - i,
    {
        proof {
            assert(weights@.subrange(0, i + 1).drop_last() =~= weights@.subrange(0, i as int));
        }
        total = total + weights[i] as u32;
        i = i + 1;
        if total > BASIS_POINTS as u32 {
            proof {
                lemma_sum_weights_prefix(weights@, i as int);
            }
            return false;
        }
    }
    proof {
        assert(weights@.subrange(0, n as int) =~= weights@);
    }
    total == BASIS_POINTS as u32
}

} // verus!


use vstd::prelude::*;
use crate::pools::DexVariant;
use crate::wide::mul_div;

verus! {

/// Output of a constant-product swap with a 0.3% fee, before rounding is
/// applied to anything but the final quotient; zero when the pool is empty.
pub open spec fn v2_amount_out(amount_in: int, reserve_in: int, reserve_out: int) -> int {
    let denominator = reserve_in * 1000 + amount_in * 997;
    if denominator == 0 {
        0
    } else {
        (amount_in * 997 * reserve_out) / denominator
    }
}

/// Whether `v2_amount_out` is computed within `u128`: a zero input always
/// is (its output is zero); otherwise the input with its fee and the
/// denominator must fit (the quotient then fits too).
pub open spec fn v2_fits(amount_in: int, reserve_in: int, reserve_out: int) -> bool {
    amount_in == 0 || (amount_in * 997 <= u128::MAX && reserve_in * 1000 + amount_in * 997 <= u128::MAX)
}

/// Input left after a fee given in parts per million.
pub open spec fn v3_amount_after_fee(amount_in: int, fee: int) -> int {
    amount_in * (1_000_000 - fee) / 1_000_000
}

/// Output of a swap priced as a constant product with a fee given in parts
/// per million; zero when the pool is empty.
pub open spec fn v3_amount_out(amount_in: int, reserve_in: int, reserve_out: int, fee: int) -> int {
    let net = v3_amount_after_fee(amount_in, fee);
    let denominator = reserve_in * 1_000_000 + net;
    if denominator == 0 {
        0
    } else {
        (net * reserve_out) / denominator
    }
}

/// Whether `v3_amount_out` is computed within `u128`: a zero input always
/// is (its output is zero); otherwise the denominator must fit (every other
/// value then fits too).
pub open spec fn v3_fits(amount_in: int, reserve_in: int, reserve_out: int, fee: int) -> bool {
    amount_in == 0 || reserve_in * 1_000_000 + v3_amount_after_fee(amount_in, fee) <= u128::MAX
}

/// Amount received for `amount_in` from a v2 pool holding the two reserves;
/// `None` when, for a non-zero input, the input with its fee or the
/// denominator leaves the `u128` range. Amounts are `u128`: a value of a
/// `uint256` above that range cannot be quoted.
pub fn get_v2_amount_out(amount_in: u128, reserve_in: u128, reserve_out: u128) -> (r: Option<u128>)
    ensures
        v2_fits(amount_in as int, reserve_in as int, reserve_out as int) ==> r == Some(
            v2_amount_out(amount_in as int, reserve_in as int, reserve_out as int) as u128,
        ),
        !v2_fits(amount_in as int, reserve_in as int, reserve_out as int) ==> r.is_none(),
        r.is_some() ==> r.unwrap() as int == v2_amount_out(
            amount_in as int,
            reserve_in as int,
            reserve_out as int,
        ),
{
    if amount_in == 0 {
        proof {
            assert(0 * 997 * reserve_out as int == 0) by (nonlinear_arith);
        }
        return Some(0);
    }
    if amount_in > u128::MAX / 997 {
        return None;
    }
    let with_fee = amount_in * 997;
    if reserve_in > (u128::MAX - with_fee) / 1000 {
        return None;
    }
    let denominator = reserve_in * 1000 + with_fee;
    if denominator == 0 {
        Some(0)
    } else {
        proof {
            lemma_ratio_le(with_fee as int, reserve_out as int, denominator as int);
        }
        mul_div(with_fee, reserve_out, denominator)
    }
}

/// Amount received for `amount_in` from a pool priced by the constant-product
/// form with a fee of `fee` parts per million; `None` when, for a non-zero
/// input, the denominator leaves the `u128` range.
pub fn get_v3_amount_out(amount_in: u128, reserve_in: u128, reserve_out: u128, fee: u32) -> (r: Option<u128>)
    requires
        fee <= 1_000_000,
    ensures
        v3_fits(amount_in as int, reserve_in as int, reserve_out as int, fee as int) ==> r == Some(
            v3_amount_out(amount_in as int, reserve_in as int, reserve_out as int, fee as int) as u128,
        ),
        !v3_fits(amount_in as int, reserve_in as int, reserve_out as int, fee as int) ==> r.is_none(),
        r.is_some() ==> r.unwrap() as int == v3_amount_out(
            amount_in as int,
            reserve_in as int,
            reserve_out as int,
            fee as int,
        ),
{
    if amount_in == 0 {
        proof {
            assert(0 * (1_000_000 - fee as int) == 0) by (nonlinear_arith);
            assert(0 * reserve_out as int == 0) by (nonlinear_arith);
        }
        return Some(0);
    }
    let keep: u128 = 1_000_000 - fee as u128;
    proof {
        lemma_ratio_le(keep as int, amount_in as int, 1_000_000);
        assert(amount_in as int * keep as int == keep as int * amount_in as int) by (nonlinear_arith);
    }
    let net = match mul_div(amount_in, keep, 1_000_000) {
        Some(n) => n,
        None => return None,
    };
    if reserve_in > (u128::MAX - net) / 1_000_000 {
        return None;
    }
    let denominator = reserve_in * 1_000_000 + net;
    if denominator == 0 {
        Some(0)
    } else {
        proof {
            lemma_ratio_le(net as int, reserve_out as int, denominator as int);
        }
        mul_div(net, reserve_out, denominator)
    }
}

/// `2^96`, the fixed-point unit of a v3 pool's square-root price.
pub const Q96: u128 = 0x1_0000_0000_0000_0000_0000_0000;

/// `floor(x * y / d)` where it fits in a `u128`, else zero.
pub open spec fn ratio_or_zero(x: int, y: int, d: int) -> int {
    if d == 0 || (x * y) / d > u128::MAX {
        0
    } else {
        (x * y) / d
    }
}

/// Reserves that a v3 pool's price and liquidity stand for, for small trades:
/// `L * Q96 / sqrtPriceX96` of token0 and `L * sqrtPriceX96 / Q96` of
/// token1 (zero where the value is undefined or leaves `u128`).
pub open spec fn synthetic_reserves(sqrt_price_x96: int, liquidity: int) -> (int, int) {
    (ratio_or_zero(liquidity, Q96 as int, sqrt_price_x96), ratio_or_zero(liquidity, sqrt_price_x96, Q96 as int))
}

/// Computes `synthetic_reserves` from a pool's `slot0().sqrtPriceX96` and
/// `liquidity()`. The price is a `uint160` on chain; this takes it as a
/// `u128`, so the caller reads pools whose price is 2^128 or more as having
/// no v3 reserves.
pub fn get_v3_pool_reserves(sqrt_price_x96: u128, liquidity: u128) -> (r: (u128, u128))
    ensures
        (r.0 as int, r.1 as int) == synthetic_reserves(sqrt_price_x96 as int, liquidity as int),
{
    let r0 = match mul_div(liquidity, Q96, sqrt_price_x96) {
        Some(v) => v,
        None => 0,
    };
    let r1 = match mul_div(liquidity, sqrt_price_x96, Q96) {
        Some(v) => v,
        None => 0,
    };
    (r0, r1)
}

/// The reserves that reading a pool gave: `getReserves()` and the v3 pair
/// `(sqrtPriceX96, liquidity)` are each `None` when the call reverted. The
/// pool's own variant is tried first, the other one when it reverted.
pub open spec fn reserves_from(
    version: DexVariant,
    v2_reading: Option<(u128, u128)>,
    v3_reading: Option<(u128, u128)>,
) -> Option<(int, int)> {
    let v2 = match v2_reading {
        Some((r0, r1)) => Some((r0 as int, r1 as int)),
        None => None,
    };
    let v3 = match v3_reading {
        Some((p, l)) => Some(synthetic_reserves(p as int, l as int)),
        None => None,
    };
    match version {
        DexVariant::UniswapV2 => if v2 is Some {
            v2
        } else {
            v3
        },
        DexVariant::UniswapV3 => if v3 is Some {
            v3
        } else {
            v2
        },
    }
}

/// The reserves of a pool, as `reserves_from` gives them; `None`, and the
/// sandwich is dropped, only when both readings reverted.
pub fn pool_reserves(version: DexVariant, v2_reading: Option<(u128, u128)>, v3_reading: Option<(u128, u128)>) -> (r: Option<(u128, u128)>)
    ensures
        r is Some <==> reserves_from(version, v2_reading, v3_reading) is Some,
        r matches Some((a, b)) ==> reserves_from(version, v2_reading, v3_reading) == Some((a as int, b as int)),
{
    let v3 = match v3_reading {
        Some((p, l)) => Some(get_v3_pool_reserves(p, l)),
        None => None,
    };
    match version {
        DexVariant::UniswapV2 => if v2_reading.is_some() {
            v2_reading
        } else {
            v3
        },
        DexVariant::UniswapV3 => if v3.is_some() {
            v3
        } else {
            v2_reading
        },
    }
}

/// No input, no output.
pub proof fn lemma_v2_zero_in(reserve_in: int, reserve_out: int)
    requires
        reserve_in >= 0,
        reserve_out >= 0,
    ensures
        v2_amount_out(0, reserve_in, reserve_out) == 0,
{
    assert(0 * 997 * reserve_out == 0) by (nonlinear_arith);
}

/// For fixed non-empty reserves, a larger input buys strictly more at the
/// exact (unrounded) price, and never less once rounded down.
pub proof fn lemma_v2_monotone(a1: int, a2: int, reserve_in: int, reserve_out: int)
    requires
        0 <= a1 < a2,
        reserve_in > 0,
        reserve_out > 0,
    ensures
        (a1 * 997 * reserve_out) * (reserve_in * 1000 + a2 * 997) < (a2 * 997 * reserve_out) * (
        reserve_in * 1000 + a1 * 997),
        v2_amount_out(a1, reserve_in, reserve_out) <= v2_amount_out(a2, reserve_in, reserve_out),
{
    let x1 = a1 * 997 * reserve_out;
    let x2 = a2 * 997 * reserve_out;
    let d1 = reserve_in * 1000 + a1 * 997;
    let d2 = reserve_in * 1000 + a2 * 997;
    assert(d1 > 0 && d2 > 0 && x1 >= 0 && x2 > 0) by (nonlinear_arith)
        requires
            0 <= a1 < a2,
            reserve_in > 0,
            reserve_out > 0,
            x1 == a1 * 997 * reserve_out,
            x2 == a2 * 997 * reserve_out,
            d1 == reserve_in * 1000 + a1 * 997,
            d2 == reserve_in * 1000 + a2 * 997,
    ;
    assert(x2 * d1 - x1 * d2 == 997 * reserve_out * 1000 * reserve_in * (a2 - a1)) by (
    nonlinear_arith)
        requires
            x1 == a1 * 997 * reserve_out,
            x2 == a2 * 997 * reserve_out,
            d1 == reserve_in * 1000 + a1 * 997,
            d2 == reserve_in * 1000 + a2 * 997,
    ;
    assert(997 * reserve_out * 1000 * reserve_in * (a2 - a1) > 0) by (nonlinear_arith)
        requires
            0 <= a1 < a2,
            reserve_in > 0,
            reserve_out > 0,
    ;
    lemma_floor_monotone(x1, d1, x2, d2);
}

/// Floors of two fractions keep the order of the fractions.
proof fn lemma_floor_monotone(x1: int, d1: int, x2: int, d2: int)
    requires
        x1 >= 0,
        x2 >= 0,
        d1 > 0,
        d2 > 0,
        x1 * d2 <= x2 * d1,
    ensures
        x1 / d1 <= x2 / d2,
{
    let q1 = x1 / d1;
    assert(q1 * d1 <= x1) by (nonlinear_arith)
        requires
            d1 > 0,
            q1 == x1 / d1,
    ;
    assert(q1 * d1 * d2 <= x1 * d2) by (nonlinear_arith)
        requires
            q1 * d1 <= x1,
            d2 > 0,
    ;
    assert(q1 * d2 <= x2) by (nonlinear_arith)
        requires
            q1 * d1 * d2 <= x2 * d1,
            d1 > 0,
    ;
    assert(q1 <= x2 / d2) by (nonlinear_arith)
        requires
            q1 * d2 <= x2,
            d2 > 0,
    ;
}

/// Scaling the input and both reserves by the same factor `k` scales the
/// output by `k`, up to rounding down.
pub proof fn lemma_v2_homogeneous(k: int, amount_in: int, reserve_in: int, reserve_out: int)
    requires
        k > 0,
        amount_in >= 0,
        reserve_in >= 0,
        reserve_out >= 0,
        reserve_in + amount_in > 0,
    ensures
        k * v2_amount_out(amount_in, reserve_in, reserve_out) <= v2_amount_out(
            k * amount_in,
            k * reserve_in,
            k * reserve_out,
        ),
        v2_amount_out(k * amount_in, k * reserve_in, k * reserve_out) < k * v2_amount_out(
            amount_in,
            reserve_in,
            reserve_out,
        ) + k,
{
    let n = amount_in * 997 * reserve_out;
    let d = reserve_in * 1000 + amount_in * 997;
    assert(d > 0 && n >= 0) by (nonlinear_arith)
        requires
            amount_in >= 0,
            reserve_in >= 0,
            reserve_out >= 0,
            reserve_in + amount_in > 0,
            n == amount_in * 997 * reserve_out,
            d == reserve_in * 1000 + amount_in * 997,
    ;
    assert((k * amount_in) * 997 * (k * reserve_out) == k * (k * n)) by (nonlinear_arith)
        requires
            n == amount_in * 997 * reserve_out,
    ;
    assert((k * reserve_in) * 1000 + (k * amount_in) * 997 == k * d) by (nonlinear_arith)
        requires
            d == reserve_in * 1000 + amount_in * 997,
    ;
    assert(k * d > 0 && k * n >= 0) by (nonlinear_arith)
        requires
            k > 0,
            d > 0,
            n >= 0,
    ;
    assert((k * (k * n)) / (k * d) == (k * n) / d) by {
        vstd::arithmetic::div_mod::lemma_div_multiples_vanish_quotient(k, k * n, d);
    }
    let q = n / d;
    let r = n % d;
    assert(n == q * d + r && 0 <= r < d) by (nonlinear_arith)
        requires
            d > 0,
            q == n / d,
            r == n % d,
    ;
    assert(k * q <= (k * n) / d < k * q + k) by (nonlinear_arith)
        requires
            n == q * d + r,
            0 <= r < d,
            k > 0,
            d > 0,
    ;
}

/// `x * y / d <= y` when `x <= d`.
proof fn lemma_ratio_le(x: int, y: int, d: int)
    requires
        0 <= x <= d,
        d > 0,
        y >= 0,
    ensures
        0 <= x * y / d <= y,
{
    assert(x * y <= d * y) by (nonlinear_arith)
        requires
            0 <= x <= d,
            y >= 0,
    ;
    assert(0 <= x * y / d <= y) by (nonlinear_arith)
        requires
            x * y <= d * y,
            0 <= x,
            y >= 0,
            d > 0,
    ;
}

} // verus!

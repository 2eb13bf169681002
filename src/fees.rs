use vstd::prelude::*;
use rand::Rng;

verus! {

/// Half the gas limit, and never below one.
pub open spec fn gas_target(gas_limit: int) -> int {
    if gas_limit / 2 == 0 {
        1
    } else {
        gas_limit / 2
    }
}

/// The base fee of the next block under EIP-1559, before jitter.
pub open spec fn base_fee_formula(gas_used: int, gas_limit: int, base_fee: int) -> int {
    let target = gas_target(gas_limit);
    if gas_used > target {
        base_fee + (base_fee * (gas_used - target) / target) / 8
    } else {
        base_fee - (base_fee * (target - gas_used) / target) / 8
    }
}

/// The next block's base fee for a block that used `gas_used` of `gas_limit`
/// at `base_fee`, plus `jitter` (at most 8).
pub fn next_base_fee_with_jitter(gas_used: u64, gas_limit: u64, base_fee: u64, jitter: u64) -> (r: u128)
    requires
        jitter <= 8,
    ensures
        r == base_fee_formula(gas_used as int, gas_limit as int, base_fee as int) + jitter,
{
    let half = gas_limit / 2;
    let target: u64 = if half == 0 {
        1
    } else {
        half
    };
    let base = base_fee as u128;
    if gas_used > target {
        let diff = (gas_used - target) as u128;
        proof {
            lemma_mul_u64(base_fee as int, diff as int);
            lemma_div_le(base as int * diff as int, target as int);
        }
        let delta = base * diff / (target as u128) / 8;
        base + delta + jitter as u128
    } else {
        let diff = (target - gas_used) as u128;
        proof {
            lemma_mul_u64(base_fee as int, diff as int);
            lemma_fraction_le(base as int, diff as int, target as int);
        }
        let delta = base * diff / (target as u128) / 8;
        base - delta + jitter as u128
    }
}

/// The product of two `u64` values fits in a `u128`.
proof fn lemma_mul_u64(a: int, b: int)
    requires
        0 <= a <= u64::MAX,
        0 <= b <= u64::MAX,
    ensures
        0 <= a * b <= u64::MAX * u64::MAX,
{
    assert(0 <= a * b <= u64::MAX * u64::MAX) by (nonlinear_arith)
        requires
            0 <= a <= u64::MAX,
            0 <= b <= u64::MAX,
    ;
}

/// Dividing a non-negative number by a positive one never makes it larger.
proof fn lemma_div_le(x: int, d: int)
    requires
        x >= 0,
        d > 0,
    ensures
        0 <= x / d <= x,
{
    assert(0 <= x / d <= x) by (nonlinear_arith)
        requires
            x >= 0,
            d > 0,
    ;
}

/// `a * b / d` stays within `[0, a]` when `b <= d`.
proof fn lemma_fraction_le(a: int, b: int, d: int)
    requires
        a >= 0,
        0 <= b <= d,
        d > 0,
    ensures
        0 <= a * b / d <= a,
{
    assert(a * b <= a * d) by (nonlinear_arith)
        requires
            a >= 0,
            b <= d,
    ;
    assert(0 <= a * b / d <= a) by (nonlinear_arith)
        requires
            a >= 0,
            b >= 0,
            a * b <= a * d,
            d > 0,
    ;
}

/// Relies on rand's `thread_rng().gen_range(0..9)`: a value drawn from
/// `0..9`, that is at most 8.
#[verifier::external_body]
fn random_jitter() -> (r: u64)
    ensures
        r <= 8,
{
    rand::thread_rng().gen_range(0..9u64)
}

/// The next block's base fee with a random jitter of 0 to 8 wei added.
pub fn calculate_next_block_base_fee(gas_used: u64, gas_limit: u64, base_fee: u64) -> (r: u128)
    ensures
        base_fee_formula(gas_used as int, gas_limit as int, base_fee as int) <= r,
        r <= base_fee_formula(gas_used as int, gas_limit as int, base_fee as int) + 8,
{
    let jitter = random_jitter();
    next_base_fee_with_jitter(gas_used, gas_limit, base_fee, jitter)
}

/// A block that uses exactly its target leaves the base fee unchanged.
pub proof fn lemma_base_fee_at_target(gas_limit: int, base_fee: int)
    requires
        gas_limit >= 0,
        base_fee >= 0,
    ensures
        base_fee_formula(gas_target(gas_limit), gas_limit, base_fee) == base_fee,
{
    let t = gas_target(gas_limit);
    assert(base_fee * (t - t) == 0) by (nonlinear_arith);
}

/// Basis points of a flash loan kept by the lender.
pub const FLASHLOAN_FEE_BASIS_POINTS: u128 = 9;

/// Basis points in a whole.
pub const BASIS_POINTS_DIVISOR: u128 = 10000;

/// `amount * bps / 10000`, rounded down.
pub open spec fn basis_points_of(amount: int, bps: int) -> int {
    amount * bps / 10000
}

/// `amount * bps / 10000` rounded down, computed without overflow.
fn apply_basis_points(amount: u128, bps: u128) -> (r: u128)
    requires
        bps <= 10000,
    ensures
        r == basis_points_of(amount as int, bps as int),
{
    let q = amount / 10000;
    let rem = amount % 10000;
    proof {
        lemma_split_bps(amount as int, bps as int, q as int, rem as int);
    }
    q * bps + rem * bps / 10000
}

/// Splitting `amount` at 10000 gives the same basis-point share without overflow.
proof fn lemma_split_bps(amount: int, bps: int, q: int, rem: int)
    requires
        0 <= amount <= u128::MAX,
        0 <= bps <= 10000,
        q == amount / 10000,
        rem == amount % 10000,
    ensures
        q * bps + rem * bps / 10000 == amount * bps / 10000,
        q * bps + rem * bps / 10000 <= amount,
        0 <= rem * bps / 10000 <= bps,
        0 <= q * bps <= amount,
{
    assert(amount == q * 10000 + rem && 0 <= rem < 10000) by (nonlinear_arith)
        requires
            q == amount / 10000,
            rem == amount % 10000,
    ;
    assert(amount * bps == (q * bps) * 10000 + rem * bps) by (nonlinear_arith)
        requires
            amount == q * 10000 + rem,
    ;
    assert(0 <= rem * bps) by (nonlinear_arith)
        requires
            0 <= rem,
            0 <= bps,
    ;
    vstd::arithmetic::div_mod::lemma_div_multiples_vanish_fancy(q * bps, 0, 10000);
    assert(((q * bps) * 10000 + rem * bps) / 10000 == q * bps + (rem * bps) / 10000) by {
        vstd::arithmetic::div_mod::lemma_fundamental_div_mod_converse(
            (q * bps) * 10000 + rem * bps,
            10000,
            q * bps + (rem * bps) / 10000,
            (rem * bps) % 10000,
        );
    }
    assert(0 <= rem * bps / 10000 <= bps) by (nonlinear_arith)
        requires
            0 <= rem < 10000,
            0 <= bps <= 10000,
    ;
    assert(0 <= q * bps <= q * 10000) by (nonlinear_arith)
        requires
            q >= 0,
            0 <= bps <= 10000,
    ;
    assert(amount * bps <= amount * 10000) by (nonlinear_arith)
        requires
            amount >= 0,
            bps <= 10000,
    ;
    assert(amount * bps / 10000 <= amount) by (nonlinear_arith)
        requires
            amount * bps <= amount * 10000,
            amount >= 0,
    ;
}

/// The lender's fee on a flash loan of `amount`: 9 basis points, rounded down.
pub fn calculate_flashloan_fee(amount: u128) -> (r: u128)
    ensures
        r == basis_points_of(amount as int, FLASHLOAN_FEE_BASIS_POINTS as int),
{
    apply_basis_points(amount, FLASHLOAN_FEE_BASIS_POINTS)
}

/// Revenue left after paying the flash-loan fee on `amount_in`; `None`, and
/// the bundle is dropped, unless the revenue exceeds the fee.
pub fn flashloan_adjusted_revenue(revenue: i128, amount_in: u128) -> (r: Option<u128>)
    ensures
        revenue > basis_points_of(amount_in as int, 9) <==> r.is_some(),
        r.is_some() ==> r.unwrap() == revenue - basis_points_of(amount_in as int, 9),
{
    let fee = calculate_flashloan_fee(amount_in);
    if revenue > 0 && (revenue as u128) > fee {
        Some(revenue as u128 - fee)
    } else {
        None
    }
}

/// Gas, fee and bribe figures of a bundle priced from its simulation.
#[derive(Clone, Copy, Debug, PartialEq, Eq, Structural)]
pub struct BundlePricing {
    /// Gas limit for the frontrun and backrun together.
    pub gas_limit: u128,
    /// Part of the revenue handed to the builder.
    pub bribe: u128,
    /// Priority fee per gas that pays the bribe.
    pub max_priority_fee_per_gas: u128,
    /// Base fee plus priority fee.
    pub max_fee_per_gas: u128,
}

/// Gas limit: the observed gas times 1.3, rounded up.
pub open spec fn gas_limit_for(gas_used: int) -> int {
    (gas_used * 13 + 9) / 10
}

/// Gas expected on chain: the observed gas times 1.05, rounded down.
pub open spec fn realistic_gas_for(gas_used: int) -> int {
    gas_used * 105 / 100
}

/// Prices a bundle whose frontrun and backrun used `front_gas` and `back_gas`
/// in simulation and earned `revenue`: the builder gets `bribe_bps` basis
/// points of it, spread over the expected gas. `None` when the expected gas
/// is zero or the fee cap leaves the `u128` range.
pub fn price_bundle(front_gas: u64, back_gas: u64, revenue: u128, bribe_bps: u128, base_fee: u64) -> (r: Option<BundlePricing>)
    requires
        bribe_bps <= 10000,
    ensures
        r.is_some() <==> realistic_gas_for(front_gas + back_gas) > 0 && base_fee + basis_points_of(
            revenue as int,
            bribe_bps as int,
        ) / realistic_gas_for(front_gas + back_gas) <= u128::MAX,
        r.is_some() ==> ({
            let p = r.unwrap();
            &&& p.gas_limit == gas_limit_for(front_gas + back_gas)
            &&& p.bribe == basis_points_of(revenue as int, bribe_bps as int)
            &&& p.max_priority_fee_per_gas == p.bribe as int / realistic_gas_for(front_gas + back_gas)
            &&& p.max_fee_per_gas == base_fee + p.max_priority_fee_per_gas
        }),
{
    let used = front_gas as u128 + back_gas as u128;
    let gas_limit = (used * 13 + 9) / 10;
    let realistic = used * 105 / 100;
    if realistic == 0 {
        return None;
    }
    let bribe = apply_basis_points(revenue, bribe_bps);
    let priority = bribe / realistic;
    proof {
        lemma_div_le(bribe as int, realistic as int);
        lemma_split_bps(revenue as int, bribe_bps as int, (revenue / 10000) as int, (revenue % 10000) as int);
    }
    if priority > u128::MAX - base_fee as u128 {
        return None;
    }
    Some(
        BundlePricing {
            gas_limit,
            bribe,
            max_priority_fee_per_gas: priority,
            max_fee_per_gas: base_fee as u128 + priority,
        },
    )
}

/// The gas limit is at least 1.3 times the gas observed in simulation, and
/// less than one gas above it.
pub proof fn lemma_gas_limit_margin(front_gas: int, back_gas: int)
    requires
        front_gas >= 0,
        back_gas >= 0,
    ensures
        gas_limit_for(front_gas + back_gas) * 10 >= 13 * (front_gas + back_gas),
        gas_limit_for(front_gas + back_gas) * 10 < 13 * (front_gas + back_gas) + 10,
{
    let u = front_gas + back_gas;
    let g = (u * 13 + 9) / 10;
    assert(g * 10 >= 13 * u && g * 10 < 13 * u + 10) by (nonlinear_arith)
        requires
            g == (u * 13 + 9) / 10,
            u >= 0,
    ;
}

/// One EIP-1559 transaction of a bundle: its sender, recipient and value,
/// its ordering, fees and gas.
#[derive(Clone, Copy, Debug, PartialEq, Eq, Structural)]
pub struct TxPlan {
    pub from: crate::address::Address,
    pub to: crate::address::Address,
    pub value: u128,
    pub nonce: u64,
    pub max_priority_fee_per_gas: u128,
    pub max_fee_per_gas: u128,
    pub gas_limit: u64,
}

/// The frontrun and backrun of a classical bundle, both sent by `owner` to
/// the bot at `bot` with no value. The owner's next nonce is `nonce`: the
/// frontrun pays no priority fee and caps its fee at the base fee; the
/// backrun comes next and pays the bribe.
pub open spec fn sando_plans(
    owner: crate::address::Address,
    bot: crate::address::Address,
    nonce: u64,
    base_fee: u128,
    max_priority_fee_per_gas: u128,
    max_fee_per_gas: u128,
    front_gas_limit: u64,
    back_gas_limit: u64,
) -> (TxPlan, TxPlan) {
    (
        TxPlan {
            from: owner,
            to: bot,
            value: 0,
            nonce,
            max_priority_fee_per_gas: 0,
            max_fee_per_gas: base_fee,
            gas_limit: front_gas_limit,
        },
        TxPlan {
            from: owner,
            to: bot,
            value: 0,
            nonce: (nonce + 1) as u64,
            max_priority_fee_per_gas,
            max_fee_per_gas,
            gas_limit: back_gas_limit,
        },
    )
}

/// Plans the two bundle transactions of `sando_plans`.
pub fn plan_sando_bundle(
    owner: crate::address::Address,
    bot: crate::address::Address,
    nonce: u64,
    base_fee: u128,
    max_priority_fee_per_gas: u128,
    max_fee_per_gas: u128,
    front_gas_limit: u64,
    back_gas_limit: u64,
) -> (r: (TxPlan, TxPlan))
    requires
        nonce < u64::MAX,
    ensures
        r == sando_plans(
            owner,
            bot,
            nonce,
            base_fee,
            max_priority_fee_per_gas,
            max_fee_per_gas,
            front_gas_limit,
            back_gas_limit,
        ),
{
    let front = TxPlan {
        from: owner,
        to: bot,
        value: 0,
        nonce,
        max_priority_fee_per_gas: 0,
        max_fee_per_gas: base_fee,
        gas_limit: front_gas_limit,
    };
    let back = TxPlan {
        from: owner,
        to: bot,
        value: 0,
        nonce: nonce + 1,
        max_priority_fee_per_gas,
        max_fee_per_gas,
        gas_limit: back_gas_limit,
    };
    (front, back)
}

/// In a classical bundle the backrun's nonce follows the frontrun's by one,
/// the frontrun pays no priority fee, and both go from the owner to the bot
/// with no value.
pub proof fn lemma_sando_bundle_order(
    owner: crate::address::Address,
    bot: crate::address::Address,
    nonce: u64,
    base_fee: u128,
    max_priority_fee_per_gas: u128,
    max_fee_per_gas: u128,
    front_gas_limit: u64,
    back_gas_limit: u64,
)
    requires
        nonce < u64::MAX,
    ensures
        ({
            let plans = sando_plans(
                owner,
                bot,
                nonce,
                base_fee,
                max_priority_fee_per_gas,
                max_fee_per_gas,
                front_gas_limit,
                back_gas_limit,
            );
            &&& plans.1.nonce == plans.0.nonce + 1
            &&& plans.0.max_priority_fee_per_gas == 0
            &&& plans.0.from == owner && plans.1.from == owner
            &&& plans.0.to == bot && plans.1.to == bot
            &&& plans.0.value == 0 && plans.1.value == 0
        }),
{
}

} // verus!

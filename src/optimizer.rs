use vstd::prelude::*;
use crate::address::Address;
use crate::amm::{get_v2_amount_out, v2_amount_out, v2_fits};
use crate::currency::{MainCurrency, currency_address, is_weth};
use crate::sandwich::{OptimizedSandwich, SimulatedSandwich};

verus! {

/// Revenue below which a sandwich is not worth sending: 0.02 ether.
pub const MIN_PROFIT: u128 = 20_000_000_000_000_000;

/// Search step below which the sweep stops, for wrapped ether (1e14 wei).
pub const WETH_TOLERANCE: u128 = 100_000_000_000_000;

/// Search step below which the sweep stops, for other main currencies.
pub const TOKEN_TOLERANCE: u128 = 1000;

/// Parts the search interval is cut into per round.
pub const INTERVALS: u128 = 5;

/// What one simulation of the sandwich at `amount_in` gave.
#[derive(Clone, Debug)]
pub struct SamplePoint {
    pub amount_in: u128,
    pub revenue: i128,
    pub front_gas_used: u64,
    pub back_gas_used: u64,
    pub front_calldata: Vec<u8>,
    pub back_calldata: Vec<u8>,
}

/// Whether two samples hold the same values.
pub open spec fn same_sample(a: SamplePoint, b: SamplePoint) -> bool {
    &&& a.amount_in == b.amount_in
    &&& a.revenue == b.revenue
    &&& a.front_gas_used == b.front_gas_used
    &&& a.back_gas_used == b.back_gas_used
    &&& a.front_calldata@ == b.front_calldata@
    &&& a.back_calldata@ == b.back_calldata@
}

impl SamplePoint {
    /// A copy of this sample.
    pub fn duplicate(&self) -> (r: SamplePoint)
        ensures
            same_sample(r, *self),
    {
        SamplePoint {
            amount_in: self.amount_in,
            revenue: self.revenue,
            front_gas_used: self.front_gas_used,
            back_gas_used: self.back_gas_used,
            front_calldata: copy_bytes(&self.front_calldata),
            back_calldata: copy_bytes(&self.back_calldata),
        }
    }
}

impl SamplePoint {
    /// The sample of a simulation at `amount_in`; a failed simulation counts
    /// as zero revenue and zero gas, so the sweep goes on.
    pub fn from_simulation(amount_in: u128, sim: Option<SimulatedSandwich>) -> (r: SamplePoint)
        ensures
            r.amount_in == amount_in,
            sim is None ==> r.revenue == 0 && r.front_gas_used == 0 && r.back_gas_used == 0
                && r.front_calldata@.len() == 0 && r.back_calldata@.len() == 0,
            sim matches Some(s) ==> {
                &&& r.revenue == s.revenue
                &&& r.front_gas_used == s.front_gas_used
                &&& r.back_gas_used == s.back_gas_used
                &&& r.front_calldata@ == s.front_calldata@
                &&& r.back_calldata@ == s.back_calldata@
            },
    {
        match sim {
            Some(s) => SamplePoint {
                amount_in,
                revenue: s.revenue,
                front_gas_used: s.front_gas_used,
                back_gas_used: s.back_gas_used,
                front_calldata: s.front_calldata,
                back_calldata: s.back_calldata,
            },
            None => SamplePoint {
                amount_in,
                revenue: 0,
                front_gas_used: 0,
                back_gas_used: 0,
                front_calldata: Vec::new(),
                back_calldata: Vec::new(),
            },
        }
    }
}

/// State of the bisecting sweep over the frontrun size: the interval still
/// searched and the best sample seen so far.
#[derive(Clone, Debug)]
pub struct Optimizer {
    pub min_amount_in: u128,
    pub max_amount_in: u128,
    pub tolerance: u128,
    pub best: Option<SamplePoint>,
}

/// Revenue of the best sample so far; zero before any sample beat zero.
pub open spec fn best_revenue(best: Option<SamplePoint>) -> int {
    match best {
        Some(p) => p.revenue as int,
        None => 0,
    }
}

/// Index of the first sample among the first `n` that beats every earlier
/// one and `floor`, or -1; and the revenue to beat after them.
pub open spec fn scan_best(samples: Seq<SamplePoint>, floor: int, n: int) -> (int, int)
    decreases n,
{
    if n <= 0 {
        (-1, floor)
    } else {
        let (idx, top) = scan_best(samples, floor, n - 1);
        if samples[n - 1].revenue > top {
            (n - 1, samples[n - 1].revenue as int)
        } else {
            (idx, top)
        }
    }
}

/// The interval of the next round around sample `idx` (the first sample when
/// none improved): from its left neighbour, or zero, to its right
/// neighbour, or itself.
pub open spec fn narrowed(samples: Seq<SamplePoint>, idx: int) -> (u128, u128) {
    let i = if idx < 0 { 0 } else { idx };
    (
        if i == 0 { 0 } else { samples[i - 1].amount_in },
        if i == samples.len() - 1 { samples[i].amount_in } else { samples[i + 1].amount_in },
    )
}

impl Optimizer {
    pub open spec fn wf(&self) -> bool {
        self.min_amount_in <= self.max_amount_in
    }

    /// A sweep over `[0, amount_in_ceiling]` for a sandwich counted in
    /// `main_currency`.
    pub fn new(main_currency: Address, amount_in_ceiling: u128) -> (r: Optimizer)
        ensures
            r.wf(),
            r.min_amount_in == 0,
            r.max_amount_in == amount_in_ceiling,
            r.tolerance == (if main_currency == currency_address(MainCurrency::WETH) {
                WETH_TOLERANCE
            } else {
                TOKEN_TOLERANCE
            }),
            r.best is None,
    {
        let tolerance = if is_weth(main_currency) {
            WETH_TOLERANCE
        } else {
            TOKEN_TOLERANCE
        };
        Optimizer { min_amount_in: 0, max_amount_in: amount_in_ceiling, tolerance, best: None }
    }

    /// The six evenly spaced sizes to simulate next; `None` once the step
    /// is no larger than the tolerance, and the sweep is over.
    pub fn next_inputs(&self) -> (r: Option<Vec<u128>>)
        requires
            self.wf(),
        ensures
            ({
                let step = (self.max_amount_in - self.min_amount_in) / 5;
                &&& r is None <==> step <= self.tolerance
                &&& r matches Some(v) ==> v@.len() == 6 && forall|i: int|
                    0 <= i < 6 ==> v@[i] == self.min_amount_in + i * step
            }),
    {
        let step = (self.max_amount_in - self.min_amount_in) / INTERVALS;
        if step <= self.tolerance {
            return None;
        }
        let mut inputs: Vec<u128> = Vec::new();
        let mut i: u128 = 0;
        while i <= INTERVALS
            invariant
                i <= 6,
                inputs@.len() == i,
                step == (self.max_amount_in - self.min_amount_in) / 5,
                self.wf(),
                forall|k: int| 0 <= k < i ==> inputs@[k] == self.min_amount_in + k * step,
            decreases 6 - i,
        {
            proof {
                assert(i * step <= 5 * step) by (nonlinear_arith)
                    requires
                        i <= 5,
                        step >= 0,
                ;
                assert(5 * step <= self.max_amount_in - self.min_amount_in) by (nonlinear_arith)
                    requires
                        step == (self.max_amount_in - self.min_amount_in) / 5,
                        self.max_amount_in >= self.min_amount_in,
                ;
            }
            inputs.push(self.min_amount_in + i * step);
            i = i + 1;
        }
        Some(inputs)
    }

    /// Takes the results of one round, keeps the best sample if one beats
    /// the best so far, and narrows the interval around it.
    pub fn absorb(&mut self, samples: &Vec<SamplePoint>)
        requires
            old(self).wf(),
            samples@.len() == 6,
            forall|i: int, j: int| 0 <= i <= j < 6 ==> samples@[i].amount_in <= samples@[j].amount_in,
        ensures
            final(self).wf(),
            final(self).tolerance == old(self).tolerance,
            ({
                let (idx, _) = scan_best(samples@, best_revenue(old(self).best), 6);
                &&& (final(self).min_amount_in, final(self).max_amount_in) == narrowed(samples@, idx)
                &&& idx < 0 ==> final(self).best == old(self).best
                &&& idx >= 0 ==> final(self).best is Some && same_sample(final(self).best.unwrap(), samples@[idx])
            }),
    {
        let ghost floor = best_revenue(self.best);
        let mut top: i128 = match &self.best {
            Some(p) => p.revenue,
            None => 0,
        };
        let mut idx: usize = 0;
        let mut found = false;
        let mut i: usize = 0;
        while i < samples.len()
            invariant
                i <= 6,
                samples@.len() == 6,
                scan_best(samples@, floor, i as int) == (if found { idx as int } else { -1 }, top as int),
                found ==> idx < i,
                !found ==> idx == 0,
            decreases 6 - i,
        {
            if samples[i].revenue > top {
                top = samples[i].revenue;
                idx = i;
                found = true;
            }
            i = i + 1;
        }
        if found {
            self.best = Some(samples[idx].duplicate());
        }
        self.min_amount_in = if idx == 0 {
            0
        } else {
            samples[idx - 1].amount_in
        };
        self.max_amount_in = if idx == samples.len() - 1 {
            samples[idx].amount_in
        } else {
            samples[idx + 1].amount_in
        };
    }

    /// The result of the sweep: the best sample, or a zeroed result when its
    /// revenue is under `MIN_PROFIT`.
    pub fn finish(&self) -> (r: OptimizedSandwich)
        ensures
            best_revenue(self.best) < MIN_PROFIT ==> r.amount_in == 0 && r.max_revenue == 0
                && r.front_gas_used == 0 && r.back_gas_used == 0 && r.front_calldata@.len() == 0
                && r.back_calldata@.len() == 0,
            best_revenue(self.best) >= MIN_PROFIT ==> ({
                let p = self.best.unwrap();
                &&& r.amount_in == p.amount_in
                &&& r.max_revenue == p.revenue
                &&& r.front_gas_used == p.front_gas_used
                &&& r.back_gas_used == p.back_gas_used
                &&& r.front_calldata@ == p.front_calldata@
                &&& r.back_calldata@ == p.back_calldata@
            }),
            r.max_revenue == 0 || r.max_revenue >= MIN_PROFIT,
    {
        match &self.best {
            Some(p) => {
                if p.revenue >= MIN_PROFIT as i128 {
                    return OptimizedSandwich {
                        amount_in: p.amount_in,
                        max_revenue: p.revenue as u128,
                        front_gas_used: p.front_gas_used,
                        back_gas_used: p.back_gas_used,
                        front_calldata: copy_bytes(&p.front_calldata),
                        back_calldata: copy_bytes(&p.back_calldata),
                    };
                }
            },
            None => {},
        }
        OptimizedSandwich {
            amount_in: 0,
            max_revenue: 0,
            front_gas_used: 0,
            back_gas_used: 0,
            front_calldata: Vec::new(),
            back_calldata: Vec::new(),
        }
    }
}

/// A copy of `b`.
pub fn copy_bytes(b: &Vec<u8>) -> (r: Vec<u8>)
    ensures
        r@ == b@,
{
    let mut out: Vec<u8> = Vec::new();
    let mut i: usize = 0;
    while i < b.len()
        invariant
            i <= b@.len(),
            out@ == b@.subrange(0, i as int),
        decreases b@.len() - i,
    {
        out.push(b[i]);
        i = i + 1;
    }
    out
}

/// Wrapped ether paid out for `amount` USDT by the USDT pair, whose token0
/// is WETH and token1 USDT; `reserves` are that pair's.
pub fn convert_usdt_to_weth(amount: u128, reserves: (u128, u128)) -> (r: Option<u128>)
    ensures
        r is Some <==> v2_fits(amount as int, reserves.1 as int, reserves.0 as int),
        r matches Some(v) ==> v == v2_amount_out(amount as int, reserves.1 as int, reserves.0 as int),
{
    get_v2_amount_out(amount, reserves.1, reserves.0)
}

/// Wrapped ether paid out for `amount` USDC by the USDC pair, whose token0
/// is USDC and token1 WETH; `reserves` are that pair's.
pub fn convert_usdc_to_weth(amount: u128, reserves: (u128, u128)) -> (r: Option<u128>)
    ensures
        r is Some <==> v2_fits(amount as int, reserves.0 as int, reserves.1 as int),
        r matches Some(v) ==> v == v2_amount_out(amount as int, reserves.0 as int, reserves.1 as int),
{
    get_v2_amount_out(amount, reserves.0, reserves.1)
}

/// Sum of the first `n` balances before the sandwich, in native units.
pub open spec fn sum_before(values: Seq<(u128, u128)>, n: int) -> int
    decreases n,
{
    if n <= 0 {
        0
    } else {
        sum_before(values, n - 1) + values[n - 1].0
    }
}

/// Sum of the first `n` balances after the sandwich, in native units.
pub open spec fn sum_after(values: Seq<(u128, u128)>, n: int) -> int
    decreases n,
{
    if n <= 0 {
        0
    } else {
        sum_after(values, n - 1) + values[n - 1].1
    }
}

/// Prefix sums of balances only grow.
proof fn lemma_sums_grow(values: Seq<(u128, u128)>, k: int, n: int)
    requires
        0 <= k <= n <= values.len(),
    ensures
        0 <= sum_before(values, k) <= sum_before(values, n),
        0 <= sum_after(values, k) <= sum_after(values, n),
    decreases n - k,
{
    if k < n {
        lemma_sums_grow(values, k, n - 1);
    } else {
        lemma_sums_nonneg(values, n);
    }
}

/// Prefix sums of balances are non-negative.
proof fn lemma_sums_nonneg(values: Seq<(u128, u128)>, n: int)
    requires
        0 <= n <= values.len(),
    ensures
        0 <= sum_before(values, n),
        0 <= sum_after(values, n),
    decreases n,
{
    if n > 0 {
        lemma_sums_nonneg(values, n - 1);
    }
}

/// Revenue of a simulated sandwich: the gain in main currencies, counted in
/// native units, less the native currency spent on gas.
pub open spec fn revenue_of(eth_before: int, eth_after: int, values: Seq<(u128, u128)>) -> int {
    (sum_after(values, values.len() as int) - sum_before(values, values.len() as int)) - (eth_before
        - eth_after)
}

/// The absolute value of `x`.
pub open spec fn abs_int(x: int) -> int {
    if x < 0 {
        -x
    } else {
        x
    }
}

/// Computes `revenue_of` from the native balance before and after and the
/// (before, after) native value of each main currency used; `None` only
/// when a sum leaves `u128`, or the gain, the gas cost or the revenue leaves
/// `i128`.
pub fn sandwich_revenue(eth_before: u128, eth_after: u128, values: &Vec<(u128, u128)>) -> (r: Option<i128>)
    ensures
        sum_before(values@, values@.len() as int) <= u128::MAX && sum_after(values@, values@.len() as int)
            <= u128::MAX && abs_int(sum_after(values@, values@.len() as int) - sum_before(
            values@,
            values@.len() as int,
        )) <= i128::MAX && abs_int(eth_before - eth_after) <= i128::MAX && i128::MIN <= revenue_of(
            eth_before as int,
            eth_after as int,
            values@,
        ) <= i128::MAX ==> r is Some,
        r matches Some(v) ==> v == revenue_of(eth_before as int, eth_after as int, values@),
{
    let mut before: u128 = 0;
    let mut after: u128 = 0;
    let mut i: usize = 0;
    while i < values.len()
        invariant
            i <= values@.len(),
            before == sum_before(values@, i as int),
            after == sum_after(values@, i as int),
        decreases values@.len() - i,
    {
        let (b, a) = values[i];
        if b > u128::MAX - before || a > u128::MAX - after {
            proof {
                lemma_sums_grow(values@, i + 1, values@.len() as int);
            }
            return None;
        }
        before = before + b;
        after = after + a;
        i = i + 1;
    }
    let gain: i128 = if after >= before {
        if after - before > i128::MAX as u128 {
            return None;
        }
        (after - before) as i128
    } else {
        if before - after > i128::MAX as u128 {
            return None;
        }
        -((before - after) as i128)
    };
    let gas: i128 = if eth_before >= eth_after {
        if eth_before - eth_after > i128::MAX as u128 {
            return None;
        }
        (eth_before - eth_after) as i128
    } else {
        if eth_after - eth_before > i128::MAX as u128 {
            return None;
        }
        -((eth_after - eth_before) as i128)
    };
    gain.checked_sub(gas)
}

} // verus!

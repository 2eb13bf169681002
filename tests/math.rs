use sandooo::amm::{get_v2_amount_out, get_v3_amount_out, get_v3_pool_reserves, pool_reserves};
use sandooo::pools::DexVariant;
use sandooo::wide::mul_div;
use sandooo::fees::{
    calculate_flashloan_fee, calculate_next_block_base_fee, flashloan_adjusted_revenue,
    next_base_fee_with_jitter, plan_sando_bundle, price_bundle,
};
use sandooo::optimizer::{convert_usdc_to_weth, convert_usdt_to_weth, sandwich_revenue};

#[test]
fn v2_amount_out_of_zero_input_is_zero() {
    assert_eq!(get_v2_amount_out(0, 1_000_000, 2_000_000), Some(0));
    assert_eq!(get_v2_amount_out(0, 0, 0), Some(0));
    assert_eq!(get_v2_amount_out(0, u128::MAX, 5), Some(0));
    assert_eq!(get_v3_amount_out(0, u128::MAX, 5, 3000), Some(0));
}

#[test]
fn v2_amount_out_exact_value() {
    // 1000 * 997 * 1000 / (1000 * 1000 + 1000 * 997) = 997000000 / 1997000 = 499
    assert_eq!(get_v2_amount_out(1000, 1000, 1000), Some(499));
    assert_eq!(get_v2_amount_out(10, 0, 500), Some(500));
}

#[test]
fn v2_amount_out_grows_with_input() {
    let a = get_v2_amount_out(1_000_000, 50_000_000, 80_000_000).unwrap();
    let b = get_v2_amount_out(2_000_000, 50_000_000, 80_000_000).unwrap();
    assert!(b > a);
}

#[test]
fn v2_scaling_all_three_scales_output() {
    let one = get_v2_amount_out(1000, 1000, 1000).unwrap();
    let two = get_v2_amount_out(2000, 2000, 2000).unwrap();
    assert!(two >= 2 * one && two < 2 * one + 2);
}

#[test]
fn v2_amount_out_overflow_is_none() {
    assert_eq!(get_v2_amount_out(u128::MAX, 1, 1), None);
    assert_eq!(get_v2_amount_out(1, u128::MAX, 1), None);
}

#[test]
fn v3_amount_out_exact_value() {
    // net = 1_000_000 * (1e6 - 3000) / 1e6 = 997000
    // 997000 * 1_000_000 / (1_000_000 * 1e6 + 997000) = 0
    assert_eq!(get_v3_amount_out(1_000_000, 1_000_000, 1_000_000, 3000), Some(0));
    // net = 997e9; out = 997e9 * 5e12 / (1e6 * 1e6 + 997e9)
    assert_eq!(
        get_v3_amount_out(1_000_000_000_000, 1_000_000, 5_000_000_000_000, 3000),
        Some(2_496_244_366_549)
    );
    assert_eq!(get_v3_amount_out(0, 5, 5, 500), Some(0));
}

#[test]
fn base_fee_unchanged_at_target() {
    assert_eq!(next_base_fee_with_jitter(15_000_000, 30_000_000, 1_000_000_000, 0), 1_000_000_000);
}

#[test]
fn base_fee_moves_with_usage() {
    // full block: + base * 15M / 15M / 8 = + 12.5%
    assert_eq!(next_base_fee_with_jitter(30_000_000, 30_000_000, 800, 0), 900);
    // empty block: - 12.5%
    assert_eq!(next_base_fee_with_jitter(0, 30_000_000, 800, 3), 703);
    // a gas limit below two makes the target one
    assert_eq!(next_base_fee_with_jitter(1, 1, 80, 0), 80);
}

#[test]
fn base_fee_jitter_stays_in_range() {
    for _ in 0..50 {
        let r = calculate_next_block_base_fee(15_000_000, 30_000_000, 1_000);
        assert!(r >= 1_000 && r <= 1_008);
    }
}

#[test]
fn flashloan_fee_is_nine_basis_points() {
    assert_eq!(calculate_flashloan_fee(100_000_000_000_000_000_000), 90_000_000_000_000_000);
    assert_eq!(calculate_flashloan_fee(1_111), 0);
    assert_eq!(calculate_flashloan_fee(u128::MAX), u128::MAX / 10000 * 9 + (u128::MAX % 10000) * 9 / 10000);
}

#[test]
fn flashloan_fee_gate_rejects_and_accepts() {
    let amount_in = 100_000_000_000_000_000_000u128;
    assert_eq!(flashloan_adjusted_revenue(50_000_000_000_000_000, amount_in), None);
    assert_eq!(
        flashloan_adjusted_revenue(200_000_000_000_000_000, amount_in),
        Some(110_000_000_000_000_000)
    );
    assert_eq!(flashloan_adjusted_revenue(90_000_000_000_000_000, amount_in), None);
    assert_eq!(flashloan_adjusted_revenue(-5, 0), None);
}

#[test]
fn bundle_pricing_exact_values() {
    let p = price_bundle(100_000, 100_000, 1_000_000_000_000_000, 9900, 30).unwrap();
    assert_eq!(p.gas_limit, 260_000);
    assert_eq!(p.bribe, 990_000_000_000_000);
    assert_eq!(p.max_priority_fee_per_gas, 990_000_000_000_000 / 210_000);
    assert_eq!(p.max_fee_per_gas, 30 + 990_000_000_000_000 / 210_000);
    assert!(p.gas_limit * 10 >= 13 * 200_000);
    assert_eq!(price_bundle(0, 0, 1000, 9900, 30), None);
    // the gas limit is rounded up: never below 1.3 times the observed gas
    assert_eq!(price_bundle(1, 0, 1000, 9900, 30).map(|p| p.gas_limit), Some(2));
    assert_eq!(price_bundle(100, 1, 1000, 9900, 30).unwrap().gas_limit, 132);
}

#[test]
fn classical_bundle_nonces_and_fees() {
    let owner = sandooo::address::Address { hi: 1, lo: 1 };
    let bot = sandooo::address::Address { hi: 2, lo: 2 };
    let (front, back) = plan_sando_bundle(owner, bot, 41, 30, 7, 37, 150_000, 160_000);
    assert_eq!((front.from, front.to, front.value), (owner, bot, 0));
    assert_eq!((back.from, back.to, back.value), (owner, bot, 0));
    assert_eq!(front.nonce, 41);
    assert_eq!(back.nonce, 42);
    assert_eq!(front.max_priority_fee_per_gas, 0);
    assert_eq!(front.max_fee_per_gas, 30);
    assert_eq!(back.max_priority_fee_per_gas, 7);
    assert_eq!(back.max_fee_per_gas, 37);
    assert_eq!(front.gas_limit, 150_000);
    assert_eq!(back.gas_limit, 160_000);
}

#[test]
fn stable_conversion_uses_pair_orientation() {
    // USDT pair: token0 WETH, token1 USDT; reserves (weth, usdt)
    assert_eq!(convert_usdt_to_weth(1000, (1000, 1000)), Some(499));
    assert_eq!(convert_usdt_to_weth(1000, (5000, 1000)), get_v2_amount_out(1000, 1000, 5000));
    // USDC pair: token0 USDC, token1 WETH; reserves (usdc, weth)
    assert_eq!(convert_usdc_to_weth(1000, (1000, 5000)), get_v2_amount_out(1000, 1000, 5000));
}

#[test]
fn revenue_is_gain_less_gas() {
    assert_eq!(sandwich_revenue(1000, 900, &vec![(500, 800), (100, 100)]), Some(200));
    assert_eq!(sandwich_revenue(1000, 1000, &vec![(800, 500)]), Some(-300));
    assert_eq!(sandwich_revenue(1000, 990, &vec![]), Some(-10));
    assert_eq!(sandwich_revenue(0, 0, &vec![(0, u128::MAX), (0, 1)]), None);
}

#[test]
fn v2_amount_out_on_realistic_sizes() {
    // 1e20 in against 1e24 / 5e30: the product exceeds u128 but the quote does not
    assert_eq!(
        get_v2_amount_out(100_000_000_000_000_000_000, 1_000_000_000_000_000_000_000_000, 5_000_000_000_000_000_000_000_000_000_000),
        Some(498_450_304_504_640_887_303_535_837)
    );
}

#[test]
fn mul_div_exact_and_overflow() {
    assert_eq!(mul_div(u128::MAX, u128::MAX, u128::MAX), Some(u128::MAX));
    assert_eq!(mul_div(u128::MAX, 2, 3), Some(u128::MAX / 3 * 2));
    assert_eq!(mul_div(u128::MAX, 2, 1), None);
    assert_eq!(mul_div(5, 7, 0), None);
    assert_eq!(mul_div(10, 10, 7), Some(14));
}

#[test]
fn v3_reserves_are_synthesized_from_price_and_liquidity() {
    let q96: u128 = 1 << 96;
    assert_eq!(get_v3_pool_reserves(q96, 1_000_000_000_000_000_000), (1_000_000_000_000_000_000, 1_000_000_000_000_000_000));
    assert_eq!(
        get_v3_pool_reserves(1_700_000_000_000_000_000_000_000_000_000_000, 10_000_000_000_000_000_000_000),
        (466_048_014_789_790_221, 214_570_166_220_115_211_071_990_169)
    );
    assert_eq!(get_v3_pool_reserves(0, 5), (0, 0));
}

#[test]
fn reserves_fall_back_to_the_other_formula() {
    let q96: u128 = 1 << 96;
    // getReserves() reverted on a v3 pool: synthesized from slot0 and liquidity
    assert_eq!(pool_reserves(DexVariant::UniswapV2, None, Some((q96, 1000))), Some((1000, 1000)));
    assert_eq!(pool_reserves(DexVariant::UniswapV2, Some((3, 4)), Some((q96, 1000))), Some((3, 4)));
    assert_eq!(pool_reserves(DexVariant::UniswapV3, Some((3, 4)), Some((q96, 1000))), Some((1000, 1000)));
    assert_eq!(pool_reserves(DexVariant::UniswapV3, Some((3, 4)), None), Some((3, 4)));
    assert_eq!(pool_reserves(DexVariant::UniswapV3, None, None), None);
}

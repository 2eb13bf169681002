use sandooo::address::Address;
use sandooo::classifier::{classify_selector, classify_static, classify_transaction, is_pool_contract, TxKind};
use sandooo::currency::{return_main_and_target_currency, token_address_to_name, MainCurrency};
use sandooo::decode::{decode_packed_path, get_method_id_hex, get_token_paths};
use sandooo::pools::{filter_pools_by_tokens, get_pool_by_tokens, DexVariant, Pool};
use sandooo::routers::{is_known_router, is_known_swap_selector};
use sandooo::swap::{extract_swap_info, pool_direct_swap, Hash32, SwapDirection, SwapLog};

fn addr_bytes(a: Address) -> Vec<u8> {
    let mut v = a.hi.to_be_bytes().to_vec();
    v.extend_from_slice(&a.lo.to_be_bytes());
    v
}

fn word(v: u128) -> Vec<u8> {
    let mut w = vec![0u8; 16];
    w.extend_from_slice(&v.to_be_bytes());
    w
}

fn addr_word(a: Address) -> Vec<u8> {
    let mut w = vec![0u8; 12];
    w.extend_from_slice(&addr_bytes(a));
    w
}

fn weth() -> Address {
    MainCurrency::WETH.address()
}

fn usdc() -> Address {
    MainCurrency::USDC.address()
}

fn v2_router() -> Address {
    Address { hi: 0x7a250d56, lo: 0x30b4cf539739df2c5dacb4c659f2488d }
}

fn usdc_weth_pool() -> Pool {
    Pool {
        id: 1,
        address: Address { hi: 0xb4e16d01, lo: 0x68e52d35cacd2c6185b44281ec28c9dc },
        version: DexVariant::UniswapV2,
        token0: usdc(),
        token1: weth(),
        fee: 3000,
        block_number: 10_008_355,
        timestamp: 1_588_710_145,
    }
}

fn swap_exact_eth_for_tokens(path: &[Address]) -> Vec<u8> {
    let mut d = vec![0x7f, 0xf3, 0x6a, 0xb5];
    d.extend(word(1));
    d.extend(word(0x80));
    d.extend(addr_word(Address { hi: 0, lo: 0xbeef }));
    d.extend(word(1_700_000_000));
    d.extend(word(path.len() as u128));
    for a in path {
        d.extend(addr_word(*a));
    }
    d
}

#[test]
fn short_calldata_selector_is_other() {
    assert_eq!(classify_selector(&[]), TxKind::Other);
    assert_eq!(classify_selector(&[0x7f, 0xf3, 0x6a]), TxKind::Other);
}

#[test]
fn empty_calldata_is_eth_transfer() {
    let to = Some(Address { hi: 1, lo: 2 });
    assert_eq!(classify_static(to, &[]), Some(TxKind::EthTransfer));
    assert_eq!(classify_transaction(to, &[], None), TxKind::EthTransfer);
}

#[test]
fn selectors_are_classified() {
    assert_eq!(classify_selector(&[0x09, 0x5e, 0xa7, 0xb3, 0]), TxKind::Erc20Approve);
    assert_eq!(classify_selector(&[0xa9, 0x05, 0x9c, 0xbb]), TxKind::Erc20Transfer);
    assert_eq!(classify_selector(&[0x7f, 0xf3, 0x6a, 0xb5]), TxKind::Swap);
    assert_eq!(classify_selector(&[1, 2, 3, 4]), TxKind::Other);
    assert!(is_known_swap_selector(&[0x12, 0x8a, 0xcb, 0x08]));
    assert!(!is_known_swap_selector(&[0x09, 0x5e, 0xa7, 0xb3]));
}

#[test]
fn known_router_is_a_swap_whatever_the_calldata() {
    assert!(is_known_router(&v2_router()));
    assert_eq!(classify_transaction(Some(v2_router()), &[], None), TxKind::Swap);
}

#[test]
fn bytecode_heuristics_decide_unknown_calls() {
    let to = Some(Address { hi: 9, lo: 9 });
    let input = [1u8, 2, 3, 4, 5];
    assert_eq!(classify_static(to, &input), None);
    let mut pool_code = vec![0u8; 120];
    pool_code[10..14].copy_from_slice(&[0x0d, 0xfe, 0x16, 0x81]);
    pool_code[50..54].copy_from_slice(&[0xd2, 0x12, 0x20, 0xa7]);
    assert!(is_pool_contract(&pool_code));
    assert_eq!(classify_transaction(to, &input, Some(&pool_code)), TxKind::Swap);
    assert_eq!(classify_transaction(to, &input, Some(&vec![0u8; 1001])), TxKind::Swap);
    assert_eq!(classify_transaction(to, &input, Some(&vec![0u8; 1000])), TxKind::Other);
    assert_eq!(classify_transaction(to, &input, None), TxKind::Other);
    assert_eq!(classify_transaction(None, &input, None), TxKind::Other);
}

#[test]
fn method_id_is_lowercase_hex() {
    assert_eq!(get_method_id_hex(&[0x7f, 0xf3, 0x6a, 0xb5, 0x00]), Some("7ff36ab5".to_string()));
    assert_eq!(get_method_id_hex(&[0x7f, 0xf3]), None);
}

#[test]
fn v2_router_path_is_decoded() {
    let data = swap_exact_eth_for_tokens(&[weth(), usdc()]);
    let paths = get_token_paths(&data);
    assert_eq!(paths, vec![vec![weth(), usdc()]]);
    let short = swap_exact_eth_for_tokens(&[weth()]);
    assert!(get_token_paths(&short).is_empty());
    assert!(get_token_paths(&data[..100]).is_empty());
}

#[test]
fn v3_packed_path_is_decoded() {
    let mut b = addr_bytes(weth());
    b.extend_from_slice(&[0x00, 0x0b, 0xb8]);
    b.extend(addr_bytes(usdc()));
    assert_eq!(decode_packed_path(&b), vec![weth(), usdc()]);
    assert_eq!(decode_packed_path(&b[..19]), Vec::<Address>::new());
}

#[test]
fn v3_exact_input_path_is_decoded() {
    let mut path = addr_bytes(usdc());
    path.extend_from_slice(&[0x00, 0x01, 0xf4]);
    path.extend(addr_bytes(weth()));
    let mut d = vec![0xc0, 0x4b, 0x8d, 0x59];
    d.extend(word(0x20));
    d.extend(word(0x80));
    d.extend(addr_word(Address { hi: 0, lo: 1 }));
    d.extend(word(5));
    d.extend(word(1));
    d.extend(word(path.len() as u128));
    d.extend(path.clone());
    d.extend(vec![0u8; 64 - path.len() % 32]);
    assert_eq!(get_token_paths(&d), vec![vec![usdc(), weth()]]);
}

#[test]
fn v2_buy_through_router_gives_one_swap() {
    let pools = vec![usdc_weth_pool()];
    let tx = Hash32 { hi: 7, lo: 7 };
    let data = swap_exact_eth_for_tokens(&[weth(), usdc()]);
    let swaps = extract_swap_info(tx, v2_router(), &data, &pools, None);
    assert_eq!(swaps.len(), 1);
    assert_eq!(swaps[0].main_currency, weth());
    assert_eq!(swaps[0].target_token, usdc());
    assert_eq!(swaps[0].direction, SwapDirection::Buy);
    assert!(!swaps[0].token0_is_main);
    assert_eq!(swaps[0].target_pair, usdc_weth_pool().address);
    let sell = swap_exact_eth_for_tokens(&[usdc(), weth()]);
    let swaps = extract_swap_info(tx, v2_router(), &sell, &pools, None);
    assert_eq!(swaps[0].direction, SwapDirection::Sell);
}

#[test]
fn direct_pool_swap_without_main_currency_gives_nothing() {
    let a = Address { hi: 0x11, lo: 0x22 };
    let b = Address { hi: 0x33, lo: 0x44 };
    let pool = Pool { token0: a, token1: b, ..usdc_weth_pool() };
    assert_eq!(pool_direct_swap(Hash32 { hi: 0, lo: 1 }, pool.address, &pool), None);
    let data = vec![0x02, 0x2c, 0x0d, 0x9f, 0, 0];
    let swaps = extract_swap_info(Hash32 { hi: 0, lo: 1 }, pool.address, &data, &vec![pool], None);
    assert!(swaps.is_empty());
}

#[test]
fn direct_pool_swap_picks_heavier_main_currency() {
    let pool = usdc_weth_pool();
    let data = vec![0x02, 0x2c, 0x0d, 0x9f];
    let swaps = extract_swap_info(Hash32 { hi: 0, lo: 2 }, pool.address, &data, &vec![pool], None);
    assert_eq!(swaps.len(), 1);
    assert_eq!(swaps[0].main_currency, weth());
    assert!(!swaps[0].token0_is_main);
}

#[test]
fn trace_logs_are_the_fallback_and_deduplicated() {
    let pool = usdc_weth_pool();
    let topic = Hash32 { hi: 0xd78ad95fa46c994b6551d0da85fc275f, lo: 0xe613ce37657fb8d5e3d130840159d822 };
    let logs = vec![
        SwapLog { address: pool.address, topic0: Some(topic) },
        SwapLog { address: pool.address, topic0: Some(topic) },
        SwapLog { address: pool.address, topic0: Some(Hash32 { hi: 1, lo: 1 }) },
        SwapLog { address: Address { hi: 5, lo: 5 }, topic0: Some(topic) },
    ];
    let swaps = extract_swap_info(Hash32 { hi: 0, lo: 3 }, Address { hi: 8, lo: 8 }, &[1, 2, 3, 4], &vec![pool], Some(&logs));
    assert_eq!(swaps.len(), 1);
    assert_eq!(swaps[0].target_pair, pool.address);
}

#[test]
fn pools_with_unknown_tokens_are_filtered() {
    let good = usdc_weth_pool();
    let bad = Pool { token1: Address { hi: 3, lo: 3 }, id: 2, ..usdc_weth_pool() };
    let kept = filter_pools_by_tokens(&vec![good, bad], &vec![weth(), usdc()]);
    assert_eq!(kept, vec![good]);
    assert_eq!(get_pool_by_tokens(&vec![bad, good], weth(), usdc()), Some(good));
}

#[test]
fn main_and_target_split() {
    let other = Address { hi: 1, lo: 1 };
    assert_eq!(return_main_and_target_currency(usdc(), weth()), Some((weth(), usdc())));
    assert_eq!(return_main_and_target_currency(other, usdc()), Some((usdc(), other)));
    assert_eq!(return_main_and_target_currency(other, other), None);
    assert_eq!(token_address_to_name(weth()), "WETH");
    assert_eq!(token_address_to_name(other), "Unknown");
    assert_eq!(MainCurrency::new(usdc()), MainCurrency::USDC);
    assert_eq!(MainCurrency::USDT.decimals(), 6);
    assert_eq!(MainCurrency::WBTC.weight(), 6);
}

#[test]
fn v3_multi_hop_path_gives_a_swap_per_hop() {
    let wbtc = MainCurrency::WBTC.address();
    let other = Address { hi: 0x77, lo: 0x77 };
    let pool_a = usdc_weth_pool();
    let pool_b = Pool { id: 2, address: Address { hi: 0x55, lo: 0x55 }, token0: wbtc, token1: weth(), ..usdc_weth_pool() };
    let pool_c = Pool { id: 3, address: Address { hi: 0x66, lo: 0x66 }, token0: other, token1: wbtc, ..usdc_weth_pool() };
    let mut path = addr_bytes(usdc());
    path.extend_from_slice(&[0x00, 0x01, 0xf4]);
    path.extend(addr_bytes(weth()));
    path.extend_from_slice(&[0x00, 0x0b, 0xb8]);
    path.extend(addr_bytes(wbtc));
    path.extend_from_slice(&[0x00, 0x0b, 0xb8]);
    path.extend(addr_bytes(other));
    let mut d = vec![0xc0, 0x4b, 0x8d, 0x59];
    d.extend(word(0x20));
    d.extend(word(0x80));
    d.extend(addr_word(Address { hi: 0, lo: 1 }));
    d.extend(word(5));
    d.extend(word(1));
    d.extend(word(path.len() as u128));
    d.extend(path.clone());
    d.extend(vec![0u8; 32 - path.len() % 32]);
    let v3_router = Address { hi: 0xe592427a, lo: 0x0aece92de3edee1f18e0157c05861564 };
    let swaps = extract_swap_info(Hash32 { hi: 0, lo: 9 }, v3_router, &d, &vec![pool_a, pool_b, pool_c], None);
    assert_eq!(swaps.len(), 3);
    assert_eq!(swaps[0].target_pair, pool_a.address);
    assert_eq!(swaps[0].direction, SwapDirection::Sell);
    assert_eq!(swaps[1].target_pair, pool_b.address);
    assert_eq!(swaps[1].direction, SwapDirection::Buy);
    assert_eq!(swaps[2].target_pair, pool_c.address);
    assert_eq!(swaps[2].main_currency, wbtc);
    assert_eq!(swaps[2].direction, SwapDirection::Buy);
    // a v2 router path of three tokens is left out
    let v2 = swap_exact_eth_for_tokens(&[weth(), usdc(), wbtc]);
    assert!(extract_swap_info(Hash32 { hi: 0, lo: 9 }, v2_router(), &v2, &vec![pool_a, pool_b], None).is_empty());
}

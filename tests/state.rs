use sandooo::address::Address;
use sandooo::calldata::{encode_recover_eth, encode_recover_token, build_flashloan_payload, create_flashloan_sandwich_calldata, encode_flashloan_call, encode_packed, TradeEntry};
use sandooo::config::Env;
use sandooo::currency::MainCurrency;
use sandooo::mempool::{check_gas_gate, NewBlock, PendingTxs, SimulatedBundleIds};
use sandooo::optimizer::{Optimizer, SamplePoint, MIN_PROFIT};
use sandooo::cache::parse_address;
use sandooo::pools::{merge_scanned_pools, sort_pools_by_block, assign_pool_ids, block_ranges, pool_from_pair_created, resume_point, DexVariant, Pool};
use sandooo::sandwich::{seed_amounts, BatchSandwich, OptimizedSandwich, SimulatedSandwich, Sandwich, VictimTx};
use sandooo::strategy::{flashloan_candidates, rank_candidates, still_pending, Candidate};
use sandooo::swap::{Hash32, SwapDirection, SwapInfo};
use sandooo::tokens::{chainlink_price_e8, missing_tokens, token_from_calls, TokenError, TokenRegistry};

fn sample(amount_in: u128, revenue: i128) -> SamplePoint {
    SamplePoint {
        amount_in,
        revenue,
        front_gas_used: 100,
        back_gas_used: 120,
        front_calldata: vec![1],
        back_calldata: vec![2],
    }
}

fn swap_info(tx: u128) -> SwapInfo {
    SwapInfo {
        tx_hash: Hash32 { hi: 0, lo: tx },
        target_pair: Address { hi: 0xb4e16d01, lo: 0x68e52d35cacd2c6185b44281ec28c9dc },
        main_currency: MainCurrency::WETH.address(),
        target_token: MainCurrency::USDC.address(),
        version: DexVariant::UniswapV2,
        token0_is_main: false,
        fee: 3000,
        direction: SwapDirection::Buy,
    }
}

fn sandwich(tx: u128, amount_in: u128, optimized: Option<(u128, u128)>) -> Sandwich {
    Sandwich {
        amount_in,
        swap_info: swap_info(tx),
        victim_tx: VictimTx {
            tx_hash: Hash32 { hi: 0, lo: tx },
            from: Address { hi: 0, lo: 1 },
            to: Address { hi: 0, lo: 2 },
            data: vec![],
            value: 0,
            gas_price: 0,
            gas_limit: None,
        },
        optimized_sandwich: optimized.map(|(a, r)| OptimizedSandwich {
            amount_in: a,
            max_revenue: r,
            front_gas_used: 1,
            back_gas_used: 1,
            front_calldata: vec![],
            back_calldata: vec![],
        }),
    }
}

#[test]
fn packed_calldata_layout() {
    let e = TradeEntry {
        zero_for_one: true,
        pair: Address { hi: 0x01020304, lo: 5 },
        token_in: Address { hi: 0, lo: 0xff },
        amount_in: 7,
        amount_out: 0x0100,
    };
    let data = encode_packed(0x0a0b, &vec![e, e]);
    assert_eq!(data.len(), 8 + 2 * 105);
    assert_eq!(&data[..8], &[0, 0, 0, 0, 0, 0, 0x0a, 0x0b]);
    assert_eq!(data[8], 1);
    assert_eq!(&data[9..13], &[1, 2, 3, 4]);
    assert_eq!(data[28], 5);
    assert_eq!(data[48], 0xff);
    assert_eq!(data[80], 7);
    assert_eq!(&data[111..113], &[1, 0]);
}

#[test]
fn flashloan_payload_shape_is_checked() {
    let e = TradeEntry { zero_for_one: false, pair: Address { hi: 1, lo: 2 }, token_in: Address { hi: 3, lo: 4 }, amount_in: 9, amount_out: 8 };
    let front = encode_packed(5, &vec![e]);
    let back = encode_packed(5, &vec![e]);
    let payload = build_flashloan_payload(5, &front, &back).unwrap();
    assert_eq!(payload.len(), 8 + 2 * 105);
    assert_eq!(&payload[8..113], &front[8..]);
    assert_eq!(build_flashloan_payload(5, &vec![], &vec![]), None);
    assert_eq!(build_flashloan_payload(5, &vec![0u8; 20], &vec![]), None);
}

#[test]
fn frontrun_and_backrun_encoding() {
    let mut batch = BatchSandwich::new(MainCurrency::WETH.address());
    batch.sandwiches.push(sandwich(1, 1001, None));
    let pair = swap_info(1).target_pair;
    // token0 USDC, token1 WETH: the frontrun pays WETH, so reserves are read (r1, r0)
    let reserves = vec![(pair, (5_000_000u128, 1_000_000u128))];
    let entries = batch.frontrun_entries(&reserves);
    let (calldata, victims, seeds) = batch.encode_frontrun_tx(77, &reserves).unwrap();
    assert_eq!(victims.len(), 1);
    assert_eq!(seeds, vec![(MainCurrency::WETH.address(), 1000)]);
    assert_eq!(entries.len(), 1);
    assert!(!entries[0].zero_for_one);
    assert_eq!(entries[0].amount_in, 1000);
    assert_eq!(entries[0].token_in, MainCurrency::WETH.address());
    assert_eq!(Some(entries[0].amount_out), sandooo::amm::get_v2_amount_out(1000, 1_000_000, 5_000_000));
    assert_eq!(calldata, encode_packed(77, &entries));
    let balances = vec![(MainCurrency::USDC.address(), 4000u128)];
    let back = batch.encode_backrun_tx(78, &reserves, &balances);
    let expected = TradeEntry {
        zero_for_one: true,
        pair,
        token_in: MainCurrency::USDC.address(),
        amount_in: 3999,
        amount_out: sandooo::amm::get_v2_amount_out(3999, 5_000_000, 1_000_000).unwrap(),
    };
    assert_eq!(back, encode_packed(78, &vec![expected]));
    let (none, _, seeds) = batch.encode_frontrun_tx(77, &vec![]).unwrap();
    assert!(seeds.is_empty());
    assert_eq!(none.len(), 8);
    assert_eq!(batch.victim_tx_hashes(), vec![Hash32 { hi: 0, lo: 1 }]);
    assert_eq!(batch.target_v2_pairs(), vec![pair]);
}

#[test]
fn optimizer_sweeps_and_narrows() {
    let mut o = Optimizer::new(MainCurrency::WETH.address(), 1_000_000_000_000_000_000);
    let inputs = o.next_inputs().unwrap();
    assert_eq!(inputs, vec![0, 200_000_000_000_000_000, 400_000_000_000_000_000, 600_000_000_000_000_000, 800_000_000_000_000_000, 1_000_000_000_000_000_000]);
    let revenues = [0i128, 10, 30_000_000_000_000_000, 20, -5, 0];
    let samples: Vec<SamplePoint> = inputs.iter().zip(revenues.iter()).map(|(a, r)| sample(*a, *r)).collect();
    o.absorb(&samples);
    assert_eq!(o.min_amount_in, 200_000_000_000_000_000);
    assert_eq!(o.max_amount_in, 600_000_000_000_000_000);
    let r = o.finish();
    assert_eq!(r.amount_in, 400_000_000_000_000_000);
    assert_eq!(r.max_revenue, 30_000_000_000_000_000);
    let small = Optimizer::new(MainCurrency::WETH.address(), 500_000_000_000_000);
    assert_eq!(small.next_inputs(), None);
}

#[test]
fn optimizer_profit_floor_zeroes_result() {
    let mut o = Optimizer::new(MainCurrency::WETH.address(), 1_000_000_000_000_000_000);
    let inputs = o.next_inputs().unwrap();
    let revenues = [0i128, 19_000_000_000_000_000, 5, 1, 0, -1];
    let samples: Vec<SamplePoint> = inputs.iter().zip(revenues.iter()).map(|(a, r)| sample(*a, *r)).collect();
    o.absorb(&samples);
    let r = o.finish();
    assert_eq!(r.amount_in, 0);
    assert_eq!(r.max_revenue, 0);
    assert!(r.front_calldata.is_empty());
    assert_eq!(MIN_PROFIT, 20_000_000_000_000_000);
}

#[test]
fn optimizer_tolerance_depends_on_currency() {
    assert_eq!(Optimizer::new(MainCurrency::WETH.address(), 10).tolerance, 100_000_000_000_000);
    assert_eq!(Optimizer::new(MainCurrency::USDC.address(), 10).tolerance, 1000);
}

#[test]
fn pending_tx_becomes_stale() {
    let h = 100u64;
    let mut p = PendingTxs::new(h);
    let tx = Hash32 { hi: 1, lo: 2 };
    p.insert(tx, vec![swap_info(2)]);
    assert!(p.contains(tx));
    p.on_block(h + 1, &vec![]);
    assert!(p.contains(tx));
    p.on_block(h + 2, &vec![]);
    assert!(p.contains(tx));
    p.on_block(h + 3, &vec![]);
    assert!(p.contains(tx));
    p.on_block(h + 4, &vec![]);
    assert!(!p.contains(tx));
    assert_eq!(p.len(), 0);
}

#[test]
fn mined_pending_tx_is_dropped() {
    let mut p = PendingTxs::new(5);
    let a = Hash32 { hi: 0, lo: 1 };
    let b = Hash32 { hi: 0, lo: 2 };
    p.insert(a, vec![]);
    p.insert(b, vec![]);
    p.insert(b, vec![]);
    assert_eq!(p.len(), 2);
    p.on_block(6, &vec![a]);
    assert!(!p.contains(a));
    assert!(p.contains(b));
    p.remove(b);
    assert_eq!(p.len(), 0);
}

#[test]
fn duplicate_bundle_is_claimed_once() {
    let mut ids = SimulatedBundleIds::new();
    let tx = Hash32 { hi: 3, lo: 4 };
    assert!(ids.claim(tx));
    assert!(!ids.claim(tx));
    assert!(ids.contains(tx));
    for i in 0..30u128 {
        ids.record(Hash32 { hi: 9, lo: i });
    }
    assert!(!ids.contains(tx));
    assert!(ids.claim(tx));
}

#[test]
fn gas_gate_by_transaction_type() {
    assert_eq!(check_gas_gate(false, Some(0), Some(100), None, 100), (true, 100));
    assert_eq!(check_gas_gate(false, Some(0), Some(99), None, 100), (false, 99));
    assert_eq!(check_gas_gate(false, Some(2), None, Some(150), 100), (true, 150));
    assert_eq!(check_gas_gate(false, Some(2), None, None, 100), (false, 0));
    assert_eq!(check_gas_gate(false, Some(1), None, None, 100), (true, 0));
    assert_eq!(check_gas_gate(true, Some(0), Some(500), None, 100), (false, 500));
}

#[test]
fn main_dish_candidates_respect_gates() {
    let seen_tx = 9u128;
    let mut seen = SimulatedBundleIds::new();
    seen.record(Hash32 { hi: 0, lo: seen_tx });
    let amount_in = 100_000_000_000_000_000_000u128;
    let promising = vec![
        sandwich(1, amount_in, Some((amount_in, 200_000_000_000_000_000))),
        sandwich(2, amount_in, Some((amount_in, 50_000_000_000_000_000))),
        sandwich(3, amount_in, None),
        sandwich(4, amount_in, Some((0, 0))),
        sandwich(seen_tx, amount_in, Some((amount_in, 200_000_000_000_000_000))),
        sandwich(5, 1, Some((1, 19_000_000_000_000_000))),
    ];
    let c = flashloan_candidates(&promising, &seen);
    assert_eq!(c.len(), 1);
    assert_eq!(c[0].index, 0);
    assert_eq!(c[0].adjusted_revenue, 110_000_000_000_000_000);
}

#[test]
fn unknown_token_gets_placeholder_metadata() {
    let t = token_from_calls(Address { hi: 1, lo: 1 }, None, None, None);
    assert_eq!(t.name, "Unknown");
    assert_eq!(t.symbol, "UNK");
    assert_eq!(t.decimals, 18);
    let mut reg = TokenRegistry::new();
    let addr = Address { hi: 2, lo: 2 };
    let got = reg.fetch_token_info(addr, Some("Pepe".to_string()), None, Some(9));
    assert_eq!(got.name, "Pepe");
    assert_eq!(got.symbol, "UNK");
    assert_eq!(got.decimals, 9);
    assert_eq!(reg.get_token(addr).unwrap().name, "Pepe");
    assert_eq!(reg.get_token(addr).unwrap().decimals, 9);
    let again = reg.fetch_token_info(addr, None, None, None);
    assert_eq!(again.name, "Pepe");
    let unknown = Address { hi: 3, lo: 3 };
    let placeholder = reg.fetch_token_info(unknown, None, None, None);
    let stored = reg.get_token(unknown).unwrap();
    assert_eq!((stored.name.as_str(), stored.symbol.as_str(), stored.decimals), ("Unknown", "UNK", 18));
    assert_eq!(placeholder.name, stored.name);
}

#[test]
fn registry_is_seeded_with_main_currencies() {
    let mut reg = TokenRegistry::new();
    assert_eq!(reg.get_main_currencies().len(), 7);
    assert_eq!(reg.all_tokens().len(), 7);
    let usdc = reg.get_main_currency(&MainCurrency::USDC).unwrap();
    assert_eq!((usdc.decimals, usdc.balance_slot, usdc.weight), (6, 9, 4));
    assert_eq!(usdc.price_feed, MainCurrency::USDC.chainlink_feed());
    let wbtc = reg.get_main_currency(&MainCurrency::WBTC).unwrap();
    assert_eq!((wbtc.decimals, wbtc.balance_slot, wbtc.weight), (8, 0, 6));
    let weth = reg.get_main_currency(&MainCurrency::WETH).unwrap();
    assert_eq!(weth.symbol, "WETH");
    assert_eq!(weth.weight, 7);
    assert_eq!(weth.balance_slot, 3);
    assert_eq!(reg.update_price(MainCurrency::USDC.address(), 100_000_000), Ok(()));
    assert_eq!(reg.get_token(MainCurrency::USDC.address()).unwrap().last_price_usd_e8, Some(100_000_000));
    assert_eq!(reg.update_price(Address { hi: 7, lo: 7 }, 1), Err(TokenError::NotFound));
}

#[test]
fn chainlink_answer_is_second_word() {
    let mut r = vec![0u8; 160];
    r[63] = 0x10;
    r[62] = 0x01;
    assert_eq!(chainlink_price_e8(&r), Some(0x0110));
    assert_eq!(chainlink_price_e8(&r[..95]), None);
    r[40] = 1;
    assert_eq!(chainlink_price_e8(&r), None);
}

#[test]
fn env_flags_must_be_booleans() {
    let s = |x: &str| x.to_string();
    let e = Env::new(s("https://n"), s("wss://n"), s("0xb"), s("k"), s("i"), s("t"), s("c"), "true", "false").unwrap();
    assert_eq!(e.https_url, "https://n");
    assert!(e.use_alert);
    assert!(!e.debug);
    assert!(Env::new(s(""), s(""), s(""), s(""), s(""), s(""), s(""), "yes", "false").is_none());
    assert!(Env::new(s(""), s(""), s(""), s(""), s(""), s(""), s(""), "true", "").is_none());
}

#[test]
fn pool_cache_row_round_trip() {
    let pool = Pool {
        id: 12,
        address: Address { hi: 0xb4e16d01, lo: 0x68e52d35cacd2c6185b44281ec28c9dc },
        version: DexVariant::UniswapV3,
        token0: MainCurrency::USDC.address(),
        token1: MainCurrency::WETH.address(),
        fee: 500,
        block_number: 12_376_729,
        timestamp: 1_620_250_931,
    };
    let row = pool.cache_row();
    assert_eq!(String::from_utf8(row.1.clone()).unwrap(), "0xb4e16d0168e52d35cacd2c6185b44281ec28c9dc");
    assert_eq!(String::from_utf8(row.4.clone()).unwrap(), "0xc02aaa39b223fe8d0a0e5c4f27ead9083c756cc2");
    assert_eq!(row.2, 3);
    assert_eq!(Pool::from_row(&row), Some(pool));
    let v2 = Pool { version: DexVariant::UniswapV2, ..pool };
    assert_eq!(Pool::from_row(&v2.cache_row()), Some(v2));
}

#[test]
fn pool_cache_row_parsing_rules() {
    assert_eq!(
        parse_address(b"0xC02aaA39b223FE8D0A0e5C4F27eAD9083C756Cc2"),
        Some(MainCurrency::WETH.address())
    );
    assert_eq!(parse_address(b"0xC02aaA39b223FE8D0A0e5C4F27eAD9083C756Cc"), None);
    assert_eq!(parse_address(b"0xG02aaA39b223FE8D0A0e5C4F27eAD9083C756Cc2"), None);
    assert_eq!(parse_address(b"00C02aaA39b223FE8D0A0e5C4F27eAD9083C756Cc2"), None);
    let row = (1i64, b"0xb4e16d0168e52d35cacd2c6185b44281ec28c9dc".to_vec(), 7i32, b"0xa0b86991c6218b36c1d19d4a2e9eb0ce3606eb48".to_vec(), b"0xc02aaa39b223fe8d0a0e5c4f27ead9083c756cc2".to_vec(), 3000u32, 5u64, 6u64);
    assert_eq!(Pool::from_row(&row).unwrap().version, DexVariant::UniswapV2);
    let bad = (1i64, b"0x".to_vec(), 2i32, row.3.clone(), row.4.clone(), 3000u32, 5u64, 6u64);
    assert_eq!(Pool::from_row(&bad), None);
}

#[test]
fn scan_ranges_and_ids() {
    assert_eq!(block_ranges(100, 250, 50), vec![(100, 149), (150, 199), (200, 249), (250, 250)]);
    assert_eq!(block_ranges(100, 149, 50), vec![(100, 149)]);
    assert_eq!(block_ranges(300, 250, 50), vec![(300, 250)]);
    assert_eq!(resume_point(&vec![], 22_413_000), (-1, 22_413_000));
    let mut data = vec![0u8; 12];
    data.extend_from_slice(&[0xb4, 0xe1, 0x6d, 0x01]);
    data.extend_from_slice(&0x68e52d35cacd2c6185b44281ec28c9dcu128.to_be_bytes());
    data.extend(vec![0u8; 32]);
    let t0 = Hash32 { hi: 0xa0b86991, lo: 0xc6218b36c1d19d4a2e9eb0ce3606eb48 };
    let t1 = Hash32 { hi: 0xc02aaa39, lo: 0xb223fe8d0a0e5c4f27ead9083c756cc2 };
    let found = pool_from_pair_created(t0, t1, &data, 10_008_355, 1_588_710_145).unwrap();
    assert_eq!(found.address, Address { hi: 0xb4e16d01, lo: 0x68e52d35cacd2c6185b44281ec28c9dc });
    assert_eq!(found.token0, MainCurrency::USDC.address());
    assert_eq!(found.token1, MainCurrency::WETH.address());
    assert_eq!(found.fee, 3000);
    assert_eq!(found.id, -1);
    assert_eq!(pool_from_pair_created(t0, t1, &data[..63], 1, 1), None);
    let cached = vec![Pool { id: 0, ..found }, Pool { id: 1, block_number: 10_008_400, ..found }];
    let (last_id, start) = resume_point(&cached, 22_413_000);
    assert_eq!((last_id, start), (1, 10_008_401));
    let ids = assign_pool_ids(&vec![found, found], last_id);
    assert_eq!(ids[0].id, 2);
    assert_eq!(ids[1].id, 3);
    assert_eq!(Pool { id: -1, ..ids[1] }, found);
}

#[test]
fn promising_sandwiches_follow_pending_txs() {
    let mut p = PendingTxs::new(10);
    p.insert(Hash32 { hi: 0, lo: 2 }, vec![]);
    let promising = vec![sandwich(1, 5, None), sandwich(2, 5, None), sandwich(3, 5, None), sandwich(2, 6, None)];
    assert_eq!(still_pending(&promising, &p), vec![1, 3]);
}

#[test]
fn bundle_id_sorts_and_dedups_prefixes() {
    let mut batch = BatchSandwich::default();
    assert_eq!(batch.flashloan_asset, Address { hi: 0, lo: 0 });
    assert_eq!(batch.bundle_id(), "");
    let mut a = sandwich(1, 5, None);
    a.victim_tx.tx_hash = Hash32 { hi: 0xdeadbeef_u128 << 96 | 7, lo: 1 };
    let mut b = sandwich(2, 5, None);
    b.victim_tx.tx_hash = Hash32 { hi: 0x01020304_u128 << 96, lo: 2 };
    let mut c = sandwich(3, 5, None);
    c.victim_tx.tx_hash = Hash32 { hi: 0xdeadbeef_u128 << 96 | 9, lo: 3 };
    batch.sandwiches = vec![a, b, c];
    assert_eq!(batch.bundle_id(), "0x01020304-0xdeadbeef");
    assert_eq!(batch.bundle_prefixes(), vec![0x01020304, 0xdeadbeef]);
    assert_eq!(batch.target_tokens().len(), 3);
    assert_eq!(batch.target_pairs()[0], swap_info(1).target_pair);
}

#[test]
fn new_block_from_header() {
    let b = NewBlock::from_header(19_000_000, 15_000_000, 30_000_000, Some(20_000_000_000));
    assert_eq!(b.block_number, 19_000_000);
    assert_eq!(b.base_fee, 20_000_000_000);
    assert!(b.next_base_fee >= 20_000_000_000 && b.next_base_fee <= 20_000_000_008);
    let none = NewBlock::from_header(1, 0, 0, None);
    assert_eq!(none.base_fee, 0);
    assert!(none.next_base_fee <= 8);
}

#[test]
fn unknown_tokens_of_pools_are_listed_once() {
    let reg = TokenRegistry::new();
    let x = Address { hi: 1, lo: 1 };
    let y = Address { hi: 2, lo: 2 };
    let base = Pool {
        id: 0,
        address: Address { hi: 9, lo: 9 },
        version: DexVariant::UniswapV2,
        token0: x,
        token1: MainCurrency::WETH.address(),
        fee: 3000,
        block_number: 1,
        timestamp: 1,
    };
    let pools = vec![base, Pool { token0: MainCurrency::USDC.address(), token1: x, ..base }, Pool { token0: y, token1: x, ..base }];
    assert_eq!(missing_tokens(&reg, &pools), vec![x, y]);
}

#[test]
fn main_currency_address_text() {
    assert_eq!(MainCurrency::WETH.address_str(), "0xC02aaA39b223FE8D0A0e5C4F27eAD9083C756Cc2");
    assert_eq!(MainCurrency::Default.address_str(), "0xC02aaA39b223FE8D0A0e5C4F27eAD9083C756Cc2");
    assert_eq!(parse_address(MainCurrency::DAI.address_str().as_bytes()), Some(MainCurrency::DAI.address()));
    assert_eq!(MainCurrency::LINK.chainlink_feed(), Some(Address { hi: 0x2c1d072e, lo: 0x956affc0d435cb7ac38ef18d24d9127c }));
    assert_eq!(MainCurrency::Default.chainlink_feed(), None);
}

#[test]
fn flashloan_entry_call_is_abi_encoded() {
    let asset = MainCurrency::WETH.address();
    let data = encode_flashloan_call(asset, 0x0102, &vec![0xaa; 33]);
    assert_eq!(&data[..4], &[0x5c, 0x68, 0xe2, 0x60]);
    assert_eq!(&data[4..16], &[0u8; 12]);
    assert_eq!(&data[16..20], &[0xc0, 0x2a, 0xaa, 0x39]);
    assert_eq!(&data[66..68], &[0x01, 0x02]);
    assert_eq!(data[99], 0x60);
    assert_eq!(data[131], 33);
    assert_eq!(&data[132..165], &[0xaa; 33][..]);
    assert_eq!(data.len(), 4 + 4 * 32 + 64);
    assert!(data[165..].iter().all(|b| *b == 0));
    let e = TradeEntry { zero_for_one: true, pair: asset, token_in: asset, amount_in: 1, amount_out: 1 };
    let front = encode_packed(9, &vec![e]);
    let call = create_flashloan_sandwich_calldata(asset, 5, 9, &front, &front).unwrap();
    assert_eq!(call, encode_flashloan_call(asset, 5, &build_flashloan_payload(9, &front, &front).unwrap()));
    assert_eq!(create_flashloan_sandwich_calldata(asset, 5, 9, &vec![1, 2, 3], &vec![]), None);
}

#[test]
fn seeds_are_summed_per_currency() {
    let weth = MainCurrency::WETH.address();
    let usdc = MainCurrency::USDC.address();
    let e = |t: Address, a: u128| TradeEntry { zero_for_one: true, pair: Address { hi: 0, lo: 1 }, token_in: t, amount_in: a, amount_out: 0 };
    assert_eq!(seed_amounts(&vec![e(weth, 5), e(usdc, 7), e(weth, 10)]), Some(vec![(weth, 15), (usdc, 7)]));
    assert_eq!(seed_amounts(&vec![]), Some(vec![]));
    assert_eq!(seed_amounts(&vec![e(weth, u128::MAX), e(weth, 1)]), None);
}

#[test]
fn failed_simulation_counts_as_zero() {
    let s = SamplePoint::from_simulation(77, None);
    assert_eq!(s.amount_in, 77);
    assert_eq!(s.revenue, 0);
    assert!(s.front_calldata.is_empty());
    let sim = SimulatedSandwich {
        revenue: -3,
        profit: 5,
        gas_cost: 8,
        front_gas_used: 100,
        back_gas_used: 90,
        front_calldata: vec![1],
        back_calldata: vec![2, 3],
    };
    let s = SamplePoint::from_simulation(78, Some(sim));
    assert_eq!((s.revenue, s.front_gas_used, s.back_gas_used), (-3, 100, 90));
    assert_eq!(s.back_calldata, vec![2, 3]);
}

#[test]
fn owner_sweep_calls_are_encoded() {
    let t = MainCurrency::USDT.address();
    let data = encode_recover_token(t, 1_000_000);
    assert_eq!(data.len(), 68);
    assert_eq!(&data[..4], &[0xb2, 0x9a, 0x81, 0x40]);
    assert_eq!(&data[16..20], &[0xda, 0xc1, 0x7f, 0x95]);
    assert_eq!(&data[65..68], &[0x0f, 0x42, 0x40]);
    assert_eq!(encode_recover_eth(), vec![0x06, 0x14, 0x11, 0x7a]);
}

#[test]
fn candidates_are_ranked_best_first() {
    let c = |index: usize, adjusted_revenue: u128| Candidate { index, adjusted_revenue };
    let ranked = rank_candidates(&vec![c(0, 5), c(1, 9), c(2, 5), c(3, 7)]);
    assert_eq!(ranked, vec![c(1, 9), c(3, 7), c(0, 5), c(2, 5)]);
    assert!(rank_candidates(&vec![]).is_empty());
}

#[test]
fn scanned_pools_are_numbered_in_block_order() {
    let base = Pool {
        id: -1,
        address: Address { hi: 9, lo: 9 },
        version: DexVariant::UniswapV2,
        token0: MainCurrency::USDC.address(),
        token1: MainCurrency::WETH.address(),
        fee: 3000,
        block_number: 10,
        timestamp: 1,
    };
    let cached = vec![Pool { id: 0, block_number: 5, ..base }, Pool { id: 1, block_number: 8, ..base }];
    let found = vec![
        Pool { block_number: 30, address: Address { hi: 0, lo: 1 }, ..base },
        Pool { block_number: 20, address: Address { hi: 0, lo: 2 }, ..base },
        Pool { block_number: 30, address: Address { hi: 0, lo: 3 }, ..base },
    ];
    let sorted = sort_pools_by_block(&found);
    assert_eq!(sorted.iter().map(|p| p.address.lo).collect::<Vec<_>>(), vec![2, 1, 3]);
    let merged = merge_scanned_pools(&cached, &found);
    assert_eq!(merged.iter().map(|p| p.id).collect::<Vec<_>>(), vec![0, 1, 2, 3, 4]);
    assert_eq!(merged.iter().map(|p| p.block_number).collect::<Vec<_>>(), vec![5, 8, 20, 30, 30]);
    assert_eq!(merged[2].address.lo, 2);
    let fresh = merge_scanned_pools(&vec![], &found);
    assert_eq!(fresh.iter().map(|p| p.id).collect::<Vec<_>>(), vec![0, 1, 2]);
}

#[test]
fn victims_are_listed_once_in_first_seen_order() {
    let mut batch = BatchSandwich::new(MainCurrency::WETH.address());
    batch.sandwiches = vec![sandwich(4, 5, None), sandwich(2, 5, None), sandwich(4, 6, None)];
    let victims = batch.distinct_victims();
    assert_eq!(victims.iter().map(|v| v.tx_hash.lo).collect::<Vec<_>>(), vec![4, 2]);
}

use vstd::prelude::*;
use crate::address::Address;
use crate::currency::{main_and_target, return_main_and_target_currency};
use crate::decode::{get_token_paths, token_paths};
use crate::pools::{DexVariant, Pool, find_pool_from, get_pool_by_address, get_pool_by_tokens, pool_at_from};
use crate::routers::{is_known_router, is_router_address, is_swap_selector, selector_value};

verus! {

/// A 32-byte word (a transaction hash or a log topic), held as two halves
/// read big-endian.
#[derive(Clone, Copy, Debug, PartialEq, Eq, Structural, Hash)]
pub struct Hash32 {
    pub hi: u128,
    pub lo: u128,
}

/// Whether the victim buys the target token with the main currency or sells it.
#[derive(Clone, Copy, Debug, PartialEq, Eq, Structural)]
pub enum SwapDirection {
    Buy,
    Sell,
}

/// One swap that a pending transaction makes through a known pool.
#[derive(Clone, Copy, Debug, PartialEq, Eq, Structural)]
pub struct SwapInfo {
    pub tx_hash: Hash32,
    pub target_pair: Address,
    pub main_currency: Address,
    pub target_token: Address,
    pub version: DexVariant,
    pub token0_is_main: bool,
    pub fee: u32,
    pub direction: SwapDirection,
}

/// A log emitted while a transaction ran: its contract and first topic.
#[derive(Clone, Copy, Debug, PartialEq, Eq, Structural)]
pub struct SwapLog {
    pub address: Address,
    pub topic0: Option<Hash32>,
}

/// Topic of the v2 pair `Swap(address,uint256,uint256,uint256,uint256,address)` event.
pub open spec fn v2_swap_topic() -> Hash32 {
    Hash32 { hi: 0xd78ad95fa46c994b6551d0da85fc275f, lo: 0xe613ce37657fb8d5e3d130840159d822 }
}

/// Selectors of swaps called on a pool itself: the v2 pair's `swap`,
/// `swapFor0`, `swapFor1` and the v3 pool's `swap`.
pub open spec fn is_pool_swap_selector(v: u32) -> bool {
    v == 0x022c0d9f || v == 0xcdd6cda9 || v == 0xd50e6fcd || v == 0x128acb08
}

/// The swap record for a transaction through `pool`, split by
/// `main_and_target`; `None` when neither token is a main currency.
pub open spec fn direct_swap(tx_hash: Hash32, pool_address: Address, pool: Pool, direction: SwapDirection) -> Option<SwapInfo> {
    match main_and_target(pool.token0, pool.token1) {
        Some((main, target)) => Some(
            SwapInfo {
                tx_hash,
                target_pair: pool_address,
                main_currency: main,
                target_token: target,
                version: pool.version,
                token0_is_main: main == pool.token0,
                fee: pool.fee,
                direction,
            },
        ),
        None => None,
    }
}

/// The swap record for one hop `token_in -> token_out` of a router path:
/// a buy when the victim pays in the main currency.
pub open spec fn path_swap(tx_hash: Hash32, pools: Seq<Pool>, token_in: Address, token_out: Address) -> Option<SwapInfo> {
    match find_pool_from(pools, token_in, token_out, 0) {
        Some(p) => match main_and_target(p.token0, p.token1) {
            Some((main, _)) => direct_swap(
                tx_hash,
                p.address,
                p,
                if token_in == main {
                    SwapDirection::Buy
                } else {
                    SwapDirection::Sell
                },
            ),
            None => None,
        },
        None => None,
    }
}

/// A sequence of zero or one item.
pub open spec fn opt_seq<T>(o: Option<T>) -> Seq<T> {
    match o {
        Some(x) => seq![x],
        None => seq![],
    }
}

/// Whether a router selector belongs to the v3 family, whose paths may
/// hold more than two tokens.
pub open spec fn is_v3_router_selector(sel: u32) -> bool {
    crate::decode::v3_single(sel) || crate::decode::v3_multi(sel)
}

/// The swap records of the first `n` hops of a token path, each adjacent
/// pair looked up in turn.
pub open spec fn hop_swaps(tx_hash: Hash32, pools: Seq<Pool>, path: Seq<Address>, n: int) -> Seq<SwapInfo>
    decreases n,
{
    if n <= 0 {
        seq![]
    } else {
        hop_swaps(tx_hash, pools, path, n - 1) + opt_seq(path_swap(tx_hash, pools, path[n - 1], path[n]))
    }
}

/// Swaps found from the calldata of a transaction to `to`: a swap called on
/// a known pool, every hop of a v3-family router path, or a v2-family
/// router path of exactly two tokens (longer v2 paths are left out).
pub open spec fn calldata_swaps(tx_hash: Hash32, to: Address, input: Seq<u8>, pools: Seq<Pool>) -> Seq<SwapInfo> {
    match pool_at_from(pools, to, 0) {
        Some(p) => if input.len() >= 4 && is_pool_swap_selector(selector_value(input.subrange(0, 4))) {
            opt_seq(direct_swap(tx_hash, to, p, SwapDirection::Buy))
        } else {
            seq![]
        },
        None => if is_router_address(to) && input.len() >= 4 && is_swap_selector(
            selector_value(input.subrange(0, 4)),
        ) && token_paths(input).len() == 1 {
            let path = token_paths(input)[0];
            if is_v3_router_selector(selector_value(input.subrange(0, 4))) {
                hop_swaps(tx_hash, pools, path, path.len() - 1)
            } else if path.len() == 2 {
                opt_seq(path_swap(tx_hash, pools, path[0], path[1]))
            } else {
                seq![]
            }
        } else {
            seq![]
        },
    }
}

/// The swap record that one log gives: a v2 `Swap` event at a known pool.
pub open spec fn log_swap(tx_hash: Hash32, log: SwapLog, pools: Seq<Pool>) -> Option<SwapInfo> {
    if log.topic0 == Some(v2_swap_topic()) {
        match pool_at_from(pools, log.address, 0) {
            Some(p) => direct_swap(tx_hash, log.address, p, SwapDirection::Buy),
            None => None,
        }
    } else {
        None
    }
}

/// The swap records of the first `n` logs, in order.
pub open spec fn log_swaps(tx_hash: Hash32, logs: Seq<SwapLog>, pools: Seq<Pool>, n: int) -> Seq<SwapInfo>
    decreases n,
{
    if n <= 0 {
        seq![]
    } else {
        log_swaps(tx_hash, logs, pools, n - 1) + opt_seq(log_swap(tx_hash, logs[n - 1], pools))
    }
}

/// Whether some record of `s` targets `pair`.
pub open spec fn has_pair(s: Seq<SwapInfo>, pair: Address) -> bool {
    exists|k: int| 0 <= k < s.len() && (#[trigger] s[k]).target_pair == pair
}

/// The first `n` records of `s`, keeping only the first record of each pool.
pub open spec fn dedup_pairs(s: Seq<SwapInfo>, n: int) -> Seq<SwapInfo>
    decreases n,
{
    if n <= 0 {
        seq![]
    } else {
        let d = dedup_pairs(s, n - 1);
        if has_pair(d, s[n - 1].target_pair) {
            d
        } else {
            d.push(s[n - 1])
        }
    }
}

/// The swap records of a transaction: from its calldata, else from the logs
/// of its trace when one was taken; one record per pool.
pub open spec fn swaps_of(
    tx_hash: Hash32,
    to: Address,
    input: Seq<u8>,
    pools: Seq<Pool>,
    logs: Option<Seq<SwapLog>>,
) -> Seq<SwapInfo> {
    let from_calldata = calldata_swaps(tx_hash, to, input, pools);
    let found = if from_calldata.len() == 0 && logs.is_some() {
        log_swaps(tx_hash, logs.unwrap(), pools, logs.unwrap().len() as int)
    } else {
        from_calldata
    };
    dedup_pairs(found, found.len() as int)
}

/// The swap record for a transaction sent to `pool_address`; `None` when
/// neither of the pool's tokens is a main currency.
pub fn pool_direct_swap(tx_hash: Hash32, pool_address: Address, pool: &Pool) -> (r: Option<SwapInfo>)
    ensures
        r == direct_swap(tx_hash, pool_address, *pool, SwapDirection::Buy),
{
    pool_swap_with_direction(tx_hash, pool_address, pool, SwapDirection::Buy)
}

/// Computes `direct_swap` for a given direction.
fn pool_swap_with_direction(tx_hash: Hash32, pool_address: Address, pool: &Pool, direction: SwapDirection) -> (r: Option<SwapInfo>)
    ensures
        r == direct_swap(tx_hash, pool_address, *pool, direction),
{
    match return_main_and_target_currency(pool.token0, pool.token1) {
        Some((main_currency, target_token)) => Some(
            SwapInfo {
                tx_hash,
                target_pair: pool_address,
                main_currency,
                target_token,
                version: pool.version,
                token0_is_main: main_currency == pool.token0,
                fee: pool.fee,
                direction,
            },
        ),
        None => None,
    }
}

/// The swap record of one router hop, as `path_swap` gives it.
pub fn path_hop_swap(tx_hash: Hash32, pools: &Vec<Pool>, token_in: Address, token_out: Address) -> (r: Option<SwapInfo>)
    ensures
        r == path_swap(tx_hash, pools@, token_in, token_out),
{
    match get_pool_by_tokens(pools, token_in, token_out) {
        Some(p) => match return_main_and_target_currency(p.token0, p.token1) {
            Some((main, _)) => {
                let direction = if token_in == main {
                    SwapDirection::Buy
                } else {
                    SwapDirection::Sell
                };
                pool_swap_with_direction(tx_hash, p.address, &p, direction)
            },
            None => None,
        },
        None => None,
    }
}

/// Appends the record, if any.
fn push_opt(out: &mut Vec<SwapInfo>, o: Option<SwapInfo>)
    ensures
        final(out)@ == old(out)@ + opt_seq(o),
{
    match o {
        Some(x) => {
            out.push(x);
        },
        None => {
            assert(old(out)@ + opt_seq(o) == old(out)@);
        },
    }
}

/// Swaps found from calldata alone, as `calldata_swaps` gives them.
pub fn swap_infos_from_calldata(tx_hash: Hash32, to: Address, input: &[u8], pools: &Vec<Pool>) -> (r: Vec<SwapInfo>)
    ensures
        r@ == calldata_swaps(tx_hash, to, input@, pools@),
{
    let mut out: Vec<SwapInfo> = Vec::new();
    match get_pool_by_address(pools, to) {
        Some(p) => {
            if input.len() >= 4 {
                let sel = crate::classifier::selector_of(input);
                if sel == 0x022c0d9f || sel == 0xcdd6cda9 || sel == 0xd50e6fcd || sel == 0x128acb08 {
                    push_opt(&mut out, pool_direct_swap(tx_hash, to, &p));
                }
            }
        },
        None => {
            if is_known_router(&to) && input.len() >= 4 {
                let selector: [u8; 4] = [input[0], input[1], input[2], input[3]];
                proof {
                    assert(selector@ == input@.subrange(0, 4));
                }
                if crate::routers::is_known_swap_selector(&selector) {
                    let paths = get_token_paths(input);
                    if paths.len() == 1 {
                        let path = &paths[0];
                        let sel = crate::classifier::selector_of(input);
                        if sel == 0x04e45aaf || sel == 0x5023b4df || sel == 0xc04b8d59 || sel == 0x09b81346 {
                            let mut k: usize = 1;
                            while k < path.len()
                                invariant
                                    1 <= k <= path@.len(),
                                    path@.len() >= 2,
                                    out@ == hop_swaps(tx_hash, pools@, path@, k - 1),
                                decreases path@.len() - k,
                            {
                                let hop = path_hop_swap(tx_hash, pools, path[k - 1], path[k]);
                                push_opt(&mut out, hop);
                                k = k + 1;
                            }
                        } else if path.len() == 2 {
                            let hop = path_hop_swap(tx_hash, pools, path[0], path[1]);
                            push_opt(&mut out, hop);
                        }
                    }
                }
            }
        },
    }
    proof {
        assert(out@ =~= calldata_swaps(tx_hash, to, input@, pools@));
    }
    out
}

/// Swaps found from the logs of a trace, as `log_swaps` gives them.
pub fn swap_infos_from_logs(tx_hash: Hash32, logs: &Vec<SwapLog>, pools: &Vec<Pool>) -> (r: Vec<SwapInfo>)
    ensures
        r@ == log_swaps(tx_hash, logs@, pools@, logs@.len() as int),
{
    let topic = Hash32 { hi: 0xd78ad95fa46c994b6551d0da85fc275f, lo: 0xe613ce37657fb8d5e3d130840159d822 };
    let mut out: Vec<SwapInfo> = Vec::new();
    let mut i: usize = 0;
    while i < logs.len()
        invariant
            i <= logs@.len(),
            topic == v2_swap_topic(),
            out@ == log_swaps(tx_hash, logs@, pools@, i as int),
        decreases logs@.len() - i,
    {
        let log = logs[i];
        let found = if log.topic0 == Some(topic) {
            match get_pool_by_address(pools, log.address) {
                Some(p) => pool_direct_swap(tx_hash, log.address, &p),
                None => None,
            }
        } else {
            None
        };
        proof {
            assert(found == log_swap(tx_hash, logs@[i as int], pools@));
        }
        push_opt(&mut out, found);
        i = i + 1;
    }
    out
}

/// Keeps the first record of each pool, in order.
pub fn dedup_by_pair(swaps: &Vec<SwapInfo>) -> (r: Vec<SwapInfo>)
    ensures
        r@ == dedup_pairs(swaps@, swaps@.len() as int),
{
    let mut out: Vec<SwapInfo> = Vec::new();
    let mut i: usize = 0;
    while i < swaps.len()
        invariant
            i <= swaps@.len(),
            out@ == dedup_pairs(swaps@, i as int),
        decreases swaps@.len() - i,
    {
        let s = swaps[i];
        let mut seen = false;
        let mut j: usize = 0;
        while j < out.len()
            invariant
                j <= out@.len(),
                out@ == dedup_pairs(swaps@, i as int),
                seen == has_pair(out@.subrange(0, j as int), s.target_pair),
            decreases out@.len() - j,
        {
            proof {
                let a = out@.subrange(0, j as int);
                let b = out@.subrange(0, j + 1);
                if has_pair(a, s.target_pair) {
                    let k = choose|k: int| 0 <= k < a.len() && (#[trigger] a[k]).target_pair == s.target_pair;
                    assert(b[k] == a[k]);
                }
                if out@[j as int].target_pair == s.target_pair {
                    assert(b[j as int] == out@[j as int]);
                }
                if has_pair(b, s.target_pair) {
                    let k = choose|k: int| 0 <= k < b.len() && (#[trigger] b[k]).target_pair == s.target_pair;
                    if k < j {
                        assert(a[k] == b[k]);
                    }
                }
            }
            if out[j].target_pair == s.target_pair {
                seen = true;
            }
            j = j + 1;
        }
        proof {
            assert(out@.subrange(0, out@.len() as int) == out@);
        }
        if !seen {
            out.push(s);
        }
        i = i + 1;
    }
    out
}

/// The swap records of a pending transaction to `to`: from its calldata, or,
/// when that gives none, from the logs of its trace (`logs`, when a trace
/// was taken); one record per pool.
pub fn extract_swap_info(
    tx_hash: Hash32,
    to: Address,
    input: &[u8],
    pools: &Vec<Pool>,
    logs: Option<&Vec<SwapLog>>,
) -> (r: Vec<SwapInfo>)
    ensures
        r@ == swaps_of(
            tx_hash,
            to,
            input@,
            pools@,
            match logs {
                Some(l) => Some(l@),
                None => None,
            },
        ),
{
    let from_calldata = swap_infos_from_calldata(tx_hash, to, input, pools);
    let found = if from_calldata.len() == 0 {
        match logs {
            Some(l) => swap_infos_from_logs(tx_hash, l, pools),
            None => from_calldata,
        }
    } else {
        from_calldata
    };
    dedup_by_pair(&found)
}

/// A transaction sent straight to a pool that holds no main currency gives
/// no swap record.
pub proof fn lemma_no_main_no_swap(tx_hash: Hash32, input: Seq<u8>, pools: Seq<Pool>, p: Pool)
    requires
        pool_at_from(pools, p.address, 0) == Some(p),
        !crate::currency::is_main(p.token0),
        !crate::currency::is_main(p.token1),
    ensures
        calldata_swaps(tx_hash, p.address, input, pools).len() == 0,
{
}

} // verus!

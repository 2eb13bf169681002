use vstd::prelude::*;
use crate::address::{Address, address_bytes, be_bytes, push_address, push_be};
use crate::amm::{get_v2_amount_out, get_v3_amount_out, v2_amount_out, v2_fits, v3_amount_out, v3_fits};
use crate::pools::DexVariant;
use crate::swap::SwapInfo;

verus! {

/// Bytes of one trade entry of the bot contract's calldata.
pub const ENTRY_LEN: usize = 105;

/// Bytes of the block-number header of the bot contract's calldata.
pub const HEADER_LEN: usize = 8;

/// One swap that the bot contract performs.
#[derive(Clone, Copy, Debug, PartialEq, Eq, Structural)]
pub struct TradeEntry {
    pub zero_for_one: bool,
    pub pair: Address,
    pub token_in: Address,
    pub amount_in: u128,
    pub amount_out: u128,
}

/// `uint8 zeroForOne ∥ address pair ∥ address tokenIn ∥ uint256 amountIn ∥
/// uint256 amountOut`, packed.
pub open spec fn entry_bytes(e: TradeEntry) -> Seq<u8> {
    seq![if e.zero_for_one { 1u8 } else { 0u8 }] + address_bytes(e.pair) + address_bytes(e.token_in)
        + be_bytes(e.amount_in as nat, 32) + be_bytes(e.amount_out as nat, 32)
}

/// The entries of `es` packed one after another.
pub open spec fn entries_bytes(es: Seq<TradeEntry>) -> Seq<u8>
    decreases es.len(),
{
    if es.len() == 0 {
        seq![]
    } else {
        entries_bytes(es.drop_last()) + entry_bytes(es.last())
    }
}

/// `uint64 blockNumber` followed by the packed entries.
pub open spec fn packed_calldata(block_number: u64, es: Seq<TradeEntry>) -> Seq<u8> {
    be_bytes(block_number as nat, 8) + entries_bytes(es)
}

/// `be_bytes(v, n)` has `n` bytes.
pub proof fn lemma_be_bytes_len(v: nat, n: nat)
    ensures
        be_bytes(v, n).len() == n,
    decreases n,
{
    if n > 0 {
        lemma_be_bytes_len(v / 256, (n - 1) as nat);
    }
}

/// Each packed entry takes `ENTRY_LEN` bytes.
pub proof fn lemma_entries_len(es: Seq<TradeEntry>)
    ensures
        entries_bytes(es).len() == 105 * es.len(),
    decreases es.len(),
{
    if es.len() > 0 {
        lemma_entries_len(es.drop_last());
        let e = es.last();
        lemma_be_bytes_len(e.pair.hi as nat, 4);
        lemma_be_bytes_len(e.pair.lo as nat, 16);
        lemma_be_bytes_len(e.token_in.hi as nat, 4);
        lemma_be_bytes_len(e.token_in.lo as nat, 16);
        lemma_be_bytes_len(e.amount_in as nat, 32);
        lemma_be_bytes_len(e.amount_out as nat, 32);
    }
}

/// Appends the packed bytes of `e`.
pub fn push_entry(out: &mut Vec<u8>, e: &TradeEntry)
    ensures
        final(out)@ == old(out)@ + entry_bytes(*e),
{
    let flag: u8 = if e.zero_for_one {
        1
    } else {
        0
    };
    out.push(flag);
    push_address(out, e.pair);
    push_address(out, e.token_in);
    push_be(out, e.amount_in, 32);
    push_be(out, e.amount_out, 32);
    proof {
        assert(final(out)@ =~= old(out)@ + entry_bytes(*e));
    }
}

/// The bot contract's calldata: the block number, then each entry.
pub fn encode_packed(block_number: u64, entries: &Vec<TradeEntry>) -> (r: Vec<u8>)
    ensures
        r@ == packed_calldata(block_number, entries@),
        r@.len() == 8 + 105 * entries@.len(),
{
    let mut out: Vec<u8> = Vec::new();
    push_be(&mut out, block_number as u128, 8);
    let mut i: usize = 0;
    while i < entries.len()
        invariant
            i <= entries@.len(),
            out@ == be_bytes(block_number as nat, 8) + entries_bytes(entries@.subrange(0, i as int)),
        decreases entries@.len() - i,
    {
        push_entry(&mut out, &entries[i]);
        proof {
            let s = entries@.subrange(0, i + 1);
            assert(s.drop_last() == entries@.subrange(0, i as int));
        }
        i = i + 1;
    }
    proof {
        assert(entries@.subrange(0, entries@.len() as int) == entries@);
        lemma_be_bytes_len(block_number as nat, 8);
        lemma_entries_len(entries@);
    }
    out
}

/// Whether a flash-loan payload has the shape the bot contract accepts: a
/// header followed by at least one whole entry.
pub open spec fn valid_flashloan_payload(len: int) -> bool {
    len > 8 && (len - 8) % 105 == 0
}

/// The payload handed to the flash-loan callback: `block_number`, then the
/// frontrun's entries, then the backrun's (each calldata without its header).
pub open spec fn flashloan_payload(block_number: u64, front: Seq<u8>, back: Seq<u8>) -> Seq<u8> {
    be_bytes(block_number as nat, 8) + (if front.len() > 8 {
        front.subrange(8, front.len() as int)
    } else {
        seq![]
    }) + (if back.len() > 8 {
        back.subrange(8, back.len() as int)
    } else {
        seq![]
    })
}

/// Appends `src[from..]` to `out`.
fn extend_from(out: &mut Vec<u8>, src: &Vec<u8>, from: usize)
    requires
        from <= src@.len(),
    ensures
        final(out)@ == old(out)@ + src@.subrange(from as int, src@.len() as int),
{
    let mut i: usize = from;
    while i < src.len()
        invariant
            from <= i <= src@.len(),
            out@ == old(out)@ + src@.subrange(from as int, i as int),
        decreases src@.len() - i,
    {
        out.push(src[i]);
        proof {
            assert(out@ =~= old(out)@ + src@.subrange(from as int, i + 1));
        }
        i = i + 1;
    }
}

/// Joins frontrun and backrun calldata into the flash-loan payload; `None`,
/// and the bundle is dropped, when the payload does not have the accepted
/// shape.
pub fn build_flashloan_payload(block_number: u64, front_calldata: &Vec<u8>, back_calldata: &Vec<u8>) -> (r: Option<Vec<u8>>)
    ensures
        r is Some <==> valid_flashloan_payload(
            flashloan_payload(block_number, front_calldata@, back_calldata@).len() as int,
        ),
        r matches Some(v) ==> v@ == flashloan_payload(block_number, front_calldata@, back_calldata@),
{
    let mut data: Vec<u8> = Vec::new();
    push_be(&mut data, block_number as u128, 8);
    if front_calldata.len() > 8 {
        extend_from(&mut data, front_calldata, 8);
    }
    if back_calldata.len() > 8 {
        extend_from(&mut data, back_calldata, 8);
    }
    proof {
        assert(data@ =~= flashloan_payload(block_number, front_calldata@, back_calldata@));
    }
    if data.len() <= 8 || (data.len() - 8) % 105 != 0 {
        None
    } else {
        Some(data)
    }
}

/// Selector of `executeSandwichWithFlashloan(address,uint256,bytes)`.
pub const FLASHLOAN_ENTRY_SELECTOR: u32 = 0x5c68e260;

/// Zero bytes that pad `len` bytes to a whole number of 32-byte words.
pub open spec fn pad_len(len: nat) -> nat {
    if len % 32 == 0 {
        0
    } else {
        (32 - len % 32) as nat
    }
}

/// ABI calldata of `executeSandwichWithFlashloan(asset, amount, payload)`:
/// the selector, the address and amount words, the offset and length of
/// the bytes, then the bytes padded with zeros.
pub open spec fn flashloan_call(asset: Address, amount: u128, payload: Seq<u8>) -> Seq<u8> {
    be_bytes(FLASHLOAN_ENTRY_SELECTOR as nat, 4) + Seq::new(12, |i: int| 0u8) + address_bytes(asset)
        + be_bytes(amount as nat, 32) + be_bytes(96, 32) + be_bytes(payload.len(), 32) + payload + Seq::new(
        pad_len(payload.len()),
        |i: int| 0u8,
    )
}

/// Appends `n` zero bytes to `out`.
fn push_zeros(out: &mut Vec<u8>, n: usize)
    ensures
        final(out)@ == old(out)@ + Seq::new(n as nat, |i: int| 0u8),
{
    let mut i: usize = 0;
    while i < n
        invariant
            i <= n,
            out@ == old(out)@ + Seq::new(i as nat, |k: int| 0u8),
        decreases n - i,
    {
        out.push(0);
        proof {
            assert(out@ =~= old(out)@ + Seq::new((i + 1) as nat, |k: int| 0u8));
        }
        i = i + 1;
    }
}

/// Encodes `flashloan_call`.
pub fn encode_flashloan_call(asset: Address, amount: u128, payload: &Vec<u8>) -> (r: Vec<u8>)
    ensures
        r@ == flashloan_call(asset, amount, payload@),
{
    let mut out: Vec<u8> = Vec::new();
    push_be(&mut out, FLASHLOAN_ENTRY_SELECTOR as u128, 4);
    push_zeros(&mut out, 12);
    push_address(&mut out, asset);
    push_be(&mut out, amount, 32);
    push_be(&mut out, 96, 32);
    push_be(&mut out, payload.len() as u128, 32);
    extend_from(&mut out, payload, 0);
    let rem = payload.len() % 32;
    let pad: usize = if rem == 0 {
        0
    } else {
        32 - rem
    };
    push_zeros(&mut out, pad);
    proof {
        assert(payload@.subrange(0, payload@.len() as int) == payload@);
        assert(out@ =~= flashloan_call(asset, amount, payload@));
    }
    out
}

/// The calldata of the single flash-loan transaction that carries a
/// sandwich: `None`, and the bundle is dropped, when the frontrun and
/// backrun calldata do not join into a payload of the accepted shape.
pub fn create_flashloan_sandwich_calldata(
    asset: Address,
    amount: u128,
    block_number: u64,
    front_calldata: &Vec<u8>,
    back_calldata: &Vec<u8>,
) -> (r: Option<Vec<u8>>)
    ensures
        r is Some <==> valid_flashloan_payload(
            flashloan_payload(block_number, front_calldata@, back_calldata@).len() as int,
        ),
        r matches Some(v) ==> v@ == flashloan_call(
            asset,
            amount,
            flashloan_payload(block_number, front_calldata@, back_calldata@),
        ),
{
    match build_flashloan_payload(block_number, front_calldata, back_calldata) {
        Some(payload) => Some(encode_flashloan_call(asset, amount, &payload)),
        None => None,
    }
}

/// Selector of the bot's owner-only `recoverToken(address,uint256)`.
pub const RECOVER_TOKEN_SELECTOR: u32 = 0xb29a8140;

/// Selector of the bot's owner-only `recoverETH()`.
pub const RECOVER_ETH_SELECTOR: u32 = 0x0614117a;

/// ABI calldata of `recoverToken(token, amount)`, which sweeps `amount` of
/// `token` from the bot to its owner.
pub open spec fn recover_token_call(token: Address, amount: u128) -> Seq<u8> {
    be_bytes(RECOVER_TOKEN_SELECTOR as nat, 4) + Seq::new(12, |i: int| 0u8) + address_bytes(token) + be_bytes(
        amount as nat,
        32,
    )
}

/// Encodes `recover_token_call`.
pub fn encode_recover_token(token: Address, amount: u128) -> (r: Vec<u8>)
    ensures
        r@ == recover_token_call(token, amount),
{
    let mut out: Vec<u8> = Vec::new();
    push_be(&mut out, RECOVER_TOKEN_SELECTOR as u128, 4);
    push_zeros(&mut out, 12);
    push_address(&mut out, token);
    push_be(&mut out, amount, 32);
    proof {
        assert(out@ =~= recover_token_call(token, amount));
    }
    out
}

/// ABI calldata of `recoverETH()`, which sweeps the bot's ether to its owner.
pub fn encode_recover_eth() -> (r: Vec<u8>)
    ensures
        r@ == be_bytes(RECOVER_ETH_SELECTOR as nat, 4),
{
    let mut out: Vec<u8> = Vec::new();
    push_be(&mut out, RECOVER_ETH_SELECTOR as u128, 4);
    out
}

/// The amount a pool pays out for its variant: v2 math for v2 pairs, the
/// fee-tiered form for v3 pools; `None` on overflow or an invalid fee.
pub open spec fn quote(version: DexVariant, amount_in: int, reserve_in: int, reserve_out: int, fee: int) -> Option<int> {
    match version {
        DexVariant::UniswapV2 => if v2_fits(amount_in, reserve_in, reserve_out) {
            Some(v2_amount_out(amount_in, reserve_in, reserve_out))
        } else {
            None
        },
        DexVariant::UniswapV3 => if fee <= 1_000_000 && v3_fits(amount_in, reserve_in, reserve_out, fee) {
            Some(v3_amount_out(amount_in, reserve_in, reserve_out, fee))
        } else {
            None
        },
    }
}

/// Quotes a swap on a pool of the given variant.
pub fn quote_amount_out(version: DexVariant, amount_in: u128, reserve_in: u128, reserve_out: u128, fee: u32) -> (r: Option<u128>)
    ensures
        r matches Some(v) ==> quote(version, amount_in as int, reserve_in as int, reserve_out as int, fee as int) == Some(v as int),
        r is None ==> quote(version, amount_in as int, reserve_in as int, reserve_out as int, fee as int) is None,
{
    match version {
        DexVariant::UniswapV2 => get_v2_amount_out(amount_in, reserve_in, reserve_out),
        DexVariant::UniswapV3 => if fee <= 1_000_000 {
            get_v3_amount_out(amount_in, reserve_in, reserve_out, fee)
        } else {
            None
        },
    }
}

/// The reserves recorded for `pair`, first match.
pub open spec fn reserves_of(reserves: Seq<(Address, (u128, u128))>, pair: Address, i: int) -> Option<(u128, u128)>
    decreases reserves.len() - i,
{
    if i < 0 || i >= reserves.len() {
        None
    } else if reserves[i].0 == pair {
        Some(reserves[i].1)
    } else {
        reserves_of(reserves, pair, i + 1)
    }
}

/// Looks up the reserves recorded for `pair`.
pub fn lookup_reserves(reserves: &Vec<(Address, (u128, u128))>, pair: Address) -> (r: Option<(u128, u128)>)
    ensures
        r == reserves_of(reserves@, pair, 0),
{
    let mut i: usize = 0;
    while i < reserves.len()
        invariant
            i <= reserves@.len(),
            reserves_of(reserves@, pair, 0) == reserves_of(reserves@, pair, i as int),
        decreases reserves@.len() - i,
    {
        if reserves[i].0 == pair {
            return Some(reserves[i].1);
        }
        i = i + 1;
    }
    None
}

/// The frontrun entry of one swap: buy the target with `amount_in - 1` of the
/// main currency (one wei left as a rounding buffer), quoted on the
/// pre-trade reserves; `None` when the pool's reserves are unknown or the
/// quote fails (it leaves the `u128` range of amounts), and the sandwich is
/// then left out of the batch.
pub open spec fn front_entry(s: SwapInfo, amount_in: u128, reserves: Seq<(Address, (u128, u128))>) -> Option<TradeEntry> {
    let new_in: u128 = if amount_in >= 1 { (amount_in - 1) as u128 } else { 0 };
    match reserves_of(reserves, s.target_pair, 0) {
        Some((r0, r1)) => {
            let (rin, rout) = if s.token0_is_main { (r0, r1) } else { (r1, r0) };
            match quote(s.version, new_in as int, rin as int, rout as int, s.fee as int) {
                Some(out) => Some(
                    TradeEntry {
                        zero_for_one: s.token0_is_main,
                        pair: s.target_pair,
                        token_in: s.main_currency,
                        amount_in: new_in,
                        amount_out: out as u128,
                    },
                ),
                None => None,
            }
        },
        None => None,
    }
}

/// The backrun entry of one swap: sell `balance - 1` of the target token
/// back into the main currency, in the opposite direction to the frontrun,
/// quoted on the post-victim reserves.
pub open spec fn back_entry(s: SwapInfo, balance: u128, reserves: Seq<(Address, (u128, u128))>) -> Option<TradeEntry> {
    let new_in: u128 = if balance >= 1 { (balance - 1) as u128 } else { 0 };
    match reserves_of(reserves, s.target_pair, 0) {
        Some((r0, r1)) => {
            let (rin, rout) = if s.token0_is_main { (r1, r0) } else { (r0, r1) };
            match quote(s.version, new_in as int, rin as int, rout as int, s.fee as int) {
                Some(out) => Some(
                    TradeEntry {
                        zero_for_one: !s.token0_is_main,
                        pair: s.target_pair,
                        token_in: s.target_token,
                        amount_in: new_in,
                        amount_out: out as u128,
                    },
                ),
                None => None,
            }
        },
        None => None,
    }
}

/// Computes `front_entry`.
pub fn make_front_entry(s: &SwapInfo, amount_in: u128, reserves: &Vec<(Address, (u128, u128))>) -> (r: Option<TradeEntry>)
    ensures
        r == front_entry(*s, amount_in, reserves@),
{
    let new_in: u128 = if amount_in >= 1 {
        amount_in - 1
    } else {
        0
    };
    match lookup_reserves(reserves, s.target_pair) {
        Some((r0, r1)) => {
            let (rin, rout) = if s.token0_is_main {
                (r0, r1)
            } else {
                (r1, r0)
            };
            match quote_amount_out(s.version, new_in, rin, rout, s.fee) {
                Some(out) => Some(
                    TradeEntry {
                        zero_for_one: s.token0_is_main,
                        pair: s.target_pair,
                        token_in: s.main_currency,
                        amount_in: new_in,
                        amount_out: out,
                    },
                ),
                None => None,
            }
        },
        None => None,
    }
}

/// Computes `back_entry`.
pub fn make_back_entry(s: &SwapInfo, balance: u128, reserves: &Vec<(Address, (u128, u128))>) -> (r: Option<TradeEntry>)
    ensures
        r == back_entry(*s, balance, reserves@),
{
    let new_in: u128 = if balance >= 1 {
        balance - 1
    } else {
        0
    };
    match lookup_reserves(reserves, s.target_pair) {
        Some((r0, r1)) => {
            let (rin, rout) = if s.token0_is_main {
                (r1, r0)
            } else {
                (r0, r1)
            };
            match quote_amount_out(s.version, new_in, rin, rout, s.fee) {
                Some(out) => Some(
                    TradeEntry {
                        zero_for_one: !s.token0_is_main,
                        pair: s.target_pair,
                        token_in: s.target_token,
                        amount_in: new_in,
                        amount_out: out,
                    },
                ),
                None => None,
            }
        },
        None => None,
    }
}

} // verus!

use vstd::prelude::*;
use crate::address::Address;
use crate::routers::{is_known_router, is_router_address, is_swap_selector, selector_value};

verus! {

/// What a pending transaction does, as far as the strategy cares.
#[derive(Clone, Copy, Debug, PartialEq, Eq, Structural)]
pub enum TxKind {
    EthTransfer,
    Erc20Approve,
    Erc20Transfer,
    Swap,
    Other,
}

/// ERC-20 `approve(address,uint256)`.
pub const APPROVE_SELECTOR: u32 = 0x095ea7b3;

/// ERC-20 `transfer(address,uint256)`.
pub const TRANSFER_SELECTOR: u32 = 0xa9059cbb;

/// `token0()`, found in the bytecode of every pair contract.
pub const PAIR_TOKEN0_SELECTOR: u32 = 0x0dfe1681;

/// `token1()`, found in the bytecode of every pair contract.
pub const PAIR_TOKEN1_SELECTOR: u32 = 0xd21220a7;

/// The kind that the first four bytes of calldata give: `Other` for
/// calldata shorter than a selector or an unknown selector.
pub open spec fn selector_kind(input: Seq<u8>) -> TxKind {
    if input.len() < 4 {
        TxKind::Other
    } else {
        let v = selector_value(input.subrange(0, 4));
        if is_swap_selector(v) {
            TxKind::Swap
        } else if v == APPROVE_SELECTOR {
            TxKind::Erc20Approve
        } else if v == TRANSFER_SELECTOR {
            TxKind::Erc20Transfer
        } else {
            TxKind::Other
        }
    }
}

/// Whether four consecutive bytes of `code` spell the selector `sel`.
pub open spec fn contains_selector(code: Seq<u8>, sel: u32) -> bool {
    exists|i: int| 0 <= i && i + 4 <= code.len() && #[trigger] selector_value(code.subrange(i, i + 4)) == sel
}

/// Bytecode of at least 100 bytes that names both `token0()` and `token1()`.
pub open spec fn pool_like(code: Seq<u8>) -> bool {
    code.len() >= 100 && contains_selector(code, PAIR_TOKEN0_SELECTOR) && contains_selector(
        code,
        PAIR_TOKEN1_SELECTOR,
    )
}

/// Bytecode of more than 1000 bytes.
pub open spec fn router_like(code: Seq<u8>) -> bool {
    code.len() > 1000
}

/// The kind decided from the destination and the calldata alone; `None` when
/// only the destination's bytecode can tell.
pub open spec fn static_kind(to: Option<Address>, input: Seq<u8>) -> Option<TxKind> {
    if to.is_some() && is_router_address(to.unwrap()) {
        Some(TxKind::Swap)
    } else if input.len() == 0 {
        Some(TxKind::EthTransfer)
    } else if selector_kind(input) != TxKind::Other {
        Some(selector_kind(input))
    } else if to.is_some() {
        None
    } else {
        Some(TxKind::Other)
    }
}

/// The kind of a transaction, given the bytecode at its destination when that
/// could be fetched.
pub open spec fn tx_kind(to: Option<Address>, input: Seq<u8>, code: Option<Seq<u8>>) -> TxKind {
    match static_kind(to, input) {
        Some(k) => k,
        None => if code.is_some() && (router_like(code.unwrap()) || pool_like(code.unwrap())) {
            TxKind::Swap
        } else {
            TxKind::Other
        },
    }
}

/// The selector value of `input[start..start + 4]`.
fn selector_at(input: &[u8], start: usize) -> (r: u32)
    requires
        start + 4 <= input@.len(),
    ensures
        r == selector_value(input@.subrange(start as int, start + 4)),
{
    input[start] as u32 * 0x1000000 + input[start + 1] as u32 * 0x10000 + input[start + 2] as u32
        * 0x100 + input[start + 3] as u32
}

/// The selector value of calldata of at least four bytes.
pub fn selector_of(input: &[u8]) -> (r: u32)
    requires
        input@.len() >= 4,
    ensures
        r == selector_value(input@.subrange(0, 4)),
{
    selector_at(input, 0)
}

/// Classifies calldata by its selector; `Other` when it is shorter than four
/// bytes or its selector is unknown.
pub fn classify_selector(input: &[u8]) -> (r: TxKind)
    ensures
        r == selector_kind(input@),
{
    if input.len() < 4 {
        return TxKind::Other;
    }
    let v = selector_at(input, 0);
    let sel: [u8; 4] = [input[0], input[1], input[2], input[3]];
    proof {
        assert(sel@ == input@.subrange(0, 4));
    }
    if crate::routers::is_known_swap_selector(&sel) {
        TxKind::Swap
    } else if v == APPROVE_SELECTOR {
        TxKind::Erc20Approve
    } else if v == TRANSFER_SELECTOR {
        TxKind::Erc20Transfer
    } else {
        TxKind::Other
    }
}

/// Whether some four consecutive bytes of `code` spell `sel`.
pub fn code_contains_selector(code: &[u8], sel: u32) -> (r: bool)
    ensures
        r == contains_selector(code@, sel),
{
    let n = code.len();
    if n < 4 {
        return false;
    }
    let mut i: usize = 0;
    while i <= n - 4
        invariant
            n == code@.len(),
            n >= 4,
            i <= n - 3,
            forall|j: int| 0 <= j < i ==> #[trigger] selector_value(code@.subrange(j, j + 4)) != sel,
        decreases n - i,
    {
        if selector_at(code, i) == sel {
            return true;
        }
        i = i + 1;
    }
    false
}

/// Whether bytecode looks like a pair contract.
pub fn is_pool_contract(code: &[u8]) -> (r: bool)
    ensures
        r == pool_like(code@),
{
    code.len() >= 100 && code_contains_selector(code, PAIR_TOKEN0_SELECTOR) && code_contains_selector(
        code,
        PAIR_TOKEN1_SELECTOR,
    )
}

/// Whether bytecode looks like a router: routers carry large payloads.
pub fn is_router_like(code: &[u8]) -> (r: bool)
    ensures
        r == router_like(code@),
{
    code.len() > 1000
}

/// Classifies a transaction without looking at bytecode; `None` when the
/// bytecode at `to` is needed to decide.
pub fn classify_static(to: Option<Address>, input: &[u8]) -> (r: Option<TxKind>)
    ensures
        r == static_kind(to, input@),
{
    if let Some(a) = to {
        if is_known_router(&a) {
            return Some(TxKind::Swap);
        }
    }
    if input.len() == 0 {
        return Some(TxKind::EthTransfer);
    }
    let k = classify_selector(input);
    if k != TxKind::Other {
        return Some(k);
    }
    if to.is_some() {
        None
    } else {
        Some(TxKind::Other)
    }
}

/// Classifies a pending transaction: a known router, then empty calldata, then
/// the selector, and last the bytecode at the destination (`code`, when it
/// could be fetched).
pub fn classify_transaction(to: Option<Address>, input: &[u8], code: Option<&[u8]>) -> (r: TxKind)
    ensures
        r == tx_kind(
            to,
            input@,
            match code {
                Some(c) => Some(c@),
                None => None,
            },
        ),
{
    match classify_static(to, input) {
        Some(k) => k,
        None => {
            match code {
                Some(c) => {
                    if is_router_like(c) || is_pool_contract(c) {
                        TxKind::Swap
                    } else {
                        TxKind::Other
                    }
                },
                None => TxKind::Other,
            }
        },
    }
}

/// Calldata too short to hold a selector decodes to `Other`.
pub proof fn lemma_short_calldata_is_other(input: Seq<u8>)
    requires
        input.len() < 4,
    ensures
        selector_kind(input) == TxKind::Other,
{
}

/// A transaction with empty calldata to anything but a curated router is an
/// ether transfer, whatever its bytecode.
pub proof fn lemma_empty_calldata_is_transfer(to: Option<Address>, code: Option<Seq<u8>>)
    requires
        to.is_none() || !is_router_address(to.unwrap()),
    ensures
        tx_kind(to, Seq::<u8>::empty(), code) == TxKind::EthTransfer,
{
}

} // verus!

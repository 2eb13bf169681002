use vstd::prelude::*;
use crate::address::Address;

verus! {

/// The two AMM designs the strategy trades against.
#[derive(Clone, Copy, Debug, PartialEq, Eq, Structural)]
pub enum DexVariant {
    /// Constant-product pairs.
    UniswapV2,
    /// Concentrated-liquidity pools.
    UniswapV3,
}

impl DexVariant {
    /// The protocol version: 2 or 3.
    pub fn num(&self) -> (r: u8)
        ensures
            r == (match *self {
                DexVariant::UniswapV2 => 2u8,
                DexVariant::UniswapV3 => 3u8,
            }),
    {
        match self {
            DexVariant::UniswapV2 => 2,
            DexVariant::UniswapV3 => 3,
        }
    }
}

/// An AMM pool as discovered on chain.
#[derive(Clone, Copy, Debug, PartialEq, Eq, Structural)]
pub struct Pool {
    pub id: i64,
    pub address: Address,
    pub version: DexVariant,
    pub token0: Address,
    pub token1: Address,
    /// Fee in parts per million (3000 for v2 pairs).
    pub fee: u32,
    pub block_number: u64,
    pub timestamp: u64,
}

/// Whether `p` trades `a` against `b`, in either order.
pub open spec fn pool_trades(p: Pool, a: Address, b: Address) -> bool {
    (p.token0 == a && p.token1 == b) || (p.token0 == b && p.token1 == a)
}

impl Pool {
    /// Whether this pool trades `token_a` against `token_b`, in either order.
    pub fn trades(&self, token_a: Address, token_b: Address) -> (r: bool)
        ensures
            r == pool_trades(*self, token_a, token_b),
    {
        let is_zero_for_one = self.token0 == token_a && self.token1 == token_b;
        let is_one_for_zero = self.token1 == token_a && self.token0 == token_b;
        is_zero_for_one || is_one_for_zero
    }
}

/// The first pool from index `i` on that trades `a` against `b`.
pub open spec fn find_pool_from(pools: Seq<Pool>, a: Address, b: Address, i: int) -> Option<Pool>
    decreases pools.len() - i,
{
    if i < 0 || i >= pools.len() {
        None
    } else if pool_trades(pools[i], a, b) {
        Some(pools[i])
    } else {
        find_pool_from(pools, a, b, i + 1)
    }
}

/// The first pool from index `i` on at address `addr`.
pub open spec fn pool_at_from(pools: Seq<Pool>, addr: Address, i: int) -> Option<Pool>
    decreases pools.len() - i,
{
    if i < 0 || i >= pools.len() {
        None
    } else if pools[i].address == addr {
        Some(pools[i])
    } else {
        pool_at_from(pools, addr, i + 1)
    }
}

/// The first pool that trades `token0` against `token1`, in either order.
pub fn get_pool_by_tokens(pools: &Vec<Pool>, token0: Address, token1: Address) -> (r: Option<Pool>)
    ensures
        r == find_pool_from(pools@, token0, token1, 0),
{
    let mut i: usize = 0;
    while i < pools.len()
        invariant
            i <= pools@.len(),
            find_pool_from(pools@, token0, token1, 0) == find_pool_from(pools@, token0, token1, i as int),
        decreases pools@.len() - i,
    {
        if pools[i].trades(token0, token1) {
            return Some(pools[i]);
        }
        i = i + 1;
    }
    None
}

/// The first pool at address `addr`.
pub fn get_pool_by_address(pools: &Vec<Pool>, addr: Address) -> (r: Option<Pool>)
    ensures
        r == pool_at_from(pools@, addr, 0),
{
    let mut i: usize = 0;
    while i < pools.len()
        invariant
            i <= pools@.len(),
            pool_at_from(pools@, addr, 0) == pool_at_from(pools@, addr, i as int),
        decreases pools@.len() - i,
    {
        if pools[i].address == addr {
            return Some(pools[i]);
        }
        i = i + 1;
    }
    None
}

/// Whether `a` is among `known`.
pub fn contains_address(known: &Vec<Address>, a: Address) -> (r: bool)
    ensures
        r == known@.contains(a),
{
    let mut i: usize = 0;
    while i < known.len()
        invariant
            i <= known@.len(),
            forall|j: int| 0 <= j < i ==> known@[j] != a,
        decreases known@.len() - i,
    {
        if known[i] == a {
            proof {
                assert(known@[i as int] == a);
            }
            return true;
        }
        i = i + 1;
    }
    false
}

/// The pools whose two tokens are both known, in the order given.
pub fn filter_pools_by_tokens(pools: &Vec<Pool>, known_tokens: &Vec<Address>) -> (r: Vec<Pool>)
    ensures
        forall|i: int|
            0 <= i < r@.len() ==> pools@.contains(#[trigger] r@[i]) && known_tokens@.contains(r@[i].token0)
                && known_tokens@.contains(r@[i].token1),
        forall|i: int|
            0 <= i < pools@.len() && known_tokens@.contains(#[trigger] pools@[i].token0)
                && known_tokens@.contains(pools@[i].token1) ==> r@.contains(pools@[i]),
{
    let mut out: Vec<Pool> = Vec::new();
    let mut i: usize = 0;
    while i < pools.len()
        invariant
            i <= pools@.len(),
            forall|k: int|
                0 <= k < out@.len() ==> pools@.contains(#[trigger] out@[k]) && known_tokens@.contains(out@[k].token0)
                    && known_tokens@.contains(out@[k].token1),
            forall|k: int|
                0 <= k < i && known_tokens@.contains(#[trigger] pools@[k].token0)
                    && known_tokens@.contains(pools@[k].token1) ==> out@.contains(pools@[k]),
        decreases pools@.len() - i,
    {
        let p = pools[i];
        if contains_address(known_tokens, p.token0) && contains_address(known_tokens, p.token1) {
            let ghost before = out@;
            out.push(p);
            proof {
                assert(out@[out@.len() - 1] == p);
                assert(pools@[i as int] == p);
                assert forall|k: int|
                    0 <= k < i + 1 && known_tokens@.contains(#[trigger] pools@[k].token0)
                        && known_tokens@.contains(pools@[k].token1) implies out@.contains(pools@[k]) by {
                    if k == i {
                        assert(out@[out@.len() - 1] == pools@[k]);
                    } else {
                        assert(before.contains(pools@[k]));
                        let w = choose|w: int| 0 <= w < before.len() && before[w] == pools@[k];
                        assert(out@[w] == pools@[k]);
                    }
                }
                assert forall|k: int| 0 <= k < out@.len() implies pools@.contains(#[trigger] out@[k])
                    && known_tokens@.contains(out@[k].token0) && known_tokens@.contains(out@[k].token1) by {
                    if k < before.len() {
                        assert(out@[k] == before[k]);
                    }
                }
            }
        }
        i = i + 1;
    }
    out
}

/// Where a pool scan resumes: after the last cached pool (its id, and the
/// block after its creation block), or at `from_block` with id -1 when the
/// cache is empty.
pub open spec fn resume_at(pools: Seq<Pool>, from_block: u64) -> (i64, u64) {
    if pools.len() == 0 {
        (-1i64, from_block)
    } else {
        let last = pools.last();
        (last.id, if last.block_number < u64::MAX { (last.block_number + 1) as u64 } else { last.block_number })
    }
}

/// Computes `resume_at`.
pub fn resume_point(pools: &Vec<Pool>, from_block: u64) -> (r: (i64, u64))
    ensures
        r == resume_at(pools@, from_block),
{
    let n = pools.len();
    if n == 0 {
        (-1, from_block)
    } else {
        let last = pools[n - 1];
        let next = if last.block_number < u64::MAX {
            last.block_number + 1
        } else {
            last.block_number
        };
        (last.id, next)
    }
}

/// Number of chunks of `chunk` blocks that cover `[start, to_block]`; one
/// (empty) chunk when `start` is past `to_block`.
pub open spec fn chunk_count(start: int, to_block: int, chunk: int) -> int {
    if start > to_block {
        1
    } else {
        (to_block - start) / chunk + 1
    }
}

/// The `k`-th chunk of the scan: `chunk` blocks from `start + k * chunk`,
/// cut at `to_block`.
pub open spec fn chunk_at(start: int, to_block: int, chunk: int, k: int) -> (int, int) {
    let lo = start + k * chunk;
    let hi = lo + chunk - 1;
    (lo, if hi > to_block { to_block } else { hi })
}

/// The block ranges that a scan from `start` to `to_block` asks for, in
/// chunks of `chunk` blocks.
pub fn block_ranges(start: u64, to_block: u64, chunk: u64) -> (r: Vec<(u64, u64)>)
    requires
        chunk > 0,
    ensures
        r@.len() == chunk_count(start as int, to_block as int, chunk as int),
        forall|k: int|
            0 <= k < r@.len() ==> (#[trigger] r@[k].0 as int, r@[k].1 as int) == chunk_at(
                start as int,
                to_block as int,
                chunk as int,
                k,
            ),
{
    let mut out: Vec<(u64, u64)> = Vec::new();
    if start > to_block {
        let end: u64 = if start as u128 + chunk as u128 - 1 > to_block as u128 {
            to_block
        } else {
            (start as u128 + chunk as u128 - 1) as u64
        };
        out.push((start, end));
        proof {
            assert(start as int + 0 * chunk as int == start);
        }
        return out;
    }
    let count: u128 = ((to_block - start) / chunk) as u128 + 1;
    let mut k: u128 = 0;
    while k < count
        invariant
            start <= to_block,
            chunk > 0,
            count == (to_block - start) as int / chunk as int + 1,
            k <= count,
            out@.len() == k,
            forall|m: int|
                0 <= m < k ==> (#[trigger] out@[m].0 as int, out@[m].1 as int) == chunk_at(
                    start as int,
                    to_block as int,
                    chunk as int,
                    m,
                ),
        decreases count - k,
    {
        proof {
            assert(k * chunk <= to_block - start) by (nonlinear_arith)
                requires
                    k < count,
                    count == (to_block - start) as int / chunk as int + 1,
                    chunk > 0,
                    start <= to_block,
            ;
        }
        let lo: u64 = start + (k as u64) * chunk;
        let hi: u128 = lo as u128 + chunk as u128 - 1;
        let end: u64 = if hi > to_block as u128 {
            to_block
        } else {
            hi as u64
        };
        out.push((lo, end));
        k = k + 1;
    }
    out
}

/// Gives the pools found by a scan the ids that follow `last_id`, in order.
pub fn assign_pool_ids(found: &Vec<Pool>, last_id: i64) -> (r: Vec<Pool>)
    requires
        last_id >= -1,
        last_id + found@.len() <= i64::MAX,
    ensures
        r@.len() == found@.len(),
        forall|i: int|
            0 <= i < r@.len() ==> #[trigger] r@[i] == (Pool { id: (last_id + 1 + i) as i64, ..found@[i] }),
{
    let mut out: Vec<Pool> = Vec::new();
    let mut i: usize = 0;
    while i < found.len()
        invariant
            i <= found@.len(),
            last_id >= -1,
            last_id + found@.len() <= i64::MAX,
            out@.len() == i,
            forall|k: int|
                0 <= k < i ==> #[trigger] out@[k] == (Pool { id: (last_id + 1 + k) as i64, ..found@[k] }),
        decreases found@.len() - i,
    {
        let p = found[i];
        let id: i64 = last_id + 1 + i as i64;
        out.push(Pool { id, ..p });
        proof {
            assert(out@[i as int] == (Pool { id: (last_id + 1 + i) as i64, ..found@[i as int] }));
        }
        i = i + 1;
    }
    out
}

/// Whether `ps` is ordered by creation block.
pub open spec fn by_block(ps: Seq<Pool>) -> bool {
    forall|i: int, j: int| 0 <= i < j < ps.len() ==> ps[i].block_number <= ps[j].block_number
}

/// Inserting into a sequence adds the item to its multiset.
proof fn lemma_insert_multiset(s: Seq<Pool>, p: int, x: Pool)
    requires
        0 <= p <= s.len(),
    ensures
        s.insert(p, x).to_multiset() =~= s.to_multiset().insert(x),
{
    broadcast use vstd::seq_lib::group_to_multiset_ensures;
    broadcast use vstd::multiset::group_multiset_axioms;

    let a = s.subrange(0, p);
    let b = s.subrange(p, s.len() as int);
    assert(s =~= a + b);
    vstd::seq_lib::lemma_multiset_commutative(a, b);
    vstd::seq_lib::lemma_multiset_commutative(a.push(x), b);
    assert(s.insert(p, x) =~= a.push(x) + b);
    a.to_multiset_ensures();
    assert(a.push(x).to_multiset() =~= a.to_multiset().insert(x));
}

/// The pools ordered by creation block; pools of one block keep their order.
pub fn sort_pools_by_block(found: &Vec<Pool>) -> (r: Vec<Pool>)
    ensures
        by_block(r@),
        r@.to_multiset() =~= found@.to_multiset(),
        r@.len() == found@.len(),
{
    broadcast use vstd::seq_lib::group_to_multiset_ensures;

    let mut out: Vec<Pool> = Vec::new();
    let mut i: usize = 0;
    while i < found.len()
        invariant
            i <= found@.len(),
            out@.len() == i,
            by_block(out@),
            out@.to_multiset() =~= found@.subrange(0, i as int).to_multiset(),
        decreases found@.len() - i,
    {
        let x = found[i];
        let mut p: usize = 0;
        while p < out.len() && out[p].block_number <= x.block_number
            invariant
                p <= out@.len(),
                forall|m: int| 0 <= m < p ==> out@[m].block_number <= x.block_number,
            decreases out@.len() - p,
        {
            p = p + 1;
        }
        let ghost prev = out@;
        out.insert(p, x);
        proof {
            assert(out@ == prev.insert(p as int, x));
            lemma_insert_multiset(prev, p as int, x);
            assert(found@[i as int] == x);
            let f0 = found@.subrange(0, i as int);
            assert(found@.subrange(0, i + 1) =~= f0.push(x));
            f0.to_multiset_ensures();
            assert(f0.push(x).to_multiset() =~= f0.to_multiset().insert(x));
            assert(out@.to_multiset() =~= prev.to_multiset().insert(x));
            assert(out@.to_multiset() =~= found@.subrange(0, i + 1).to_multiset());
            assert forall|a: int, b: int| 0 <= a < b < out@.len() implies out@[a].block_number <= out@[b].block_number by {
                if b < p {
                } else if b == p {
                    assert(out@[a] == prev[a]);
                } else if a < p {
                    assert(out@[a] == prev[a]);
                    assert(out@[b] == prev[b - 1]);
                } else if a == p {
                    assert(out@[b] == prev[b - 1]);
                    assert(prev[p as int].block_number > x.block_number);
                    assert(prev[p as int].block_number <= prev[b - 1].block_number);
                } else {
                    assert(out@[a] == prev[a - 1]);
                    assert(out@[b] == prev[b - 1]);
                }
            }
        }
        i = i + 1;
    }
    proof {
        assert(found@.subrange(0, found@.len() as int) =~= found@);
    }
    out
}

/// The cache after a scan: the cached pools, whose ids are `0..n` in block
/// order, followed by the pools the scan found (all created after the last
/// cached one), ordered by block and numbered on from `n`.
pub fn merge_scanned_pools(cached: &Vec<Pool>, found: &Vec<Pool>) -> (r: Vec<Pool>)
    requires
        forall|i: int| 0 <= i < cached@.len() ==> #[trigger] cached@[i].id == i,
        by_block(cached@),
        cached@.len() > 0 ==> forall|j: int|
            0 <= j < found@.len() ==> cached@.last().block_number <= #[trigger] found@[j].block_number,
        cached@.len() + found@.len() <= i64::MAX,
    ensures
        r@.len() == cached@.len() + found@.len(),
        r@.subrange(0, cached@.len() as int) == cached@,
        forall|i: int| 0 <= i < r@.len() ==> #[trigger] r@[i].id == i,
        by_block(r@),
        exists|sorted: Seq<Pool>|
            {
                &&& #[trigger] sorted.to_multiset() =~= found@.to_multiset()
                &&& sorted.len() == found@.len()
                &&& forall|k: int|
                    0 <= k < sorted.len() ==> r@[cached@.len() + k] == (Pool {
                        id: (cached@.len() + k) as i64,
                        ..#[trigger] sorted[k]
                    })
            },
{
    broadcast use vstd::seq_lib::group_to_multiset_ensures;

    let n = cached.len();
    let sorted = sort_pools_by_block(found);
    let last_id: i64 = if n == 0 {
        -1
    } else {
        cached[n - 1].id
    };
    let numbered = assign_pool_ids(&sorted, last_id);
    let mut out: Vec<Pool> = Vec::new();
    let mut i: usize = 0;
    while i < n
        invariant
            i <= n == cached@.len(),
            out@ == cached@.subrange(0, i as int),
        decreases n - i,
    {
        out.push(cached[i]);
        i = i + 1;
    }
    let mut k: usize = 0;
    while k < numbered.len()
        invariant
            k <= numbered@.len(),
            out@ == cached@ + numbered@.subrange(0, k as int),
        decreases numbered@.len() - k,
    {
        out.push(numbered[k]);
        proof {
            assert(numbered@.subrange(0, k + 1) =~= numbered@.subrange(0, k as int).push(numbered@[k as int]));
        }
        k = k + 1;
    }
    proof {
        assert(numbered@.subrange(0, numbered@.len() as int) =~= numbered@);
        assert(out@.subrange(0, n as int) =~= cached@);
        assert forall|j: int| 0 <= j < out@.len() implies #[trigger] out@[j].id == j by {
            if j >= n {
                assert(out@[j] == numbered@[j - n]);
            }
        }
        assert forall|a: int, b: int| 0 <= a < b < out@.len() implies out@[a].block_number <= out@[b].block_number by {
            if b < n {
            } else if a < n {
                assert(out@[b] == numbered@[b - n]);
                assert(sorted@.to_multiset().count(sorted@[b - n]) > 0);
                assert(found@.to_multiset().count(sorted@[b - n]) > 0);
                assert(found@.contains(sorted@[b - n]));
                let w = choose|w: int| 0 <= w < found@.len() && found@[w] == sorted@[b - n];
                assert(cached@.last().block_number <= found@[w].block_number);
                assert(cached@[a].block_number <= cached@[n - 1].block_number);
            } else {
                assert(out@[a] == numbered@[a - n]);
                assert(out@[b] == numbered@[b - n]);
            }
        }
        assert forall|k2: int| 0 <= k2 < sorted@.len() implies out@[n + k2] == (Pool {
            id: (n + k2) as i64,
            ..#[trigger] sorted@[k2]
        }) by {
            assert(out@[n + k2] == numbered@[k2]);
        }
    }
    out
}

/// Ids that follow each other without a gap keep doing so once new pools
/// are appended with `assign_pool_ids`.
pub proof fn lemma_ids_gap_free(cached: Seq<Pool>, found: Seq<Pool>, assigned: Seq<Pool>)
    requires
        cached.len() > 0,
        forall|i: int| 0 <= i < cached.len() ==> #[trigger] cached[i].id == cached[0].id + i,
        cached.last().id + found.len() <= i64::MAX,
        assigned.len() == found.len(),
        forall|i: int|
            0 <= i < assigned.len() ==> #[trigger] assigned[i] == (Pool {
                id: (cached.last().id + 1 + i) as i64,
                ..found[i]
            }),
    ensures
        forall|i: int| 0 <= i < (cached + assigned).len() ==> #[trigger] (cached + assigned)[i].id == cached[0].id + i,
{
    assert forall|i: int| 0 <= i < (cached + assigned).len() implies #[trigger] (cached + assigned)[i].id == cached[0].id + i by {
        if i >= cached.len() {
            assert((cached + assigned)[i] == assigned[i - cached.len()]);
            assert(cached.last().id == cached[0].id + cached.len() - 1);
        }
    }
}

/// The pool a v2 factory's `PairCreated(token0, token1, pair, n)` log
/// announces: tokens from its indexed topics, the pair from the first word
/// of its data; `None` when the data holds less than two words.
pub open spec fn pair_created_pool(token0_topic: crate::swap::Hash32, token1_topic: crate::swap::Hash32, data: Seq<u8>, block_number: u64, timestamp: u64) -> Option<Pool> {
    if data.len() < 64 {
        None
    } else {
        Some(
            Pool {
                id: -1i64,
                address: crate::decode::address_word(data, 0),
                version: DexVariant::UniswapV2,
                token0: topic_address(token0_topic),
                token1: topic_address(token1_topic),
                fee: 3000,
                block_number,
                timestamp,
            },
        )
    }
}

/// The address in the last 20 bytes of a 32-byte topic.
pub open spec fn topic_address(t: crate::swap::Hash32) -> Address {
    Address { hi: (t.hi % 0x1_0000_0000) as u32, lo: t.lo }
}

/// Decodes `pair_created_pool`.
pub fn pool_from_pair_created(
    token0_topic: crate::swap::Hash32,
    token1_topic: crate::swap::Hash32,
    data: &[u8],
    block_number: u64,
    timestamp: u64,
) -> (r: Option<Pool>)
    ensures
        r == pair_created_pool(token0_topic, token1_topic, data@, block_number, timestamp),
{
    if data.len() < 64 {
        return None;
    }
    let pair = crate::decode::read_address_word(data, 0);
    Some(
        Pool {
            id: -1,
            address: pair,
            version: DexVariant::UniswapV2,
            token0: Address { hi: (token0_topic.hi % 0x1_0000_0000) as u32, lo: token0_topic.lo },
            token1: Address { hi: (token1_topic.hi % 0x1_0000_0000) as u32, lo: token1_topic.lo },
            fee: 3000,
            block_number,
            timestamp,
        },
    )
}

} // verus!

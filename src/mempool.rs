use vstd::prelude::*;
use bounded_vec_deque::BoundedVecDeque;
use crate::swap::{Hash32, SwapInfo};

verus! {

/// The length-limited deque of `bounded_vec_deque`, opaque to proofs.
#[verifier::external_type_specification]
#[verifier::external_body]
#[verifier::reject_recursive_types(T)]
pub struct ExBoundedVecDeque<T>(BoundedVecDeque<T>);

/// The items of a bounded deque of bundle ids, front first.
pub uninterp spec fn deque_items(q: BoundedVecDeque<(u128, u128)>) -> Seq<(u128, u128)>;

/// The length limit a bounded deque of bundle ids was made with.
pub uninterp spec fn deque_max_len(q: BoundedVecDeque<(u128, u128)>) -> nat;

/// Relies on `BoundedVecDeque::new`: an empty deque limited to `max_len`
/// items. It allocates room for all of them up front, so the limit is kept
/// small.
#[verifier::external_body]
fn deque_new(max_len: usize) -> (r: BoundedVecDeque<(u128, u128)>)
    requires
        max_len <= BUNDLE_ID_MEMORY,
    ensures
        deque_items(r) == Seq::<(u128, u128)>::empty(),
        deque_max_len(r) == max_len,
{
    BoundedVecDeque::new(max_len)
}

/// Relies on `VecDeque::contains`, reached through the deque's `Deref`.
#[verifier::external_body]
fn deque_contains(q: &BoundedVecDeque<(u128, u128)>, x: (u128, u128)) -> (r: bool)
    ensures
        r == deque_items(*q).contains(x),
{
    q.contains(&x)
}

/// Relies on `BoundedVecDeque::push_back`: with a limit of zero nothing is
/// stored; on a full deque the front item leaves before `x` joins the back.
#[verifier::external_body]
fn deque_push_back(q: &mut BoundedVecDeque<(u128, u128)>, x: (u128, u128)) -> (r: Option<(u128, u128)>)
    ensures
        deque_max_len(*final(q)) == deque_max_len(*old(q)),
        deque_max_len(*old(q)) == 0 ==> deque_items(*final(q)) == deque_items(*old(q)) && r == Some(x),
        deque_max_len(*old(q)) > 0 && deque_items(*old(q)).len() >= deque_max_len(*old(q)) ==> deque_items(
            *final(q),
        ) == deque_items(*old(q)).drop_first().push(x) && r == Some(deque_items(*old(q))[0]),
        deque_max_len(*old(q)) > 0 && deque_items(*old(q)).len() < deque_max_len(*old(q)) ==> deque_items(
            *final(q),
        ) == deque_items(*old(q)).push(x) && r is None,
{
    q.push_back(x)
}

/// How many recent bundle ids are remembered.
pub const BUNDLE_ID_MEMORY: usize = 30;

/// The ids of the last bundles simulated, oldest first, so that none is
/// sent twice.
pub struct SimulatedBundleIds {
    ids: BoundedVecDeque<(u128, u128)>,
}

/// The bundle id of a victim transaction: its hash.
pub open spec fn bundle_key(h: Hash32) -> (u128, u128) {
    (h.hi, h.lo)
}

/// The remembered ids after `id` is recorded among `items`, at most
/// `BUNDLE_ID_MEMORY` of them.
pub open spec fn remember(items: Seq<(u128, u128)>, id: (u128, u128)) -> Seq<(u128, u128)> {
    if items.len() >= BUNDLE_ID_MEMORY {
        items.drop_first().push(id)
    } else {
        items.push(id)
    }
}

impl SimulatedBundleIds {
    /// The remembered ids, oldest first.
    pub closed spec fn view(&self) -> Seq<(u128, u128)> {
        deque_items(self.ids)
    }

    pub closed spec fn wf(&self) -> bool {
        &&& deque_max_len(self.ids) == BUNDLE_ID_MEMORY
        &&& deque_items(self.ids).len() <= BUNDLE_ID_MEMORY
    }

    /// No id remembered yet.
    pub fn new() -> (r: SimulatedBundleIds)
        ensures
            r.wf(),
            r.view() == Seq::<(u128, u128)>::empty(),
    {
        SimulatedBundleIds { ids: deque_new(BUNDLE_ID_MEMORY) }
    }

    /// Whether the bundle for victim `tx_hash` was simulated lately.
    pub fn contains(&self, tx_hash: Hash32) -> (r: bool)
        ensures
            r == self.view().contains(bundle_key(tx_hash)),
    {
        deque_contains(&self.ids, (tx_hash.hi, tx_hash.lo))
    }

    /// Records the bundle for victim `tx_hash`, forgetting the oldest id
    /// when `BUNDLE_ID_MEMORY` are already remembered.
    pub fn record(&mut self, tx_hash: Hash32)
        requires
            old(self).wf(),
        ensures
            final(self).wf(),
            final(self).view() == remember(old(self).view(), bundle_key(tx_hash)),
    {
        let _ = deque_push_back(&mut self.ids, (tx_hash.hi, tx_hash.lo));
    }

    /// Claims the bundle for victim `tx_hash`: `true`, and the id is
    /// recorded, unless it was simulated lately.
    pub fn claim(&mut self, tx_hash: Hash32) -> (r: bool)
        requires
            old(self).wf(),
        ensures
            final(self).wf(),
            r == !old(self).view().contains(bundle_key(tx_hash)),
            r ==> final(self).view() == remember(old(self).view(), bundle_key(tx_hash)),
            !r ==> final(self).view() == old(self).view(),
    {
        if self.contains(tx_hash) {
            false
        } else {
            self.record(tx_hash);
            true
        }
    }
}

/// A bundle id just recorded is remembered, so a second claim of the same
/// victim in a row is refused.
pub proof fn lemma_recorded_id_is_remembered(items: Seq<(u128, u128)>, id: (u128, u128))
    ensures
        remember(items, id).contains(id),
{
    let r = remember(items, id);
    assert(r[r.len() - 1] == id);
}

/// A victim transaction waiting in the mempool, with the swaps it makes.
#[derive(Debug)]
pub struct PendingTxInfo {
    pub tx_hash: Hash32,
    /// Head block when the transaction was first stored.
    pub added_block: u64,
    pub touched_pairs: Vec<SwapInfo>,
}

/// Blocks a pending transaction that was not mined may fall behind the head
/// before it is dropped.
pub const PENDING_TTL: u64 = 3;

/// The pending victims, with the head block they are measured against.
pub struct PendingTxs {
    head: u64,
    entries: Vec<PendingTxInfo>,
}

/// Whether an entry first seen at `added` is still fresh at `head`: at most
/// `PENDING_TTL` blocks behind it.
pub open spec fn fresh(added: u64, head: u64) -> bool {
    added + PENDING_TTL >= head
}

/// A copy of a list of swap records.
/// Whether no hash occurs twice.
pub open spec fn unique_hashes(v: Seq<(Hash32, u64)>) -> bool {
    forall|i: int, j: int| 0 <= i < j < v.len() ==> v[i].0 != v[j].0
}

fn copy_swaps(v: &Vec<SwapInfo>) -> (r: Vec<SwapInfo>)
    ensures
        r@ == v@,
{
    let mut out: Vec<SwapInfo> = Vec::new();
    let mut i: usize = 0;
    while i < v.len()
        invariant
            i <= v@.len(),
            out@ == v@.subrange(0, i as int),
        decreases v@.len() - i,
    {
        out.push(v[i]);
        i = i + 1;
    }
    out
}

/// Whether `h` is among the first `n` hashes of `mined`.
fn hash_in(mined: &Vec<Hash32>, h: Hash32) -> (r: bool)
    ensures
        r == mined@.contains(h),
{
    let mut i: usize = 0;
    while i < mined.len()
        invariant
            i <= mined@.len(),
            forall|k: int| 0 <= k < i ==> mined@[k] != h,
        decreases mined@.len() - i,
    {
        if mined[i] == h {
            assert(mined@[i as int] == h);
            return true;
        }
        i = i + 1;
    }
    false
}

impl PendingTxs {
    /// Each stored transaction's hash and first-seen block.
    pub closed spec fn view(&self) -> Seq<(Hash32, u64)> {
        Seq::new(self.entries@.len(), |i: int| (self.entries@[i].tx_hash, self.entries@[i].added_block))
    }

    /// The head block.
    pub closed spec fn head_spec(&self) -> u64 {
        self.head
    }

    /// Every stored transaction was first seen at or before the head, is
    /// fresh at it, and is stored once.
    pub open spec fn wf(&self) -> bool {
        &&& forall|x: (Hash32, u64)|
            #[trigger] self.view().contains(x) ==> x.1 <= self.head_spec() && fresh(x.1, self.head_spec())
        &&& unique_hashes(self.view())
    }

    /// An empty store at head `head`.
    pub fn new(head: u64) -> (r: PendingTxs)
        ensures
            r.wf(),
            r.head_spec() == head,
            r.view().len() == 0,
    {
        let r = PendingTxs { head, entries: Vec::new() };
        assert(r.view().len() == 0);
        r
    }

    /// The head block.
    pub fn head(&self) -> (r: u64)
        ensures
            r == self.head_spec(),
    {
        self.head
    }

    /// Number of stored transactions.
    pub fn len(&self) -> (r: usize)
        ensures
            r == self.view().len(),
    {
        self.entries.len()
    }

    /// Whether `tx_hash` is stored.
    pub fn contains(&self, tx_hash: Hash32) -> (r: bool)
        ensures
            r == exists|a: u64| self.view().contains((tx_hash, a)),
    {
        let mut i: usize = 0;
        while i < self.entries.len()
            invariant
                i <= self.entries@.len(),
                forall|k: int| 0 <= k < i ==> self.entries@[k].tx_hash != tx_hash,
            decreases self.entries@.len() - i,
        {
            if self.entries[i].tx_hash == tx_hash {
                assert(self.view()[i as int] == (tx_hash, self.entries@[i as int].added_block));
                assert(self.view().contains((tx_hash, self.entries@[i as int].added_block)));
                return true;
            }
            i = i + 1;
        }
        assert forall|a: u64| !self.view().contains((tx_hash, a)) by {
            if self.view().contains((tx_hash, a)) {
                let k = choose|k: int| 0 <= k < self.view().len() && self.view()[k] == (tx_hash, a);
                assert(self.entries@[k].tx_hash == tx_hash);
            }
        }
        false
    }

    /// Keeps the entries not in `mined` and fresh at the head.
    fn retain_entries(&mut self, mined: &Vec<Hash32>)
        requires
            unique_hashes(old(self).view()),
        ensures
            unique_hashes(final(self).view()),
            final(self).head == old(self).head,
            forall|x: (Hash32, u64)|
                #[trigger] final(self).view().contains(x) <==> old(self).view().contains(x) && !mined@.contains(x.0)
                    && fresh(x.1, old(self).head),
    {
        let mut old_entries: Vec<PendingTxInfo> = Vec::new();
        std::mem::swap(&mut old_entries, &mut self.entries);
        let ghost before = Seq::new(
            old_entries@.len(),
            |i: int| (old_entries@[i].tx_hash, old_entries@[i].added_block),
        );
        proof {
            assert(before =~= old(self).view());
        }
        let mut i: usize = 0;
        while i < old_entries.len()
            invariant
                i <= old_entries@.len(),
                self.head == old(self).head,
                before == Seq::new(
                    old_entries@.len(),
                    |k: int| (old_entries@[k].tx_hash, old_entries@[k].added_block),
                ),
                forall|x: (Hash32, u64)|
                    #[trigger] self.view().contains(x) <==> before.subrange(0, i as int).contains(x)
                        && !mined@.contains(x.0) && fresh(x.1, self.head),
                unique_hashes(before),
                unique_hashes(self.view()),
            decreases old_entries@.len() - i,
        {
            let e = &old_entries[i];
            let keep = !hash_in(mined, e.tx_hash) && e.added_block as u128 + PENDING_TTL as u128 >= self.head as u128;
            let ghost prev = self.view();
            if keep {
                let copy = PendingTxInfo {
                    tx_hash: e.tx_hash,
                    added_block: e.added_block,
                    touched_pairs: copy_swaps(&e.touched_pairs),
                };
                self.entries.push(copy);
                assert(self.view() =~= prev.push((e.tx_hash, e.added_block)));
                proof {
                    assert(before[i as int] == (e.tx_hash, e.added_block));
                    assert forall|a: int, b: int| 0 <= a < b < self.view().len() implies self.view()[a].0 != self.view()[b].0 by {
                        if b == prev.len() {
                            assert(self.view()[a] == prev[a]);
                            assert(prev.contains(prev[a]));
                            assert(before.subrange(0, i as int).contains(prev[a]));
                            let m = choose|m: int| 0 <= m < i && before.subrange(0, i as int)[m] == prev[a];
                            assert(before[m] == prev[a]);
                        } else {
                            assert(self.view()[a] == prev[a]);
                            assert(self.view()[b] == prev[b]);
                        }
                    }
                }
            }
            proof {
                let cur = before.subrange(0, i + 1);
                assert(cur =~= before.subrange(0, i as int).push(before[i as int]));
                assert forall|x: (Hash32, u64)|
                    #[trigger] self.view().contains(x) <==> cur.contains(x) && !mined@.contains(x.0)
                        && fresh(x.1, self.head) by {
                    if self.view().contains(x) && !prev.contains(x) {
                        let k = choose|k: int| 0 <= k < self.view().len() && self.view()[k] == x;
                        assert(k == prev.len());
                        assert(cur[i as int] == x);
                    }
                    if cur.contains(x) && !before.subrange(0, i as int).contains(x) {
                        let k = choose|k: int| 0 <= k < cur.len() && cur[k] == x;
                        if k < i {
                            assert(before.subrange(0, i as int)[k] == x);
                        }
                        if !mined@.contains(x.0) && fresh(x.1, self.head) {
                            assert(self.view()[prev.len() as int] == x);
                        }
                    }
                    if prev.contains(x) {
                        let k = choose|k: int| 0 <= k < prev.len() && prev[k] == x;
                        assert(self.view()[k] == x);
                    }
                    if before.subrange(0, i as int).contains(x) {
                        let k = choose|k: int| 0 <= k < i && before.subrange(0, i as int)[k] == x;
                        assert(cur[k] == x);
                    }
                }
            }
            i = i + 1;
        }
        proof {
            assert(before.subrange(0, old_entries@.len() as int) == before);
            assert(before =~= old(self).view());
        }
    }

    /// A new head block, no lower than the last: drops the transactions
    /// that it mined and those no longer fresh at it.
    pub fn on_block(&mut self, head: u64, mined: &Vec<Hash32>)
        requires
            old(self).wf(),
            head >= old(self).head_spec(),
        ensures
            final(self).wf(),
            final(self).head_spec() == head,
            forall|x: (Hash32, u64)|
                #[trigger] final(self).view().contains(x) <==> old(self).view().contains(x) && !mined@.contains(x.0)
                    && fresh(x.1, head),
    {
        self.head = head;
        assert(self.view() == old(self).view());
        self.retain_entries(mined);
    }

    /// Drops `tx_hash`, once it is known to be mined.
    pub fn remove(&mut self, tx_hash: Hash32)
        requires
            old(self).wf(),
        ensures
            final(self).wf(),
            final(self).head_spec() == old(self).head_spec(),
            forall|x: (Hash32, u64)|
                #[trigger] final(self).view().contains(x) <==> old(self).view().contains(x) && x.0 != tx_hash,
    {
        let mut one: Vec<Hash32> = Vec::new();
        one.push(tx_hash);
        self.retain_entries(&one);
        assert forall|x: (Hash32, u64)|
            #[trigger] self.view().contains(x) <==> old(self).view().contains(x) && x.0 != tx_hash by {
            assert(one@.contains(x.0) <==> x.0 == tx_hash) by {
                if x.0 == tx_hash {
                    assert(one@[0] == tx_hash);
                }
            }
        }
    }

    /// Stores a victim seen at the head block, replacing an earlier entry
    /// for the same hash.
    pub fn insert(&mut self, tx_hash: Hash32, touched_pairs: Vec<SwapInfo>)
        requires
            old(self).wf(),
        ensures
            final(self).wf(),
            final(self).head_spec() == old(self).head_spec(),
            forall|x: (Hash32, u64)|
                #[trigger] final(self).view().contains(x) <==> (old(self).view().contains(x) && x.0 != tx_hash) || x == (
                    tx_hash,
                    old(self).head_spec(),
                ),
    {
        self.remove(tx_hash);
        let ghost prev = self.view();
        let head = self.head;
        self.entries.push(PendingTxInfo { tx_hash, added_block: head, touched_pairs });
        assert(self.view() =~= prev.push((tx_hash, head)));
        assert forall|x: (Hash32, u64)|
            #[trigger] self.view().contains(x) <==> prev.contains(x) || x == (tx_hash, head) by {
            if self.view().contains(x) && x != (tx_hash, head) {
                let k = choose|k: int| 0 <= k < self.view().len() && self.view()[k] == x;
                assert(prev[k] == x);
            }
            if prev.contains(x) {
                let k = choose|k: int| 0 <= k < prev.len() && prev[k] == x;
                assert(self.view()[k] == x);
            }
            if x == (tx_hash, head) {
                assert(self.view()[prev.len() as int] == x);
            }
        }
        assert forall|a: int, b: int| 0 <= a < b < self.view().len() implies self.view()[a].0 != self.view()[b].0 by {
            assert(self.view()[a] == prev[a]);
            if b == prev.len() {
                assert(prev.contains(prev[a]));
            } else {
                assert(self.view()[b] == prev[b]);
            }
        }
    }
}

/// Every stored transaction was first seen at most `PENDING_TTL` blocks
/// before the head.
pub proof fn lemma_pending_fresh(p: PendingTxs, x: (Hash32, u64))
    requires
        p.wf(),
        p.view().contains(x),
    ensures
        x.1 <= p.head_spec(),
        p.head_spec() - x.1 <= PENDING_TTL,
{
}

/// Whether a pending transaction pays enough to land in the next block:
/// legacy transactions (type 0) by their gas price, EIP-1559 ones (type 2)
/// by their fee cap; other types are let through. Mined ones are rejected.
pub open spec fn gas_gate(already_mined: bool, tx_type: Option<u64>, gas_price: Option<u128>, max_fee: Option<u128>, base_fee: u128) -> bool {
    !already_mined && match tx_type {
        Some(0) => gas_price.unwrap_or(0) >= base_fee,
        Some(2) => max_fee.unwrap_or(0) >= base_fee,
        _ => true,
    }
}

/// The victim's gas price, as the gas gate reads it (zero when unknown).
pub open spec fn victim_gas_price(tx_type: Option<u64>, gas_price: Option<u128>, max_fee: Option<u128>) -> u128 {
    match tx_type {
        Some(0) => gas_price.unwrap_or(0),
        Some(2) => max_fee.unwrap_or(0),
        _ => 0,
    }
}

/// Applies `gas_gate`, and returns the gas price it read.
pub fn check_gas_gate(
    already_mined: bool,
    tx_type: Option<u64>,
    gas_price: Option<u128>,
    max_fee: Option<u128>,
    base_fee: u128,
) -> (r: (bool, u128))
    ensures
        r.0 == gas_gate(already_mined, tx_type, gas_price, max_fee, base_fee),
        r.1 == victim_gas_price(tx_type, gas_price, max_fee),
{
    let price: u128 = match tx_type {
        Some(0) => match gas_price {
            Some(p) => p,
            None => 0,
        },
        Some(2) => match max_fee {
            Some(p) => p,
            None => 0,
        },
        _ => 0,
    };
    let pays = match tx_type {
        Some(0) => price >= base_fee,
        Some(2) => price >= base_fee,
        _ => true,
    };
    (!already_mined && pays, price)
}

/// What the strategy keeps of each new block.
#[derive(Clone, Copy, Debug, PartialEq, Eq, Structural)]
pub struct NewBlock {
    pub block_number: u64,
    pub base_fee: u64,
    /// The next block's base fee, jitter included.
    pub next_base_fee: u128,
}

impl NewBlock {
    /// The record of a block header; a missing base fee counts as zero.
    pub fn from_header(block_number: u64, gas_used: u64, gas_limit: u64, base_fee_per_gas: Option<u64>) -> (r: NewBlock)
        ensures
            r.block_number == block_number,
            r.base_fee == base_fee_per_gas.unwrap_or(0),
            crate::fees::base_fee_formula(gas_used as int, gas_limit as int, r.base_fee as int) <= r.next_base_fee,
            r.next_base_fee <= crate::fees::base_fee_formula(gas_used as int, gas_limit as int, r.base_fee as int) + 8,
    {
        let base_fee = match base_fee_per_gas {
            Some(b) => b,
            None => 0,
        };
        NewBlock {
            block_number,
            base_fee,
            next_base_fee: crate::fees::calculate_next_block_base_fee(gas_used, gas_limit, base_fee),
        }
    }
}

} // verus!

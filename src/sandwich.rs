use vstd::prelude::*;
use crate::address::Address;
use crate::calldata::{
    TradeEntry, back_entry, encode_packed, front_entry, make_back_entry, make_front_entry,
    packed_calldata,
};
use crate::pools::DexVariant;
use crate::swap::{Hash32, SwapInfo, opt_seq};

verus! {

/// A replayable snapshot of a victim's pending transaction.
#[derive(Clone, Debug)]
pub struct VictimTx {
    pub tx_hash: Hash32,
    pub from: Address,
    pub to: Address,
    pub data: Vec<u8>,
    pub value: u128,
    pub gas_price: u128,
    pub gas_limit: Option<u64>,
}

/// Whether two snapshots hold the same values.
pub open spec fn same_victim(a: VictimTx, b: VictimTx) -> bool {
    &&& a.tx_hash == b.tx_hash
    &&& a.from == b.from
    &&& a.to == b.to
    &&& a.data@ == b.data@
    &&& a.value == b.value
    &&& a.gas_price == b.gas_price
    &&& a.gas_limit == b.gas_limit
}

impl VictimTx {
    /// A copy of this snapshot.
    pub fn duplicate(&self) -> (r: VictimTx)
        ensures
            same_victim(r, *self),
    {
        VictimTx {
            tx_hash: self.tx_hash,
            from: self.from,
            to: self.to,
            data: crate::optimizer::copy_bytes(&self.data),
            value: self.value,
            gas_price: self.gas_price,
            gas_limit: self.gas_limit,
        }
    }
}

/// The victims' hashes among the first `n` sandwiches, each once, in the
/// order first seen.
pub open spec fn distinct_hashes(ss: Seq<Sandwich>, n: int) -> Seq<Hash32>
    decreases n,
{
    if n <= 0 {
        seq![]
    } else {
        let d = distinct_hashes(ss, n - 1);
        if d.contains(ss[n - 1].victim_tx.tx_hash) {
            d
        } else {
            d.push(ss[n - 1].victim_tx.tx_hash)
        }
    }
}

/// The best frontrun size found for a sandwich, with what its simulation gave.
#[derive(Clone, Debug)]
pub struct OptimizedSandwich {
    pub amount_in: u128,
    pub max_revenue: u128,
    pub front_gas_used: u64,
    pub back_gas_used: u64,
    pub front_calldata: Vec<u8>,
    pub back_calldata: Vec<u8>,
}

/// A frontrun of `amount_in` around one victim swap.
#[derive(Clone, Debug)]
pub struct Sandwich {
    pub amount_in: u128,
    pub swap_info: SwapInfo,
    pub victim_tx: VictimTx,
    pub optimized_sandwich: Option<OptimizedSandwich>,
}

impl Sandwich {
    /// Whether the frontrun size has been optimized.
    pub fn is_optimized(&self) -> (r: bool)
        ensures
            r == self.optimized_sandwich is Some,
    {
        self.optimized_sandwich.is_some()
    }
}

/// What one simulation of a batch gave.
#[derive(Clone, Debug)]
pub struct SimulatedSandwich {
    pub revenue: i128,
    pub profit: i128,
    pub gas_cost: i128,
    pub front_gas_used: u64,
    pub back_gas_used: u64,
    pub front_calldata: Vec<u8>,
    pub back_calldata: Vec<u8>,
}

/// Sandwiches that share one atomic bundle, and the asset a flash loan
/// borrows for them.
#[derive(Clone, Debug)]
pub struct BatchSandwich {
    pub sandwiches: Vec<Sandwich>,
    pub flashloan_asset: Address,
}

/// The frontrun entries of the first `n` sandwiches; those whose pool has no
/// known reserves or no quote are left out.
pub open spec fn front_entries(ss: Seq<Sandwich>, reserves: Seq<(Address, (u128, u128))>, n: int) -> Seq<TradeEntry>
    decreases n,
{
    if n <= 0 {
        seq![]
    } else {
        front_entries(ss, reserves, n - 1) + opt_seq(
            front_entry(ss[n - 1].swap_info, ss[n - 1].amount_in, reserves),
        )
    }
}

/// The balance recorded for `token`, or zero.
pub open spec fn balance_of(balances: Seq<(Address, u128)>, token: Address, i: int) -> u128
    decreases balances.len() - i,
{
    if i < 0 || i >= balances.len() {
        0
    } else if balances[i].0 == token {
        balances[i].1
    } else {
        balance_of(balances, token, i + 1)
    }
}

/// The backrun entries of the first `n` sandwiches, each selling the bot's
/// whole balance of its target token.
pub open spec fn back_entries(
    ss: Seq<Sandwich>,
    reserves: Seq<(Address, (u128, u128))>,
    balances: Seq<(Address, u128)>,
    n: int,
) -> Seq<TradeEntry>
    decreases n,
{
    if n <= 0 {
        seq![]
    } else {
        back_entries(ss, reserves, balances, n - 1) + opt_seq(
            back_entry(
                ss[n - 1].swap_info,
                balance_of(balances, ss[n - 1].swap_info.target_token, 0),
                reserves,
            ),
        )
    }
}

/// Appends the entry, if any.
fn push_entry_opt(out: &mut Vec<TradeEntry>, o: Option<TradeEntry>)
    ensures
        final(out)@ == old(out)@ + opt_seq(o),
{
    match o {
        Some(x) => {
            out.push(x);
        },
        None => {
            assert(old(out)@ + opt_seq(o) == old(out)@);
        },
    }
}

/// Looks up `balance_of(balances, token, 0)`.
pub fn lookup_balance(balances: &Vec<(Address, u128)>, token: Address) -> (r: u128)
    ensures
        r == balance_of(balances@, token, 0),
{
    let mut i: usize = 0;
    while i < balances.len()
        invariant
            i <= balances@.len(),
            balance_of(balances@, token, 0) == balance_of(balances@, token, i as int),
        decreases balances@.len() - i,
    {
        if balances[i].0 == token {
            return balances[i].1;
        }
        i = i + 1;
    }
    0
}

impl Default for BatchSandwich {
    /// An empty batch that borrows from the zero address.
    fn default() -> (r: BatchSandwich)
        ensures
            r.sandwiches@.len() == 0,
            r.flashloan_asset == (Address { hi: 0, lo: 0 }),
    {
        BatchSandwich { sandwiches: Vec::new(), flashloan_asset: Address { hi: 0, lo: 0 } }
    }
}

impl BatchSandwich {
    /// An empty batch that borrows `flashloan_asset`.
    pub fn new(flashloan_asset: Address) -> (r: BatchSandwich)
        ensures
            r.sandwiches@.len() == 0,
            r.flashloan_asset == flashloan_asset,
    {
        BatchSandwich { sandwiches: Vec::new(), flashloan_asset }
    }

    /// The distinct 4-byte prefixes of the victims' hashes, ascending.
    pub fn bundle_prefixes(&self) -> (r: Vec<u32>)
        ensures
            strictly_sorted(r@),
            forall|y: u32|
                #[trigger] r@.contains(y) <==> exists|i: int|
                    0 <= i < self.sandwiches@.len() && hash_prefix(self.sandwiches@[i].victim_tx.tx_hash) == y,
    {
        let mut out: Vec<u32> = Vec::new();
        let mut i: usize = 0;
        while i < self.sandwiches.len()
            invariant
                i <= self.sandwiches@.len(),
                strictly_sorted(out@),
                forall|y: u32|
                    #[trigger] out@.contains(y) <==> exists|k: int|
                        0 <= k < i && hash_prefix(self.sandwiches@[k].victim_tx.tx_hash) == y,
            decreases self.sandwiches@.len() - i,
        {
            let p = (self.sandwiches[i].victim_tx.tx_hash.hi / 0x1_0000_0000_0000_0000_0000_0000) as u32;
            let ghost prev = out@;
            insert_sorted(&mut out, p);
            proof {
                assert forall|y: u32|
                    #[trigger] out@.contains(y) <==> exists|k: int|
                        0 <= k < i + 1 && hash_prefix(self.sandwiches@[k].victim_tx.tx_hash) == y by {
                    if out@.contains(y) && y != p {
                        assert(prev.contains(y));
                    }
                    if y == p {
                        assert(hash_prefix(self.sandwiches@[i as int].victim_tx.tx_hash) == y);
                    }
                    if exists|k: int| 0 <= k < i + 1 && hash_prefix(self.sandwiches@[k].victim_tx.tx_hash) == y {
                        let k = choose|k: int| 0 <= k < i + 1 && hash_prefix(self.sandwiches@[k].victim_tx.tx_hash) == y;
                        if k < i {
                            assert(prev.contains(y));
                        }
                    }
                }
            }
            i = i + 1;
        }
        out
    }

    /// The id of the bundle: the victims' distinct hash prefixes as `0x`
    /// and eight hex digits, ascending, joined by `-`.
    pub fn bundle_id(&self) -> (r: String)
        ensures
            exists|ps: Seq<u32>|
                {
                    &&& strictly_sorted(ps)
                    &&& forall|y: u32|
                        #[trigger] ps.contains(y) <==> exists|i: int|
                            0 <= i < self.sandwiches@.len() && hash_prefix(self.sandwiches@[i].victim_tx.tx_hash)
                                == y
                    &&& r@ == Seq::new(joined_prefixes(ps).len(), |i: int| joined_prefixes(ps)[i] as char)
                },
    {
        let ps = self.bundle_prefixes();
        let mut text: Vec<u8> = Vec::new();
        let mut k: usize = 0;
        while k < ps.len()
            invariant
                k <= ps@.len(),
                text@ == joined_prefixes(ps@.subrange(0, k as int)),
                forall|i: int| 0 <= i < text@.len() ==> text@[i] < 128,
            decreases ps@.len() - k,
        {
            let ghost before = text@;
            if k > 0 {
                text.push(45);
            }
            let mut raw: Vec<u8> = Vec::new();
            crate::address::push_be(&mut raw, ps[k] as u128, 4);
            proof {
                crate::calldata::lemma_be_bytes_len(ps@[k as int] as nat, 4);
            }
            text.push(48);
            text.push(120);
            let mut j: usize = 0;
            let ghost mid = text@;
            while j < 4
                invariant
                    raw@ == crate::address::be_bytes(ps@[k as int] as nat, 4),
                    raw@.len() == 4,
                    j <= 4,
                    text@ == mid + crate::cache::hex_bytes(raw@).subrange(0, 2 * j),
                    forall|i: int| 0 <= i < mid.len() ==> mid[i] < 128,
                    forall|i: int| 0 <= i < text@.len() ==> text@[i] < 128,
                decreases 4 - j,
            {
                let b = raw[j];
                text.push(crate::cache::digit_byte(b / 16));
                text.push(crate::cache::digit_byte(b % 16));
                proof {
                    assert(text@ =~= mid + crate::cache::hex_bytes(raw@).subrange(0, 2 * (j + 1)));
                }
                j = j + 1;
            }
            proof {
                assert(crate::cache::hex_bytes(raw@).subrange(0, 8) =~= crate::cache::hex_bytes(raw@));
                let s = ps@.subrange(0, k + 1);
                assert(s.drop_last() =~= ps@.subrange(0, k as int));
                assert(s.last() == ps@[k as int]);
                if k == 0 {
                    assert(text@ =~= prefix_text(ps@[0]));
                } else {
                    assert(text@ =~= before + seq![45u8] + prefix_text(ps@[k as int]));
                }
            }
            k = k + 1;
        }
        proof {
            assert(ps@.subrange(0, ps@.len() as int) =~= ps@);
        }
        ascii_string(text)
    }

    /// Hashes of the victim transactions, one per sandwich.
    pub fn victim_tx_hashes(&self) -> (r: Vec<Hash32>)
        ensures
            r@.len() == self.sandwiches@.len(),
            forall|i: int| 0 <= i < r@.len() ==> r@[i] == #[trigger] self.sandwiches@[i].victim_tx.tx_hash,
    {
        let mut out: Vec<Hash32> = Vec::new();
        let mut i: usize = 0;
        while i < self.sandwiches.len()
            invariant
                i <= self.sandwiches@.len(),
                out@.len() == i,
                forall|k: int| 0 <= k < i ==> out@[k] == #[trigger] self.sandwiches@[k].victim_tx.tx_hash,
            decreases self.sandwiches@.len() - i,
        {
            out.push(self.sandwiches[i].victim_tx.tx_hash);
            i = i + 1;
        }
        out
    }

    /// Target token of each sandwich.
    pub fn target_tokens(&self) -> (r: Vec<Address>)
        ensures
            r@.len() == self.sandwiches@.len(),
            forall|i: int| 0 <= i < r@.len() ==> r@[i] == #[trigger] self.sandwiches@[i].swap_info.target_token,
    {
        let mut out: Vec<Address> = Vec::new();
        let mut i: usize = 0;
        while i < self.sandwiches.len()
            invariant
                i <= self.sandwiches@.len(),
                out@.len() == i,
                forall|k: int| 0 <= k < i ==> out@[k] == #[trigger] self.sandwiches@[k].swap_info.target_token,
            decreases self.sandwiches@.len() - i,
        {
            out.push(self.sandwiches[i].swap_info.target_token);
            i = i + 1;
        }
        out
    }

    /// Pool of each sandwich.
    pub fn target_pairs(&self) -> (r: Vec<Address>)
        ensures
            r@.len() == self.sandwiches@.len(),
            forall|i: int| 0 <= i < r@.len() ==> r@[i] == #[trigger] self.sandwiches@[i].swap_info.target_pair,
    {
        let mut out: Vec<Address> = Vec::new();
        let mut i: usize = 0;
        while i < self.sandwiches.len()
            invariant
                i <= self.sandwiches@.len(),
                out@.len() == i,
                forall|k: int| 0 <= k < i ==> out@[k] == #[trigger] self.sandwiches@[k].swap_info.target_pair,
            decreases self.sandwiches@.len() - i,
        {
            out.push(self.sandwiches[i].swap_info.target_pair);
            i = i + 1;
        }
        out
    }

    /// Pools of the sandwiches on v2 pairs, in order.
    pub fn target_v2_pairs(&self) -> (r: Vec<Address>)
        ensures
            r@ == v2_pairs(self.sandwiches@, self.sandwiches@.len() as int),
    {
        let mut out: Vec<Address> = Vec::new();
        let mut i: usize = 0;
        while i < self.sandwiches.len()
            invariant
                i <= self.sandwiches@.len(),
                out@ == v2_pairs(self.sandwiches@, i as int),
            decreases self.sandwiches@.len() - i,
        {
            if self.sandwiches[i].swap_info.version == DexVariant::UniswapV2 {
                out.push(self.sandwiches[i].swap_info.target_pair);
            }
            i = i + 1;
        }
        out
    }

    /// The frontrun entries of the batch, priced on the pre-trade `reserves`.
    pub fn frontrun_entries(&self, reserves: &Vec<(Address, (u128, u128))>) -> (r: Vec<TradeEntry>)
        ensures
            r@ == front_entries(self.sandwiches@, reserves@, self.sandwiches@.len() as int),
    {
        let mut entries: Vec<TradeEntry> = Vec::new();
        let mut i: usize = 0;
        while i < self.sandwiches.len()
            invariant
                i <= self.sandwiches@.len(),
                entries@ == front_entries(self.sandwiches@, reserves@, i as int),
            decreases self.sandwiches@.len() - i,
        {
            let s = &self.sandwiches[i];
            let e = make_front_entry(&s.swap_info, s.amount_in, reserves);
            push_entry_opt(&mut entries, e);
            i = i + 1;
        }
        entries
    }

    /// The victims of the batch, one per transaction hash, in the order
    /// first seen.
    pub fn distinct_victims(&self) -> (r: Vec<VictimTx>)
        ensures
            Seq::new(r@.len(), |k: int| r@[k].tx_hash) == distinct_hashes(
                self.sandwiches@,
                self.sandwiches@.len() as int,
            ),
            forall|k: int|
                0 <= k < r@.len() ==> exists|i: int|
                    0 <= i < self.sandwiches@.len() && same_victim(#[trigger] r@[k], self.sandwiches@[i].victim_tx),
    {
        let mut out: Vec<VictimTx> = Vec::new();
        let mut i: usize = 0;
        while i < self.sandwiches.len()
            invariant
                i <= self.sandwiches@.len(),
                Seq::new(out@.len(), |k: int| out@[k].tx_hash) == distinct_hashes(self.sandwiches@, i as int),
                forall|k: int|
                    0 <= k < out@.len() ==> exists|m: int|
                        0 <= m < i && same_victim(#[trigger] out@[k], self.sandwiches@[m].victim_tx),
            decreases self.sandwiches@.len() - i,
        {
            let v = &self.sandwiches[i].victim_tx;
            let ghost hs = Seq::new(out@.len(), |k: int| out@[k].tx_hash);
            let mut seen = false;
            let mut j: usize = 0;
            while j < out.len()
                invariant
                    j <= out@.len(),
                    hs == Seq::new(out@.len(), |k: int| out@[k].tx_hash),
                    seen == hs.subrange(0, j as int).contains(v.tx_hash),
                decreases out@.len() - j,
            {
                proof {
                    let a = hs.subrange(0, j as int);
                    let b = hs.subrange(0, j + 1);
                    assert(b =~= a.push(hs[j as int]));
                    if a.contains(v.tx_hash) {
                        let w = choose|w: int| 0 <= w < a.len() && a[w] == v.tx_hash;
                        assert(b[w] == v.tx_hash);
                    }
                    if b.contains(v.tx_hash) && hs[j as int] != v.tx_hash {
                        let w = choose|w: int| 0 <= w < b.len() && b[w] == v.tx_hash;
                        assert(a[w] == v.tx_hash);
                    }
                    if hs[j as int] == v.tx_hash {
                        assert(b[j as int] == v.tx_hash);
                    }
                }
                if out[j].tx_hash == v.tx_hash {
                    seen = true;
                }
                j = j + 1;
            }
            proof {
                assert(hs.subrange(0, out@.len() as int) =~= hs);
            }
            let ghost prev = out@;
            if !seen {
                out.push(v.duplicate());
                proof {
                    assert(Seq::new(out@.len(), |k: int| out@[k].tx_hash) =~= hs.push(v.tx_hash));
                }
            }
            proof {
                assert forall|k: int| 0 <= k < out@.len() implies exists|m: int|
                    0 <= m < i + 1 && same_victim(#[trigger] out@[k], self.sandwiches@[m].victim_tx) by {
                    if k < prev.len() {
                        assert(out@[k] == prev[k]);
                        let m = choose|m: int| 0 <= m < i && same_victim(prev[k], self.sandwiches@[m].victim_tx);
                    } else {
                        assert(same_victim(out@[k], self.sandwiches@[i as int].victim_tx));
                    }
                }
            }
            i = i + 1;
        }
        out
    }

    /// The frontrun calldata for `block_number` priced on the pre-trade
    /// `reserves`, the victims to replay after it (one per transaction, in
    /// the order first seen), and the amount of each main currency the bot
    /// must be seeded with; `None` when such an amount leaves `u128`.
    pub fn encode_frontrun_tx(&self, block_number: u64, reserves: &Vec<(Address, (u128, u128))>) -> (r: Option<
        (Vec<u8>, Vec<VictimTx>, Vec<(Address, u128)>),
    >)
        ensures
            ({
                let es = front_entries(self.sandwiches@, reserves@, self.sandwiches@.len() as int);
                &&& r is None ==> exists|i: int|
                    0 <= i < es.len() && seed_sum(es, (#[trigger] es[i]).token_in, es.len() as int) > u128::MAX
                &&& r matches Some((calldata, victims, seeds)) ==> {
                    &&& calldata@ == packed_calldata(block_number, es)
                    &&& Seq::new(victims@.len(), |k: int| victims@[k].tx_hash) == distinct_hashes(
                        self.sandwiches@,
                        self.sandwiches@.len() as int,
                    )
                    &&& forall|k: int|
                        0 <= k < victims@.len() ==> exists|i: int|
                            0 <= i < self.sandwiches@.len() && same_victim(
                                #[trigger] victims@[k],
                                self.sandwiches@[i].victim_tx,
                            )
                    &&& forall|k: int|
                        0 <= k < seeds@.len() ==> (#[trigger] seeds@[k]).1 == seed_sum(es, seeds@[k].0, es.len() as int)
                    &&& forall|k1: int, k2: int| 0 <= k1 < k2 < seeds@.len() ==> seeds@[k1].0 != seeds@[k2].0
                    &&& seeds_cover(seeds@, es, es.len() as int)
                }
            }),
    {
        let entries = self.frontrun_entries(reserves);
        let seeds = match seed_amounts(&entries) {
            Some(v) => v,
            None => return None,
        };
        let calldata = encode_packed(block_number, &entries);
        let victims = self.distinct_victims();
        Some((calldata, victims, seeds))
    }

    /// The backrun calldata for `block_number`, priced on the post-victim
    /// `reserves`, selling the bot's `token_balances` of each target token.
    pub fn encode_backrun_tx(
        &self,
        block_number: u64,
        reserves: &Vec<(Address, (u128, u128))>,
        token_balances: &Vec<(Address, u128)>,
    ) -> (r: Vec<u8>)
        ensures
            r@ == packed_calldata(
                block_number,
                back_entries(self.sandwiches@, reserves@, token_balances@, self.sandwiches@.len() as int),
            ),
    {
        let mut entries: Vec<TradeEntry> = Vec::new();
        let mut i: usize = 0;
        while i < self.sandwiches.len()
            invariant
                i <= self.sandwiches@.len(),
                entries@ == back_entries(self.sandwiches@, reserves@, token_balances@, i as int),
            decreases self.sandwiches@.len() - i,
        {
            let s = &self.sandwiches[i];
            let balance = lookup_balance(token_balances, s.swap_info.target_token);
            let e = make_back_entry(&s.swap_info, balance, reserves);
            push_entry_opt(&mut entries, e);
            i = i + 1;
        }
        encode_packed(block_number, &entries)
    }
}

/// The first four bytes of a hash.
pub open spec fn hash_prefix(h: Hash32) -> u32 {
    (h.hi / 0x1_0000_0000_0000_0000_0000_0000) as u32
}

/// Whether `s` is strictly increasing.
pub open spec fn strictly_sorted(s: Seq<u32>) -> bool {
    forall|i: int, j: int| 0 <= i < j < s.len() ==> s[i] < s[j]
}

/// Inserts `x` into the strictly increasing `v` unless it is there.
pub fn insert_sorted(v: &mut Vec<u32>, x: u32)
    requires
        strictly_sorted(old(v)@),
    ensures
        strictly_sorted(final(v)@),
        forall|y: u32| #[trigger] final(v)@.contains(y) <==> old(v)@.contains(y) || y == x,
{
    let mut i: usize = 0;
    while i < v.len() && v[i] < x
        invariant
            i <= v@.len(),
            strictly_sorted(v@),
            v@ == old(v)@,
            forall|k: int| 0 <= k < i ==> v@[k] < x,
        decreases v@.len() - i,
    {
        i = i + 1;
    }
    if i < v.len() && v[i] == x {
        assert(v@[i as int] == x);
        return;
    }
    let ghost prev = v@;
    v.insert(i, x);
    proof {
        assert(v@ == prev.insert(i as int, x));
        assert forall|a: int, b: int| 0 <= a < b < v@.len() implies v@[a] < v@[b] by {
            if b < i {
            } else if b == i {
                assert(v@[a] == prev[a]);
            } else if a < i {
                assert(v@[b] == prev[b - 1]);
                assert(v@[a] == prev[a]);
            } else if a == i {
                assert(v@[b] == prev[b - 1]);
                assert(prev[i as int] > x);
                assert(prev[i as int] <= prev[b - 1]);
            } else {
                assert(v@[b] == prev[b - 1]);
                assert(v@[a] == prev[a - 1]);
            }
        }
        assert forall|y: u32| #[trigger] v@.contains(y) <==> prev.contains(y) || y == x by {
            if v@.contains(y) {
                let k = choose|k: int| 0 <= k < v@.len() && v@[k] == y;
                if k < i {
                    assert(prev[k] == y);
                } else if k > i {
                    assert(prev[k - 1] == y);
                }
            }
            if prev.contains(y) {
                let k = choose|k: int| 0 <= k < prev.len() && prev[k] == y;
                if k < i {
                    assert(v@[k] == y);
                } else {
                    assert(v@[k + 1] == y);
                }
            }
            if y == x {
                assert(v@[i as int] == x);
            }
        }
    }
}

/// `0x` and eight lower-case hex digits of a prefix, as ASCII.
pub open spec fn prefix_text(p: u32) -> Seq<u8> {
    seq![48u8, 120u8] + crate::cache::hex_bytes(crate::address::be_bytes(p as nat, 4))
}

/// The prefix texts of `ps`, joined by `-`.
pub open spec fn joined_prefixes(ps: Seq<u32>) -> Seq<u8>
    decreases ps.len(),
{
    if ps.len() == 0 {
        seq![]
    } else if ps.len() == 1 {
        prefix_text(ps[0])
    } else {
        joined_prefixes(ps.drop_last()) + seq![45u8] + prefix_text(ps.last())
    }
}

/// Relies on `String::from_utf8`: ASCII bytes are valid UTF-8, one
/// character per byte.
#[verifier::external_body]
fn ascii_string(bytes: Vec<u8>) -> (r: String)
    requires
        forall|i: int| 0 <= i < bytes@.len() ==> bytes@[i] < 128,
    ensures
        r@ == Seq::new(bytes@.len(), |i: int| bytes@[i] as char),
{
    String::from_utf8(bytes).unwrap()
}

/// Sum of the `amount_in` of the first `n` entries that pay in `token`.
pub open spec fn seed_sum(entries: Seq<TradeEntry>, token: Address, n: int) -> int
    decreases n,
{
    if n <= 0 {
        0
    } else {
        seed_sum(entries, token, n - 1) + if entries[n - 1].token_in == token {
            entries[n - 1].amount_in as int
        } else {
            0
        }
    }
}

/// Prefix sums of seed amounts only grow.
proof fn lemma_seed_sum_grows(entries: Seq<TradeEntry>, token: Address, k: int, n: int)
    requires
        0 <= k <= n <= entries.len(),
    ensures
        0 <= seed_sum(entries, token, k) <= seed_sum(entries, token, n),
    decreases n,
{
    if k < n {
        lemma_seed_sum_grows(entries, token, k, n - 1);
    } else if n > 0 {
        lemma_seed_sum_grows(entries, token, n - 1, n - 1);
    }
}

/// Whether `seeds` holds an amount for `token`.
pub open spec fn has_seed(seeds: Seq<(Address, u128)>, token: Address) -> bool {
    exists|k: int| 0 <= k < seeds.len() && seeds[k].0 == token
}

/// Whether `seeds` holds an amount for the token of each of the first `n`
/// entries.
pub open spec fn seeds_cover(seeds: Seq<(Address, u128)>, entries: Seq<TradeEntry>, n: int) -> bool {
    forall|j: int| 0 <= j < n ==> has_seed(seeds, (#[trigger] entries[j]).token_in)
}

/// The amount of each main currency the bot must be seeded with before the
/// frontrun: the `amount_in` of its entries, summed per token, in order of
/// first use; `None` when a sum leaves `u128`.
pub fn seed_amounts(entries: &Vec<TradeEntry>) -> (r: Option<Vec<(Address, u128)>>)
    ensures
        r is Some ==> forall|k: int|
            0 <= k < r.unwrap()@.len() ==> (#[trigger] r.unwrap()@[k]).1 == seed_sum(
                entries@,
                r.unwrap()@[k].0,
                entries@.len() as int,
            ),
        r is Some ==> forall|k1: int, k2: int|
            0 <= k1 < k2 < r.unwrap()@.len() ==> r.unwrap()@[k1].0 != r.unwrap()@[k2].0,
        r is Some ==> seeds_cover(r.unwrap()@, entries@, entries@.len() as int),
        r is None ==> exists|i: int| 0 <= i < entries@.len() && seed_sum(entries@, (#[trigger] entries@[i]).token_in, entries@.len() as int) > u128::MAX,
{
    let mut out: Vec<(Address, u128)> = Vec::new();
    let mut i: usize = 0;
    while i < entries.len()
        invariant
            i <= entries@.len(),
            forall|k: int| 0 <= k < out@.len() ==> (#[trigger] out@[k]).1 == seed_sum(entries@, out@[k].0, i as int),
            forall|k1: int, k2: int| 0 <= k1 < k2 < out@.len() ==> out@[k1].0 != out@[k2].0,
            seeds_cover(out@, entries@, i as int),
            forall|t: Address| (forall|k: int| 0 <= k < out@.len() ==> out@[k].0 != t) ==> #[trigger] seed_sum(entries@, t, i as int) == 0,
        decreases entries@.len() - i,
    {
        let e = entries[i];
        assert(entries@[i as int] == e);
        let ghost prev = out@;
        let mut k: usize = 0;
        while k < out.len() && out[k].0 != e.token_in
            invariant
                k <= out@.len(),
                out@ == prev,
                forall|m: int| 0 <= m < k ==> out@[m].0 != e.token_in,
            decreases out@.len() - k,
        {
            k = k + 1;
        }
        if k < out.len() {
            let cur = out[k].1;
            if e.amount_in > u128::MAX - cur {
                proof {
                    assert(seed_sum(entries@, e.token_in, i + 1) > u128::MAX);
                    lemma_seed_sum_grows(entries@, e.token_in, i + 1, entries@.len() as int);
                    assert(entries@[i as int].token_in == e.token_in);
                }
                return None;
            }
            out.set(k, (e.token_in, cur + e.amount_in));
        } else {
            out.push((e.token_in, e.amount_in));
            proof {
                assert(seed_sum(entries@, e.token_in, i as int) == 0);
            }
        }
        proof {
            assert forall|m: int| 0 <= m < out@.len() implies (#[trigger] out@[m]).1 == seed_sum(entries@, out@[m].0, i + 1) by {
                if m < prev.len() && m != k {
                    assert(out@[m] == prev[m]);
                }
            }
            assert forall|k1: int, k2: int| 0 <= k1 < k2 < out@.len() implies out@[k1].0 != out@[k2].0 by {
                if k2 == prev.len() {
                    assert(out@[k1] == prev[k1]);
                } else {
                    if k1 != k { assert(out@[k1] == prev[k1]); }
                    if k2 != k { assert(out@[k2] == prev[k2]); }
                }
            }
            assert forall|j: int| 0 <= j < i + 1 implies has_seed(out@, (#[trigger] entries@[j]).token_in) by {
                if j == i {
                    assert(out@[k as int].0 == e.token_in);
                } else {
                    assert(has_seed(prev, entries@[j].token_in));
                    let m = choose|m: int| 0 <= m < prev.len() && prev[m].0 == entries@[j].token_in;
                    assert(out@[m].0 == prev[m].0);
                }
            }
            assert forall|t: Address| (forall|m: int| 0 <= m < out@.len() ==> out@[m].0 != t) implies #[trigger] seed_sum(entries@, t, i + 1) == 0 by {
                assert(out@[k as int].0 == e.token_in);
                assert forall|m: int| 0 <= m < prev.len() implies prev[m].0 != t by {
                    assert(out@[m].0 == prev[m].0);
                }
                assert(seed_sum(entries@, t, i as int) == 0);
                assert(t != e.token_in);
            }
        }
        i = i + 1;
    }
    assert(i == entries@.len());
    Some(out)
}

/// Pools of the first `n` sandwiches that trade on v2 pairs.
pub open spec fn v2_pairs(ss: Seq<Sandwich>, n: int) -> Seq<Address>
    decreases n,
{
    if n <= 0 {
        seq![]
    } else if ss[n - 1].swap_info.version == DexVariant::UniswapV2 {
        v2_pairs(ss, n - 1).push(ss[n - 1].swap_info.target_pair)
    } else {
        v2_pairs(ss, n - 1)
    }
}

} // verus!

use vstd::prelude::*;
use crate::address::{Address, be_value};
use crate::currency::{
    MainCurrency, currency_address, currency_balance_slot, currency_decimals, currency_feed,
    currency_weight,
};

verus! {

/// What the strategy knows of an ERC-20 token.
#[derive(Debug)]
pub struct TokenMetadata {
    pub address: Address,
    pub name: String,
    pub symbol: String,
    pub decimals: u8,
    /// Storage slot of the balance mapping; -1 when unknown.
    pub balance_slot: i32,
    /// Chainlink dollar feed, if any.
    pub price_feed: Option<Address>,
    pub is_main_currency: bool,
    /// Preference as numéraire, higher preferred.
    pub weight: u8,
    /// Last dollar price read from the feed, with 8 decimals.
    pub last_price_usd_e8: Option<u128>,
}

/// Whether two records hold the same values.
pub open spec fn same_token(a: TokenMetadata, b: TokenMetadata) -> bool {
    &&& a.address == b.address
    &&& a.name@ == b.name@
    &&& a.symbol@ == b.symbol@
    &&& a.decimals == b.decimals
    &&& a.balance_slot == b.balance_slot
    &&& a.price_feed == b.price_feed
    &&& a.is_main_currency == b.is_main_currency
    &&& a.weight == b.weight
    &&& a.last_price_usd_e8 == b.last_price_usd_e8
}

impl TokenMetadata {
    /// A copy of this record.
    pub fn duplicate(&self) -> (r: TokenMetadata)
        ensures
            same_token(r, *self),
    {
        TokenMetadata {
            address: self.address,
            name: self.name.clone(),
            symbol: self.symbol.clone(),
            decimals: self.decimals,
            balance_slot: self.balance_slot,
            price_feed: self.price_feed,
            is_main_currency: self.is_main_currency,
            weight: self.weight,
            last_price_usd_e8: self.last_price_usd_e8,
        }
    }
}

/// Error of a registry update.
#[derive(Clone, Copy, Debug, PartialEq, Eq, Structural)]
pub enum TokenError {
    /// No token is registered at the address.
    NotFound,
}

/// Token records keyed by address, seeded with the main currencies.
pub struct TokenRegistry {
    tokens: Vec<TokenMetadata>,
}

/// Index of the record at `a` among `ts`, if any.
pub open spec fn has_token(ts: Seq<TokenMetadata>, a: Address) -> bool {
    exists|i: int| 0 <= i < ts.len() && (#[trigger] ts[i]).address == a
}

/// The record for a token whose `name()`, `symbol()` and `decimals()` calls
/// returned the given values, each `None` when the call failed or did not
/// decode: `"Unknown"`, `"UNK"` and 18 stand in for what is missing.
pub open spec fn fetched_token(
    address: Address,
    name: Option<Seq<char>>,
    symbol: Option<Seq<char>>,
    decimals: Option<u8>,
    t: TokenMetadata,
) -> bool {
    &&& t.address == address
    &&& t.name@ == (match name {
        Some(n) => n,
        None => "Unknown"@,
    })
    &&& t.symbol@ == (match symbol {
        Some(s) => s,
        None => "UNK"@,
    })
    &&& t.decimals == (match decimals {
        Some(d) => d,
        None => 18u8,
    })
    &&& t.balance_slot == 0
    &&& t.price_feed is None
    &&& !t.is_main_currency
    &&& t.weight == 0
    &&& t.last_price_usd_e8 is None
}

/// A token whose `name()`, `symbol()` and `decimals()` calls all fail gets
/// the placeholder record rather than an error.
pub proof fn lemma_placeholder_token(address: Address, t: TokenMetadata)
    requires
        fetched_token(address, None, None, None, t),
    ensures
        t.name@ == "Unknown"@,
        t.symbol@ == "UNK"@,
        t.decimals == 18,
{
}

/// Builds the record `fetched_token` describes.
pub fn token_from_calls(address: Address, name: Option<String>, symbol: Option<String>, decimals: Option<u8>) -> (r: TokenMetadata)
    ensures
        fetched_token(
            address,
            match name {
                Some(n) => Some(n@),
                None => None,
            },
            match symbol {
                Some(s) => Some(s@),
                None => None,
            },
            decimals,
            r,
        ),
{
    let name = match name {
        Some(n) => n,
        None => "Unknown".to_string(),
    };
    let symbol = match symbol {
        Some(s) => s,
        None => "UNK".to_string(),
    };
    let decimals = match decimals {
        Some(d) => d,
        None => 18,
    };
    TokenMetadata {
        address,
        name,
        symbol,
        decimals,
        balance_slot: 0,
        price_feed: None,
        is_main_currency: false,
        weight: 0,
        last_price_usd_e8: None,
    }
}

/// The seven main currencies, in the order the registry is seeded.
pub open spec fn seed_currency(i: int) -> MainCurrency {
    if i == 0 {
        MainCurrency::WETH
    } else if i == 1 {
        MainCurrency::USDT
    } else if i == 2 {
        MainCurrency::USDC
    } else if i == 3 {
        MainCurrency::WBTC
    } else if i == 4 {
        MainCurrency::DAI
    } else if i == 5 {
        MainCurrency::LINK
    } else {
        MainCurrency::MKR
    }
}

/// Whether `t` is the seeded record of main currency `c`: its address,
/// decimals, balance slot, feed and weight, marked as a main currency, with
/// no price yet.
pub open spec fn is_seed_record(t: TokenMetadata, c: MainCurrency) -> bool {
    &&& t.address == currency_address(c)
    &&& t.decimals == currency_decimals(c)
    &&& t.balance_slot == currency_balance_slot(c)
    &&& t.price_feed == currency_feed(c)
    &&& t.is_main_currency
    &&& t.weight == currency_weight(c)
    &&& t.last_price_usd_e8 is None
}

/// The record of a main currency.
pub fn main_currency_metadata(c: MainCurrency, name: &str, symbol: &str) -> (r: TokenMetadata)
    ensures
        is_seed_record(r, c),
        r.name@ == name@,
        r.symbol@ == symbol@,
{
    TokenMetadata {
        address: c.address(),
        name: name.to_string(),
        symbol: symbol.to_string(),
        decimals: c.decimals(),
        balance_slot: c.balance_slot(),
        price_feed: c.chainlink_feed(),
        is_main_currency: true,
        weight: c.weight(),
        last_price_usd_e8: None,
    }
}

impl TokenRegistry {
    /// The records, in no particular order.
    pub closed spec fn view(&self) -> Seq<TokenMetadata> {
        self.tokens@
    }

    /// One record per address.
    pub closed spec fn wf(&self) -> bool {
        forall|i: int, j: int|
            0 <= i < j < self.tokens@.len() ==> (#[trigger] self.tokens@[i]).address != (
            #[trigger] self.tokens@[j]).address
    }

    /// An empty registry.
    pub fn empty() -> (r: TokenRegistry)
        ensures
            r.wf(),
            r.view().len() == 0,
    {
        TokenRegistry { tokens: Vec::new() }
    }

    /// A registry seeded with the seven main currencies and nothing else.
    pub fn new() -> (r: TokenRegistry)
        ensures
            r.wf(),
            r.view().len() == 7,
            forall|i: int| 0 <= i < 7 ==> is_seed_record(#[trigger] r.view()[i], seed_currency(i)),
            forall|c: MainCurrency|
                c != MainCurrency::Default ==> has_token(r.view(), #[trigger] currency_address(c)),
    {
        let mut tokens: Vec<TokenMetadata> = Vec::new();
        tokens.push(main_currency_metadata(MainCurrency::WETH, "Wrapped Ether", "WETH"));
        tokens.push(main_currency_metadata(MainCurrency::USDT, "Tether USD", "USDT"));
        tokens.push(main_currency_metadata(MainCurrency::USDC, "USD Coin", "USDC"));
        tokens.push(main_currency_metadata(MainCurrency::WBTC, "Wrapped BTC", "WBTC"));
        tokens.push(main_currency_metadata(MainCurrency::DAI, "Dai Stablecoin", "DAI"));
        tokens.push(main_currency_metadata(MainCurrency::LINK, "ChainLink Token", "LINK"));
        tokens.push(main_currency_metadata(MainCurrency::MKR, "Maker", "MKR"));
        let r = TokenRegistry { tokens };
        proof {
            assert forall|i: int| 0 <= i < 7 implies is_seed_record(#[trigger] r.view()[i], seed_currency(i)) by {}
            assert forall|c: MainCurrency| c != MainCurrency::Default implies has_token(
                r.view(),
                #[trigger] currency_address(c),
            ) by {
                let i = match c {
                    MainCurrency::WETH => 0int,
                    MainCurrency::USDT => 1,
                    MainCurrency::USDC => 2,
                    MainCurrency::WBTC => 3,
                    MainCurrency::DAI => 4,
                    MainCurrency::LINK => 5,
                    _ => 6,
                };
                assert(r.view()[i].address == currency_address(c));
            }
            assert forall|i: int, j: int|
                0 <= i < j < r.tokens@.len() implies (#[trigger] r.tokens@[i]).address != (
                #[trigger] r.tokens@[j]).address by {
                assert(is_seed_record(r.tokens@[i], seed_currency(i)));
                assert(is_seed_record(r.tokens@[j], seed_currency(j)));
            }
        }
        r
    }

    /// Index of the record at `address`.
    fn find(&self, address: Address) -> (r: Option<usize>)
        ensures
            r matches Some(i) ==> i < self.view().len() && self.view()[i as int].address == address,
            r is None ==> !has_token(self.view(), address),
    {
        let mut i: usize = 0;
        while i < self.tokens.len()
            invariant
                i <= self.tokens@.len(),
                forall|k: int| 0 <= k < i ==> (#[trigger] self.tokens@[k]).address != address,
            decreases self.tokens@.len() - i,
        {
            if self.tokens[i].address == address {
                return Some(i);
            }
            i = i + 1;
        }
        None
    }

    /// Copies of all records, in registry order.
    pub fn all_tokens(&self) -> (r: Vec<TokenMetadata>)
        ensures
            r@.len() == self.view().len(),
            forall|i: int| 0 <= i < r@.len() ==> same_token(#[trigger] r@[i], self.view()[i]),
    {
        let mut out: Vec<TokenMetadata> = Vec::new();
        let mut i: usize = 0;
        while i < self.tokens.len()
            invariant
                i <= self.tokens@.len(),
                out@.len() == i,
                forall|k: int| 0 <= k < i ==> same_token(#[trigger] out@[k], self.tokens@[k]),
            decreases self.tokens@.len() - i,
        {
            out.push(self.tokens[i].duplicate());
            i = i + 1;
        }
        out
    }

    /// A copy of the record at `address`, if one is registered.
    pub fn get_token(&self, address: Address) -> (r: Option<TokenMetadata>)
        ensures
            r is Some <==> has_token(self.view(), address),
            r matches Some(t) ==> exists|i: int|
                0 <= i < self.view().len() && (#[trigger] self.view()[i]).address == address && same_token(
                    t,
                    self.view()[i],
                ),
    {
        match self.find(address) {
            Some(i) => Some(self.tokens[i].duplicate()),
            None => None,
        }
    }

    /// A copy of the record of main currency `currency`, if registered.
    pub fn get_main_currency(&self, currency: &MainCurrency) -> (r: Option<TokenMetadata>)
        ensures
            r is Some <==> has_token(self.view(), currency_address(*currency)),
    {
        self.get_token(currency.address())
    }

    /// Copies of the records that are main currencies, in registry order.
    pub fn get_main_currencies(&self) -> (r: Vec<TokenMetadata>)
        ensures
            forall|i: int| 0 <= i < r@.len() ==> (#[trigger] r@[i]).is_main_currency,
            forall|i: int|
                0 <= i < self.view().len() && (#[trigger] self.view()[i]).is_main_currency ==> has_token(
                    r@,
                    self.view()[i].address,
                ),
    {
        let mut out: Vec<TokenMetadata> = Vec::new();
        let mut i: usize = 0;
        while i < self.tokens.len()
            invariant
                i <= self.tokens@.len(),
                forall|k: int| 0 <= k < out@.len() ==> (#[trigger] out@[k]).is_main_currency,
                forall|k: int|
                    0 <= k < i && (#[trigger] self.tokens@[k]).is_main_currency ==> has_token(
                        out@,
                        self.tokens@[k].address,
                    ),
            decreases self.tokens@.len() - i,
        {
            if self.tokens[i].is_main_currency {
                let ghost prev = out@;
                out.push(self.tokens[i].duplicate());
                proof {
                    assert forall|k: int|
                        0 <= k < i + 1 && (#[trigger] self.tokens@[k]).is_main_currency implies has_token(
                        out@,
                        self.tokens@[k].address,
                    ) by {
                        if k == i {
                            assert(out@[prev.len() as int].address == self.tokens@[k].address);
                        } else {
                            let w = choose|w: int| 0 <= w < prev.len() && (#[trigger] prev[w]).address == self.tokens@[k].address;
                            assert(out@[w] == prev[w]);
                        }
                    }
                    assert forall|k: int| 0 <= k < out@.len() implies (#[trigger] out@[k]).is_main_currency by {
                        if k < prev.len() {
                            assert(out@[k] == prev[k]);
                        }
                    }
                }
            }
            i = i + 1;
        }
        out
    }

    /// Adds `metadata`, replacing the record at its address if there is one.
    pub fn register_token(&mut self, metadata: TokenMetadata)
        requires
            old(self).wf(),
        ensures
            final(self).wf(),
            has_token(final(self).view(), metadata.address),
            forall|i: int|
                0 <= i < final(self).view().len() && (#[trigger] final(self).view()[i]).address == metadata.address
                    ==> final(self).view()[i] == metadata,
            forall|a: Address|
                a != metadata.address ==> (has_token(final(self).view(), a) <==> has_token(old(self).view(), a)),
            forall|i: int|
                0 <= i < old(self).view().len() && (#[trigger] old(self).view()[i]).address != metadata.address
                    ==> final(self).view().contains(old(self).view()[i]),
    {
        let ghost a0 = metadata.address;
        match self.find(metadata.address) {
            Some(i) => {
                let ghost prev = self.tokens@;
                self.tokens.set(i, metadata);
                proof {
                    assert forall|a: Address| a != a0 implies (has_token(self.tokens@, a) <==> has_token(prev, a)) by {
                        if has_token(prev, a) {
                            let k = choose|k: int| 0 <= k < prev.len() && (#[trigger] prev[k]).address == a;
                            assert(self.tokens@[k] == prev[k]);
                        }
                        if has_token(self.tokens@, a) {
                            let k = choose|k: int| 0 <= k < self.tokens@.len() && (#[trigger] self.tokens@[k]).address == a;
                            assert(self.tokens@[k] == prev[k]);
                        }
                    }
                    assert(self.tokens@[i as int].address == a0);
                    assert forall|k: int|
                        0 <= k < prev.len() && (#[trigger] prev[k]).address != a0 implies self.tokens@.contains(prev[k]) by {
                        assert(self.tokens@[k] == prev[k]);
                    }
                }
            },
            None => {
                let ghost prev = self.tokens@;
                self.tokens.push(metadata);
                proof {
                    assert forall|a: Address| a != a0 implies (has_token(self.tokens@, a) <==> has_token(prev, a)) by {
                        if has_token(prev, a) {
                            let k = choose|k: int| 0 <= k < prev.len() && (#[trigger] prev[k]).address == a;
                            assert(self.tokens@[k] == prev[k]);
                        }
                        if has_token(self.tokens@, a) {
                            let k = choose|k: int| 0 <= k < self.tokens@.len() && (#[trigger] self.tokens@[k]).address == a;
                            assert(self.tokens@[k] == prev[k]);
                        }
                    }
                    assert(self.tokens@[prev.len() as int].address == a0);
                    assert forall|k: int|
                        0 <= k < prev.len() && (#[trigger] prev[k]).address != a0 implies self.tokens@.contains(prev[k]) by {
                        assert(self.tokens@[k] == prev[k]);
                    }
                }
            },
        }
    }

    /// Sets the dollar price (8 decimals) of the token at `address`;
    /// `NotFound` when none is registered there.
    pub fn update_price(&mut self, address: Address, price_usd_e8: u128) -> (r: Result<(), TokenError>)
        requires
            old(self).wf(),
        ensures
            final(self).wf(),
            r is Err <==> !has_token(old(self).view(), address),
            r is Err ==> final(self).view() == old(self).view(),
            final(self).view().len() == old(self).view().len(),
            forall|i: int|
                0 <= i < final(self).view().len() ==> (#[trigger] final(self).view()[i]).address == old(self).view()[i].address
                    && (final(self).view()[i].address == address ==> final(self).view()[i].last_price_usd_e8
                    == Some(price_usd_e8)) && (final(self).view()[i].address != address
                    ==> final(self).view()[i] == old(self).view()[i]),
    {
        match self.find(address) {
            Some(i) => {
                let mut t = self.tokens[i].duplicate();
                t.last_price_usd_e8 = Some(price_usd_e8);
                let ghost prev = self.tokens@;
                self.tokens.set(i, t);
                proof {
                    assert forall|k: int|
                        0 <= k < self.tokens@.len() implies (#[trigger] self.tokens@[k]).address == prev[k].address && (
                        self.tokens@[k].address == address ==> self.tokens@[k].last_price_usd_e8 == Some(
                            price_usd_e8,
                        )) && (self.tokens@[k].address != address ==> self.tokens@[k] == prev[k]) by {
                        if k != i {
                            assert(self.tokens@[k] == prev[k]);
                        }
                    }
                    assert forall|p: int, q: int|
                        0 <= p < q < self.tokens@.len() implies (#[trigger] self.tokens@[p]).address != (
                        #[trigger] self.tokens@[q]).address by {
                        assert(self.tokens@[p].address == prev[p].address);
                        assert(self.tokens@[q].address == prev[q].address);
                    }
                }
                Ok(())
            },
            None => Err(TokenError::NotFound),
        }
    }

    /// The record at `address`: the registered one, or else the one built
    /// from the token's own `name()`, `symbol()` and `decimals()` results
    /// (`token_from_calls`), which is registered.
    pub fn fetch_token_info(
        &mut self,
        address: Address,
        name: Option<String>,
        symbol: Option<String>,
        decimals: Option<u8>,
    ) -> (r: TokenMetadata)
        requires
            old(self).wf(),
        ensures
            final(self).wf(),
            has_token(final(self).view(), address),
            r.address == address,
            forall|i: int|
                0 <= i < final(self).view().len() && (#[trigger] final(self).view()[i]).address == address
                    ==> same_token(final(self).view()[i], r),
            has_token(old(self).view(), address) ==> final(self).view() == old(self).view(),
            !has_token(old(self).view(), address) ==> fetched_token(
                address,
                match name {
                    Some(n) => Some(n@),
                    None => None,
                },
                match symbol {
                    Some(s) => Some(s@),
                    None => None,
                },
                decimals,
                r,
            ),
    {
        match self.find(address) {
            Some(i) => {
                let t = self.tokens[i].duplicate();
                proof {
                    assert forall|k: int|
                        0 <= k < self.view().len() && (#[trigger] self.view()[k]).address == address implies same_token(
                        self.view()[k],
                        t,
                    ) by {
                        if k != i {
                            if k < i {
                                assert(self.tokens@[k].address != self.tokens@[i as int].address);
                            } else {
                                assert(self.tokens@[i as int].address != self.tokens@[k].address);
                            }
                        }
                    }
                }
                t
            },
            None => {
                let t = token_from_calls(address, name, symbol, decimals);
                let copy = t.duplicate();
                self.register_token(copy);
                t
            },
        }
    }
}

/// The tokens of `pools` that the registry does not know, each once, in
/// the order they first appear (token0 before token1).
pub fn missing_tokens(registry: &TokenRegistry, pools: &Vec<crate::pools::Pool>) -> (r: Vec<Address>)
    ensures
        forall|k: int| 0 <= k < r@.len() ==> !has_token(registry.view(), #[trigger] r@[k]),
        forall|k1: int, k2: int| 0 <= k1 < k2 < r@.len() ==> r@[k1] != r@[k2],
        forall|i: int|
            0 <= i < pools@.len() ==> (!has_token(registry.view(), (#[trigger] pools@[i]).token0) ==> r@.contains(
                pools@[i].token0,
            )) && (!has_token(registry.view(), pools@[i].token1) ==> r@.contains(pools@[i].token1)),
{
    let mut out: Vec<Address> = Vec::new();
    let mut i: usize = 0;
    while i < pools.len()
        invariant
            i <= pools@.len(),
            forall|k: int| 0 <= k < out@.len() ==> !has_token(registry.view(), #[trigger] out@[k]),
            forall|k1: int, k2: int| 0 <= k1 < k2 < out@.len() ==> out@[k1] != out@[k2],
            forall|j: int|
                0 <= j < i ==> (!has_token(registry.view(), (#[trigger] pools@[j]).token0) ==> out@.contains(
                    pools@[j].token0,
                )) && (!has_token(registry.view(), pools@[j].token1) ==> out@.contains(pools@[j].token1)),
        decreases pools@.len() - i,
    {
        let p = pools[i];
        add_missing(registry, &mut out, p.token0);
        add_missing(registry, &mut out, p.token1);
        i = i + 1;
    }
    out
}

/// Appends `a` to `out` unless the registry knows it or `out` holds it.
fn add_missing(registry: &TokenRegistry, out: &mut Vec<Address>, a: Address)
    requires
        forall|k: int| 0 <= k < old(out)@.len() ==> !has_token(registry.view(), #[trigger] old(out)@[k]),
        forall|k1: int, k2: int| 0 <= k1 < k2 < old(out)@.len() ==> old(out)@[k1] != old(out)@[k2],
    ensures
        forall|k: int| 0 <= k < final(out)@.len() ==> !has_token(registry.view(), #[trigger] final(out)@[k]),
        forall|k1: int, k2: int| 0 <= k1 < k2 < final(out)@.len() ==> final(out)@[k1] != final(out)@[k2],
        forall|x: Address| old(out)@.contains(x) ==> #[trigger] final(out)@.contains(x),
        !has_token(registry.view(), a) ==> final(out)@.contains(a),
{
    if registry.find(a).is_some() {
        return;
    }
    if crate::pools::contains_address(out, a) {
        return;
    }
    let ghost prev = out@;
    out.push(a);
    proof {
        assert(out@[prev.len() as int] == a);
        assert forall|x: Address| prev.contains(x) implies #[trigger] out@.contains(x) by {
            let k = choose|k: int| 0 <= k < prev.len() && prev[k] == x;
            assert(out@[k] == x);
        }
        assert forall|k: int| 0 <= k < out@.len() implies !has_token(registry.view(), #[trigger] out@[k]) by {
            if k < prev.len() {
                assert(out@[k] == prev[k]);
            }
        }
        assert forall|k1: int, k2: int| 0 <= k1 < k2 < out@.len() implies out@[k1] != out@[k2] by {
            if k2 == prev.len() {
                assert(out@[k1] == prev[k1]);
                assert(prev.contains(prev[k1]));
            } else {
                assert(out@[k1] == prev[k1]);
                assert(out@[k2] == prev[k2]);
            }
        }
    }
}

/// The dollar price with 8 decimals in a `latestRoundData()` result: its
/// second word, `answer`. `None` when the result is shorter than three words
/// or the answer does not fit in a `u128`.
pub open spec fn chainlink_answer(result: Seq<u8>) -> Option<nat> {
    if result.len() >= 96 && (forall|j: int| 32 <= j < 48 ==> result[j] == 0) {
        Some(be_value(result.subrange(48, 64)))
    } else {
        None
    }
}

/// Reads `chainlink_answer` from a `latestRoundData()` result.
pub fn chainlink_price_e8(result: &[u8]) -> (r: Option<u128>)
    ensures
        r matches Some(v) ==> chainlink_answer(result@) == Some(v as nat),
        r is None ==> chainlink_answer(result@) is None,
{
    if result.len() < 96 {
        return None;
    }
    let mut j: usize = 32;
    while j < 48
        invariant
            result@.len() >= 96,
            32 <= j <= 48,
            forall|k: int| 32 <= k < j ==> result@[k] == 0,
        decreases 48 - j,
    {
        if result[j] != 0 {
            return None;
        }
        j = j + 1;
    }
    Some(crate::address::read_be(result, 48, 64))
}

} // verus!

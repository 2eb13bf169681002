use vstd::prelude::*;
use crate::address::Address;

verus! {

/// The tokens that profit is counted in, and a fallback for pairs that hold
/// none of them.
#[derive(Clone, Copy, Debug, PartialEq, Eq, Structural)]
pub enum MainCurrency {
    WETH,
    USDT,
    USDC,
    WBTC,
    DAI,
    LINK,
    MKR,
    /// Not a main currency; counted as wrapped ether.
    Default,
}

/// Address of each main currency's token contract (the fallback uses WETH's).
pub open spec fn currency_address(c: MainCurrency) -> Address {
    match c {
        MainCurrency::WETH => Address { hi: 0xc02aaa39, lo: 0xb223fe8d0a0e5c4f27ead9083c756cc2 },
        MainCurrency::USDT => Address { hi: 0xdac17f95, lo: 0x8d2ee523a2206206994597c13d831ec7 },
        MainCurrency::USDC => Address { hi: 0xa0b86991, lo: 0xc6218b36c1d19d4a2e9eb0ce3606eb48 },
        MainCurrency::WBTC => Address { hi: 0x2260fac5, lo: 0xe5542a773aa44fbcfedf7c193bc2c599 },
        MainCurrency::DAI => Address { hi: 0x6b175474, lo: 0xe89094c44da98b954eedeac495271d0f },
        MainCurrency::LINK => Address { hi: 0x51491077, lo: 0x1af9ca656af840dff83e8264ecf986ca },
        MainCurrency::MKR => Address { hi: 0x9f8f72aa, lo: 0x9304c8b593d555f12ef6589cc3a579a2 },
        MainCurrency::Default => Address { hi: 0xc02aaa39, lo: 0xb223fe8d0a0e5c4f27ead9083c756cc2 },
    }
}

/// Checksummed text of each main currency's address.
pub open spec fn currency_address_text(c: MainCurrency) -> Seq<char> {
    match c {
        MainCurrency::WETH => "0xC02aaA39b223FE8D0A0e5C4F27eAD9083C756Cc2"@,
        MainCurrency::USDT => "0xdAC17F958D2ee523a2206206994597C13D831ec7"@,
        MainCurrency::USDC => "0xA0b86991c6218b36c1d19D4a2e9Eb0cE3606eB48"@,
        MainCurrency::WBTC => "0x2260FAC5E5542a773Aa44fBCfeDf7C193bc2C599"@,
        MainCurrency::DAI => "0x6B175474E89094C44Da98b954EedeAC495271d0F"@,
        MainCurrency::LINK => "0x514910771AF9Ca656af840dff83E8264EcF986CA"@,
        MainCurrency::MKR => "0x9f8F72aA9304c8B593d555F12eF6589cC3A579A2"@,
        MainCurrency::Default => "0xC02aaA39b223FE8D0A0e5C4F27eAD9083C756Cc2"@,
    }
}

/// The main currency whose contract lives at `a`, or `Default`.
pub open spec fn currency_of(a: Address) -> MainCurrency {
    if a == currency_address(MainCurrency::WETH) {
        MainCurrency::WETH
    } else if a == currency_address(MainCurrency::USDT) {
        MainCurrency::USDT
    } else if a == currency_address(MainCurrency::USDC) {
        MainCurrency::USDC
    } else if a == currency_address(MainCurrency::WBTC) {
        MainCurrency::WBTC
    } else if a == currency_address(MainCurrency::DAI) {
        MainCurrency::DAI
    } else if a == currency_address(MainCurrency::LINK) {
        MainCurrency::LINK
    } else if a == currency_address(MainCurrency::MKR) {
        MainCurrency::MKR
    } else {
        MainCurrency::Default
    }
}

/// Decimals of each currency's token (the fallback counts as WETH).
pub open spec fn currency_decimals(c: MainCurrency) -> u8 {
    match c {
        MainCurrency::USDT | MainCurrency::USDC => 6,
        MainCurrency::WBTC => 8,
        _ => 18,
    }
}

/// Storage slot of each currency's balance mapping (the fallback counts as
/// WETH).
pub open spec fn currency_balance_slot(c: MainCurrency) -> i32 {
    match c {
        MainCurrency::WETH | MainCurrency::Default => 3,
        MainCurrency::USDT | MainCurrency::DAI => 2,
        MainCurrency::USDC => 9,
        MainCurrency::WBTC => 0,
        MainCurrency::LINK | MainCurrency::MKR => 1,
    }
}

/// Chainlink dollar feed of each currency; none for the fallback.
pub open spec fn currency_feed(c: MainCurrency) -> Option<Address> {
    match c {
        MainCurrency::WETH => Some(Address { hi: 0x5f4ec3df, lo: 0x9cbd43714fe2740f5e3616155c5b8419 }),
        MainCurrency::USDT => Some(Address { hi: 0x3e7d1eab, lo: 0x13ad0104d2750b8863b489d65364e32d }),
        MainCurrency::USDC => Some(Address { hi: 0x8fffffd4, lo: 0xafb6115b954bd326cbe7b4ba576818f6 }),
        MainCurrency::WBTC => Some(Address { hi: 0xf4030086, lo: 0x522a5beea4988f8ca5b36dbc97bee88c }),
        MainCurrency::DAI => Some(Address { hi: 0xaed0c384, lo: 0x02a5d19df6e4c03f4e2dced6e29c1ee9 }),
        MainCurrency::LINK => Some(Address { hi: 0x2c1d072e, lo: 0x956affc0d435cb7ac38ef18d24d9127c }),
        MainCurrency::MKR => Some(Address { hi: 0xec1d1b3b, lo: 0x0443256cc3860e24a46f108e699484aa }),
        MainCurrency::Default => None,
    }
}

/// Preference of each currency as numéraire; higher is preferred.
pub open spec fn currency_weight(c: MainCurrency) -> u8 {
    match c {
        MainCurrency::WETH => 7,
        MainCurrency::WBTC => 6,
        MainCurrency::USDT => 5,
        MainCurrency::USDC => 4,
        MainCurrency::DAI => 3,
        MainCurrency::LINK => 2,
        MainCurrency::MKR => 1,
        MainCurrency::Default => 7,
    }
}

/// Whether `a` is one of the seven main currencies.
pub open spec fn is_main(a: Address) -> bool {
    currency_of(a) != MainCurrency::Default
}

/// The (main, target) split of a pair: `None` if neither token is a main
/// currency; the heavier main currency when both are, token1 on a tie.
pub open spec fn main_and_target(token0: Address, token1: Address) -> Option<(Address, Address)> {
    if !is_main(token0) && !is_main(token1) {
        None
    } else if is_main(token0) && is_main(token1) {
        if currency_weight(currency_of(token0)) > currency_weight(currency_of(token1)) {
            Some((token0, token1))
        } else {
            Some((token1, token0))
        }
    } else if is_main(token0) {
        Some((token0, token1))
    } else {
        Some((token1, token0))
    }
}

impl MainCurrency {
    /// The main currency whose contract lives at `address`, or `Default`.
    pub fn new(address: Address) -> (r: MainCurrency)
        ensures
            r == currency_of(address),
    {
        if address == MainCurrency::WETH.address() {
            MainCurrency::WETH
        } else if address == MainCurrency::USDT.address() {
            MainCurrency::USDT
        } else if address == MainCurrency::USDC.address() {
            MainCurrency::USDC
        } else if address == MainCurrency::WBTC.address() {
            MainCurrency::WBTC
        } else if address == MainCurrency::DAI.address() {
            MainCurrency::DAI
        } else if address == MainCurrency::LINK.address() {
            MainCurrency::LINK
        } else if address == MainCurrency::MKR.address() {
            MainCurrency::MKR
        } else {
            MainCurrency::Default
        }
    }

    /// Decimals of the token (the fallback counts as WETH).
    pub fn decimals(&self) -> (r: u8)
        ensures
            r == currency_decimals(*self),
    {
        match self {
            MainCurrency::USDT | MainCurrency::USDC => 6,
            MainCurrency::WBTC => 8,
            _ => 18,
        }
    }

    /// Storage slot of the token's balance mapping (the fallback counts as WETH).
    pub fn balance_slot(&self) -> (r: i32)
        ensures
            r == currency_balance_slot(*self),
    {
        match self {
            MainCurrency::WETH | MainCurrency::Default => 3,
            MainCurrency::USDT | MainCurrency::DAI => 2,
            MainCurrency::USDC => 9,
            MainCurrency::WBTC => 0,
            MainCurrency::LINK | MainCurrency::MKR => 1,
        }
    }

    /// Preference as numéraire, from 1 (MKR) to 7 (WETH).
    pub fn weight(&self) -> (r: u8)
        ensures
            r == currency_weight(*self),
    {
        match self {
            MainCurrency::WETH => 7,
            MainCurrency::WBTC => 6,
            MainCurrency::USDT => 5,
            MainCurrency::USDC => 4,
            MainCurrency::DAI => 3,
            MainCurrency::LINK => 2,
            MainCurrency::MKR => 1,
            MainCurrency::Default => 7,
        }
    }

    /// Address of the token's dollar price feed; none for the fallback.
    pub fn chainlink_feed(&self) -> (r: Option<Address>)
        ensures
            r == currency_feed(*self),
    {
        match self {
            MainCurrency::WETH => Some(Address { hi: 0x5f4ec3df, lo: 0x9cbd43714fe2740f5e3616155c5b8419 }),
            MainCurrency::USDT => Some(Address { hi: 0x3e7d1eab, lo: 0x13ad0104d2750b8863b489d65364e32d }),
            MainCurrency::USDC => Some(Address { hi: 0x8fffffd4, lo: 0xafb6115b954bd326cbe7b4ba576818f6 }),
            MainCurrency::WBTC => Some(Address { hi: 0xf4030086, lo: 0x522a5beea4988f8ca5b36dbc97bee88c }),
            MainCurrency::DAI => Some(Address { hi: 0xaed0c384, lo: 0x02a5d19df6e4c03f4e2dced6e29c1ee9 }),
            MainCurrency::LINK => Some(Address { hi: 0x2c1d072e, lo: 0x956affc0d435cb7ac38ef18d24d9127c }),
            MainCurrency::MKR => Some(Address { hi: 0xec1d1b3b, lo: 0x0443256cc3860e24a46f108e699484aa }),
            MainCurrency::Default => None,
        }
    }

    /// Address of the token's contract as mixed-case text (the fallback uses
    /// WETH's).
    pub fn address_str(&self) -> (r: &'static str)
        ensures
            r@ == currency_address_text(*self),
    {
        match self {
            MainCurrency::WETH => "0xC02aaA39b223FE8D0A0e5C4F27eAD9083C756Cc2",
            MainCurrency::USDT => "0xdAC17F958D2ee523a2206206994597C13D831ec7",
            MainCurrency::USDC => "0xA0b86991c6218b36c1d19D4a2e9Eb0cE3606eB48",
            MainCurrency::WBTC => "0x2260FAC5E5542a773Aa44fBCfeDf7C193bc2C599",
            MainCurrency::DAI => "0x6B175474E89094C44Da98b954EedeAC495271d0F",
            MainCurrency::LINK => "0x514910771AF9Ca656af840dff83E8264EcF986CA",
            MainCurrency::MKR => "0x9f8F72aA9304c8B593d555F12eF6589cC3A579A2",
            MainCurrency::Default => "0xC02aaA39b223FE8D0A0e5C4F27eAD9083C756Cc2",
        }
    }

    /// Address of the token's contract (the fallback uses WETH's).
    pub fn address(&self) -> (r: Address)
        ensures
            r == currency_address(*self),
    {
        match self {
            MainCurrency::WETH => Address { hi: 0xc02aaa39, lo: 0xb223fe8d0a0e5c4f27ead9083c756cc2 },
            MainCurrency::USDT => Address { hi: 0xdac17f95, lo: 0x8d2ee523a2206206994597c13d831ec7 },
            MainCurrency::USDC => Address { hi: 0xa0b86991, lo: 0xc6218b36c1d19d4a2e9eb0ce3606eb48 },
            MainCurrency::WBTC => Address { hi: 0x2260fac5, lo: 0xe5542a773aa44fbcfedf7c193bc2c599 },
            MainCurrency::DAI => Address { hi: 0x6b175474, lo: 0xe89094c44da98b954eedeac495271d0f },
            MainCurrency::LINK => Address { hi: 0x51491077, lo: 0x1af9ca656af840dff83e8264ecf986ca },
            MainCurrency::MKR => Address { hi: 0x9f8f72aa, lo: 0x9304c8b593d555f12ef6589cc3a579a2 },
            MainCurrency::Default => Address { hi: 0xc02aaa39, lo: 0xb223fe8d0a0e5c4f27ead9083c756cc2 },
        }
    }
}

/// Whether `token_address` is wrapped ether.
pub fn is_weth(token_address: Address) -> (r: bool)
    ensures
        r == (token_address == currency_address(MainCurrency::WETH)),
{
    token_address == MainCurrency::WETH.address()
}

/// Whether `token_address` is one of the seven main currencies.
pub fn is_main_currency(token_address: Address) -> (r: bool)
    ensures
        r == is_main(token_address),
{
    MainCurrency::new(token_address) != MainCurrency::Default
}

/// Whether `token` is wrapped ether or one of the three dollar stables.
pub fn is_main_token(token: Address) -> (r: bool)
    ensures
        r == (currency_of(token) == MainCurrency::WETH || currency_of(token) == MainCurrency::USDT
            || currency_of(token) == MainCurrency::USDC || currency_of(token) == MainCurrency::DAI),
{
    let c = MainCurrency::new(token);
    c == MainCurrency::WETH || c == MainCurrency::USDT || c == MainCurrency::USDC || c == MainCurrency::DAI
}

/// Splits a pair into its main currency and its target token; `None` when
/// neither token is a main currency.
pub fn return_main_and_target_currency(token0: Address, token1: Address) -> (r: Option<(Address, Address)>)
    ensures
        r == main_and_target(token0, token1),
{
    let token0_supported = is_main_currency(token0);
    let token1_supported = is_main_currency(token1);
    if !token0_supported && !token1_supported {
        return None;
    }
    if token0_supported && token1_supported {
        let w0 = MainCurrency::new(token0).weight();
        let w1 = MainCurrency::new(token1).weight();
        if w0 > w1 {
            return Some((token0, token1));
        } else {
            return Some((token1, token0));
        }
    }
    if token0_supported {
        Some((token0, token1))
    } else {
        Some((token1, token0))
    }
}

/// Ticker of a main currency, or `"Unknown"`.
pub fn token_address_to_name(token: Address) -> (r: String)
    ensures
        r@ == (match currency_of(token) {
            MainCurrency::WETH => "WETH"@,
            MainCurrency::USDT => "USDT"@,
            MainCurrency::USDC => "USDC"@,
            MainCurrency::WBTC => "WBTC"@,
            MainCurrency::DAI => "DAI"@,
            MainCurrency::LINK => "LINK"@,
            MainCurrency::MKR => "MKR"@,
            MainCurrency::Default => "Unknown"@,
        }),
{
    let name = match MainCurrency::new(token) {
        MainCurrency::WETH => "WETH",
        MainCurrency::USDT => "USDT",
        MainCurrency::USDC => "USDC",
        MainCurrency::WBTC => "WBTC",
        MainCurrency::DAI => "DAI",
        MainCurrency::LINK => "LINK",
        MainCurrency::MKR => "MKR",
        MainCurrency::Default => "Unknown",
    };
    name.to_string()
}

} // verus!

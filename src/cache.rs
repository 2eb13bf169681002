use vstd::prelude::*;
use crate::address::{Address, address_bytes, address_of_bytes, be_bytes, be_value, push_address};
use crate::pools::{DexVariant, Pool};

verus! {

/// ASCII code of the lower-case hex digit for a value below 16.
pub open spec fn hex_digit_byte(n: u8) -> u8 {
    if n < 10 {
        (48 + n) as u8
    } else {
        (87 + n) as u8
    }
}

/// The value of an ASCII hex digit of either case.
pub open spec fn hex_val(c: u8) -> Option<u8> {
    if 48 <= c <= 57 {
        Some((c - 48) as u8)
    } else if 97 <= c <= 102 {
        Some((c - 87) as u8)
    } else if 65 <= c <= 70 {
        Some((c - 55) as u8)
    } else {
        None
    }
}

/// Two lower-case hex digits per byte, as ASCII.
pub open spec fn hex_bytes(b: Seq<u8>) -> Seq<u8> {
    Seq::new(
        2 * b.len(),
        |i: int|
            if i % 2 == 0 {
                hex_digit_byte(b[i / 2] / 16)
            } else {
                hex_digit_byte(b[i / 2] % 16)
            },
    )
}

/// `0x` and the 40 lower-case hex digits of an address, as ASCII.
pub open spec fn address_text(a: Address) -> Seq<u8> {
    seq![48u8, 120u8] + hex_bytes(address_bytes(a))
}

/// The address that `0x` and 40 hex digits of either case spell.
pub open spec fn address_of_text(t: Seq<u8>) -> Option<Address> {
    if t.len() == 42 && t[0] == 48 && t[1] == 120 && (forall|i: int| 2 <= i < 42 ==> (#[trigger] hex_val(t[i])) is Some) {
        Some(
            address_of_bytes(
                Seq::new(
                    20,
                    |k: int| (hex_val(t[2 + 2 * k]).unwrap() * 16 + hex_val(t[3 + 2 * k]).unwrap()) as u8,
                ),
            ),
        )
    } else {
        None
    }
}

/// The ASCII code of the lower-case hex digit of `n`.
pub fn digit_byte(n: u8) -> (r: u8)
    requires
        n < 16,
    ensures
        r == hex_digit_byte(n),
{
    if n < 10 {
        48 + n
    } else {
        87 + n
    }
}

/// The value of an ASCII hex digit, as `hex_val` gives it.
fn digit_value(c: u8) -> (r: Option<u8>)
    ensures
        r == hex_val(c),
{
    if 48 <= c && c <= 57 {
        Some(c - 48)
    } else if 97 <= c && c <= 102 {
        Some(c - 87)
    } else if 65 <= c && c <= 70 {
        Some(c - 55)
    } else {
        None
    }
}

/// The text `address_text(a)`.
pub fn format_address(a: Address) -> (r: Vec<u8>)
    ensures
        r@ == address_text(a),
{
    let mut raw: Vec<u8> = Vec::new();
    push_address(&mut raw, a);
    proof {
        crate::calldata::lemma_be_bytes_len(a.hi as nat, 4);
        crate::calldata::lemma_be_bytes_len(a.lo as nat, 16);
    }
    let mut out: Vec<u8> = Vec::new();
    out.push(48);
    out.push(120);
    let mut i: usize = 0;
    while i < raw.len()
        invariant
            raw@ == address_bytes(a),
            raw@.len() == 20,
            i <= 20,
            out@ == seq![48u8, 120u8] + hex_bytes(raw@).subrange(0, 2 * i),
        decreases 20 - i,
    {
        let b = raw[i];
        out.push(digit_byte(b / 16));
        out.push(digit_byte(b % 16));
        proof {
            assert(out@ =~= seq![48u8, 120u8] + hex_bytes(raw@).subrange(0, 2 * (i + 1)));
        }
        i = i + 1;
    }
    proof {
        assert(hex_bytes(raw@).subrange(0, 40) =~= hex_bytes(raw@));
    }
    out
}

/// Reads `address_of_text(t)`.
pub fn parse_address(t: &[u8]) -> (r: Option<Address>)
    ensures
        r == address_of_text(t@),
{
    if t.len() != 42 || t[0] != 48 || t[1] != 120 {
        return None;
    }
    let mut raw: Vec<u8> = Vec::new();
    let mut k: usize = 0;
    while k < 20
        invariant
            t@.len() == 42,
            k <= 20,
            forall|i: int| 2 <= i < 2 + 2 * k ==> (#[trigger] hex_val(t@[i])) is Some,
            raw@ == Seq::new(
                k as nat,
                |j: int| (hex_val(t@[2 + 2 * j]).unwrap() * 16 + hex_val(t@[3 + 2 * j]).unwrap()) as u8,
            ),
        decreases 20 - k,
    {
        let hi = match digit_value(t[2 + 2 * k]) {
            Some(v) => v,
            None => {
                assert(hex_val(t@[2 + 2 * k as int]) is None);
                return None;
            },
        };
        let lo = match digit_value(t[3 + 2 * k]) {
            Some(v) => v,
            None => {
                assert(hex_val(t@[3 + 2 * k as int]) is None);
                return None;
            },
        };
        raw.push(hi * 16 + lo);
        proof {
            assert forall|i: int| 2 <= i < 2 + 2 * (k + 1) implies (#[trigger] hex_val(t@[i])) is Some by {
                if i >= 2 + 2 * k {
                    assert(i == 2 + 2 * k || i == 3 + 2 * k);
                }
            }
            assert(raw@ =~= Seq::new(
                (k + 1) as nat,
                |j: int| (hex_val(t@[2 + 2 * j]).unwrap() * 16 + hex_val(t@[3 + 2 * j]).unwrap()) as u8,
            ));
        }
        k = k + 1;
    }
    assert(raw@.subrange(0, 20) =~= raw@);
    Some(Address::from_slice_at(raw.as_slice(), 0))
}

/// `hex_val` reads back what `hex_digit_byte` writes.
proof fn lemma_digit_round_trip(n: u8)
    requires
        n < 16,
    ensures
        hex_val(hex_digit_byte(n)) == Some(n),
{
}

/// Big-endian bytes read back to the number they were written from.
pub proof fn lemma_be_round_trip(v: nat, n: nat)
    requires
        v < crate::address::pow256(n),
    ensures
        be_value(be_bytes(v, n)) == v,
    decreases n,
{
    if n > 0 {
        let s = be_bytes(v / 256, (n - 1) as nat);
        assert(v / 256 < crate::address::pow256((n - 1) as nat)) by (nonlinear_arith)
            requires
                v < crate::address::pow256((n - 1) as nat) * 256,
        ;
        lemma_be_round_trip(v / 256, (n - 1) as nat);
        assert(be_bytes(v, n).drop_last() == s);
        assert(be_bytes(v, n).last() == (v % 256) as u8);
    }
}

/// The text of an address reads back to the same address.
pub proof fn lemma_address_text_round_trip(a: Address)
    ensures
        address_of_text(address_text(a)) == Some(a),
{
    let raw = address_bytes(a);
    crate::calldata::lemma_be_bytes_len(a.hi as nat, 4);
    crate::calldata::lemma_be_bytes_len(a.lo as nat, 16);
    let t = address_text(a);
    assert forall|i: int| 2 <= i < 42 implies (#[trigger] hex_val(t[i])) is Some by {
        let b = raw[(i - 2) / 2];
        lemma_digit_round_trip(b / 16);
        lemma_digit_round_trip(b % 16);
    }
    let back = Seq::new(20, |k: int| (hex_val(t[2 + 2 * k]).unwrap() * 16 + hex_val(t[3 + 2 * k]).unwrap()) as u8);
    assert forall|k: int| 0 <= k < 20 implies back[k] == raw[k] by {
        lemma_digit_round_trip(raw[k] / 16);
        lemma_digit_round_trip(raw[k] % 16);
        assert(t[2 + 2 * k] == hex_digit_byte(raw[k] / 16));
        assert(t[3 + 2 * k] == hex_digit_byte(raw[k] % 16));
    }
    assert(back =~= raw);
    assert(raw.subrange(0, 4) =~= be_bytes(a.hi as nat, 4));
    assert(raw.subrange(4, 20) =~= be_bytes(a.lo as nat, 16));
    reveal_with_fuel(crate::address::pow256, 5);
    lemma_be_round_trip(a.hi as nat, 4);
    crate::address::lemma_pow256_16(0);
    lemma_be_round_trip(a.lo as nat, 16);
}

/// A cache row: id, address, protocol version, token0, token1, fee, creation
/// block and timestamp; addresses as ASCII `0x` hex text.
pub type PoolRow = (i64, Vec<u8>, i32, Vec<u8>, Vec<u8>, u32, u64, u64);

/// The version number a row stores for a variant.
pub open spec fn version_num(v: DexVariant) -> i32 {
    match v {
        DexVariant::UniswapV2 => 2,
        DexVariant::UniswapV3 => 3,
    }
}

/// The variant a row's version number names: 3 is v3, anything else v2.
pub open spec fn variant_of(n: i32) -> DexVariant {
    if n == 3 {
        DexVariant::UniswapV3
    } else {
        DexVariant::UniswapV2
    }
}

/// The pool a row describes; `None` when an address does not parse.
pub open spec fn row_pool(
    id: i64,
    address: Seq<u8>,
    version: i32,
    token0: Seq<u8>,
    token1: Seq<u8>,
    fee: u32,
    block_number: u64,
    timestamp: u64,
) -> Option<Pool> {
    match (address_of_text(address), address_of_text(token0), address_of_text(token1)) {
        (Some(a), Some(t0), Some(t1)) => Some(
            Pool { id, address: a, version: variant_of(version), token0: t0, token1: t1, fee, block_number, timestamp },
        ),
        _ => None,
    }
}

impl Pool {
    /// The cache row of this pool.
    pub fn cache_row(&self) -> (r: PoolRow)
        ensures
            r.0 == self.id,
            r.1@ == address_text(self.address),
            r.2 == version_num(self.version),
            r.3@ == address_text(self.token0),
            r.4@ == address_text(self.token1),
            r.5 == self.fee,
            r.6 == self.block_number,
            r.7 == self.timestamp,
    {
        let version: i32 = match self.version {
            DexVariant::UniswapV2 => 2,
            DexVariant::UniswapV3 => 3,
        };
        (
            self.id,
            format_address(self.address),
            version,
            format_address(self.token0),
            format_address(self.token1),
            self.fee,
            self.block_number,
            self.timestamp,
        )
    }

    /// The pool a cache row describes, as `row_pool` gives it.
    pub fn from_row(row: &PoolRow) -> (r: Option<Pool>)
        ensures
            r == row_pool(row.0, row.1@, row.2, row.3@, row.4@, row.5, row.6, row.7),
    {
        let address = match parse_address(row.1.as_slice()) {
            Some(a) => a,
            None => return None,
        };
        let token0 = match parse_address(row.3.as_slice()) {
            Some(a) => a,
            None => return None,
        };
        let token1 = match parse_address(row.4.as_slice()) {
            Some(a) => a,
            None => return None,
        };
        let version = if row.2 == 3 {
            DexVariant::UniswapV3
        } else {
            DexVariant::UniswapV2
        };
        Some(
            Pool {
                id: row.0,
                address,
                version,
                token0,
                token1,
                fee: row.5,
                block_number: row.6,
                timestamp: row.7,
            },
        )
    }
}

/// A pool written to the cache and read back is the same pool.
pub proof fn lemma_pool_row_round_trip(p: Pool)
    ensures
        row_pool(
            p.id,
            address_text(p.address),
            version_num(p.version),
            address_text(p.token0),
            address_text(p.token1),
            p.fee,
            p.block_number,
            p.timestamp,
        ) == Some(p),
{
    lemma_address_text_round_trip(p.address);
    lemma_address_text_round_trip(p.token0);
    lemma_address_text_round_trip(p.token1);
}

} // verus!

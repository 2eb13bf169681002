use vstd::prelude::*;
use crate::address::{Address, address_of_bytes, be_value};
use crate::routers::selector_value;

verus! {

/// Lower-case hex digit of a value below 16.
pub open spec fn hex_digit(n: u8) -> char {
    if n < 10 {
        (('0' as u8) + n) as char
    } else {
        (('a' as u8) + (n - 10)) as char
    }
}

/// Two lower-case hex digits per byte, most significant first.
pub open spec fn hex_text(b: Seq<u8>) -> Seq<char>
    decreases b.len(),
{
    if b.len() == 0 {
        seq![]
    } else {
        hex_text(b.drop_last()) + seq![hex_digit(b.last() / 16), hex_digit(b.last() % 16)]
    }
}

/// Relies on `hex::encode`: two lower-case hex digits per byte.
#[verifier::external_body]
fn hex_encode(b: &[u8]) -> (r: String)
    ensures
        r@ == hex_text(b@),
{
    hex::encode(b)
}

/// The selector of calldata as eight lower-case hex digits; `None` when the
/// calldata is shorter than four bytes.
pub fn get_method_id_hex(input: &[u8]) -> (r: Option<String>)
    ensures
        input@.len() < 4 ==> r is None,
        input@.len() >= 4 ==> (r matches Some(s) && s@ == hex_text(input@.subrange(0, 4))),
{
    if input.len() < 4 {
        return None;
    }
    Some(hex_encode(vstd::slice::slice_subrange(input, 0, 4)))
}

/// A 32-byte word at `pos` holding a number below 2^64: its first 24 bytes
/// are zero. `None` when the word is out of bounds or larger.
pub open spec fn word_u64(d: Seq<u8>, pos: int) -> Option<nat> {
    if 0 <= pos && pos + 32 <= d.len() && (forall|j: int| pos <= j < pos + 24 ==> d[j] == 0) {
        Some(be_value(d.subrange(pos + 24, pos + 32)))
    } else {
        None
    }
}

/// The address in the last 20 bytes of the word at `pos`.
pub open spec fn address_word(d: Seq<u8>, pos: int) -> Address {
    address_of_bytes(d.subrange(pos + 12, pos + 32))
}

/// The `address[]` whose head word is argument `arg` of the call in `d`
/// (after the 4-byte selector).
pub open spec fn address_array_arg(d: Seq<u8>, arg: int) -> Option<Seq<Address>> {
    match word_u64(d, 4 + 32 * arg) {
        Some(off) => {
            let start = 4 + off as int;
            match word_u64(d, start) {
                Some(n) => if start + 32 + 32 * (n as int) <= d.len() {
                    Some(Seq::new(n, |i: int| address_word(d, start + 32 + 32 * i)))
                } else {
                    None
                },
                None => None,
            }
        },
        None => None,
    }
}

/// Number of 20-byte addresses that a packed path of `len` bytes holds, each
/// but the last followed by a 3-byte fee.
pub open spec fn packed_path_len(len: nat) -> nat {
    if len < 20 {
        0
    } else {
        ((len - 20) as nat / 23 + 1) as nat
    }
}

/// The tokens of a packed path `token ++ fee ++ token ++ ...`.
pub open spec fn packed_path(b: Seq<u8>) -> Seq<Address> {
    Seq::new(packed_path_len(b.len()), |i: int| address_of_bytes(b.subrange(23 * i, 23 * i + 20)))
}

/// The packed path held as the first field, a `bytes`, of a struct passed as
/// the only argument of the call in `d`.
pub open spec fn packed_path_arg(d: Seq<u8>) -> Option<Seq<Address>> {
    match word_u64(d, 4) {
        Some(t) => {
            let ts = 4 + t as int;
            match word_u64(d, ts) {
                Some(p) => {
                    let bs = ts + p as int;
                    match word_u64(d, bs) {
                        Some(n) => if bs + 32 + n as int <= d.len() {
                            Some(packed_path(d.subrange(bs + 32, bs + 32 + n as int)))
                        } else {
                            None
                        },
                        None => None,
                    }
                },
                None => None,
            }
        },
        None => None,
    }
}

/// v2-router functions whose token path is their second argument.
pub open spec fn v2_path_second(sel: u32) -> bool {
    sel == 0x7ff36ab5 || sel == 0xfb3bdb41 || sel == 0xb6f9de95
}

/// v2-router functions whose token path is their third argument.
pub open spec fn v2_path_third(sel: u32) -> bool {
    sel == 0x38ed1739 || sel == 0x4a25d94a || sel == 0x18cbafe5 || sel == 0x8803dbee || sel
        == 0x472b43f3 || sel == 0x5c11d795 || sel == 0x791ac947
}

/// v3-router functions that take a single-pool struct opening with
/// `tokenIn, tokenOut`.
pub open spec fn v3_single(sel: u32) -> bool {
    sel == 0x04e45aaf || sel == 0x5023b4df
}

/// v3-router functions that take a multi-pool struct opening with a packed path.
pub open spec fn v3_multi(sel: u32) -> bool {
    sel == 0xc04b8d59 || sel == 0x09b81346
}

/// The token path that router calldata names, if its selector is one of a
/// known router family and the arguments decode.
pub open spec fn token_path(d: Seq<u8>) -> Option<Seq<Address>> {
    if d.len() <= 4 {
        None
    } else {
        let sel = selector_value(d.subrange(0, 4));
        if v2_path_second(sel) {
            address_array_arg(d, 1)
        } else if v2_path_third(sel) {
            address_array_arg(d, 2)
        } else if v3_single(sel) {
            if d.len() >= 68 {
                Some(seq![address_word(d, 4), address_word(d, 36)])
            } else {
                None
            }
        } else if v3_multi(sel) {
            packed_path_arg(d)
        } else {
            None
        }
    }
}

/// The token paths of `token_path` that hold at least two tokens.
pub open spec fn token_paths(d: Seq<u8>) -> Seq<Seq<Address>> {
    match token_path(d) {
        Some(p) => if p.len() >= 2 {
            seq![p]
        } else {
            seq![]
        },
        None => seq![],
    }
}

/// Reads `word_u64(d, pos)`.
pub fn read_word_u64(d: &[u8], pos: usize) -> (r: Option<u64>)
    ensures
        r matches Some(v) ==> word_u64(d@, pos as int) == Some(v as nat),
        r is None ==> word_u64(d@, pos as int) is None,
{
    let n = d.len();
    if pos > n || n - pos < 32 {
        return None;
    }
    let mut j: usize = pos;
    while j < pos + 24
        invariant
            pos + 32 <= n == d@.len(),
            pos <= j <= pos + 24,
            forall|k: int| pos <= k < j ==> d@[k] == 0,
        decreases pos + 24 - j,
    {
        if d[j] != 0 {
            return None;
        }
        j = j + 1;
    }
    let mut acc: u64 = 0;
    let mut i: usize = pos + 24;
    while i < pos + 32
        invariant
            pos + 32 <= n == d@.len(),
            pos + 24 <= i <= pos + 32,
            acc as nat == be_value(d@.subrange(pos + 24, i as int)),
            acc as nat <= crate::address::pow256((i - pos - 24) as nat) - 1,
        decreases pos + 32 - i,
    {
        proof {
            let s = d@.subrange(pos + 24, i as int);
            assert(d@.subrange(pos + 24, i + 1).drop_last() == s);
            lemma_pow256_8((i - pos - 24) as nat);
        }
        acc = acc * 256 + d[i] as u64;
        i = i + 1;
    }
    Some(acc)
}

/// Powers of 256 up to the 8th, the range of a `u64`.
proof fn lemma_pow256_8(n: nat)
    requires
        n < 8,
    ensures
        crate::address::pow256(n) * 256 == crate::address::pow256(n + 1),
        crate::address::pow256(n + 1) <= 0x1_0000_0000_0000_0000,
{
    reveal_with_fuel(crate::address::pow256, 9);
}

/// Reads `address_word(d, pos)`.
pub fn read_address_word(d: &[u8], pos: usize) -> (r: Address)
    requires
        pos + 32 <= d@.len(),
    ensures
        r == address_word(d@, pos as int),
{
    let len = d.len();
    assert(pos + 32 <= len);
    Address::from_slice_at(d, pos + 12)
}

/// Decodes `address_array_arg(d, arg)`.
pub fn decode_address_array(d: &[u8], arg: usize) -> (r: Option<Vec<Address>>)
    requires
        arg <= 8,
    ensures
        r matches Some(v) ==> address_array_arg(d@, arg as int) == Some(v@),
        r is None ==> address_array_arg(d@, arg as int) is None,
{
    let len = d.len();
    let off = match read_word_u64(d, 4 + 32 * arg) {
        Some(o) => o,
        None => return None,
    };
    if off > len as u64 || (len - off as usize) < 36 {
        return None;
    }
    let start = 4 + off as usize;
    let n = match read_word_u64(d, start) {
        Some(v) => v,
        None => return None,
    };
    let room = (len - start - 32) / 32;
    if n > room as u64 {
        proof {
            assert(start + 32 + 32 * n > len) by (nonlinear_arith)
                requires
                    n > room,
                    room == (len - start - 32) / 32,
                    len >= start + 32,
            ;
        }
        return None;
    }
    proof {
        assert(start + 32 + 32 * n <= len) by (nonlinear_arith)
            requires
                n <= room,
                room == (len - start - 32) / 32,
                len >= start + 32,
        ;
    }
    let ghost spec_path = Seq::new(n as nat, |i: int| address_word(d@, start + 32 + 32 * i));
    let mut out: Vec<Address> = Vec::new();
    let mut i: usize = 0;
    while i < n as usize
        invariant
            len == d@.len(),
            start + 32 + 32 * n <= len,
            i <= n,
            spec_path == Seq::new(n as nat, |k: int| address_word(d@, start + 32 + 32 * k)),
            out@ == spec_path.subrange(0, i as int),
        decreases n - i,
    {
        proof {
            assert(start + 32 + 32 * i + 32 <= len) by (nonlinear_arith)
                requires
                    i < n,
                    start + 32 + 32 * n <= len,
            ;
        }
        let a = read_address_word(d, start + 32 + 32 * i);
        out.push(a);
        proof {
            assert(out@ == spec_path.subrange(0, i + 1));
        }
        i = i + 1;
    }
    proof {
        assert(out@ == spec_path);
    }
    Some(out)
}

/// Splits a packed path `token ++ fee ++ token ++ ...` into its tokens.
pub fn decode_packed_path(b: &[u8]) -> (r: Vec<Address>)
    ensures
        r@ == packed_path(b@),
{
    let len = b.len();
    let mut out: Vec<Address> = Vec::new();
    let mut i: usize = 0;
    while i <= len && len - i >= 20
        invariant
            len == b@.len(),
            i % 23 == 0,
            i <= len + 23,
            i > len ==> i / 23 == packed_path_len(len as nat),
            i <= len && len - i < 20 ==> i / 23 == packed_path_len(len as nat),
            i / 23 <= packed_path_len(len as nat),
            out@ == packed_path(b@).subrange(0, (i / 23) as int),
        decreases len + 23 - i,
    {
        let a = Address::from_slice_at(b, i);
        out.push(a);
        proof {
            assert(out@ == packed_path(b@).subrange(0, (i / 23) as int + 1));
        }
        i = i + 23;
    }
    proof {
        assert(out@ == packed_path(b@));
    }
    out
}

/// Decodes `packed_path_arg(d)`.
pub fn decode_packed_path_arg(d: &[u8]) -> (r: Option<Vec<Address>>)
    ensures
        r matches Some(v) ==> packed_path_arg(d@) == Some(v@),
        r is None ==> packed_path_arg(d@) is None,
{
    let len = d.len();
    let t = match read_word_u64(d, 4) {
        Some(v) => v,
        None => return None,
    };
    if t > len as u64 || len - (t as usize) < 4 {
        return None;
    }
    let ts = 4 + t as usize;
    let p = match read_word_u64(d, ts) {
        Some(v) => v,
        None => return None,
    };
    if p > len as u64 || len - ts < p as usize {
        return None;
    }
    let bs = ts + p as usize;
    let n = match read_word_u64(d, bs) {
        Some(v) => v,
        None => return None,
    };
    if n > len as u64 || len - bs - 32 < n as usize {
        return None;
    }
    let body = vstd::slice::slice_subrange(d, bs + 32, bs + 32 + n as usize);
    Some(decode_packed_path(body))
}

/// The token path of router calldata, as `token_paths` gives it: none, or
/// one path of at least two tokens.
pub fn get_token_paths(input: &[u8]) -> (r: Vec<Vec<Address>>)
    ensures
        r@.len() == token_paths(input@).len(),
        forall|i: int| 0 <= i < r@.len() ==> #[trigger] r@[i]@ == token_paths(input@)[i],
{
    let mut result: Vec<Vec<Address>> = Vec::new();
    if input.len() <= 4 {
        return result;
    }
    let sel = crate::classifier::selector_of(input);
    let path = if sel == 0x7ff36ab5 || sel == 0xfb3bdb41 || sel == 0xb6f9de95 {
        decode_address_array(input, 1)
    } else if sel == 0x38ed1739 || sel == 0x4a25d94a || sel == 0x18cbafe5 || sel == 0x8803dbee
        || sel == 0x472b43f3 || sel == 0x5c11d795 || sel == 0x791ac947 {
        decode_address_array(input, 2)
    } else if sel == 0x04e45aaf || sel == 0x5023b4df {
        if input.len() >= 68 {
            let mut v: Vec<Address> = Vec::new();
            v.push(read_address_word(input, 4));
            v.push(read_address_word(input, 36));
            Some(v)
        } else {
            None
        }
    } else if sel == 0xc04b8d59 || sel == 0x09b81346 {
        decode_packed_path_arg(input)
    } else {
        None
    };
    proof {
        if path is Some {
            assert(token_path(input@) == Some(path.unwrap()@));
        }
    }
    match path {
        Some(p) => {
            if p.len() >= 2 {
                result.push(p);
            }
        },
        None => {},
    }
    result
}

} // verus!

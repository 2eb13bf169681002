use vstd::prelude::*;

verus! {

/// A 20-byte account address, held as its first 4 bytes and last 16 bytes
/// read big-endian.
#[derive(Clone, Copy, Debug, PartialEq, Eq, Structural, Hash)]
pub struct Address {
    pub hi: u32,
    pub lo: u128,
}

/// The number that a big-endian byte string denotes.
pub open spec fn be_value(s: Seq<u8>) -> nat
    decreases s.len(),
{
    if s.len() == 0 {
        0
    } else {
        be_value(s.drop_last()) * 256 + s.last() as nat
    }
}

/// The last `n` bytes of `v`, big-endian.
pub open spec fn be_bytes(v: nat, n: nat) -> Seq<u8>
    decreases n,
{
    if n == 0 {
        Seq::empty()
    } else {
        be_bytes(v / 256, (n - 1) as nat).push((v % 256) as u8)
    }
}

/// The 20 bytes of an address, most significant first.
pub open spec fn address_bytes(a: Address) -> Seq<u8> {
    be_bytes(a.hi as nat, 4) + be_bytes(a.lo as nat, 16)
}

/// The address that 20 big-endian bytes denote.
pub open spec fn address_of_bytes(s: Seq<u8>) -> Address
    recommends
        s.len() == 20,
{
    Address { hi: be_value(s.subrange(0, 4)) as u32, lo: be_value(s.subrange(4, 20)) as u128 }
}

/// A big-endian number of `n` bytes is below `256^n`.
pub proof fn lemma_be_value_bound(s: Seq<u8>)
    ensures
        be_value(s) < pow256(s.len()),
    decreases s.len(),
{
    if s.len() > 0 {
        lemma_be_value_bound(s.drop_last());
        let p = pow256((s.len() - 1) as nat);
        assert(be_value(s.drop_last()) + 1 <= p);
        assert((be_value(s.drop_last()) + 1) * 256 <= p * 256) by (nonlinear_arith)
            requires
                be_value(s.drop_last()) + 1 <= p,
        ;
    }
}

/// 256 to the power `n`.
pub open spec fn pow256(n: nat) -> nat
    decreases n,
{
    if n == 0 {
        1
    } else {
        pow256((n - 1) as nat) * 256
    }
}

/// The number read big-endian from `bytes[start..end]`.
pub fn read_be(bytes: &[u8], start: usize, end: usize) -> (r: u128)
    requires
        start <= end <= bytes@.len(),
        end - start <= 16,
    ensures
        r as nat == be_value(bytes@.subrange(start as int, end as int)),
{
    let mut acc: u128 = 0;
    let mut i: usize = start;
    while i < end
        invariant
            start <= i <= end <= bytes@.len(),
            end - start <= 16,
            acc as nat == be_value(bytes@.subrange(start as int, i as int)),
        decreases end - i,
    {
        proof {
            let s = bytes@.subrange(start as int, i as int);
            lemma_be_value_bound(s);
            lemma_pow256_16((i - start) as nat);
            assert(bytes@.subrange(start as int, i + 1).drop_last() == s);
        }
        acc = acc * 256 + bytes[i] as u128;
        i = i + 1;
    }
    acc
}

/// Powers of 256 up to the 16th, the range of a `u128`.
pub proof fn lemma_pow256_16(n: nat)
    requires
        n < 16,
    ensures
        pow256(n) * 256 <= pow256(16),
        pow256(16) == 0x1_0000_0000_0000_0000_0000_0000_0000_0000,
    decreases n,
{
    reveal_with_fuel(pow256, 17);
    if n > 0 {
        lemma_pow256_16((n - 1) as nat);
        lemma_pow256_mono(n, 15);
    }
}

/// Powers of 256 grow with the exponent.
proof fn lemma_pow256_mono(a: nat, b: nat)
    requires
        a <= b,
    ensures
        pow256(a) <= pow256(b),
    decreases b - a,
{
    if a < b {
        lemma_pow256_mono(a, (b - 1) as nat);
    }
}

impl Address {
    /// The address held in the 20 bytes `bytes[start..start + 20]`.
    pub fn from_slice_at(bytes: &[u8], start: usize) -> (r: Address)
        requires
            start + 20 <= bytes@.len(),
        ensures
            r == address_of_bytes(bytes@.subrange(start as int, start + 20)),
    {
        let len = bytes.len();
        assert(start + 20 <= len);
        let hi = read_be(bytes, start, start + 4);
        let lo = read_be(bytes, start + 4, start + 20);
        proof {
            let s = bytes@.subrange(start as int, start + 20);
            assert(s.subrange(0, 4) == bytes@.subrange(start as int, start + 4));
            assert(s.subrange(4, 20) == bytes@.subrange(start + 4, start + 20));
            lemma_be_value_bound(s.subrange(0, 4));
            reveal_with_fuel(pow256, 5);
        }
        Address { hi: hi as u32, lo }
    }
}

/// Appends the last `n` bytes of `v` to `out`, most significant first.
pub fn push_be(out: &mut Vec<u8>, v: u128, n: usize)
    ensures
        final(out)@ == old(out)@ + be_bytes(v as nat, n as nat),
    decreases n,
{
    if n > 0 {
        push_be(out, v / 256, n - 1);
        out.push((v % 256) as u8);
        proof {
            assert((v / 256) as nat == (v as nat) / 256);
        }
    }
}

/// Appends the 20 bytes of `a` to `out`.
pub fn push_address(out: &mut Vec<u8>, a: Address)
    ensures
        final(out)@ == old(out)@ + address_bytes(a),
{
    push_be(out, a.hi as u128, 4);
    push_be(out, a.lo, 16);
}

} // verus!

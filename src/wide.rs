use vstd::prelude::*;
use vstd::arithmetic::power2::{lemma2_to64, lemma_pow2_adds, lemma_pow2_pos, lemma_pow2_unfold, pow2};
use vstd::bits::lemma_u128_shr_is_div;

verus! {

/// The top `i` bits of the 128-bit number `b`.
pub open spec fn top_bits(b: u128, i: nat) -> nat {
    (b as nat) / pow2((128 - i) as nat)
}

/// `2^128` is the size of the `u128` range.
proof fn lemma_pow2_128()
    ensures
        pow2(128) == u128::MAX + 1,
{
    lemma2_to64();
    lemma_pow2_adds(64, 64);
}

/// Taking one more top bit of `b` doubles the prefix and adds that bit.
proof fn lemma_top_bits_step(b: u128, i: nat)
    requires
        i < 128,
    ensures
        top_bits(b, i + 1) == 2 * top_bits(b, i) + (b >> ((127 - i) as u128)) % 2,
        top_bits(b, 0) == 0,
        top_bits(b, 128) == b,
{
    let k = (127 - i) as nat;
    lemma_pow2_pos(k);
    lemma_pow2_unfold((128 - i) as nat);
    assert(pow2((128 - i) as nat) == 2 * pow2(k));
    lemma_pow2_128();
    vstd::arithmetic::div_mod::lemma_basic_div(b as int, pow2(128) as int);
    lemma2_to64();
    assert((b as nat) / 1 == b);
    lemma_u128_shr_is_div(b, k as u128);
    let x = b as nat;
    let p = pow2(k);
    assert(x / (p * 2) == (x / p) / 2) by {
        vstd::arithmetic::div_mod::lemma_div_denominator(x as int, p as int, 2);
    }
    assert(p * 2 == 2 * p);
    vstd::arithmetic::div_mod::lemma_fundamental_div_mod((x / p) as int, 2);
    assert((128 - (i + 1)) as nat == k);
}

/// Once some number of `d`s below `a` times the top bits of `b` passes
/// `u128::MAX`, so does the whole quotient.
proof fn lemma_overflow(a: u128, b: u128, d: u128, i: nat, lower: int)
    requires
        d > 0,
        i <= 128,
        lower * d <= a as int * top_bits(b, i),
        lower > u128::MAX,
    ensures
        (a as int * b as int) / (d as int) > u128::MAX,
{
    lemma_pow2_pos((128 - i) as nat);
    let t = top_bits(b, i);
    assert(t <= b) by (nonlinear_arith)
        requires
            t == (b as nat) / pow2((128 - i) as nat),
            pow2((128 - i) as nat) > 0,
    ;
    assert(a as int * t <= a as int * b as int) by (nonlinear_arith)
        requires
            t <= b,
            a >= 0,
    ;
    assert((lower * d) / (d as int) == lower) by {
        vstd::arithmetic::div_mod::lemma_div_by_multiple(lower, d as int);
    }
    assert((lower * d) / (d as int) <= (a as int * b as int) / (d as int)) by {
        vstd::arithmetic::div_mod::lemma_div_is_ordered(lower * d, a as int * b as int, d as int);
    }
}

/// `floor(a * b / d)`, computed without a 256-bit type; `None` when `d` is
/// zero or the quotient does not fit in a `u128`.
pub fn mul_div(a: u128, b: u128, d: u128) -> (r: Option<u128>)
    ensures
        d == 0 ==> r is None,
        d > 0 && (a as int * b as int) / (d as int) <= u128::MAX ==> r == Some(
            ((a as int * b as int) / (d as int)) as u128,
        ),
        d > 0 && (a as int * b as int) / (d as int) > u128::MAX ==> r is None,
{
    if d == 0 {
        return None;
    }
    let qa = a / d;
    let ra = a % d;
    proof {
        assert(a as int == qa as int * d + ra && ra < d) by (nonlinear_arith)
            requires
                d > 0,
                qa == a / d,
                ra == a % d,
        ;
        lemma_top_bits_step(b, 0);
    }
    let mut q: u128 = 0;
    let mut r: u128 = 0;
    let mut i: u128 = 0;
    while i < 128
        invariant
            d > 0,
            a as int == qa as int * d + ra,
            ra < d,
            i <= 128,
            r < d,
            q as int * d + r == a as int * top_bits(b, i as nat),
        decreases 128 - i,
    {
        let bit = (b >> (127 - i)) % 2;
        let ghost t1 = a as int * top_bits(b, (i + 1) as nat);
        proof {
            lemma_top_bits_step(b, i as nat);
            assert(t1 == 2 * (q as int * d + r) + bit * a) by (nonlinear_arith)
                requires
                    q as int * d + r == a as int * top_bits(b, i as nat),
                    top_bits(b, (i + 1) as nat) == 2 * top_bits(b, i as nat) + bit,
                    t1 == a as int * top_bits(b, (i + 1) as nat),
            ;
            assert(bit * a >= 0) by (nonlinear_arith)
                requires
                    bit >= 0,
                    a >= 0,
            ;
        }
        proof {
            assert(2 * q * d <= t1) by (nonlinear_arith)
                requires
                    t1 == 2 * (q as int * d + r) + bit * a,
                    bit * a >= 0,
                    r >= 0,
            ;
        }
        if q > u128::MAX / 2 {
            proof {
                lemma_overflow(a, b, d, (i + 1) as nat, 2 * q);
            }
            return None;
        }
        let c1: u128 = if r >= d - r {
            1
        } else {
            0
        };
        let nr1: u128 = if c1 == 1 {
            r - (d - r)
        } else {
            2 * r
        };
        if 2 * q > u128::MAX - c1 {
            proof {
                assert((2 * q + c1) * d <= t1) by (nonlinear_arith)
                    requires
                        t1 == 2 * (q as int * d + r) + bit * a,
                        bit * a >= 0,
                        (c1 == 1 && 2 * r >= d) || c1 == 0,
                ;
                lemma_overflow(a, b, d, (i + 1) as nat, 2 * q + c1);
            }
            return None;
        }
        let nq1: u128 = 2 * q + c1;
        proof {
            assert(nq1 as int * d + nr1 == 2 * (q as int * d + r)) by (nonlinear_arith)
                requires
                    nq1 == 2 * q + c1,
                    (c1 == 1 && nr1 == r - (d - r)) || (c1 == 0 && nr1 == 2 * r),
            ;
        }
        if bit == 1 {
            proof {
                assert(bit * a == a) by (nonlinear_arith)
                    requires
                        bit == 1,
                ;
            }
            if qa > u128::MAX - nq1 {
                proof {
                    assert((nq1 + qa) * d <= t1) by (nonlinear_arith)
                        requires
                            nq1 as int * d + nr1 == 2 * (q as int * d + r),
                            t1 == 2 * (q as int * d + r) + a,
                            a as int == qa as int * d + ra,
                            nr1 >= 0,
                            ra >= 0,
                    ;
                    lemma_overflow(a, b, d, (i + 1) as nat, nq1 + qa);
                }
                return None;
            }
            let c2: u128 = if ra >= d - nr1 {
                1
            } else {
                0
            };
            let nr2: u128 = if c2 == 1 {
                ra - (d - nr1)
            } else {
                nr1 + ra
            };
            if nq1 + qa > u128::MAX - c2 {
                proof {
                    assert((nq1 + qa + c2) * d <= t1) by (nonlinear_arith)
                        requires
                            nq1 as int * d + nr1 == 2 * (q as int * d + r),
                            t1 == 2 * (q as int * d + r) + a,
                            a as int == qa as int * d + ra,
                            (c2 == 1 && nr1 + ra >= d) || (c2 == 0),
                            nr1 >= 0,
                            ra >= 0,
                    ;
                    lemma_overflow(a, b, d, (i + 1) as nat, nq1 + qa + c2);
                }
                return None;
            }
            proof {
                assert((nq1 + qa + c2) * d + nr2 == t1) by (nonlinear_arith)
                    requires
                        nq1 as int * d + nr1 == 2 * (q as int * d + r),
                        t1 == 2 * (q as int * d + r) + a,
                        a as int == qa as int * d + ra,
                        (c2 == 1 && nr2 == ra - (d - nr1)) || (c2 == 0 && nr2 == nr1 + ra),
                ;
            }
            q = nq1 + qa + c2;
            r = nr2;
        } else {
            proof {
                assert(bit * a == 0) by (nonlinear_arith)
                    requires
                        bit == 0,
                ;
            }
            q = nq1;
            r = nr1;
        }
        i = i + 1;
    }
    proof {
        lemma_top_bits_step(b, 0);
        vstd::arithmetic::div_mod::lemma_fundamental_div_mod_converse(
            a as int * b as int,
            d as int,
            q as int,
            r as int,
        );
    }
    Some(q)
}

} // verus!

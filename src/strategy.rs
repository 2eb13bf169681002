use vstd::prelude::*;
use crate::fees::{basis_points_of, flashloan_adjusted_revenue};
use crate::mempool::{PendingTxs, SimulatedBundleIds, bundle_key};
use crate::optimizer::MIN_PROFIT;
use crate::sandwich::Sandwich;

verus! {

/// A sandwich worth a flash-loan bundle: its index among the promising ones
/// and its revenue once the flash-loan fee is paid.
#[derive(Clone, Copy, Debug, PartialEq, Eq, Structural)]
pub struct Candidate {
    pub index: usize,
    pub adjusted_revenue: u128,
}

/// Whether sandwich `s` goes on to a flash-loan bundle: it was optimized to a
/// non-zero size with at least `MIN_PROFIT`, its victim's bundle was not
/// simulated lately, and its revenue exceeds the flash-loan fee.
pub open spec fn is_candidate(s: Sandwich, seen: Seq<(u128, u128)>) -> bool {
    match s.optimized_sandwich {
        Some(o) => o.amount_in != 0 && o.max_revenue >= MIN_PROFIT && !seen.contains(
            bundle_key(s.swap_info.tx_hash),
        ) && o.max_revenue <= i128::MAX && o.max_revenue > basis_points_of(s.amount_in as int, 9),
        None => false,
    }
}

/// The flash-loan candidates among `promising`, in order, each with its
/// revenue after the fee.
pub fn flashloan_candidates(promising: &Vec<Sandwich>, seen: &SimulatedBundleIds) -> (r: Vec<Candidate>)
    ensures
        forall|k: int|
            0 <= k < r@.len() ==> {
                let c = #[trigger] r@[k];
                &&& c.index < promising@.len()
                &&& is_candidate(promising@[c.index as int], seen.view())
                &&& c.adjusted_revenue == promising@[c.index as int].optimized_sandwich.unwrap().max_revenue
                    - basis_points_of(promising@[c.index as int].amount_in as int, 9)
            },
        forall|i: int|
            0 <= i < promising@.len() && is_candidate(#[trigger] promising@[i], seen.view()) ==> exists|k: int|
                0 <= k < r@.len() && r@[k].index == i,
        forall|k1: int, k2: int| 0 <= k1 < k2 < r@.len() ==> r@[k1].index < r@[k2].index,
{
    let mut out: Vec<Candidate> = Vec::new();
    let mut i: usize = 0;
    while i < promising.len()
        invariant
            i <= promising@.len(),
            forall|k: int|
                0 <= k < out@.len() ==> {
                    let c = #[trigger] out@[k];
                    &&& c.index < i
                    &&& is_candidate(promising@[c.index as int], seen.view())
                    &&& c.adjusted_revenue == promising@[c.index as int].optimized_sandwich.unwrap().max_revenue
                        - basis_points_of(promising@[c.index as int].amount_in as int, 9)
                },
            forall|j: int|
                0 <= j < i && is_candidate(#[trigger] promising@[j], seen.view()) ==> exists|k: int|
                    0 <= k < out@.len() && out@[k].index == j,
            forall|k1: int, k2: int| 0 <= k1 < k2 < out@.len() ==> out@[k1].index < out@[k2].index,
        decreases promising@.len() - i,
    {
        let s = &promising[i];
        let ghost prev = out@;
        match &s.optimized_sandwich {
            Some(o) => {
                if o.amount_in != 0 && o.max_revenue >= MIN_PROFIT && !seen.contains(s.swap_info.tx_hash)
                    && o.max_revenue <= i128::MAX as u128 {
                    match flashloan_adjusted_revenue(o.max_revenue as i128, s.amount_in) {
                        Some(adjusted) => {
                            out.push(Candidate { index: i, adjusted_revenue: adjusted });
                            proof {
                                assert(out@[prev.len() as int].index == i);
                                assert forall|k: int| 0 <= k < prev.len() implies out@[k] == prev[k] by {}
                            }
                        },
                        None => {},
                    }
                }
            },
            None => {},
        }
        proof {
            assert forall|j: int|
                0 <= j < i + 1 && is_candidate(#[trigger] promising@[j], seen.view()) implies exists|k: int|
                0 <= k < out@.len() && out@[k].index == j by {
                if j < i {
                    let k = choose|k: int| 0 <= k < prev.len() && prev[k].index == j;
                    assert(out@[k] == prev[k]);
                } else {
                    assert(out@[out@.len() - 1].index == j);
                }
            }
        }
        i = i + 1;
    }
    out
}

/// The candidates, best revenue first; candidates of equal revenue keep
/// their order.
pub fn rank_candidates(cands: &Vec<Candidate>) -> (r: Vec<Candidate>)
    ensures
        r@.len() == cands@.len(),
        forall|k1: int, k2: int| 0 <= k1 < k2 < r@.len() ==> r@[k1].adjusted_revenue >= r@[k2].adjusted_revenue,
        forall|k: int| 0 <= k < r@.len() ==> cands@.contains(#[trigger] r@[k]),
        forall|j: int| 0 <= j < cands@.len() ==> r@.contains(#[trigger] cands@[j]),
{
    let mut out: Vec<Candidate> = Vec::new();
    let mut i: usize = 0;
    while i < cands.len()
        invariant
            i <= cands@.len(),
            out@.len() == i,
            forall|k1: int, k2: int| 0 <= k1 < k2 < out@.len() ==> out@[k1].adjusted_revenue >= out@[k2].adjusted_revenue,
            forall|k: int| 0 <= k < out@.len() ==> cands@.contains(#[trigger] out@[k]),
            forall|j: int| 0 <= j < i ==> out@.contains(#[trigger] cands@[j]),
        decreases cands@.len() - i,
    {
        let c = cands[i];
        let mut p: usize = 0;
        while p < out.len() && out[p].adjusted_revenue >= c.adjusted_revenue
            invariant
                p <= out@.len(),
                forall|m: int| 0 <= m < p ==> out@[m].adjusted_revenue >= c.adjusted_revenue,
            decreases out@.len() - p,
        {
            p = p + 1;
        }
        let ghost prev = out@;
        out.insert(p, c);
        proof {
            assert(out@ == prev.insert(p as int, c));
            assert(cands@[i as int] == c);
            assert forall|k1: int, k2: int| 0 <= k1 < k2 < out@.len() implies out@[k1].adjusted_revenue >= out@[k2].adjusted_revenue by {
                if k2 < p {
                } else if k2 == p {
                    assert(out@[k1] == prev[k1]);
                } else if k1 < p {
                    assert(out@[k1] == prev[k1]);
                    assert(out@[k2] == prev[k2 - 1]);
                } else if k1 == p {
                    assert(out@[k2] == prev[k2 - 1]);
                    assert(prev[p as int].adjusted_revenue < c.adjusted_revenue);
                    assert(prev[p as int].adjusted_revenue >= prev[k2 - 1].adjusted_revenue);
                } else {
                    assert(out@[k1] == prev[k1 - 1]);
                    assert(out@[k2] == prev[k2 - 1]);
                }
            }
            assert forall|k: int| 0 <= k < out@.len() implies cands@.contains(#[trigger] out@[k]) by {
                if k < p {
                    assert(out@[k] == prev[k]);
                } else if k == p {
                    assert(cands@[i as int] == out@[k]);
                } else {
                    assert(out@[k] == prev[k - 1]);
                }
            }
            assert forall|j: int| 0 <= j < i + 1 implies out@.contains(#[trigger] cands@[j]) by {
                if j == i {
                    assert(out@[p as int] == cands@[j]);
                } else {
                    assert(prev.contains(cands@[j]));
                    let k = choose|k: int| 0 <= k < prev.len() && prev[k] == cands@[j];
                    if k < p {
                        assert(out@[k] == prev[k]);
                    } else {
                        assert(out@[k + 1] == prev[k]);
                    }
                }
            }
        }
        i = i + 1;
    }
    out
}

/// A sandwich that reaches a bundle earns at least `MIN_PROFIT`.
pub proof fn lemma_candidates_clear_profit_floor(s: Sandwich, seen: Seq<(u128, u128)>)
    requires
        is_candidate(s, seen),
    ensures
        s.optimized_sandwich.unwrap().max_revenue >= MIN_PROFIT,
{
}

/// Whether a transaction with hash `h` is stored in `p`.
pub open spec fn is_pending(p: PendingTxs, h: crate::swap::Hash32) -> bool {
    exists|a: u64| p.view().contains((h, a))
}

/// Indices, in order, of the promising sandwiches whose victim is still
/// pending; the others are dropped after each block.
pub fn still_pending(promising: &Vec<Sandwich>, pending: &PendingTxs) -> (r: Vec<usize>)
    ensures
        forall|k: int| 0 <= k < r@.len() ==> (#[trigger] r@[k]) < promising@.len(),
        forall|k1: int, k2: int| 0 <= k1 < k2 < r@.len() ==> r@[k1] < r@[k2],
        forall|i: int|
            0 <= i < promising@.len() ==> (r@.contains(i as usize) <==> is_pending(
                *pending,
                #[trigger] promising@[i].victim_tx.tx_hash,
            )),
{
    let mut out: Vec<usize> = Vec::new();
    let mut i: usize = 0;
    while i < promising.len()
        invariant
            i <= promising@.len(),
            forall|k: int| 0 <= k < out@.len() ==> (#[trigger] out@[k]) < i,
            forall|k1: int, k2: int| 0 <= k1 < k2 < out@.len() ==> out@[k1] < out@[k2],
            forall|j: int|
                0 <= j < i ==> (out@.contains(j as usize) <==> is_pending(
                    *pending,
                    #[trigger] promising@[j].victim_tx.tx_hash,
                )),
        decreases promising@.len() - i,
    {
        let ghost prev = out@;
        proof {
            assert(!prev.contains(i as usize)) by {
                if prev.contains(i as usize) {
                    let k = choose|k: int| 0 <= k < prev.len() && prev[k] == i as usize;
                }
            }
        }
        let keep = pending.contains(promising[i].victim_tx.tx_hash);
        assert(keep == is_pending(*pending, promising@[i as int].victim_tx.tx_hash));
        if keep {
            out.push(i);
            proof {
                assert(out@[prev.len() as int] == i);
                assert forall|j: int| 0 <= j < i implies (#[trigger] out@.contains(j as usize) <==> prev.contains(j as usize)) by {
                    if out@.contains(j as usize) {
                        let k = choose|k: int| 0 <= k < out@.len() && out@[k] == j as usize;
                        if k < prev.len() {
                            assert(prev[k] == out@[k]);
                        }
                    }
                    if prev.contains(j as usize) {
                        let k = choose|k: int| 0 <= k < prev.len() && prev[k] == j as usize;
                        assert(out@[k] == prev[k]);
                    }
                }
                assert forall|k: int| 0 <= k < out@.len() implies (#[trigger] out@[k]) < i + 1 by {
                    if k < prev.len() {
                        assert(prev[k] == out@[k]);
                    }
                }
            }
        }
        i = i + 1;
    }
    out
}

} // verus!

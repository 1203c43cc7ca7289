//! The deterministic order in which detections are paired across cameras:
//! by vertical image position, then horizontal, then detector order.
use vstd::prelude::*;

verus! {

/// Strict lexicographic order on (vertical, horizontal) position keys.
pub open spec fn key_lt(a: (u64, u64), b: (u64, u64)) -> bool {
    a.0 < b.0 || (a.0 == b.0 && a.1 < b.1)
}

/// Detection `a` comes before detection `b`: a smaller position key, or the
/// same key and an earlier place in the detector's list.
pub open spec fn comes_before(keys: Seq<(u64, u64)>, a: usize, b: usize) -> bool {
    key_lt(keys[a as int], keys[b as int]) || (keys[a as int] == keys[b as int] && a < b)
}

/// `order` lists every detection of `keys` once, sorted by `comes_before`.
pub open spec fn is_position_order(keys: Seq<(u64, u64)>, order: Seq<usize>) -> bool {
    &&& order.len() == keys.len()
    &&& forall|k: usize| (k < keys.len()) == order.contains(k)
    &&& forall|p: int, q: int|
        0 <= p < q < order.len() ==> comes_before(keys, #[trigger] order[p], #[trigger] order[q])
}

/// The detections' indices sorted by position key, ties kept in detector
/// order. Keys are (vertical, horizontal) positions, encoded so that
/// integer order is the order of positions.
pub fn position_order(keys: &[(u64, u64)]) -> (r: Vec<usize>)
    ensures
        is_position_order(keys@, r@),
{
    let n = keys.len();
    let mut out: Vec<usize> = Vec::new();
    let mut i: usize = 0;
    while i < n
        invariant
            n == keys@.len(),
            i <= n,
            out@.len() == i,
            forall|k: usize| (k < i) == out@.contains(k),
            forall|p: int, q: int|
                0 <= p < q < out@.len() ==> comes_before(keys@, #[trigger] out@[p], #[trigger] out@[q]),
        decreases n - i,
    {
        proof {
            assert forall|p: int| 0 <= p < out@.len() implies (#[trigger] out@[p]) < i by {
                assert(out@.contains(out@[p]));
            }
        }
        let ki = keys[i];
        let mut p: usize = 0;
        while p < out.len() && !key_lt_exec(ki, keys[out[p]])
            invariant
                n == keys@.len(),
                i < n,
                ki == keys@[i as int],
                p <= out@.len(),
                forall|q: int| 0 <= q < out@.len() ==> (#[trigger] out@[q]) < i,
                forall|q: int| 0 <= q < p ==> !key_lt(ki, keys@[(#[trigger] out@[q]) as int]),
            decreases out@.len() - p,
        {
            p = p + 1;
        }
        let ghost before = out@;
        proof {
            assert forall|q: int| p <= q < before.len() implies key_lt(
                ki,
                keys@[(#[trigger] before[q]) as int],
            ) by {
                if q > p {
                    assert(comes_before(keys@, before[p as int], before[q]));
                }
            }
        }
        out.insert(p, i);
        proof {
            let after = out@;
            assert(after == before.insert(p as int, i));
            assert forall|a: int, b: int| 0 <= a < b < after.len() implies comes_before(
                keys@,
                #[trigger] after[a],
                #[trigger] after[b],
            ) by {
                if a < p && b < p {
                    assert(after[a] == before[a] && after[b] == before[b]);
                } else if a < p && b == p {
                    assert(after[a] == before[a]);
                    assert(!key_lt(ki, keys@[before[a] as int]));
                } else if a < p {
                    assert(after[a] == before[a] && after[b] == before[b - 1]);
                } else if a == p {
                    assert(after[b] == before[b - 1]);
                } else {
                    assert(after[a] == before[a - 1] && after[b] == before[b - 1]);
                }
            }
            assert forall|k: usize| (k < i + 1) == after.contains(k) by {
                if k < i {
                    assert(before.contains(k));
                    let j = choose|j: int| 0 <= j < before.len() && before[j] == k;
                    if j < p {
                        assert(after[j] == k);
                    } else {
                        assert(after[j + 1] == k);
                    }
                } else if k == i {
                    assert(after[p as int] == i);
                } else if after.contains(k) {
                    let j = choose|j: int| 0 <= j < after.len() && after[j] == k;
                    if j < p {
                        assert(after[j] == before[j]);
                        assert(before.contains(k));
                    } else if j > p {
                        assert(after[j] == before[j - 1]);
                        assert(before.contains(k));
                    }
                }
            }
        }
        i = i + 1;
    }
    out
}

fn key_lt_exec(a: (u64, u64), b: (u64, u64)) -> (r: bool)
    ensures
        r == key_lt(a, b),
{
    a.0 < b.0 || (a.0 == b.0 && a.1 < b.1)
}

} // verus!

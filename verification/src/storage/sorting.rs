//! Putting release numbers in order.

use vstd::prelude::*;
use vstd::seq_lib::{to_multiset_build, to_multiset_insert};

verus! {

/// Every element is at least as large as the one after it.
pub open spec fn descending(s: Seq<u32>) -> bool {
    forall|i: int, j: int| 0 <= i <= j < s.len() ==> s[i] >= s[j]
}

/// The numbers of `v`, each as often as it occurs there, largest first.
pub fn sort_descending(v: &Vec<u32>) -> (r: Vec<u32>)
    ensures
        descending(r@),
        r@.to_multiset() == v@.to_multiset(),
{
    let mut out: Vec<u32> = Vec::new();
    let mut i: usize = 0;
    proof {
        assert(v@.take(0) =~= out@);
    }
    while i < v.len()
        invariant
            i <= v@.len(),
            out@.len() == i,
            descending(out@),
            out@.to_multiset() == v@.take(i as int).to_multiset(),
        decreases v@.len() - i,
    {
        let x = v[i];
        let mut j: usize = 0;
        while j < out.len() && out[j] >= x
            invariant
                j <= out@.len(),
                forall|k: int| 0 <= k < j ==> out@[k] >= x,
            decreases out@.len() - j,
        {
            j += 1;
        }
        let ghost before = out@;
        proof {
            to_multiset_insert(before, j as int, x);
            to_multiset_build(v@.take(i as int), x);
            assert(v@.take(i as int + 1) =~= v@.take(i as int).push(x));
        }
        out.insert(j, x);
        proof {
            let after = out@;
            assert forall|a: int, b: int| 0 <= a <= b < after.len() implies after[a] >= after[b] by {
                if b < j {
                    assert(after[a] == before[a] && after[b] == before[b]);
                } else if b == j {
                    if a < j {
                        assert(after[a] == before[a]);
                    }
                } else {
                    assert(after[b] == before[b - 1]);
                    assert(before[j as int] < x);
                    if a < j {
                        assert(after[a] == before[a]);
                    } else if a == j {
                        assert(before[j as int] >= before[b - 1]);
                    } else {
                        assert(after[a] == before[a - 1]);
                    }
                }
            }
        }
        i += 1;
    }
    proof {
        assert(v@.take(i as int) =~= v@);
    }
    out
}

} // verus!

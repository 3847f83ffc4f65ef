//! Facts about lists of distinct indices below a bound.

use vstd::prelude::*;

verus! {

/// Every entry of `s` is below `n`.
pub open spec fn all_below(s: Seq<usize>, n: usize) -> bool {
    forall|i: int| 0 <= i < s.len() ==> s[i] < n
}

/// A list of distinct indices below `n` has at most `n` entries; with
/// exactly `n` entries it holds every index below `n`, and with fewer it
/// misses one.
pub proof fn lemma_distinct_indices(s: Seq<usize>, n: usize)
    requires
        s.no_duplicates(),
        all_below(s, n),
    ensures
        s.len() <= n,
        s.len() == n ==> forall|v: usize| v < n ==> s.contains(v),
        s.len() < n ==> exists|v: usize| v < n && !s.contains(v),
    decreases n,
{
    if n == 0 {
        if s.len() > 0 {
            assert(s[0] < n);
        }
    } else {
        let top: usize = (n - 1) as usize;
        if s.contains(top) {
            let at = choose|i: int| 0 <= i < s.len() && s[i] == top;
            let rest = s.remove(at);
            assert forall|i: int| 0 <= i < rest.len() implies rest[i] < top by {
                if i < at {
                    assert(rest[i] == s[i]);
                    assert(s[i] != s[at]);
                } else {
                    assert(rest[i] == s[i + 1]);
                    assert(s[i + 1] != s[at]);
                }
            }
            assert(rest.no_duplicates()) by {
                assert forall|i: int, j: int|
                    0 <= i < rest.len() && 0 <= j < rest.len() && i != j implies rest[i]
                    != rest[j] by {
                    let si = if i < at { i } else { i + 1 };
                    let sj = if j < at { j } else { j + 1 };
                    assert(rest[i] == s[si]);
                    assert(rest[j] == s[sj]);
                }
            }
            lemma_distinct_indices(rest, top);
            if s.len() == n {
                assert forall|v: usize| v < n implies s.contains(v) by {
                    if v != top {
                        assert(rest.contains(v));
                        let i = choose|i: int| 0 <= i < rest.len() && rest[i] == v;
                        let si = if i < at { i } else { i + 1 };
                        assert(s[si] == v);
                    }
                }
            }
            if s.len() < n {
                let v = choose|v: usize| v < top && !rest.contains(v);
                assert(!s.contains(v)) by {
                    if s.contains(v) {
                        let i = choose|i: int| 0 <= i < s.len() && s[i] == v;
                        assert(i != at);
                        let ri = if i < at { i } else { i - 1 };
                        assert(rest[ri] == v);
                    }
                }
            }
        } else {
            assert forall|i: int| 0 <= i < s.len() implies s[i] < top by {
                assert(s.contains(s[i]));
            }
            lemma_distinct_indices(s, top);
            assert(!s.contains(top));
        }
    }
}

} // verus!

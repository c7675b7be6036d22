//! Facts about sequences used across the analyses.
use vstd::prelude::*;

verus! {

/// Two mapped sequences are equal exactly when they have the same length and
/// agree pointwise.
pub proof fn lemma_map_values_eq<A, B, C>(a: Seq<A>, b: Seq<B>, f: spec_fn(A) -> C, g: spec_fn(B) -> C)
    ensures
        a.map_values(f) == b.map_values(g) <==> (a.len() == b.len() && forall|i: int|
            0 <= i < a.len() ==> f(#[trigger] a[i]) == g(b[i])),
{
    if a.len() == b.len() && forall|i: int| 0 <= i < a.len() ==> f(#[trigger] a[i]) == g(b[i]) {
        assert(a.map_values(f) =~= b.map_values(g));
    }
    if a.map_values(f) == b.map_values(g) {
        assert(a.len() == a.map_values(f).len());
        assert forall|i: int| 0 <= i < a.len() implies f(#[trigger] a[i]) == g(b[i]) by {
            assert(a.map_values(f)[i] == f(a[i]));
            assert(b.map_values(g)[i] == g(b[i]));
        }
    }
}

} // verus!

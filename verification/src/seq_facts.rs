//! Facts about sequences that the proofs of the passes share.

use vstd::prelude::*;
use vstd::seq_lib::lemma_flatten_concat;

verus! {

/// Flattening what `f` gives for each element goes through concatenation.
pub proof fn lemma_flat_map_add<A, B>(a: Seq<A>, b: Seq<A>, f: spec_fn(A) -> Seq<B>)
    ensures
        (a + b).flat_map(f) == a.flat_map(f) + b.flat_map(f),
{
    assert((a + b).map_values(f) =~= a.map_values(f) + b.map_values(f));
    lemma_flatten_concat(a.map_values(f), b.map_values(f));
}

/// An element is in a concatenation where it is in one of the two parts.
pub proof fn lemma_contains_add<A>(a: Seq<A>, b: Seq<A>, x: A)
    ensures
        (a + b).contains(x) == (a.contains(x) || b.contains(x)),
{
    if a.contains(x) {
        let i = choose|i: int| 0 <= i < a.len() && #[trigger] a[i] == x;
        assert((a + b)[i] == x);
    }
    if b.contains(x) {
        let i = choose|i: int| 0 <= i < b.len() && #[trigger] b[i] == x;
        assert((a + b)[a.len() + i] == x);
    }
    if (a + b).contains(x) {
        let i = choose|i: int| 0 <= i < (a + b).len() && #[trigger] (a + b)[i] == x;
        if i < a.len() {
            assert(a[i] == x);
        } else {
            assert(b[i - a.len()] == x);
        }
    }
}

/// A single element is all that a run of one holds.
pub proof fn lemma_contains_one<A>(a: A, x: A)
    ensures
        seq![a].contains(x) == (x == a),
{
    if seq![a].contains(x) {
        let i = choose|i: int| 0 <= i < seq![a].len() && #[trigger] seq![a][i] == x;
    }
    if x == a {
        assert(seq![a][0] == x);
    }
}

} // verus!

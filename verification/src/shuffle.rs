//! Lists in random order.
use rand::seq::SliceRandom;
use vstd::prelude::*;

verus! {

/// Whether `a` holds the same items as `b`, each as often, in whatever order.
pub open spec fn reordered<T>(a: Seq<T>, b: Seq<T>) -> bool {
    a.to_multiset() == b.to_multiset()
}

/// `rand`'s `SliceRandom::shuffle` with the thread's generator: the same items in some order.
#[verifier::external_body]
pub(crate) fn shuffle<T>(items: &mut Vec<T>)
    ensures
        reordered(final(items)@, old(items)@),
{
    items.shuffle(&mut rand::rng());
}

/// A list in another order has the same length and contains the same items.
pub proof fn lemma_reordered<T>(a: Seq<T>, b: Seq<T>)
    requires
        reordered(a, b),
    ensures
        a.len() == b.len(),
        forall|x: T| a.contains(x) <==> b.contains(x),
{
    a.to_multiset_ensures();
    b.to_multiset_ensures();
    assert forall|x: T| a.contains(x) <==> b.contains(x) by {
        assert(a.to_multiset().count(x) == b.to_multiset().count(x));
    }
}

/// What is made of the items of a list, one by one, comes in another order where the items do.
pub proof fn lemma_reordered_map<T, U>(a: Seq<T>, b: Seq<T>, f: spec_fn(T) -> U)
    requires
        reordered(a, b),
    ensures
        reordered(a.map_values(f), b.map_values(f)),
    decreases a.len(),
{
    lemma_reordered(a, b);
    if a.len() == 0 {
        assert(a.map_values(f) =~= b.map_values(f));
    } else {
        let x = a.last();
        let less_a = a.drop_last();
        assert(a[a.len() - 1] == x);
        assert(b.contains(x));
        let k = choose|k: int| 0 <= k < b.len() && b[k] == x;
        let less_b = b.remove(k);
        a.to_multiset_ensures();
        b.to_multiset_ensures();
        assert(less_a =~= a.remove(a.len() - 1));
        assert(less_a.to_multiset() =~= less_b.to_multiset());
        lemma_reordered_map(less_a, less_b, f);
        let image_a = a.map_values(f);
        let image_b = b.map_values(f);
        image_a.to_multiset_ensures();
        image_b.to_multiset_ensures();
        less_a.map_values(f).to_multiset_ensures();
        less_b.map_values(f).to_multiset_ensures();
        assert(image_a.remove(a.len() - 1) =~= less_a.map_values(f));
        assert(image_b.remove(k) =~= less_b.map_values(f));
        assert(image_a.contains(f(x))) by {
            assert(image_a[a.len() - 1] == f(x));
        }
        assert(image_b.contains(f(x))) by {
            assert(image_b[k] == f(x));
        }
        assert(image_a.to_multiset() =~= image_a.to_multiset().remove(f(x)).insert(f(x)));
        assert(image_b.to_multiset() =~= image_b.to_multiset().remove(f(x)).insert(f(x)));
    }
}

/// Lists are in another order of each other if and only if every item occurs in both as often.
pub proof fn law_reordered<T>(a: Seq<T>, b: Seq<T>)
    ensures
        reordered(a, b) <==> forall|x: T|
            #[trigger] a.to_multiset().count(x) == b.to_multiset().count(x),
        reordered(a, b) ==> a.len() == b.len(),
{
    if forall|x: T| #[trigger] a.to_multiset().count(x) == b.to_multiset().count(x) {
        assert(a.to_multiset() =~= b.to_multiset());
    }
    if reordered(a, b) {
        lemma_reordered(a, b);
    }
}

} // verus!

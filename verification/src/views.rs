//! Element-wise views of sequences, and how they follow the sequence
//! operations.

use vstd::prelude::*;

verus! {

/// The views of the elements of `v`, in order.
pub open spec fn views<T: View>(v: Seq<T>) -> Seq<T::V> {
    Seq::new(v.len(), |i: int| v[i]@)
}

/// The views of a sequence with one more element.
pub broadcast proof fn lemma_views_push<T: View>(v: Seq<T>, x: T)
    ensures
        #[trigger] views(v.push(x)) == views(v).push(x@),
{
    assert(views(v.push(x)) =~= views(v).push(x@));
}

/// The views of a prefix.
pub broadcast proof fn lemma_views_take<T: View>(v: Seq<T>, n: int)
    requires
        0 <= n <= v.len(),
    ensures
        #[trigger] views(v.take(n)) == views(v).take(n),
{
    assert(views(v.take(n)) =~= views(v).take(n));
}

/// The views of a part.
pub broadcast proof fn lemma_views_subrange<T: View>(v: Seq<T>, a: int, b: int)
    requires
        0 <= a <= b <= v.len(),
    ensures
        #[trigger] views(v.subrange(a, b)) == views(v).subrange(a, b),
{
    assert(views(v.subrange(a, b)) =~= views(v).subrange(a, b));
}

/// The views of a sequence with one element replaced.
pub broadcast proof fn lemma_views_update<T: View>(v: Seq<T>, i: int, x: T)
    requires
        0 <= i < v.len(),
    ensures
        #[trigger] views(v.update(i, x)) == views(v).update(i, x@),
{
    assert(views(v.update(i, x)) =~= views(v).update(i, x@));
}

/// The views of a sequence with one element taken out.
pub broadcast proof fn lemma_views_remove<T: View>(v: Seq<T>, i: int)
    requires
        0 <= i < v.len(),
    ensures
        #[trigger] views(v.remove(i)) == views(v).remove(i),
{
    assert(views(v.remove(i)) =~= views(v).remove(i));
}

/// The views of a sequence with one element put in.
pub broadcast proof fn lemma_views_insert<T: View>(v: Seq<T>, i: int, x: T)
    requires
        0 <= i <= v.len(),
    ensures
        #[trigger] views(v.insert(i, x)) == views(v).insert(i, x@),
{
    assert(views(v.insert(i, x)) =~= views(v).insert(i, x@));
}

/// The views of two sequences joined.
pub broadcast proof fn lemma_views_add<T: View>(a: Seq<T>, b: Seq<T>)
    ensures
        #[trigger] views(a + b) == views(a) + views(b),
{
    assert(views(a + b) =~= views(a) + views(b));
}

/// The views of the empty sequence.
pub broadcast proof fn lemma_views_empty<T: View>()
    ensures
        #[trigger] views(Seq::<T>::empty()) == Seq::<T::V>::empty(),
{
    assert(views(Seq::<T>::empty()) =~= Seq::<T::V>::empty());
}

/// The views of a sequence: as many as it has elements.
pub broadcast proof fn lemma_views_len<T: View>(v: Seq<T>)
    ensures
        #[trigger] views(v).len() == v.len(),
{
}

pub broadcast group group_views {
    lemma_views_push,
    lemma_views_take,
    lemma_views_subrange,
    lemma_views_update,
    lemma_views_remove,
    lemma_views_insert,
    lemma_views_add,
    lemma_views_empty,
    lemma_views_len,
}

} // verus!

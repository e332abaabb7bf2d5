//! Models of values that hold other values: the model of a sequence is the
//! sequence of the models of its elements.

use vstd::prelude::*;

verus! {

/// The models of the elements of `items`, in order.
pub open spec fn views<T: View>(items: Seq<T>) -> Seq<T::V> {
    Seq::new(items.len(), |i: int| items[i]@)
}

/// The models of the pairs of `entries`, in order.
pub open spec fn pair_views<T: View>(entries: Seq<(T, T)>) -> Seq<(T::V, T::V)> {
    Seq::new(entries.len(), |i: int| (entries[i].0@, entries[i].1@))
}

/// The model of an optional value.
pub open spec fn option_view<T: View>(value: Option<T>) -> Option<T::V> {
    match value {
        Some(inner) => Some(inner@),
        None => None,
    }
}

/// The models of a sequence that grew by one element.
pub proof fn lemma_views_push<T: View>(items: Seq<T>, last: T)
    ensures
        views(items.push(last)) == views(items).push(last@),
{
}

/// The empty sequence has no models.
pub proof fn lemma_views_empty<T: View>()
    ensures
        views(Seq::<T>::empty()) == Seq::<T::V>::empty(),
{
}

} // verus!

//! Laws that relate the cell's operations to one another.
use vstd::prelude::*;
use vstd::seq_lib::group_to_multiset_ensures;

use crate::cell::Obv;

verus! {

/// After `set(v)`, every subscriber registered at the call was called exactly
/// once, with `v`; no other identifier was notified, so there were as many
/// calls as subscribers.
pub proof fn lemma_set_notifies_each_once<T, F: Fn(&T)>(pre: Obv<T, F>, v: T, post: Obv<T, F>)
    requires
        pre.set_step(v, &post),
    ensures
        post.notified().len() == pre.subscribers().len(),
        forall|id: u128|
            pre.subscribers().contains_key(id) ==> {
                &&& #[trigger] post.notified().to_multiset().count(id) == 1
                &&& call_ensures(pre.subscribers()[id], (&v,), ())
            },
        forall|id: u128|
            !pre.subscribers().contains_key(id) ==> #[trigger] post.notified().to_multiset().count(
                id,
            ) == 0,
{
    broadcast use group_to_multiset_ensures;

    let ids = post.notified();
    ids.unique_seq_to_set();
    ids.lemma_multiset_has_no_duplicates();
    assert forall|id: u128| pre.subscribers().contains_key(id) implies {
        &&& #[trigger] ids.to_multiset().count(id) == 1
        &&& call_ensures(pre.subscribers()[id], (&v,), ())
    } by {
        assert(ids.to_set().contains(id));
    }
    assert forall|id: u128| !pre.subscribers().contains_key(id) implies #[trigger] ids.to_multiset().count(
        id,
    ) == 0 by {
        if ids.contains(id) {
            assert(ids.to_set().contains(id));
        }
    }
}

/// Once `id` is unsubscribed, a following `set` does not call the callback
/// that was held under it.
pub proof fn lemma_unsubscribed_not_notified<T, F: Fn(&T)>(
    pre: Obv<T, F>,
    id: u128,
    mid: Obv<T, F>,
    v: T,
    post: Obv<T, F>,
)
    requires
        pre.unsubscribe_step(id, &mid),
        mid.set_step(v, &post),
    ensures
        !post.notified().contains(id),
        post.notified().to_multiset().count(id) == 0,
{
    lemma_set_notifies_each_once(mid, v, post);
    if post.notified().contains(id) {
        assert(post.notified().to_set().contains(id));
    }
}

/// Unsubscribing an identifier that no subscriber holds changes nothing.
pub proof fn lemma_unsubscribe_unknown<T, F: Fn(&T)>(pre: Obv<T, F>, id: u128, post: Obv<T, F>)
    requires
        !pre.subscribers().contains_key(id),
        pre.unsubscribe_step(id, &post),
    ensures
        post.subscribers() == pre.subscribers(),
        post.value() == pre.value(),
{
    assert(post.subscribers() =~= pre.subscribers());
}

/// Unsubscribing the same identifier twice is the same as doing it once, and
/// leaves every other subscriber as it was.
pub proof fn lemma_unsubscribe_twice<T, F: Fn(&T)>(
    pre: Obv<T, F>,
    id: u128,
    mid: Obv<T, F>,
    post: Obv<T, F>,
)
    requires
        pre.unsubscribe_step(id, &mid),
        mid.unsubscribe_step(id, &post),
    ensures
        post.subscribers() == mid.subscribers(),
        post.value() == pre.value(),
        !post.subscribers().contains_key(id),
        forall|other: u128|
            other != id ==> {
                &&& #[trigger] post.subscribers().contains_key(other) == pre.subscribers().contains_key(
                    other,
                )
                &&& pre.subscribers().contains_key(other) ==> post.subscribers()[other]
                    == pre.subscribers()[other]
            },
{
    assert(post.subscribers() =~= mid.subscribers());
}

/// Removing one subscriber does not change what a following `set` delivers to
/// any other: each of them is still called exactly once, with the new value.
pub proof fn lemma_unsubscribe_keeps_others<T, F: Fn(&T)>(
    pre: Obv<T, F>,
    id: u128,
    mid: Obv<T, F>,
    v: T,
    post: Obv<T, F>,
    other: u128,
)
    requires
        pre.unsubscribe_step(id, &mid),
        mid.set_step(v, &post),
        other != id,
        pre.subscribers().contains_key(other),
    ensures
        post.notified().to_multiset().count(other) == 1,
        call_ensures(pre.subscribers()[other], (&v,), ()),
{
    lemma_set_notifies_each_once(mid, v, post);
    assert(mid.subscribers().contains_key(other));
}

} // verus!

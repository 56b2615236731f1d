//! The observable cell itself.
use std::collections::HashMap;
use vstd::prelude::*;
use vstd::std_specs::hash::spec_keys_iter;
use vstd::std_specs::iter::IteratorSpec;

use crate::ident::random_id;

verus! {

broadcast use vstd::std_specs::hash::group_hash_axioms;

/// A value together with the callbacks subscribed to its changes, each under
/// its own identifier.
pub struct Obv<T, F> {
    value: T,
    subscribers: HashMap<u128, F>,
    /// The identifiers whose callbacks the latest `set` called, in call order.
    notified: Ghost<Seq<u128>>,
}

/// A callback that may be called with any value.
pub open spec fn accepts_all<T, F: Fn(&T)>(f: F) -> bool {
    forall|v: T| call_requires(f, (&v,))
}

/// A finite set holding every identifier below `c` has at least `c` elements.
proof fn lemma_covered_prefix_len(s: Set<u128>, c: int)
    requires
        0 <= c <= u128::MAX + 1,
        s.finite(),
        forall|x: u128| x < c ==> s.contains(x),
    ensures
        s.len() >= c,
    decreases c,
{
    if c > 0 {
        let last = (c - 1) as u128;
        let rest = s.remove(last);
        lemma_covered_prefix_len(rest, c - 1);
    }
}

impl<T, F: Fn(&T)> Obv<T, F> {
    /// The value the cell holds.
    pub closed spec fn value(&self) -> T {
        self.value
    }

    /// The subscribed callbacks, by identifier.
    pub closed spec fn subscribers(&self) -> Map<u128, F> {
        self.subscribers@
    }

    /// The identifiers whose callbacks the latest `set` called, in call order
    /// (empty before the first `set`).
    pub closed spec fn notified(&self) -> Seq<u128> {
        self.notified@
    }

    /// Every subscribed callback may be called with any value.
    pub closed spec fn wf(&self) -> bool {
        forall|id: u128| #[trigger]
            self.subscribers@.contains_key(id) ==> accepts_all::<T, F>(self.subscribers@[id])
    }

    /// `post` is this cell after `set(v)`: it holds `v`, keeps its
    /// subscribers, and has called each of them once, in some order, with `v`.
    pub open spec fn set_step(&self, v: T, post: &Self) -> bool {
        &&& post.value() == v
        &&& post.subscribers() == self.subscribers()
        &&& post.notified().no_duplicates()
        &&& post.notified().to_set() == self.subscribers().dom()
        &&& forall|i: int|
            0 <= i < post.notified().len() ==> call_ensures(
                self.subscribers()[#[trigger] post.notified()[i]],
                (&v,),
                (),
            )
    }

    /// `post` is this cell after `f` was subscribed under `id`, which no
    /// current subscriber held.
    pub open spec fn subscribe_step(&self, f: F, id: u128, post: &Self) -> bool {
        &&& !self.subscribers().contains_key(id)
        &&& post.subscribers() == self.subscribers().insert(id, f)
        &&& post.value() == self.value()
        &&& post.notified() == self.notified()
    }

    /// `post` is this cell after the subscriber under `id`, if any, was removed.
    pub open spec fn unsubscribe_step(&self, id: u128, post: &Self) -> bool {
        &&& post.subscribers() == self.subscribers().remove(id)
        &&& post.value() == self.value()
        &&& post.notified() == self.notified()
    }

    /// A new cell holding `value`, with no subscribers.
    pub fn new(value: T) -> (r: Self)
        ensures
            r.wf(),
            r.value() == value,
            r.subscribers() == Map::<u128, F>::empty(),
            r.notified() == Seq::<u128>::empty(),
    {
        Obv { value, subscribers: HashMap::new(), notified: Ghost(Seq::empty()) }
    }

    /// The identifiers of the current subscribers, each once, in the order
    /// in which the map hands them out.
    fn subscriber_ids(&self) -> (r: Vec<u128>)
        ensures
            r@.no_duplicates(),
            r@.to_set() == self.subscribers().dom(),
    {
        let ghost keys = spec_keys_iter(&self.subscribers).remaining().unref();
        let mut ids: Vec<u128> = Vec::new();
        for id in it: self.subscribers.keys()
            invariant
                it.seq().unref() == keys,
                ids@ == keys.take(it.index()),
        {
            ids.push(*id);
            assert(ids@ =~= keys.take(it.index() + 1));
        }
        assert(ids@ =~= keys);
        ids
    }

    /// The least identifier that no current subscriber holds.
    fn unused_id(&self) -> (r: u128)
        ensures
            !self.subscribers().contains_key(r),
            forall|x: u128| x < r ==> self.subscribers().contains_key(x),
    {
        let n = self.subscribers.len();
        let ghost dom = self.subscribers@.dom();
        let mut c: u128 = 0;
        while self.subscribers.contains_key(&c)
            invariant
                dom == self.subscribers@.dom(),
                dom.finite(),
                dom.len() == n,
                forall|x: u128| x < c ==> dom.contains(x),
            decreases dom.len() - c,
        {
            proof {
                lemma_covered_prefix_len(dom, c + 1);
            }
            c = c + 1;
        }
        c
    }

    /// The value the cell holds.
    pub fn get(&self) -> (r: &T)
        ensures
            *r == self.value(),
    {
        &self.value
    }

    /// Replaces the value with `new_value`, then calls every subscriber,
    /// one after the other, with a reference to the new value. The
    /// identifiers are taken before the first call; the order among them is
    /// the map's and carries no meaning. A callback that panics stops the
    /// calls that would have followed it. While `set` runs the cell is
    /// mutably borrowed, so no callback can reach it.
    pub fn set(&mut self, new_value: T)
        requires
            old(self).wf(),
        ensures
            final(self).wf(),
            old(self).set_step(new_value, final(self)),
    {
        self.value = new_value;
        let ids = self.subscriber_ids();
        self.notified = Ghost(Seq::empty());
        assert(self.notified@ =~= ids@.take(0));
        let mut i: usize = 0;
        while i < ids.len()
            invariant
                self.wf(),
                self.value == new_value,
                self.subscribers@ == old(self).subscribers@,
                ids@.no_duplicates(),
                ids@.to_set() == self.subscribers@.dom(),
                0 <= i <= ids.len(),
                self.notified@ == ids@.take(i as int),
                forall|j: int|
                    0 <= j < i ==> call_ensures(
                        self.subscribers@[#[trigger] ids@[j]],
                        (&new_value,),
                        (),
                    ),
            decreases ids.len() - i,
        {
            let id = ids[i];
            assert(ids@.to_set().contains(id));
            match self.subscribers.get(&id) {
                Some(f) => {
                    f(&self.value);
                },
                None => {},
            }
            self.notified = Ghost(self.notified@.push(id));
            assert(self.notified@ =~= ids@.take(i + 1));
            i = i + 1;
        }
        assert(self.notified@ =~= ids@);
    }

    /// Subscribes `subscriber` under `id`, or, where a subscriber already
    /// holds `id`, under the least identifier that none holds. Returns the
    /// identifier used.
    pub fn subscribe_with_id(&mut self, id: u128, subscriber: F) -> (r: u128)
        requires
            old(self).wf(),
            accepts_all::<T, F>(subscriber),
        ensures
            final(self).wf(),
            old(self).subscribe_step(subscriber, r, final(self)),
            !old(self).subscribers().contains_key(id) ==> r == id,
            old(self).subscribers().contains_key(id) ==> forall|x: u128|
                x < r ==> old(self).subscribers().contains_key(x),
    {
        let r = if self.subscribers.contains_key(&id) {
            self.unused_id()
        } else {
            id
        };
        self.subscribers.insert(r, subscriber);
        r
    }

    /// Subscribes `subscriber` under a fresh random identifier and returns
    /// that identifier. Should the random draw hit an identifier in use, the
    /// least unused one is taken instead, so no two subscribers ever share one.
    pub fn subscribe(&mut self, subscriber: F) -> (r: u128)
        requires
            old(self).wf(),
            accepts_all::<T, F>(subscriber),
        ensures
            final(self).wf(),
            old(self).subscribe_step(subscriber, r, final(self)),
    {
        let id = random_id();
        self.subscribe_with_id(id, subscriber)
    }

    /// Removes the subscriber under `id`; does nothing where none holds it.
    pub fn unsubscribe(&mut self, id: &u128)
        requires
            old(self).wf(),
        ensures
            final(self).wf(),
            old(self).unsubscribe_step(*id, final(self)),
    {
        self.subscribers.remove(id);
    }
}

} // verus!

//! A typed slot arena.
//!
//! The `stash` crate allocates the keys: it decides which key a new item gets
//! and reuses the keys of items that were taken out. To the verifier a stash
//! is opaque, so nothing could be proved of payloads kept inside it. The
//! arena therefore asks the stash only which keys are live, and keeps the
//! payloads in a vector of its own that has one slot for each slot of the
//! stash. The invariant ties the two together, and the contracts speak of the
//! map from live keys to payloads.

use crate::slots::{
    occupied, slot_count, slots_clear, slots_clone, slots_get, slots_keys, slots_len, slots_new,
    slots_put, slots_reserve, slots_take, slots_with_capacity, MAX_SLOTS,
};
use stash::Stash;
use vstd::prelude::*;

verus! {

/// Reusable-slot storage. Its view is the map from live keys to payloads.
pub struct Arena<T> {
    slots: Stash<(), usize>,
    items: Vec<Option<T>>,
}

impl<T> View for Arena<T> {
    type V = Map<usize, T>;

    closed spec fn view(&self) -> Map<usize, T> {
        Map::new(
            |i: usize| occupied(self.slots).contains(i),
            |i: usize| self.items@[i as int].unwrap(),
        )
    }
}

impl<T> Arena<T> {
    /// The number of keys handed out since the arena was new or cleared. The
    /// keys below it are those handed out: the live ones, and those that were
    /// freed and wait to be handed out again.
    pub closed spec fn span(&self) -> nat {
        self.items@.len()
    }

    /// The payload vector mirrors the stash: it has one slot for each slot of
    /// the stash, and a slot holds a payload exactly when its key is live.
    pub closed spec fn wf(&self) -> bool {
        &&& occupied(self.slots).finite()
        &&& self.items@.len() == slot_count(self.slots)
        &&& forall|i: usize| #[trigger]
            occupied(self.slots).contains(i) ==> i < self.items@.len()
                && self.items@[i as int] is Some
        &&& forall|i: usize|
            i < self.items@.len() && (#[trigger] self.items@[i as int]) is Some ==> occupied(
                self.slots,
            ).contains(i)
    }

    /// The live keys are finitely many, and each lies below the span.
    pub proof fn lemma_finite(&self)
        requires
            self.wf(),
        ensures
            self@.dom().finite(),
            forall|i: usize| self@.contains_key(i) ==> i < self.span(),
    {
        assert(self@.dom() =~= occupied(self.slots));
    }

    /// Creates an empty arena.
    pub fn new() -> (arena: Self)
        ensures
            arena.wf(),
            arena@ == Map::<usize, T>::empty(),
            arena.span() == 0,
    {
        Arena { slots: slots_new(), items: Vec::new() }
    }

    /// Creates an empty arena and asks for room for `capacity` items. Room for
    /// the payloads is taken if it can be had. In all that can be seen of it
    /// the arena is as a new one: how much room the allocator gave is no part
    /// of its value.
    pub fn with_capacity(capacity: usize) -> (arena: Self)
        requires
            capacity <= MAX_SLOTS,
        ensures
            arena.wf(),
            arena@ == Map::<usize, T>::empty(),
            arena.span() == 0,
    {
        let mut items: Vec<Option<T>> = Vec::new();
        let _ = items.try_reserve(capacity);
        Arena { slots: slots_with_capacity(capacity), items }
    }

    /// Asks for room for `additional` more items. Room for the payloads is
    /// taken if it can be had. Nothing that can be seen of the arena changes:
    /// how much room the allocator gave is no part of its value.
    pub fn reserve(&mut self, additional: usize)
        requires
            old(self).wf(),
            old(self)@.len() + additional <= MAX_SLOTS,
        ensures
            final(self).wf(),
            final(self)@ == old(self)@,
            final(self).span() == old(self).span(),
    {
        assert(self@.dom() =~= occupied(self.slots));
        slots_reserve(&mut self.slots, additional);
        let _ = self.items.try_reserve(additional);
    }

    /// Removes every item. The arena then hands out keys as a new one does.
    pub fn clear(&mut self)
        ensures
            final(self).wf(),
            final(self)@ == Map::<usize, T>::empty(),
            final(self).span() == 0,
    {
        slots_clear(&mut self.slots);
        self.items.clear();
    }

    /// The number of live keys.
    pub fn len(&self) -> (count: usize)
        requires
            self.wf(),
        ensures
            count == self@.len(),
    {
        assert(self@.dom() =~= occupied(self.slots));
        slots_len(&self.slots)
    }

    /// Whether `index` is a live key.
    pub fn contains(&self, index: usize) -> (live: bool)
        ensures
            live == self@.contains_key(index),
    {
        slots_get(&self.slots, index).is_some()
    }

    /// The live keys, each once, in an order that is left open.
    pub fn keys(&self) -> (keys: Vec<usize>)
        ensures
            keys@.no_duplicates(),
            keys@.to_set() == self@.dom(),
    {
        slots_keys(&self.slots)
    }

    /// The payload under `index`, or `None` where `index` is not live.
    pub fn get(&self, index: usize) -> (item: Option<&T>)
        requires
            self.wf(),
        ensures
            match item {
                Some(v) => self@.contains_key(index) && *v == self@[index],
                None => !self@.contains_key(index),
            },
    {
        match slots_get(&self.slots, index) {
            Some(_) => self.items[index].as_ref(),
            None => None,
        }
    }

    /// The payload under `index` for writing, or `None` where `index` is not
    /// live. Nothing but that payload can change through the reference.
    pub fn get_mut(&mut self, index: usize) -> (item: Option<&mut T>)
        requires
            old(self).wf(),
        ensures
            match item {
                Some(v) => {
                    &&& old(self)@.contains_key(index)
                    &&& *v == old(self)@[index]
                    &&& final(self)@ == old(self)@.insert(index, *final(v))
                    &&& final(self).span() == old(self).span()
                    &&& final(self).wf()
                },
                None => !old(self)@.contains_key(index) && *final(self) == *old(self),
            },
    {
        match slots_get(&self.slots, index) {
            Some(_) => self.items[index].as_mut(),
            None => None,
        }
    }

    /// Stores `item` under a key that was not live and returns the key. A
    /// key that was freed is handed out again before a new one is made, and a
    /// new key is the least that was never handed out.
    pub fn put(&mut self, item: T) -> (index: usize)
        requires
            old(self).wf(),
            old(self)@.len() < MAX_SLOTS,
        ensures
            final(self).wf(),
            !old(self)@.contains_key(index),
            final(self)@ == old(self)@.insert(index, item),
            index <= old(self).span(),
            index < old(self).span() <==> exists|i: usize|
                i < old(self).span() && !old(self)@.contains_key(i),
            final(self).span() == if index == old(self).span() {
                old(self).span() + 1
            } else {
                old(self).span()
            },
    {
        assert(self@.dom() =~= occupied(self.slots));
        let index = slots_put(&mut self.slots);
        if index == self.items.len() {
            self.items.push(Some(item));
        } else {
            self.items[index] = Some(item);
        }
        index
    }

    /// Takes out the payload under `index` and frees the key, or returns
    /// `None` and changes nothing where `index` is not live.
    pub fn take(&mut self, index: usize) -> (item: Option<T>)
        requires
            old(self).wf(),
        ensures
            final(self).wf(),
            match item {
                Some(v) => old(self)@.contains_key(index) && v == old(self)@[index],
                None => !old(self)@.contains_key(index),
            },
            final(self)@ == old(self)@.remove(index),
            final(self).span() == old(self).span(),
    {
        match slots_take(&mut self.slots, index) {
            Some(_) => self.items[index].take(),
            None => None,
        }
    }
}

impl<T: Clone> Clone for Arena<T> {
    /// The copy has the same keys, live and freed, and under each live key a
    /// clone of its payload.
    fn clone(&self) -> (copy: Self)
        ensures
            self.wf() ==> copy.wf(),
            copy@.dom() == self@.dom(),
            copy.span() == self.span(),
            self.wf() ==> forall|i: usize| #[trigger]
                copy@.contains_key(i) ==> cloned::<T>(self@[i], copy@[i]),
    {
        let slots = slots_clone(&self.slots);
        let mut items: Vec<Option<T>> = Vec::new();
        let mut i: usize = 0;
        while i < self.items.len()
            invariant
                i <= self.items@.len(),
                items@.len() == i,
                forall|j: int|
                    0 <= j < i ==> match (self.items@[j], #[trigger] items@[j]) {
                        (Some(a), Some(b)) => cloned::<T>(a, b),
                        (None, None) => true,
                        _ => false,
                    },
            decreases self.items@.len() - i,
        {
            let item = match &self.items[i] {
                Some(payload) => Some(payload.clone()),
                None => None,
            };
            items.push(item);
            i += 1;
        }
        Arena { slots, items }
    }
}

} // verus!

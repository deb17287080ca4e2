use vstd::prelude::*;

use std::any::TypeId;

use crate::assoc::{keys_unique, map_of, lemma_map_of_absent, lemma_map_of_index,
    lemma_map_of_push, lemma_map_of_remove};

verus! {

/// std's `TypeId`, declared so that it can key the store's entries; Verus
/// sees nothing inside it.
#[verifier::external_type_specification]
#[verifier::external_body]
pub struct ExTypeId(std::any::TypeId);

/// Relies on `TypeId`'s equality: two type identities compare equal exactly
/// when they are the same value.
pub assume_specification[ <std::any::TypeId as core::cmp::PartialEq>::eq ](
    a: &std::any::TypeId,
    b: &std::any::TypeId,
) -> (r: bool)
    ensures
        r == (*a == *b),
;

/// The store with one shared instance per type: each entry is keyed by its
/// type's identity and holds a handle of type `E`.
pub struct GlobalStateContainer<E> {
    states: Vec<(TypeId, E)>,
}

fn find_type<E>(states: &Vec<(TypeId, E)>, key: &TypeId) -> (r: Option<usize>)
    ensures
        match r {
            Some(i) => i < states@.len() && states@[i as int].0 == *key,
            None => forall|i: int| 0 <= i < states@.len() ==> states@[i].0 != *key,
        },
{
    let mut i: usize = 0;
    while i < states.len()
        invariant
            i <= states@.len(),
            forall|j: int| 0 <= j < i ==> states@[j].0 != *key,
        decreases states@.len() - i,
    {
        if states[i].0 == *key {
            return Some(i);
        }
        i = i + 1;
    }
    None
}

impl<E> GlobalStateContainer<E> {
    pub closed spec fn view(&self) -> Map<TypeId, E> {
        map_of(self.states@)
    }

    pub closed spec fn wf(&self) -> bool {
        keys_unique(self.states@)
    }

    pub fn new() -> (r: Self)
        ensures
            r.wf(),
            r.view() == Map::<TypeId, E>::empty(),
    {
        let r = GlobalStateContainer { states: Vec::new() };
        proof {
            assert(r.states@ =~= Seq::<(TypeId, E)>::empty());
        }
        r
    }

    /// The instance stored for `key`. On the first request for a key, `create`
    /// makes it and the store keeps it; later requests hand out clones of the
    /// kept instance and leave the store as it is.
    pub fn get_or_create<F: FnOnce() -> E>(&mut self, key: TypeId, create: F) -> (r: E) where
        E: Clone,

        requires
            old(self).wf(),
            create.requires(()),
        ensures
            final(self).wf(),
            final(self).view().contains_key(key),
            cloned(final(self).view()[key], r),
            old(self).view().contains_key(key) ==> final(self).view() == old(self).view(),
            !old(self).view().contains_key(key) ==> final(self).view() == old(self).view().insert(
                key,
                final(self).view()[key],
            ) && create.ensures((), final(self).view()[key]),
    {
        let ghost s = self.states@;
        match find_type(&self.states, &key) {
            Some(i) => {
                proof {
                    lemma_map_of_index(s, i as int);
                }
                self.states[i].1.clone()
            },
            None => {
                let fresh = create();
                let handed = fresh.clone();
                self.states.push((key, fresh));
                proof {
                    lemma_map_of_absent(s, key);
                    lemma_map_of_push(s, key, fresh);
                    lemma_map_of_index(self.states@, s.len() as int);
                }
                handed
            },
        }
    }

    /// Removes the instance stored for `key`; a later request creates a
    /// fresh one.
    pub fn drop(&mut self, key: TypeId)
        requires
            old(self).wf(),
        ensures
            final(self).wf(),
            final(self).view() == old(self).view().remove(key),
    {
        let ghost s = self.states@;
        match find_type(&self.states, &key) {
            Some(i) => {
                self.states.remove(i);
                proof {
                    lemma_map_of_remove(s, i as int);
                }
            },
            None => {
                proof {
                    lemma_map_of_absent(s, key);
                    assert(map_of(s).remove(key) =~= map_of(s));
                }
            },
        }
    }
}

} // verus!

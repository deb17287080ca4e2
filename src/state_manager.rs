use vstd::prelude::*;

use crate::assoc::{keys_unique, map_of, lemma_map_of_absent, lemma_map_of_index,
    lemma_map_of_push, lemma_map_of_update};
use crate::global_state::{entries_view, find_named};
use crate::notify::{calls_for_field, field_notifications, notes_view, Notification};

verus! {

/// The field name that a whole-value notification carries.
pub open spec fn whole_value_field() -> Seq<char> {
    seq!['a', 'l', 'l']
}

/// The list of callback entries with names and lists taken as their views.
pub open spec fn callback_entries_view<C>(s: Seq<(String, Vec<C>)>) -> Seq<(Seq<char>, Seq<C>)> {
    s.map_values(|p: (String, Vec<C>)| (p.0@, p.1@))
}

/// The callbacks registered for `id` in `m`, none if the id has no list.
pub open spec fn callbacks_of<C>(m: Map<Seq<char>, Seq<C>>, id: Seq<char>) -> Seq<C> {
    if m.contains_key(id) {
        m[id]
    } else {
        Seq::empty()
    }
}

/// Values of any type kept under string ids, with callbacks kept per id.
/// The values are handles of type `E`; the callbacks are of type `C`.
pub struct StateManager<E, C> {
    states: Vec<(String, E)>,
    callbacks: Vec<(String, Vec<C>)>,
}

/// A handle on the value registered under an id.
pub struct State<E> {
    inner: E,
    id: String,
}

/// A shared view of a handle's value.
pub struct StateReadGuard<'a, E> {
    value: &'a E,
}

/// An exclusive access to the value under an id; closing it notifies every
/// callback of that id with the whole value.
pub struct StateWriteGuard {
    id: String,
}

fn find_callbacks<C>(entries: &Vec<(String, Vec<C>)>, id: &String) -> (r: Option<usize>)
    ensures
        match r {
            Some(i) => i < entries@.len() && entries@[i as int].0@ == id@,
            None => forall|i: int| 0 <= i < entries@.len() ==> entries@[i].0@ != id@,
        },
{
    let mut i: usize = 0;
    while i < entries.len()
        invariant
            i <= entries@.len(),
            forall|j: int| 0 <= j < i ==> entries@[j].0@ != id@,
        decreases entries@.len() - i,
    {
        if entries[i].0 == *id {
            return Some(i);
        }
        i = i + 1;
    }
    None
}

impl<E, C> StateManager<E, C> {
    pub closed spec fn states_view(&self) -> Map<Seq<char>, E> {
        map_of(entries_view(self.states@))
    }

    pub closed spec fn callbacks_view(&self) -> Map<Seq<char>, Seq<C>> {
        map_of(callback_entries_view(self.callbacks@))
    }

    pub closed spec fn wf(&self) -> bool {
        &&& keys_unique(entries_view(self.states@))
        &&& keys_unique(callback_entries_view(self.callbacks@))
    }

    pub fn new() -> (r: Self)
        ensures
            r.wf(),
            r.states_view() == Map::<Seq<char>, E>::empty(),
            r.callbacks_view() == Map::<Seq<char>, Seq<C>>::empty(),
    {
        let r = StateManager { states: Vec::new(), callbacks: Vec::new() };
        proof {
            assert(entries_view(r.states@) =~= Seq::<(Seq<char>, E)>::empty());
            assert(callback_entries_view(r.callbacks@) =~= Seq::<(Seq<char>, Seq<C>)>::empty());
        }
        r
    }

    /// Keeps `state` under `id`, replacing an earlier value of that id.
    pub fn register_state(&mut self, id: &str, state: E)
        requires
            old(self).wf(),
        ensures
            final(self).wf(),
            final(self).states_view() == old(self).states_view().insert(id@, state),
            final(self).callbacks_view() == old(self).callbacks_view(),
    {
        let key = id.to_owned();
        let ghost s = entries_view(self.states@);
        match find_named(&self.states, &key) {
            Some(i) => {
                self.states.set(i, (key, state));
                proof {
                    lemma_map_of_update(s, i as int, state);
                    assert(entries_view(self.states@) =~= s.update(i as int, (s[i as int].0, state)));
                }
            },
            None => {
                self.states.push((key, state));
                proof {
                    lemma_map_of_push(s, id@, state);
                    assert(entries_view(self.states@) =~= s.push((id@, state)));
                }
            },
        }
    }

    /// A handle on the value under `id`, or none if the id is not registered.
    pub fn get_state(&self, id: &str) -> (r: Option<State<E>>) where E: Clone
        requires
            self.wf(),
        ensures
            r.is_some() == self.states_view().contains_key(id@),
            r.is_some() ==> cloned(self.states_view()[id@], r.unwrap().inner()) && r.unwrap().id()
                == id@,
    {
        let key = id.to_owned();
        let ghost s = entries_view(self.states@);
        match find_named(&self.states, &key) {
            Some(i) => {
                proof {
                    lemma_map_of_index(s, i as int);
                }
                Some(State::new(self.states[i].1.clone(), key))
            },
            None => {
                proof {
                    lemma_map_of_absent(s, id@);
                }
                None
            },
        }
    }

    /// Adds `callback` after the callbacks already kept for `id`.
    pub fn register_callback(&mut self, id: &str, callback: C)
        requires
            old(self).wf(),
        ensures
            final(self).wf(),
            final(self).callbacks_view() == old(self).callbacks_view().insert(
                id@,
                callbacks_of(old(self).callbacks_view(), id@).push(callback),
            ),
            final(self).states_view() == old(self).states_view(),
    {
        let key = id.to_owned();
        let ghost s = callback_entries_view(self.callbacks@);
        match find_callbacks(&self.callbacks, &key) {
            Some(i) => {
                proof {
                    lemma_map_of_index(s, i as int);
                }
                let ghost before = self.callbacks@[i as int].1@;
                self.callbacks[i].1.push(callback);
                proof {
                    let v = before.push(callback);
                    lemma_map_of_update(s, i as int, v);
                    assert(callback_entries_view(self.callbacks@) =~= s.update(
                        i as int,
                        (s[i as int].0, v),
                    ));
                }
            },
            None => {
                let mut list = Vec::new();
                list.push(callback);
                self.callbacks.push((key, list));
                proof {
                    lemma_map_of_absent(s, id@);
                    lemma_map_of_push(s, id@, list@);
                    assert(list@ =~= Seq::<C>::empty().push(callback));
                    assert(callback_entries_view(self.callbacks@) =~= s.push((id@, list@)));
                }
            },
        }
    }

    /// The number of callbacks kept for `id`.
    pub fn callback_count(&self, id: &str) -> (r: usize)
        requires
            self.wf(),
        ensures
            r == callbacks_of(self.callbacks_view(), id@).len(),
    {
        let key = id.to_owned();
        let ghost s = callback_entries_view(self.callbacks@);
        match find_callbacks(&self.callbacks, &key) {
            Some(i) => {
                proof {
                    lemma_map_of_index(s, i as int);
                }
                self.callbacks[i].1.len()
            },
            None => {
                proof {
                    lemma_map_of_absent(s, id@);
                }
                0
            },
        }
    }

    /// The callback at index `i` of those kept for `id`.
    pub fn callback(&self, id: &str, i: usize) -> (r: &C)
        requires
            self.wf(),
            i < callbacks_of(self.callbacks_view(), id@).len(),
        ensures
            *r == callbacks_of(self.callbacks_view(), id@)[i as int],
    {
        let key = id.to_owned();
        let ghost s = callback_entries_view(self.callbacks@);
        match find_callbacks(&self.callbacks, &key) {
            Some(k) => {
                proof {
                    lemma_map_of_index(s, k as int);
                }
                &self.callbacks[k].1[i]
            },
            None => {
                proof {
                    lemma_map_of_absent(s, id@);
                }
                vstd::pervasive::unreached()
            },
        }
    }

    /// The calls owed for a change of `field` under `id`: every callback of
    /// that id, in the order of registration.
    pub fn notify_state_change(&self, id: &str, field: &str) -> (r: Vec<Notification>)
        requires
            self.wf(),
        ensures
            notes_view(r@) == calls_for_field(
                field@,
                callbacks_of(self.callbacks_view(), id@).len(),
            ),
    {
        let n = self.callback_count(id);
        let f = field.to_owned();
        field_notifications(&f, n)
    }

    /// Closes an exclusive access: every callback of its id is owed a call
    /// with the field name `all` and the whole current value.
    pub fn release_write(&self, guard: StateWriteGuard) -> (r: Vec<Notification>)
        requires
            self.wf(),
        ensures
            notes_view(r@) == calls_for_field(
                whole_value_field(),
                callbacks_of(self.callbacks_view(), guard.id()).len(),
            ),
    {
        proof {
            reveal_strlit("all");
            assert("all"@ =~= whole_value_field());
        }
        self.notify_state_change(guard.id.as_str(), "all")
    }
}

impl<E> State<E> {
    pub closed spec fn inner(&self) -> E {
        self.inner
    }

    pub closed spec fn id(&self) -> Seq<char> {
        self.id@
    }

    pub fn new(inner: E, id: String) -> (r: Self)
        ensures
            r.inner() == inner,
            r.id() == id@,
    {
        State { inner, id }
    }

    /// A shared view of the handle.
    pub fn read(&self) -> (r: StateReadGuard<'_, E>)
        ensures
            r.value() == self.inner(),
    {
        StateReadGuard { value: &self.inner }
    }

    /// Opens an exclusive access to the value under this handle's id.
    pub fn write(&self) -> (r: StateWriteGuard)
        ensures
            r.id() == self.id(),
    {
        StateWriteGuard::new(self.id.clone())
    }
}

impl<'a, E> StateReadGuard<'a, E> {
    pub closed spec fn value(&self) -> E {
        *self.value
    }

    pub fn get(&self) -> (r: &'a E)
        ensures
            *r == self.value(),
    {
        self.value
    }
}

impl StateWriteGuard {
    pub closed spec fn id(&self) -> Seq<char> {
        self.id@
    }

    pub fn new(id: String) -> (r: Self)
        ensures
            r.id() == id@,
    {
        StateWriteGuard { id }
    }

    pub fn id_str(&self) -> (r: &str)
        ensures
            r@ == self.id(),
    {
        self.id.as_str()
    }
}

} // verus!

use vstd::prelude::*;

use crate::assoc::{keys_unique, map_of, lemma_map_of_absent, lemma_map_of_index,
    lemma_map_of_push, lemma_map_of_remove, lemma_map_of_update};
use crate::notify::{batch_notifications, calls_for_field, dispatch_plan, field_notifications,
    names_view, notes_view, Notification};

verus! {

/// A cell: one value, the observers of its changes, and the names of fields
/// marked as changed directly on the cell since the last notification pass.
pub struct GlobalState<T, C> {
    state: T,
    callbacks: Vec<C>,
    changed_fields: Vec<String>,
}

/// The change batch of one exclusive access to a cell: the field names
/// marked as changed while the access is open.
pub struct GlobalStateWriteGuard {
    changed_fields: Vec<String>,
}

impl GlobalStateWriteGuard {
    pub closed spec fn pending(&self) -> Seq<Seq<char>> {
        names_view(self.changed_fields@)
    }

    /// Queues `field` in this batch.
    pub fn register_change(&mut self, field: &str)
        ensures
            final(self).pending() == old(self).pending().push(field@),
    {
        let ghost prev = self.changed_fields@;
        self.changed_fields.push(field.to_owned());
        proof {
            assert(names_view(self.changed_fields@) =~= names_view(prev).push(field@));
        }
    }
}

impl<T, C> GlobalState<T, C> {
    pub closed spec fn value(&self) -> T {
        self.state
    }

    pub closed spec fn observers(&self) -> Seq<C> {
        self.callbacks@
    }

    pub closed spec fn pending(&self) -> Seq<Seq<char>> {
        names_view(self.changed_fields@)
    }

    pub fn new(initial: T) -> (r: Self)
        ensures
            r.value() == initial,
            r.observers() == Seq::<C>::empty(),
            r.pending() == Seq::<Seq<char>>::empty(),
    {
        let r = GlobalState { state: initial, callbacks: Vec::new(), changed_fields: Vec::new() };
        proof {
            assert(r.pending() =~= Seq::<Seq<char>>::empty());
        }
        r
    }

    /// Marks `field` as changed on the cell itself, outside any write batch.
    pub fn register_change(&mut self, field: &str)
        ensures
            final(self).pending() == old(self).pending().push(field@),
            final(self).value() == old(self).value(),
            final(self).observers() == old(self).observers(),
    {
        let ghost prev = self.changed_fields@;
        self.changed_fields.push(field.to_owned());
        proof {
            assert(names_view(self.changed_fields@) =~= names_view(prev).push(field@));
        }
    }

    pub fn read(&self) -> (r: &T)
        ensures
            *r == self.value(),
    {
        &self.state
    }

    /// Opens a change batch for an exclusive access; it starts empty.
    pub fn write(&self) -> (r: GlobalStateWriteGuard)
        ensures
            r.pending() == Seq::<Seq<char>>::empty(),
    {
        let r = GlobalStateWriteGuard { changed_fields: Vec::new() };
        proof {
            assert(r.pending() =~= Seq::<Seq<char>>::empty());
        }
        r
    }

    /// Exclusive access to the value.
    pub fn get_mut(&mut self) -> (r: &mut T)
        ensures
            *r == old(self).value(),
            final(self).value() == *final(r),
            final(self).observers() == old(self).observers(),
            final(self).pending() == old(self).pending(),
    {
        &mut self.state
    }

    /// Adds an observer after those already registered.
    pub fn on_change(&mut self, callback: C)
        ensures
            final(self).observers() == old(self).observers().push(callback),
            final(self).value() == old(self).value(),
            final(self).pending() == old(self).pending(),
    {
        self.callbacks.push(callback);
    }

    /// The observer at index `i`, in order of registration.
    pub fn callback(&self, i: usize) -> (r: &C)
        requires
            i < self.observers().len(),
        ensures
            *r == self.observers()[i as int],
    {
        &self.callbacks[i]
    }

    pub fn callback_count(&self) -> (r: usize)
        ensures
            r == self.observers().len(),
    {
        self.callbacks.len()
    }

    /// The calls owed to every current observer for one changed field.
    pub fn run_callbacks(&self, field_changed: &String) -> (r: Vec<Notification>)
        ensures
            notes_view(r@) == calls_for_field(field_changed@, self.observers().len()),
    {
        field_notifications(field_changed, self.callbacks.len())
    }

    /// Closes an exclusive access. The caller gives up the value's lock
    /// first, then makes the returned calls: for each field queued on the cell
    /// and then each field of the batch, every observer registered now, in
    /// order. The cell's own queue is emptied.
    pub fn release(&mut self, guard: GlobalStateWriteGuard) -> (r: Vec<Notification>)
        ensures
            notes_view(r@) == dispatch_plan(
                old(self).pending() + guard.pending(),
                old(self).observers().len(),
            ),
            final(self).pending() == Seq::<Seq<char>>::empty(),
            final(self).value() == old(self).value(),
            final(self).observers() == old(self).observers(),
    {
        let mut fields = Vec::new();
        let ghost a = self.changed_fields@;
        let ghost b = guard.changed_fields@;
        std::mem::swap(&mut fields, &mut self.changed_fields);
        let mut batch = guard.changed_fields;
        fields.append(&mut batch);
        proof {
            assert(names_view(fields@) =~= names_view(a) + names_view(b));
            assert(names_view(self.changed_fields@) =~= Seq::<Seq<char>>::empty());
        }
        batch_notifications(&fields, self.callbacks.len())
    }
}

/// The process's named cells, each under one name; the entries are handles
/// of type `E`, shared with whoever looked them up.
pub struct GlobalStateRegistry<E> {
    entries: Vec<(String, E)>,
}

/// The list of entries with each name taken as its characters.
pub open spec fn entries_view<E>(s: Seq<(String, E)>) -> Seq<(Seq<char>, E)> {
    s.map_values(|p: (String, E)| (p.0@, p.1))
}

/// What a lookup of `name` in `m` finds.
pub open spec fn lookup<E>(m: Map<Seq<char>, E>, name: Seq<char>) -> Option<E> {
    if m.contains_key(name) {
        Some(m[name])
    } else {
        None
    }
}

/// Finds the index of the entry named `name`, if there is one.
pub(crate) fn find_named<E>(entries: &Vec<(String, E)>, name: &String) -> (r: Option<usize>)
    ensures
        match r {
            Some(i) => i < entries@.len() && entries@[i as int].0@ == name@,
            None => forall|i: int| 0 <= i < entries@.len() ==> entries@[i].0@ != name@,
        },
{
    let mut i: usize = 0;
    while i < entries.len()
        invariant
            i <= entries@.len(),
            forall|j: int| 0 <= j < i ==> entries@[j].0@ != name@,
        decreases entries@.len() - i,
    {
        if entries[i].0 == *name {
            return Some(i);
        }
        i = i + 1;
    }
    None
}

impl<E> GlobalStateRegistry<E> {
    pub closed spec fn view(&self) -> Map<Seq<char>, E> {
        map_of(entries_view(self.entries@))
    }

    pub closed spec fn wf(&self) -> bool {
        keys_unique(entries_view(self.entries@))
    }

    pub fn new() -> (r: Self)
        ensures
            r.wf(),
            r.view() == Map::<Seq<char>, E>::empty(),
    {
        let r = GlobalStateRegistry { entries: Vec::new() };
        proof {
            assert(entries_view(r.entries@) =~= Seq::<(Seq<char>, E)>::empty());
        }
        r
    }
}

/// Puts `state` under `name`; an earlier entry of that name is replaced.
pub fn register_global_state<E>(registry: &mut GlobalStateRegistry<E>, name: &str, state: E)
    requires
        old(registry).wf(),
    ensures
        final(registry).wf(),
        final(registry).view() == old(registry).view().insert(name@, state),
{
    let key = name.to_owned();
    let ghost s = entries_view(registry.entries@);
    match find_named(&registry.entries, &key) {
        Some(i) => {
            registry.entries.set(i, (key, state));
            proof {
                lemma_map_of_update(s, i as int, state);
                assert(entries_view(registry.entries@) =~= s.update(
                    i as int,
                    (s[i as int].0, state),
                ));
            }
        },
        None => {
            registry.entries.push((key, state));
            proof {
                lemma_map_of_push(s, name@, state);
                assert(entries_view(registry.entries@) =~= s.push((name@, state)));
            }
        },
    }
}

/// The handle registered under `name`, if any.
pub fn get_global_state<'a, E>(registry: &'a GlobalStateRegistry<E>, name: &str) -> (r: Option<
    &'a E,
>)
    requires
        registry.wf(),
    ensures
        match r {
            Some(e) => lookup(registry.view(), name@) == Some(*e),
            None => lookup(registry.view(), name@) == None::<E>,
        },
{
    let key = name.to_owned();
    let ghost s = entries_view(registry.entries@);
    match find_named(&registry.entries, &key) {
        Some(i) => {
            proof {
                lemma_map_of_index(s, i as int);
            }
            Some(&registry.entries[i].1)
        },
        None => {
            proof {
                lemma_map_of_absent(s, name@);
            }
            None
        },
    }
}

/// Takes the entry named `name` out of the registry. Handles looked up
/// before stay with their holders.
pub fn unregister_global_state<E>(registry: &mut GlobalStateRegistry<E>, name: &str)
    requires
        old(registry).wf(),
    ensures
        final(registry).wf(),
        final(registry).view() == old(registry).view().remove(name@),
{
    let key = name.to_owned();
    let ghost s = entries_view(registry.entries@);
    match find_named(&registry.entries, &key) {
        Some(i) => {
            registry.entries.remove(i);
            proof {
                lemma_map_of_remove(s, i as int);
                assert(entries_view(registry.entries@) =~= s.remove(i as int));
            }
        },
        None => {
            proof {
                lemma_map_of_absent(s, name@);
                assert(map_of(s).remove(name@) =~= map_of(s));
            }
        },
    }
}

/// After `v` is registered under `name`, a lookup of `name` finds `v`.
pub proof fn lemma_register_then_get<E>(
    before: GlobalStateRegistry<E>,
    name: Seq<char>,
    v: E,
    after: GlobalStateRegistry<E>,
)
    requires
        after.view() == before.view().insert(name, v),
    ensures
        lookup(after.view(), name) == Some(v),
{
}

/// After `name` is unregistered, a lookup of `name` finds nothing, and every
/// other name finds what it found before.
pub proof fn lemma_unregister_then_get<E>(
    before: GlobalStateRegistry<E>,
    name: Seq<char>,
    after: GlobalStateRegistry<E>,
)
    requires
        after.view() == before.view().remove(name),
    ensures
        lookup(after.view(), name) == None::<E>,
        forall|other: Seq<char>|
            other != name ==> #[trigger] lookup(after.view(), other) == lookup(before.view(), other),
{
}

} // verus!

use vstd::prelude::*;

verus! {

/// A standalone reactive value with its own old/new observers, optionally
/// linked to a parent state in which it stands for the field `field_name`.
pub struct Signal<T, C, P> {
    value: T,
    callbacks: Vec<C>,
    field_name: String,
    parent: Option<P>,
}

/// What one `set` hands to the observers: the value replaced and the value
/// put in its place.
pub struct SignalChange<T> {
    pub old: T,
    pub new: T,
}

/// `after` and `change` are what `set(new_value)` makes of `before`.
pub open spec fn set_outcome<T: Clone, C, P>(
    before: Signal<T, C, P>,
    new_value: T,
    after: Signal<T, C, P>,
    change: SignalChange<T>,
) -> bool {
    &&& change.old == before.value()
    &&& cloned(new_value, change.new)
    &&& after.value() == new_value
    &&& after.observers() == before.observers()
    &&& after.field_name() == before.field_name()
    &&& after.parent() == before.parent()
}

impl<T, C, P> Signal<T, C, P> {
    pub closed spec fn value(&self) -> T {
        self.value
    }

    pub closed spec fn observers(&self) -> Seq<C> {
        self.callbacks@
    }

    pub closed spec fn field_name(&self) -> Seq<char> {
        self.field_name@
    }

    pub closed spec fn parent(&self) -> Option<P> {
        self.parent
    }

    pub fn new(initial_value: T, field_name: String) -> (r: Self)
        ensures
            r.value() == initial_value,
            r.observers() == Seq::<C>::empty(),
            r.field_name() == field_name@,
            r.parent() == None::<P>,
    {
        Signal { value: initial_value, callbacks: Vec::new(), field_name, parent: None }
    }

    /// Links the signal to the parent state it is a field of.
    pub fn with_parent(self, parent: P) -> (r: Self)
        ensures
            r.parent() == Some(parent),
            r.value() == self.value(),
            r.observers() == self.observers(),
            r.field_name() == self.field_name(),
    {
        let mut s = self;
        s.parent = Some(parent);
        s
    }

    /// Replaces the value. The caller then calls every observer, in order,
    /// with the returned old and new values, and only after that marks the
    /// field as changed on the parent, if there is one.
    pub fn set(&mut self, new_value: T) -> (r: SignalChange<T>) where T: Clone
        ensures
            set_outcome(*old(self), new_value, *final(self), r),
    {
        let new = new_value.clone();
        let mut old = new_value;
        std::mem::swap(&mut self.value, &mut old);
        SignalChange { old, new }
    }

    /// A copy of the current value.
    pub fn get(&self) -> (r: T) where T: Clone
        ensures
            cloned(self.value(), r),
    {
        self.value.clone()
    }

    /// Adds an observer after those already registered.
    pub fn on_change(&mut self, callback: C)
        ensures
            final(self).observers() == old(self).observers().push(callback),
            final(self).value() == old(self).value(),
            final(self).field_name() == old(self).field_name(),
            final(self).parent() == old(self).parent(),
    {
        self.callbacks.push(callback);
    }

    pub fn callback_count(&self) -> (r: usize)
        ensures
            r == self.observers().len(),
    {
        self.callbacks.len()
    }

    /// The observer at index `i`, in order of registration.
    pub fn callback(&self, i: usize) -> (r: &C)
        requires
            i < self.observers().len(),
        ensures
            *r == self.observers()[i as int],
    {
        &self.callbacks[i]
    }

    /// The name this signal marks on its parent.
    pub fn name(&self) -> (r: &String)
        ensures
            r@ == self.field_name(),
    {
        &self.field_name
    }

    /// The parent link, if any.
    pub fn parent_link(&self) -> (r: Option<&P>)
        ensures
            match r {
                Some(p) => self.parent() == Some(*p),
                None => self.parent() == None::<P>,
            },
    {
        match &self.parent {
            Some(p) => Some(p),
            None => None,
        }
    }
}

/// Two `set`s in a row hand out two changes, in order and kept apart: the
/// first replaces the value held before with `x`, the second replaces `x`
/// itself with `y`.
pub proof fn lemma_set_twice<T: Clone, C, P>(
    s0: Signal<T, C, P>,
    x: T,
    s1: Signal<T, C, P>,
    c1: SignalChange<T>,
    y: T,
    s2: Signal<T, C, P>,
    c2: SignalChange<T>,
)
    requires
        set_outcome(s0, x, s1, c1),
        set_outcome(s1, y, s2, c2),
    ensures
        c1.old == s0.value(),
        cloned(x, c1.new),
        c2.old == x,
        cloned(y, c2.new),
        s2.value() == y,
        s2.observers() == s0.observers(),
{
}

} // verus!

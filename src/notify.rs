use vstd::prelude::*;

verus! {

/// One observer call that a notification pass owes: the observer at index
/// `observer` of the owning list is to be called with `field`.
pub struct Notification {
    pub field: String,
    pub observer: usize,
}

impl View for Notification {
    type V = (Seq<char>, nat);

    open spec fn view(&self) -> (Seq<char>, nat) {
        (self.field@, self.observer as nat)
    }
}

/// The abstract form of a list of notifications.
pub open spec fn notes_view(v: Seq<Notification>) -> Seq<(Seq<char>, nat)> {
    v.map_values(|x: Notification| x@)
}

/// The abstract form of a list of field names.
pub open spec fn names_view(v: Seq<String>) -> Seq<Seq<char>> {
    v.map_values(|s: String| s@)
}

/// Every one of `n` observers, in the order they were added, called with `field`.
pub open spec fn calls_for_field(field: Seq<char>, n: nat) -> Seq<(Seq<char>, nat)> {
    Seq::new(n, |i: int| (field, i as nat))
}

/// A full pass: for each field in turn, every one of `n` observers.
pub open spec fn dispatch_plan(fields: Seq<Seq<char>>, n: nat) -> Seq<(Seq<char>, nat)>
    decreases fields.len(),
{
    if fields.len() == 0 {
        Seq::empty()
    } else {
        dispatch_plan(fields.drop_last(), n) + calls_for_field(fields.last(), n)
    }
}

/// The calls owed to `observers` observers for one changed field.
pub fn field_notifications(field: &String, observers: usize) -> (r: Vec<Notification>)
    ensures
        notes_view(r@) == calls_for_field(field@, observers as nat),
{
    let mut r: Vec<Notification> = Vec::new();
    let mut i: usize = 0;
    while i < observers
        invariant
            i <= observers,
            notes_view(r@) =~= calls_for_field(field@, i as nat),
        decreases observers - i,
    {
        let f = field.clone();
        let ghost prev = r@;
        r.push(Notification { field: f, observer: i });
        proof {
            assert(r@ == prev.push(r@.last()));
            assert(notes_view(r@) =~= notes_view(prev).push((field@, i as nat)));
            assert(notes_view(r@) =~= calls_for_field(field@, (i + 1) as nat));
        }
        i = i + 1;
    }
    r
}

/// The calls owed to `observers` observers for a batch of changed fields.
pub fn batch_notifications(fields: &Vec<String>, observers: usize) -> (r: Vec<Notification>)
    ensures
        notes_view(r@) == dispatch_plan(names_view(fields@), observers as nat),
{
    let mut r: Vec<Notification> = Vec::new();
    let mut i: usize = 0;
    while i < fields.len()
        invariant
            i <= fields.len(),
            notes_view(r@) == dispatch_plan(names_view(fields@).take(i as int), observers as nat),
        decreases fields.len() - i,
    {
        let mut more = field_notifications(&fields[i], observers);
        proof {
            let fv = names_view(fields@);
            assert(fv.take(i + 1).drop_last() =~= fv.take(i as int));
            assert(notes_view(r@ + more@) =~= notes_view(r@) + notes_view(more@));
        }
        r.append(&mut more);
        i = i + 1;
    }
    proof {
        assert(names_view(fields@).take(fields.len() as int) =~= names_view(fields@));
    }
    r
}

/// A notification pass calls each observer once for each queued field name,
/// fields in queue order and observers in the order they were added, and no
/// observer beyond the first `n`.
pub proof fn lemma_dispatch_plan_exact(fields: Seq<Seq<char>>, n: nat)
    ensures
        dispatch_plan(fields, n).len() == fields.len() * n,
        forall|p: int, i: int|
            0 <= p < fields.len() && 0 <= i < n ==> #[trigger] dispatch_plan(fields, n)[p * n + i]
                == (fields[p], i as nat),
    decreases fields.len(),
{
    if fields.len() > 0 {
        let pre = fields.drop_last();
        lemma_dispatch_plan_exact(pre, n);
        let len = fields.len();
        assert(pre.len() * n + n == len * n) by (nonlinear_arith)
            requires
                pre.len() == len - 1,
        ;
        assert forall|p: int, i: int|
            0 <= p < fields.len() && 0 <= i < n implies #[trigger] dispatch_plan(fields, n)[p * n
            + i] == (fields[p], i as nat) by {
            if p < pre.len() {
                assert(p * n + i < pre.len() * n) by (nonlinear_arith)
                    requires
                        p < pre.len(),
                        i < n,
                ;
                assert(dispatch_plan(pre, n)[p * n + i] == (pre[p], i as nat));
            } else {
                assert(p * n == pre.len() * n);
            }
        }
    }
}

} // verus!

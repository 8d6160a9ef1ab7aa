//! The backends that a proxy knows, and those of them that take requests.

use vstd::prelude::*;
use vstd::hash_set::StringHashSet;

use crate::state::Backend;
use crate::state::BackendView;

verus! {

/// Every backend that a proxy has had since it started, and the rotation: those of them that
/// requests are routed to, in order.
///
/// A backend gets a slot when it enters the table, and keeps it. Leaving the rotation does
/// not take it out of the table: requests may still be in flight to it, and whoever holds
/// its handle may still look at it. So the table grows by one slot with each backend that a
/// reload adds, and no slot is ever given out twice.
#[derive(Debug)]
pub struct BackendTable {
    known: Vec<Backend>,
    rotation: Vec<usize>,
}

/// The mathematical value of a `BackendTable`: the backend in each slot, and the slots of
/// those in the rotation.
#[verifier::ext_equal]
pub struct TableView {
    pub known: Seq<BackendView>,
    pub rotation: Seq<int>,
}

/// The slots in the rotation are slots of the table.
pub open spec fn in_range(known: Seq<BackendView>, rotation: Seq<int>) -> bool {
    forall|i: int| 0 <= i < rotation.len() ==> 0 <= #[trigger] rotation[i] < known.len()
}

/// The slots of the backends whose address is in `addrs`, in their order.
pub open spec fn listed_slots(
    known: Seq<BackendView>,
    slots: Seq<int>,
    addrs: Set<Seq<char>>,
) -> Seq<int> {
    slots.filter(|k: int| addrs.contains(known[k].addr))
}

/// The slots of the backends whose address is not in `addrs`, in their order.
pub open spec fn unlisted_slots(
    known: Seq<BackendView>,
    slots: Seq<int>,
    addrs: Set<Seq<char>>,
) -> Seq<int> {
    slots.filter(|k: int| !addrs.contains(known[k].addr))
}

/// A list of slots, as numbers.
spec fn slot_numbers(slots: Seq<usize>) -> Seq<int> {
    Seq::new(slots.len(), |i: int| slots[i] as int)
}

impl View for BackendTable {
    type V = TableView;

    closed spec fn view(&self) -> TableView {
        TableView {
            known: crate::state::backend_views(self.known@),
            rotation: slot_numbers(self.rotation@),
        }
    }
}

/// A place in a table, which only the table gives out.
#[derive(Debug)]
pub struct Slot {
    index: usize,
}

impl Slot {
    /// The number of the slot.
    pub closed spec fn number(&self) -> int {
        self.index as int
    }

    /// The number of the slot.
    pub(crate) fn index(&self) -> (index: usize)
        ensures
            index == self.number(),
    {
        self.index
    }
}

/// A backend as it is handed out: by its slot in the table, together with its identifier and
/// its address, which never change. Its liveness and its load are read in the table, with
/// `AppState::get`, so what is read through a handle is always the current state. A handle
/// goes with the table that gave it out.
#[derive(Debug)]
pub struct BackendHandle {
    pub slot: Slot,
    pub id: usize,
    pub addr: String,
}

/// The mathematical value of a `BackendHandle`.
#[verifier::ext_equal]
pub struct HandleView {
    pub slot: int,
    pub id: usize,
    pub addr: Seq<char>,
}

impl View for BackendHandle {
    type V = HandleView;

    open spec fn view(&self) -> HandleView {
        HandleView { slot: self.slot.number(), id: self.id, addr: self.addr@ }
    }
}

/// The handle of the backend in a slot.
pub open spec fn handle_of(known: Seq<BackendView>, slot: int) -> HandleView {
    HandleView { slot, id: known[slot].id, addr: known[slot].addr }
}

impl BackendTable {
    #[verifier::type_invariant]
    spec fn well_formed(self) -> bool {
        forall|i: int|
            0 <= i < self.rotation@.len() ==> (#[trigger] self.rotation@[i]) < self.known@.len()
    }

    /// A table without backends.
    pub(crate) fn new() -> (table: Self)
        ensures
            table@.known == Seq::<BackendView>::empty(),
            table@.rotation == Seq::<int>::empty(),
    {
        BackendTable { known: Vec::new(), rotation: Vec::new() }
    }

    /// The number of backends in the rotation.
    pub fn len(&self) -> (len: usize)
        ensures
            len == self@.rotation.len(),
            in_range(self@.known, self@.rotation),
    {
        proof {
            use_type_invariant(self);
        }
        self.rotation.len()
    }

    /// The backend at a position of the rotation.
    pub(crate) fn backend(&self, i: usize) -> (backend: &Backend)
        requires
            i < self@.rotation.len(),
        ensures
            backend@ == self@.known[self@.rotation[i as int]],
    {
        proof {
            use_type_invariant(self);
        }
        &self.known[self.rotation[i]]
    }

    /// The handle of the backend at a position of the rotation.
    pub(crate) fn handle(&self, i: usize) -> (handle: BackendHandle)
        requires
            i < self@.rotation.len(),
        ensures
            handle@ == handle_of(self@.known, self@.rotation[i as int]),
    {
        proof {
            use_type_invariant(self);
        }
        let index: usize = self.rotation[i];
        let backend = &self.known[index];
        BackendHandle { slot: Slot { index }, id: backend.id, addr: backend.addr.clone() }
    }

    /// The backend in a slot. None is found where the table has no such slot.
    pub(crate) fn at(&self, slot: usize) -> (found: Option<&Backend>)
        ensures
            match found {
                Some(backend) => slot < self@.known.len() && backend@ == self@.known[slot as int],
                None => slot >= self@.known.len(),
            },
            in_range(self@.known, self@.rotation),
    {
        proof {
            use_type_invariant(self);
        }
        if slot < self.known.len() {
            Some(&self.known[slot])
        } else {
            None
        }
    }

    /// Says of the backend in a slot whether it is alive, and how many requests are in
    /// flight to it.
    pub(crate) fn set(&mut self, slot: usize, alive: bool, active_connections: usize)
        requires
            slot < old(self)@.known.len(),
        ensures
            final(self)@.rotation == old(self)@.rotation,
            final(self)@.known == old(self)@.known.update(
                slot as int,
                BackendView { alive, active_connections, ..old(self)@.known[slot as int] },
            ),
            in_range(final(self)@.known, final(self)@.rotation),
    {
        let (mut known, rotation) = self.take();
        let ghost before = known@;
        known[slot].alive = alive;
        known[slot].active_connections = active_connections;
        self.known = known;
        self.rotation = rotation;
        assert(self@.known =~= crate::state::backend_views(before).update(
            slot as int,
            BackendView {
                alive,
                active_connections,
                ..crate::state::backend_views(before)[slot as int]
            },
        ));
    }

    /// Gives a backend the next slot, and the last place in the rotation.
    pub(crate) fn push(&mut self, backend: Backend)
        ensures
            final(self)@.known == old(self)@.known.push(backend@),
            final(self)@.rotation == old(self)@.rotation.push(old(self)@.known.len() as int),
            in_range(final(self)@.known, final(self)@.rotation),
    {
        let (mut known, mut rotation) = self.take();
        let ghost before = (crate::state::backend_views(known@), slot_numbers(rotation@));
        rotation.push(known.len());
        known.push(backend);
        self.known = known;
        self.rotation = rotation;
        assert(self@.known =~= before.0.push(backend@));
        assert(self@.rotation =~= before.1.push(before.0.len() as int));
    }

    /// Takes the backends out of the rotation whose address is not listed. Returns how many
    /// these are. They keep their slots, and are otherwise left as they are.
    pub(crate) fn keep_listed(&mut self, listed: &StringHashSet) -> (removed: usize)
        ensures
            final(self)@.known == old(self)@.known,
            final(self)@.rotation == listed_slots(
                old(self)@.known,
                old(self)@.rotation,
                listed@,
            ),
            removed == unlisted_slots(old(self)@.known, old(self)@.rotation, listed@).len(),
            in_range(final(self)@.known, final(self)@.rotation),
    {
        let ghost slots = self@.rotation;
        let ghost views = self@.known;
        let (known, rotation) = self.take();
        let mut kept: Vec<usize> = Vec::new();
        let mut removed: usize = 0;
        let mut i: usize = 0;
        proof {
            reveal(Seq::filter);
            assert(listed_slots(views, slots.take(0), listed@) =~= slot_numbers(kept@));
        }
        while i < rotation.len()
            invariant
                views == crate::state::backend_views(known@),
                slots == slot_numbers(rotation@),
                i <= rotation@.len(),
                removed <= i,
                forall|j: int|
                    0 <= j < rotation@.len() ==> (#[trigger] rotation@[j]) < known@.len(),
                forall|j: int| 0 <= j < kept@.len() ==> (#[trigger] kept@[j]) < known@.len(),
                slot_numbers(kept@) == listed_slots(views, slots.take(i as int), listed@),
                removed == unlisted_slots(views, slots.take(i as int), listed@).len(),
            decreases rotation@.len() - i,
        {
            let slot: usize = rotation[i];
            let ghost before = kept@;
            proof {
                assert(slots[i as int] == slot);
                lemma_filter_of_next(
                    slots,
                    i as int,
                    |k: int| listed@.contains(views[k].addr),
                );
                lemma_filter_of_next(
                    slots,
                    i as int,
                    |k: int| !listed@.contains(views[k].addr),
                );
            }
            if listed.contains(known[slot].addr.as_str()) {
                kept.push(slot);
                assert(slot_numbers(kept@) =~= slot_numbers(before).push(slot as int));
            } else {
                removed += 1;
            }
            i += 1;
        }
        assert(slots.take(i as int) =~= slots);
        self.known = known;
        self.rotation = kept;
        removed
    }

    /// Takes out what the table holds, to be put back changed: the backends first, then the
    /// rotation.
    fn take(&mut self) -> (held: (Vec<Backend>, Vec<usize>))
        ensures
            crate::state::backend_views(held.0@) == old(self)@.known,
            slot_numbers(held.1@) == old(self)@.rotation,
            forall|i: int|
                0 <= i < held.1@.len() ==> (#[trigger] held.1@[i]) < held.0@.len(),
            final(self).rotation@.len() == 0,
    {
        proof {
            use_type_invariant(&*self);
        }
        let mut rotation: Vec<usize> = Vec::new();
        std::mem::swap(&mut rotation, &mut self.rotation);
        let mut known: Vec<Backend> = Vec::new();
        std::mem::swap(&mut known, &mut self.known);
        (known, rotation)
    }
}

/// A list without the elements that do not qualify holds those at the positions `p`, in
/// order, where `p` are the positions of all that do.
pub proof fn lemma_filter_is_at<A>(s: Seq<A>, pred: spec_fn(A) -> bool, p: Seq<int>)
    requires
        forall|i: int, j: int| 0 <= i < j < p.len() ==> #[trigger] p[i] < #[trigger] p[j],
        forall|i: int| 0 <= i < p.len() ==> 0 <= #[trigger] p[i] < s.len() && pred(s[p[i]]),
        forall|q: int| 0 <= q < s.len() && pred(#[trigger] s[q]) ==> p.contains(q),
    ensures
        s.filter(pred).len() == p.len(),
        forall|i: int| 0 <= i < p.len() ==> #[trigger] s.filter(pred)[i] == s[p[i]],
    decreases s.len(),
{
    reveal(Seq::filter);
    if s.len() == 0 {
        if p.len() > 0 {
            assert(0 <= p[0] < s.len());
        }
    } else {
        let rest = s.drop_last();
        let end = s.len() - 1;
        if pred(s[end]) {
            assert(p.contains(end));
            let n = choose|n: int| 0 <= n < p.len() && p[n] == end;
            assert(n == p.len() - 1) by {
                if n < p.len() - 1 {
                    assert(p[n] < p[p.len() - 1]);
                }
            }
            let before = p.drop_last();
            assert forall|i: int| 0 <= i < before.len() implies 0 <= #[trigger] before[i]
                < rest.len() && pred(rest[before[i]]) by {
                assert(p[i] < p[n]);
            }
            assert forall|q: int| 0 <= q < rest.len() && pred(
                #[trigger] rest[q],
            ) implies before.contains(q) by {
                assert(s[q] == rest[q]);
                let m = choose|m: int| 0 <= m < p.len() && p[m] == q;
                assert(before[m] == q);
            }
            lemma_filter_is_at(rest, pred, before);
            assert forall|i: int| 0 <= i < p.len() implies #[trigger] s.filter(pred)[i]
                == s[p[i]] by {
                if i < before.len() {
                    assert(rest.filter(pred)[i] == rest[before[i]]);
                }
            }
        } else {
            assert forall|i: int| 0 <= i < p.len() implies 0 <= #[trigger] p[i] < rest.len()
                && pred(rest[p[i]]) by {}
            assert forall|q: int| 0 <= q < rest.len() && pred(
                #[trigger] rest[q],
            ) implies p.contains(q) by {
                assert(s[q] == rest[q]);
            }
            lemma_filter_is_at(rest, pred, p);
        }
    }
}

/// What qualifies and what does not are together the whole list.
pub proof fn lemma_filter_parts<A>(s: Seq<A>, pred: spec_fn(A) -> bool, other: spec_fn(A) -> bool)
    requires
        forall|i: int| 0 <= i < s.len() ==> (pred(#[trigger] s[i]) <==> !other(s[i])),
    ensures
        s.filter(pred).len() + s.filter(other).len() == s.len(),
    decreases s.len(),
{
    reveal(Seq::filter);
    if s.len() > 0 {
        let rest = s.drop_last();
        assert forall|i: int| 0 <= i < rest.len() implies (pred(#[trigger] rest[i]) <==> !other(
            rest[i],
        )) by {
            assert(rest[i] == s[i]);
        }
        lemma_filter_parts(rest, pred, other);
    }
}

/// Filtering one element more.
pub proof fn lemma_filter_of_next<A>(s: Seq<A>, n: int, pred: spec_fn(A) -> bool)
    requires
        0 <= n < s.len(),
    ensures
        s.take(n + 1).filter(pred) == if pred(s[n]) {
            s.take(n).filter(pred).push(s[n])
        } else {
            s.take(n).filter(pred)
        },
{
    reveal(Seq::filter);
    assert(s.take(n + 1).drop_last() =~= s.take(n));
}

} // verus!

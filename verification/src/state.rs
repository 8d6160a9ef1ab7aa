//! The routing table: backends with their liveness and load, the active algorithm and the
//! health-check settings.
//!
//! Every operation is a function from one routing table to the next. A running proxy keeps
//! the table behind a lock and applies the operations one at a time.

use vstd::prelude::*;

use crate::config::Algorithm;
use crate::config::Config;
use crate::config::ConfigView;
use crate::table::BackendHandle;
use crate::table::BackendTable;

verus! {

/// A single backend target.
#[derive(Debug)]
pub struct Backend {
    pub id: usize,
    pub addr: String,
    pub alive: bool,
    pub active_connections: usize,
}

/// The mathematical value of a `Backend`.
#[verifier::ext_equal]
pub struct BackendView {
    pub id: usize,
    pub addr: Seq<char>,
    pub alive: bool,
    pub active_connections: usize,
}

impl View for Backend {
    type V = BackendView;

    open spec fn view(&self) -> BackendView {
        BackendView {
            id: self.id,
            addr: self.addr@,
            alive: self.alive,
            active_connections: self.active_connections,
        }
    }
}

/// The values of a list of backends, in order.
pub open spec fn backend_views(backends: Seq<Backend>) -> Seq<BackendView> {
    Seq::new(backends.len(), |i: int| backends[i]@)
}

/// The counter value after `n`, going round at the end of the machine's range.
pub open spec fn next_count(n: usize) -> usize {
    if n == usize::MAX {
        0
    } else {
        (n + 1) as usize
    }
}

/// The counter value before `n`, going round at the start of the machine's range.
pub open spec fn previous_count(n: usize) -> usize {
    if n == 0 {
        usize::MAX
    } else {
        (n - 1) as usize
    }
}

/// The counter value `steps` steps after `n`, going round at the end of the machine's range.
pub open spec fn count_after(n: usize, steps: nat) -> usize {
    ((n + steps) % (usize::MAX + 1)) as usize
}

/// Counting on by one after `steps` steps.
pub proof fn lemma_count_after_step(n: usize, steps: nat)
    ensures
        next_count(count_after(n, steps)) == count_after(
            n,
            steps + 1,
        ),
{
    let range = usize::MAX + 1;
    vstd::arithmetic::div_mod::lemma_add_mod_noop(n + steps, 1, range);
    vstd::arithmetic::div_mod::lemma_small_mod(1, range as nat);
    let at = (n + steps) % range;
    if at == usize::MAX {
        vstd::arithmetic::div_mod::lemma_mod_self_0(range);
    } else {
        vstd::arithmetic::div_mod::lemma_small_mod((at + 1) as nat, range as nat);
    }
}

impl BackendView {
    /// A backend as it enters the table: alive until a health check says otherwise, and idle.
    pub open spec fn fresh(id: usize, addr: Seq<char>) -> BackendView {
        BackendView { id, addr, alive: true, active_connections: 0 }
    }

    /// This backend with one more request in flight.
    pub open spec fn busier(self) -> BackendView {
        BackendView { active_connections: next_count(self.active_connections), ..self }
    }

    /// This backend with one request less in flight.
    pub open spec fn idler(self) -> BackendView {
        BackendView { active_connections: previous_count(self.active_connections), ..self }
    }

    /// This backend, found healthy or not.
    pub open spec fn checked(self, healthy: bool) -> BackendView {
        BackendView { alive: healthy, ..self }
    }
}

impl Backend {
    /// A backend that no request has been routed to yet.
    ///
    /// Optimistic: it counts as alive until the first health check says otherwise, so a
    /// freshly added backend is not dead on arrival for a whole health-check interval.
    pub fn new(id: usize, addr: String) -> (backend: Self)
        ensures
            backend@ == BackendView::fresh(id, addr@),
            backend.id == id,
            backend.addr@ == addr@,
            backend.alive,
            backend.active_connections == 0,
    {
        Backend { id, addr, alive: true, active_connections: 0 }
    }

    /// Whether the last health check found the backend healthy.
    pub fn is_alive(&self) -> (alive: bool)
        ensures
            alive == self@.alive,
            alive == self.alive,
    {
        self.alive
    }

    /// The number of requests in flight to the backend.
    pub fn connections(&self) -> (count: usize)
        ensures
            count == self@.active_connections,
            count == self.active_connections,
    {
        self.active_connections
    }
}


/// The values of a list of borrowed backends, in order.
pub open spec fn borrowed_views(backends: Seq<&Backend>) -> Seq<BackendView> {
    Seq::new(backends.len(), |i: int| backends[i]@)
}

/// Stands for one request in flight to one backend of a table. Acquiring it adds one to the
/// backend's count there, and releasing it on the same table takes that one away again.
///
/// It cannot be copied, and releasing consumes it, so a request that was counted in flight
/// once is counted off at most once. A guard that is dropped without being released leaves
/// its request counted: whoever holds one has to release it on every way out.
#[must_use]
#[derive(Debug)]
pub struct ConnectionGuard {
    backend_slot: usize,
}

impl ConnectionGuard {
    /// The slot of the backend that the request is in flight to.
    pub closed spec fn slot(&self) -> int {
        self.backend_slot as int
    }

    /// Counts one more request in flight to the backend, whether or not it is in the
    /// rotation. A handle that this table gave out always gets a guard; there is none, and
    /// nothing is counted, for the handle of another table whose slot this one does not have.
    pub fn acquire(state: &mut AppState, backend: &BackendHandle) -> (guard: Option<Self>)
        ensures
            final(state)@ == old(state)@.acquire(backend@.slot),
            guard is Some <==> old(state)@.holds(backend@.slot),
            guard matches Some(guard) ==> guard.slot() == backend@.slot,
            guard is Some <==> backend.slot.number() < old(state)@.known.len(),
            guard matches Some(guard) ==> guard.slot() == backend.slot.number(),
            final(state)@.wf(),
    {
        let slot: usize = backend.slot.index();
        let (alive, count): (bool, usize) = match state.backends.at(slot) {
            Some(found) => (found.is_alive(), found.connections()),
            None => {
                return None;
            },
        };
        state.backends.set(slot, alive, count.wrapping_add(1));
        Some(ConnectionGuard { backend_slot: slot })
    }

    /// Counts the request off again.
    pub fn release(self, state: &mut AppState)
        ensures
            final(state)@ == old(state)@.release(self.slot()),
            final(state)@.wf(),
    {
        let (alive, count): (bool, usize) = match state.backends.at(self.backend_slot) {
            Some(found) => (found.is_alive(), found.connections()),
            None => {
                return;
            },
        };
        state.backends.set(self.backend_slot, alive, count.wrapping_sub(1));
    }
}

/// Everything that routing depends on.
#[derive(Debug)]
pub struct AppState {
    pub backends: BackendTable,
    pub algorithm: Algorithm,
    pub health_check_path: String,
    pub health_check_timeout_secs: u64,
    pub rr_counter: usize,
    pub next_backend_id: usize,
}

/// The mathematical value of an `AppState`. A backend is told from the others by its slot,
/// its position in `known`; `rotation` holds the slots of those that take requests.
#[verifier::ext_equal]
pub struct StateView {
    pub known: Seq<BackendView>,
    pub rotation: Seq<int>,
    pub algorithm: Algorithm,
    pub health_check_path: Seq<char>,
    pub health_check_timeout_secs: u64,
    pub rr_counter: usize,
    pub next_backend_id: usize,
}

impl View for AppState {
    type V = StateView;

    open spec fn view(&self) -> StateView {
        StateView {
            known: self.backends@.known,
            rotation: self.backends@.rotation,
            algorithm: self.algorithm,
            health_check_path: self.health_check_path@,
            health_check_timeout_secs: self.health_check_timeout_secs,
            rr_counter: self.rr_counter,
            next_backend_id: self.next_backend_id,
        }
    }
}

/// The backends in the given slots, in order.
pub open spec fn backends_in(known: Seq<BackendView>, slots: Seq<int>) -> Seq<BackendView> {
    Seq::new(slots.len(), |i: int| known[slots[i]])
}

/// The slots of the backends that are alive, in order.
pub open spec fn alive_only(known: Seq<BackendView>, slots: Seq<int>) -> Seq<int> {
    slots.filter(|k: int| known[k].alive)
}

/// One fresh backend for each address, in order, with consecutive identifiers.
pub open spec fn fresh_backends(first_id: usize, addrs: Seq<Seq<char>>) -> Seq<BackendView> {
    Seq::new(
        addrs.len(),
        |i: int| BackendView::fresh(count_after(first_id, i as nat), addrs[i]),
    )
}

/// `count` slots in a row, from `first` on.
pub open spec fn slots_from(first: nat, count: nat) -> Seq<int> {
    Seq::new(count, |i: int| first + i)
}

impl StateView {
    /// The table that a proxy starts from.
    pub open spec fn initial(config: ConfigView) -> StateView {
        StateView {
            known: fresh_backends(0, config.backends),
            rotation: slots_from(0, config.backends.len()),
            algorithm: config.algorithm,
            health_check_path: config.health_check_path,
            health_check_timeout_secs: config.health_check_timeout_secs,
            rr_counter: 0,
            next_backend_id: count_after(0, config.backends.len()),
        }
    }

    /// The slots in the rotation are slots of the table.
    pub open spec fn wf(self) -> bool {
        crate::table::in_range(self.known, self.rotation)
    }

    /// There is a backend in slot `k`.
    pub open spec fn holds(self, k: int) -> bool {
        0 <= k < self.known.len()
    }

    /// The backends in the rotation, in order.
    pub open spec fn backends(self) -> Seq<BackendView> {
        backends_in(self.known, self.rotation)
    }

    /// The slots of the alive backends in the rotation, in order.
    pub open spec fn alive(self) -> Seq<int> {
        alive_only(self.known, self.rotation)
    }

    /// The table with `b` as the backend in slot `k`.
    pub open spec fn put(self, k: int, b: BackendView) -> StateView {
        StateView { known: self.known.update(k, b), ..self }
    }

    /// The table with one more request in flight to the backend in slot `k`.
    pub open spec fn acquire(self, k: int) -> StateView {
        if self.holds(k) {
            self.put(k, self.known[k].busier())
        } else {
            self
        }
    }

    /// The table with one request less in flight to the backend in slot `k`.
    pub open spec fn release(self, k: int) -> StateView {
        if self.holds(k) {
            self.put(k, self.known[k].idler())
        } else {
            self
        }
    }

    /// The table after a health check of the backend in slot `k`.
    pub open spec fn checked(self, k: int, healthy: bool) -> StateView {
        if self.holds(k) {
            self.put(k, self.known[k].checked(healthy))
        } else {
            self
        }
    }
}

impl AppState {
    /// The table that a proxy starts from: one backend for each configured one, in order,
    /// numbered from zero.
    pub fn from_config(config: &Config) -> (state: Self)
        ensures
            state@ == StateView::initial(config@),
            state@.wf(),
            state.algorithm == config.algorithm,
            state.health_check_path@ == config.health_check_path@,
            state.health_check_timeout_secs == config.health_check_timeout_secs,
            state.rr_counter == 0,
            state.next_backend_id == config.backends@.len(),
            state@.known.len() == config.backends@.len(),
            state@.rotation.len() == config.backends@.len(),
            forall|i: int|
                0 <= i < config.backends@.len() ==> {
                    &&& #[trigger] state@.rotation[i] == i
                    &&& state@.known[i].id == i
                    &&& state@.known[i].addr == config.backends@[i].addr@
                    &&& state@.known[i].alive
                    &&& state@.known[i].active_connections == 0
                },
    {
        let mut backends = BackendTable::new();
        let count: usize = config.backends.len();
        let mut id: usize = 0;
        while id < count
            invariant
                count == config.backends@.len(),
                id <= count,
                backends@.known.len() == id,
                forall|i: int|
                    0 <= i < id ==> #[trigger] backends@.known[i] == BackendView::fresh(
                        i as usize,
                        config@.backends[i],
                    ),
                backends@.rotation == slots_from(0, id as nat),
            decreases count - id,
        {
            backends.push(Backend::new(id, config.backends[id].addr.clone()));
            id += 1;
            assert(backends@.rotation =~= slots_from(0, id as nat));
        }
        let state = AppState {
            backends,
            algorithm: config.algorithm,
            health_check_path: config.health_check_path.clone(),
            health_check_timeout_secs: config.health_check_timeout_secs,
            rr_counter: 0,
            next_backend_id: count,
        };
        assert forall|i: int| 0 <= i < count implies #[trigger] state@.known[i]
            == fresh_backends(0, config@.backends)[i] by {
            vstd::arithmetic::div_mod::lemma_small_mod(i as nat, (usize::MAX + 1) as nat);
        }
        assert(state@.known =~= fresh_backends(0, config@.backends));
        proof {
            vstd::arithmetic::div_mod::lemma_small_mod(count as nat, (usize::MAX + 1) as nat);
        }
        state
    }

    /// The backend of a handle, as it is now, whether or not it is in the rotation. It is
    /// always found for a handle that this table gave out.
    pub fn get(&self, backend: &BackendHandle) -> (found: Option<&Backend>)
        ensures
            match found {
                Some(found) => self@.holds(backend@.slot) && found@ == self@.known[
                    backend@.slot],
                None => !self@.holds(backend@.slot),
            },
            found is Some <==> backend.slot.number() < self@.known.len(),
            found matches Some(found) ==> {
                &&& found.id == self@.known[backend.slot.number()].id
                &&& found.addr@ == self@.known[backend.slot.number()].addr
                &&& found.alive == self@.known[backend.slot.number()].alive
                &&& found.active_connections == self@.known[
                    backend.slot.number()].active_connections
            },
            self@.wf(),
    {
        self.backends.at(backend.slot.index())
    }

    /// The positions in the rotation of the backends that are alive now, in order.
    pub(crate) fn alive_positions(&self) -> (positions: Vec<usize>)
        ensures
            positions@.len() == self@.alive().len(),
            forall|i: int|
                0 <= i < positions@.len() ==> {
                    &&& (#[trigger] positions@[i]) < self@.rotation.len()
                    &&& self@.rotation[positions@[i] as int] == self@.alive()[i]
                },
            self@.wf(),
    {
        let ghost known = self@.known;
        let ghost slots = self@.rotation;
        let mut positions: Vec<usize> = Vec::new();
        let count: usize = self.backends.len();
        let mut i: usize = 0;
        assert(alive_only(known, slots.take(0)) =~= Seq::empty()) by {
            reveal(Seq::filter);
        }
        while i < count
            invariant
                known == self@.known,
                slots == self@.rotation,
                count == slots.len(),
                i <= count,
                positions@.len() == alive_only(known, slots.take(i as int)).len(),
                forall|j: int|
                    0 <= j < positions@.len() ==> {
                        &&& (#[trigger] positions@[j]) < slots.len()
                        &&& slots[positions@[j] as int] == alive_only(
                            known,
                            slots.take(i as int),
                        )[j]
                    },
            decreases count - i,
        {
            proof {
                crate::table::lemma_filter_of_next(slots, i as int, |k: int| known[k].alive);
            }
            if self.backends.backend(i).is_alive() {
                positions.push(i);
            }
            i += 1;
        }
        assert(slots.take(i as int) =~= slots);
        positions
    }

    /// Snapshot of the backends that are alive now, in order.
    pub fn alive_backends(&self) -> (alive: Vec<BackendHandle>)
        ensures
            alive@.len() == self@.alive().len(),
            forall|i: int|
                0 <= i < alive@.len() ==> (#[trigger] alive@[i])@ == crate::table::handle_of(
                    self@.known,
                    self@.alive()[i],
                ),
            forall|i: int|
                0 <= i < alive@.len() ==> {
                    let k = (#[trigger] alive@[i]).slot.number();
                    &&& k == self@.alive()[i]
                    &&& alive@[i].id == self@.known[k].id
                    &&& alive@[i].addr@ == self@.known[k].addr
                },
            self@.wf(),
    {
        let positions = self.alive_positions();
        let mut handles: Vec<BackendHandle> = Vec::new();
        let mut i: usize = 0;
        while i < positions.len()
            invariant
                i <= positions@.len(),
                positions@.len() == self@.alive().len(),
                forall|j: int|
                    0 <= j < positions@.len() ==> {
                        &&& (#[trigger] positions@[j]) < self@.rotation.len()
                        &&& self@.rotation[positions@[j] as int] == self@.alive()[j]
                    },
                handles@.len() == i,
                forall|j: int|
                    0 <= j < i ==> (#[trigger] handles@[j])@ == crate::table::handle_of(
                        self@.known,
                        self@.alive()[j],
                    ),
            decreases positions@.len() - i,
        {
            handles.push(self.backends.handle(positions[i]));
            i += 1;
        }
        handles
    }

    /// Snapshot of all backends in the rotation, alive or not, in order.
    pub fn all_backends(&self) -> (all: Vec<BackendHandle>)
        ensures
            all@.len() == self@.rotation.len(),
            forall|i: int|
                0 <= i < all@.len() ==> (#[trigger] all@[i])@ == crate::table::handle_of(
                    self@.known,
                    self@.rotation[i],
                ),
            forall|i: int|
                0 <= i < all@.len() ==> {
                    let k = (#[trigger] all@[i]).slot.number();
                    &&& k == self@.rotation[i]
                    &&& all@[i].id == self@.known[k].id
                    &&& all@[i].addr@ == self@.known[k].addr
                },
            self@.wf(),
    {
        let mut handles: Vec<BackendHandle> = Vec::new();
        let count: usize = self.backends.len();
        let mut i: usize = 0;
        while i < count
            invariant
                count == self@.rotation.len(),
                i <= count,
                handles@.len() == i,
                forall|j: int|
                    0 <= j < i ==> (#[trigger] handles@[j])@ == crate::table::handle_of(
                        self@.known,
                        self@.rotation[j],
                    ),
            decreases count - i,
        {
            handles.push(self.backends.handle(i));
            i += 1;
        }
        handles
    }
}

} // verus!

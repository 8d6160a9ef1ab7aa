//! Backend selection: round-robin and least-connections.

use vstd::prelude::*;

use crate::config::Algorithm;
use crate::state::AppState;
use crate::state::Backend;
use crate::state::BackendView;
use crate::state::StateView;
use crate::table::BackendHandle;

verus! {

/// `i` is the position of a least loaded backend, and the first such position.
pub open spec fn least_loaded(alive: Seq<BackendView>, i: int) -> bool {
    &&& 0 <= i < alive.len()
    &&& forall|j: int|
        0 <= j < alive.len() ==> alive[i].active_connections <= (
        #[trigger] alive[j]).active_connections
    &&& forall|j: int|
        0 <= j < i ==> alive[i].active_connections < (#[trigger] alive[j]).active_connections
}

impl StateView {
    /// The alive backends in the rotation, in order.
    pub open spec fn candidates(self) -> Seq<BackendView> {
        crate::state::backends_in(self.known, self.alive())
    }

    /// The position, among the alive backends, of the one that the next request goes to.
    /// It means something only where some backend is alive.
    pub open spec fn pick_index(self) -> int {
        match self.algorithm {
            Algorithm::RoundRobin => self.rr_counter as int % self.alive().len() as int,
            Algorithm::LeastConnections => choose|i: int| least_loaded(self.candidates(), i),
        }
    }

    /// The slot of the backend that the next request goes to: none where no backend is alive.
    pub open spec fn pick(self) -> Option<int> {
        if self.alive().len() == 0 {
            None
        } else {
            Some(self.alive()[self.pick_index()])
        }
    }

    /// The table after a pick: the round-robin counter moves on where it was consulted.
    pub open spec fn after_pick(self) -> StateView {
        if self.alive().len() > 0 && self.algorithm == Algorithm::RoundRobin {
            StateView { rr_counter: crate::state::next_count(self.rr_counter), ..self }
        } else {
            self
        }
    }
}

/// There is a first least loaded position in a list that is not empty.
pub proof fn lemma_least_loaded_exists(alive: Seq<BackendView>) -> (i: int)
    requires
        alive.len() > 0,
    ensures
        least_loaded(alive, i),
    decreases alive.len(),
{
    if alive.len() == 1 {
        0
    } else {
        let rest = alive.drop_last();
        let best = lemma_least_loaded_exists(rest);
        assert forall|j: int| 0 <= j < rest.len() implies #[trigger] alive[j] == rest[j] by {}
        if alive.last().active_connections < alive[best].active_connections {
            assert(least_loaded(alive, alive.len() - 1));
            alive.len() - 1
        } else {
            assert(least_loaded(alive, best));
            best
        }
    }
}

/// There is only one first least loaded position.
proof fn lemma_least_loaded_is_unique(alive: Seq<BackendView>, i: int, j: int)
    requires
        least_loaded(alive, i),
        least_loaded(alive, j),
    ensures
        i == j,
{
    assert(alive[i].active_connections == alive[j].active_connections);
}

/// Pick the next backend to route a request to, per the currently configured algorithm.
/// Returns `None` if there are no alive backends (the caller should respond 503).
pub fn pick_backend(state: &mut AppState) -> (picked: Option<BackendHandle>)
    ensures
        final(state)@ == old(state)@.after_pick(),
        match picked {
            Some(backend) => old(state)@.pick() matches Some(slot) && backend@
                == crate::table::handle_of(old(state)@.known, slot),
            None => old(state)@.pick() is None,
        },
        picked matches Some(backend) ==> {
            &&& old(state)@.pick() == Some(backend.slot.number())
            &&& backend.id == old(state)@.known[backend.slot.number()].id
            &&& backend.addr@ == old(state)@.known[backend.slot.number()].addr
        },
        old(state)@.algorithm == Algorithm::LeastConnections && old(state)@.alive().len() > 0
            ==> least_loaded(old(state)@.candidates(), old(state)@.pick_index()),
        final(state)@.wf(),
{
    let ghost before = state@;
    let positions = state.alive_positions();
    let mut alive: Vec<&Backend> = Vec::new();
    let mut i: usize = 0;
    while i < positions.len()
        invariant
            i <= positions@.len(),
            before == state@,
            positions@.len() == before.alive().len(),
            forall|j: int|
                0 <= j < positions@.len() ==> {
                    &&& (#[trigger] positions@[j]) < before.rotation.len()
                    &&& before.rotation[positions@[j] as int] == before.alive()[j]
                },
            alive@.len() == i,
            forall|j: int|
                0 <= j < i ==> (#[trigger] alive@[j])@ == before.known[before.alive()[j]],
        decreases positions@.len() - i,
    {
        alive.push(state.backends.backend(positions[i]));
        i += 1;
    }
    assert(crate::state::borrowed_views(alive@) =~= before.candidates());
    let picked = match state.algorithm {
        Algorithm::RoundRobin => pick_round_robin(&mut state.rr_counter, alive.as_slice()),
        Algorithm::LeastConnections => pick_least_connections(alive.as_slice()),
    };
    proof {
        if before.algorithm == Algorithm::LeastConnections && picked is Some {
            lemma_least_loaded_is_unique(
                before.candidates(),
                before.pick_index(),
                picked->0 as int,
            );
        }
    }
    match picked {
        Some(idx) => Some(state.backends.handle(positions[idx])),
        None => None,
    }
}

/// The position of the backend at the counter's turn, going round the list, and the counter
/// moved on by one. On an empty list there is no backend, and the counter stays.
pub fn pick_round_robin(counter: &mut usize, alive: &[&Backend]) -> (picked: Option<usize>)
    ensures
        alive@.len() == 0 ==> picked is None && *final(counter) == *old(counter),
        alive@.len() > 0 ==> {
            &&& picked matches Some(idx) && idx == *old(counter) as int % alive@.len() as int
            &&& *final(counter) == crate::state::next_count(*old(counter))
        },
{
    if alive.is_empty() {
        return None;
    }
    let turn: usize = *counter;
    *counter = turn.wrapping_add(1);
    let idx: usize = turn % alive.len();
    Some(idx)
}

/// The position of the backend with the fewest requests in flight: of the first of them in
/// the list, where several have equally few. On an empty list there is none.
pub fn pick_least_connections(alive: &[&Backend]) -> (picked: Option<usize>)
    ensures
        alive@.len() == 0 <==> picked is None,
        picked matches Some(idx) ==> least_loaded(
            crate::state::borrowed_views(alive@),
            idx as int,
        ),
        picked matches Some(idx) ==> {
            &&& idx < alive@.len()
            &&& forall|j: int|
                0 <= j < alive@.len() ==> alive@[idx as int].active_connections <= (
                #[trigger] alive@[j]).active_connections
            &&& forall|j: int|
                0 <= j < idx ==> alive@[idx as int].active_connections < (
                #[trigger] alive@[j]).active_connections
        },
{
    if alive.is_empty() {
        return None;
    }
    let mut best: usize = 0;
    let mut i: usize = 1;
    while i < alive.len()
        invariant
            0 <= best < i <= alive@.len(),
            forall|j: int|
                0 <= j < i ==> alive@[best as int].active_connections <= (
                #[trigger] alive@[j]).active_connections,
            forall|j: int|
                0 <= j < best ==> alive@[best as int].active_connections < (
                #[trigger] alive@[j]).active_connections,
        decreases alive@.len() - i,
    {
        if alive[i].connections() < alive[best].connections() {
            best = i;
        }
        i += 1;
    }
    Some(best)
}

} // verus!

//! Active health checking: which backends a round of checks asks, what counts as healthy,
//! and how a result changes the routing table.

use vstd::prelude::*;
use hyper::Uri;

use crate::state::AppState;
use crate::state::StateView;
use crate::table::BackendHandle;
use crate::uri::join_uri;

verus! {

/// One health check to make: ask the backend, at its address, for the given path, and allow
/// it so many seconds to answer.
#[derive(Debug)]
pub struct Probe {
    pub backend: BackendHandle,
    pub path: String,
    pub timeout_secs: u64,
}

impl Probe {
    /// This is the health check of the backend in slot `k`, under the settings of the table.
    pub open spec fn asks(self, s: StateView, k: int) -> bool {
        &&& self.backend@ == crate::table::handle_of(s.known, k)
        &&& self.path@ == s.health_check_path
        &&& self.timeout_secs == s.health_check_timeout_secs
    }
}

/// The health-check loop between two ticks of its timer.
#[derive(Debug)]
pub struct HealthLoop {
    started: bool,
}

impl HealthLoop {
    /// The first tick has passed.
    pub closed spec fn has_started(&self) -> bool {
        self.started
    }

    /// The loop before its first tick.
    pub fn new() -> (health_loop: Self)
        ensures
            !health_loop.has_started(),
    {
        HealthLoop { started: false }
    }

    /// The health checks to make at a tick of the timer: one for every backend in the
    /// rotation, alive or not. They are independent of each other, so that a slow backend
    /// need not delay the others. The first tick, which comes right at the start, makes
    /// none: backends start out alive.
    pub fn on_tick(&mut self, state: &AppState) -> (probes: Vec<Probe>)
        ensures
            final(self).has_started(),
            !old(self).has_started() ==> probes@.len() == 0,
            old(self).has_started() ==> {
                &&& probes@.len() == state@.rotation.len()
                &&& forall|i: int|
                    0 <= i < probes@.len() ==> (#[trigger] probes@[i]).asks(
                        state@,
                        state@.rotation[i],
                    )
                &&& forall|i: int|
                    0 <= i < probes@.len() ==> {
                        let k = state@.rotation[i];
                        &&& (#[trigger] probes@[i]).path@ == state.health_check_path@
                        &&& probes@[i].timeout_secs == state.health_check_timeout_secs
                        &&& probes@[i].backend.slot.number() == k
                        &&& probes@[i].backend.id == state@.known[k].id
                        &&& probes@[i].backend.addr@ == state@.known[k].addr
                    }
            },
    {
        let mut probes: Vec<Probe> = Vec::new();
        if !self.started {
            self.started = true;
            return probes;
        }
        let mut i: usize = 0;
        while i < state.backends.len()
            invariant
                i <= state@.rotation.len(),
                probes@.len() == i,
                forall|j: int|
                    0 <= j < i ==> (#[trigger] probes@[j]).asks(state@, state@.rotation[j]),
            decreases state@.rotation.len() - i,
        {
            probes.push(
                Probe {
                    backend: state.backends.handle(i),
                    path: state.health_check_path.clone(),
                    timeout_secs: state.health_check_timeout_secs,
                },
            );
            i += 1;
        }
        probes
    }
}

/// How a health check went.
#[derive(Debug)]
pub enum ProbeOutcome {
    /// The backend's address and the path do not make a URI, so nothing was asked.
    InvalidUri,
    /// No request could be made for the URI, so nothing was asked.
    InvalidRequest,
    /// The backend responded in time, with this status.
    Status(u16),
    /// The request failed, for instance because the connection was refused.
    Failed,
    /// No response came in time.
    TimedOut,
}

impl ProbeOutcome {
    /// The backend counts as healthy.
    pub open spec fn healthy(self) -> bool {
        self matches ProbeOutcome::Status(status) && 200 <= status < 300
    }

    /// Whether the backend counts as healthy: it responded in time, with a status that
    /// means success.
    pub fn is_healthy(&self) -> (healthy: bool)
        ensures
            healthy == self.healthy(),
            *self matches ProbeOutcome::Status(status) ==> (healthy <==> 200 <= status <= 299),
            !(self is Status) ==> !healthy,
    {
        match self {
            ProbeOutcome::Status(status) => 200 <= *status && *status < 300,
            _ => false,
        }
    }
}

/// The request that a health check makes.
#[derive(Debug)]
pub struct CheckRequest {
    pub method: String,
    pub uri: Uri,
    pub body: Vec<u8>,
}

/// The request that a health check makes: a GET of the path at the backend's address, with
/// an empty body. Where these do not make a URI nothing is asked, and that is how the check
/// went.
pub fn check_once(base_addr: &str, path: &str) -> (request: Result<CheckRequest, ProbeOutcome>)
    ensures
        match crate::uri::parsed_uri(base_addr@ + path@) {
            Ok(uri) => request matches Ok(request) && {
                &&& request.method@ == "GET"@
                &&& request.uri == uri
                &&& request.body@ == Seq::<u8>::empty()
            },
            Err(_) => request == Err::<CheckRequest, ProbeOutcome>(ProbeOutcome::InvalidUri),
        },
{
    match join_uri(base_addr, path) {
        Ok(uri) => Ok(CheckRequest { method: "GET".to_owned(), uri, body: Vec::new() }),
        Err(_) => Err(ProbeOutcome::InvalidUri),
    }
}

/// What a health check meant for its backend.
#[derive(Debug, Clone, Copy, PartialEq, Eq, Structural)]
pub enum Transition {
    /// It was alive and no longer is: no request is routed to it.
    Removed,
    /// It was not alive and is again: requests are routed to it, if it is in the rotation.
    Recovered,
    /// It is as it was before.
    Unchanged,
    /// The table has no such slot: the handle is that of another table.
    Unknown,
}

impl StateView {
    /// What it means for the backend in slot `k` to be found healthy, or not.
    pub open spec fn transition(self, k: int, healthy: bool) -> Transition {
        if !self.holds(k) {
            Transition::Unknown
        } else if self.known[k].alive && !healthy {
            Transition::Removed
        } else if !self.known[k].alive && healthy {
            Transition::Recovered
        } else {
            Transition::Unchanged
        }
    }
}

/// What the outcome of a health check of `backend` means, with the table left as it is.
/// Where it means no change there is nothing to record.
pub fn assess(state: &AppState, backend: &BackendHandle, outcome: &ProbeOutcome) -> (transition:
    Transition)
    ensures
        transition == state@.transition(backend@.slot, outcome.healthy()),
        transition == Transition::Unchanged || transition == Transition::Unknown
            ==> state@.checked(backend@.slot, outcome.healthy()) == state@,
        transition == Transition::Unknown <==> backend.slot.number() >= state@.known.len(),
        backend.slot.number() < state@.known.len() ==> {
            let was_alive = state@.known[backend.slot.number()].alive;
            let success = *outcome matches ProbeOutcome::Status(status) && 200 <= status <= 299;
            &&& transition == Transition::Removed <==> was_alive && !success
            &&& transition == Transition::Recovered <==> !was_alive && success
        },
{
    let healthy: bool = outcome.is_healthy();
    match state.get(backend) {
        Some(found) => {
            let was_alive: bool = found.is_alive();
            if was_alive && !healthy {
                Transition::Removed
            } else if !was_alive && healthy {
                Transition::Recovered
            } else {
                assert(state@.checked(backend@.slot, healthy).known =~= state@.known);
                Transition::Unchanged
            }
        },
        None => Transition::Unknown,
    }
}

/// Applies the outcome of a health check of `backend`, and says what it meant. The backend
/// need not be in the rotation any more.
pub fn record(state: &mut AppState, backend: &BackendHandle, outcome: &ProbeOutcome) -> (
    transition: Transition)
    ensures
        final(state)@ == old(state)@.checked(backend@.slot, outcome.healthy()),
        transition == old(state)@.transition(backend@.slot, outcome.healthy()),
        final(state)@.wf(),
        transition == Transition::Unknown <==> backend.slot.number() >= old(state)@.known.len(),
        backend.slot.number() < old(state)@.known.len() ==> {
            let k = backend.slot.number();
            let was_alive = old(state)@.known[k].alive;
            let success = *outcome matches ProbeOutcome::Status(status) && 200 <= status <= 299;
            &&& final(state)@.known[k].alive == success
            &&& transition == Transition::Removed <==> was_alive && !success
            &&& transition == Transition::Recovered <==> !was_alive && success
        },
{
    let transition = assess(state, backend, outcome);
    if let Some(found) = state.get(backend) {
        let count: usize = found.connections();
        state.backends.set(backend.slot.index(), outcome.is_healthy(), count);
    }
    transition
}

} // verus!

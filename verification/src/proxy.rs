//! What happens to an incoming request: which backend it is forwarded to, under which URI,
//! and which reply the proxy gives by itself; and the status page.

use vstd::prelude::*;
use hyper::http::uri::InvalidUri;
use hyper::Uri;

use crate::balancer::pick_backend;
use crate::config::Algorithm;
use crate::state::AppState;
use crate::state::BackendView;
use crate::state::ConnectionGuard;
use crate::state::StateView;
use crate::table::BackendHandle;
use crate::uri::join_uri;
use crate::uri::path_and_query;

verus! {

/// A reply that the proxy gives by itself, with a plain-text body.
#[derive(Debug)]
pub struct Reply {
    pub status: u16,
    pub body: String,
}

/// The status of a reply when no backend can take the request.
pub const SERVICE_UNAVAILABLE: u16 = 503;

/// The status of a reply when the chosen backend could not be asked.
pub const BAD_GATEWAY: u16 = 502;

impl Reply {
    /// This reply has the given status and text.
    pub open spec fn says(self, status: u16, body: Seq<char>) -> bool {
        self.status == status && self.body@ == body
    }
}

/// What to do with an incoming request.
#[derive(Debug)]
pub enum Routing {
    /// Send it to `uri` at the backend with address `addr`, and hold `guard` until the
    /// exchange is over, however it ends.
    Forward { guard: ConnectionGuard, addr: String, uri: Uri },
    /// Answer it with this reply.
    Refuse(Reply),
}

/// The text of the URI that a request is sent on to.
pub open spec fn downstream_text(backend_addr: Seq<char>, path_and_query: Option<Seq<char>>) -> Seq<
    char,
> {
    match path_and_query {
        Some(path_and_query) => backend_addr + path_and_query,
        None => backend_addr + "/"@,
    }
}

impl StateView {
    /// The URI that the next request for `original` is sent on to: none where no backend is
    /// alive, or where the address of the one picked does not make a URI.
    pub open spec fn destination(self, original: Uri) -> Option<Uri> {
        match self.pick() {
            None => None,
            Some(slot) => crate::uri::parsed_uri(
                downstream_text(self.known[slot].addr, crate::uri::uri_path_and_query(original)),
            ).ok(),
        }
    }
}

/// Routes one incoming request: picks a backend, counts the request as in flight to it, and
/// rewrites the URI.
///
/// Without an alive backend the request is answered with 503. Where the rewritten URI is
/// not valid it is answered with 502, and is no longer counted as in flight.
pub fn proxy_handler(state: &mut AppState, original: &Uri) -> (routing: Routing)
    ensures
        match old(state)@.pick() {
            None => {
                &&& routing matches Routing::Refuse(reply) && reply.says(
                    503,
                    "no healthy backends available"@,
                )
                &&& final(state)@ == old(state)@
            },
            Some(slot) => match old(state)@.destination(*original) {
                Some(target) => {
                    &&& routing matches Routing::Forward { guard, addr, uri } && guard.slot()
                        == slot && addr@ == old(state)@.known[slot].addr && uri == target
                    &&& final(state)@ == old(state)@.after_pick().acquire(slot)
                },
                None => {
                    &&& routing matches Routing::Refuse(reply) && reply.says(
                        502,
                        "failed to construct downstream URI"@,
                    )
                    &&& final(state)@ == old(state)@.after_pick()
                },
            },
        },
        final(state)@.wf(),
        old(state)@.pick() is None <==> (routing matches Routing::Refuse(reply) && reply.status
            == 503),
        routing matches Routing::Refuse(reply) ==> {
            ||| reply.status == 503 && reply.body@ == "no healthy backends available"@
            ||| reply.status == 502 && reply.body@ == "failed to construct downstream URI"@
        },
        routing matches Routing::Forward { guard, addr, uri } ==> {
            let text = match crate::uri::uri_path_and_query(*original) {
                Some(text) => text,
                None => "/"@,
            };
            &&& old(state)@.pick() == Some(guard.slot())
            &&& addr@ == old(state)@.known[guard.slot()].addr
            &&& crate::uri::parsed_uri(addr@ + text) == Ok::<Uri, InvalidUri>(uri)
        },
{
    let backend = match pick_backend(state) {
        Some(backend) => backend,
        None => {
            return Routing::Refuse(
                Reply {
                    status: SERVICE_UNAVAILABLE,
                    body: "no healthy backends available".to_owned(),
                },
            );
        },
    };
    proof {
        crate::laws::selection::law_only_alive_backends_are_picked(
            old(state)@,
            old(state)@.pick()->0,
        );
    }
    let rewritten = rewrite_uri(backend.addr.as_str(), original);
    admit_request(state, backend, rewritten)
}

/// Sends a request on to `backend`, which is one of the table, under its rewritten URI, and
/// counts it as in flight. Where rewriting failed it is answered with 502 instead, and
/// leaves no trace in the table.
pub fn admit_request(
    state: &mut AppState,
    backend: BackendHandle,
    rewritten: Result<Uri, InvalidUri>,
) -> (routing: Routing)
    requires
        old(state)@.holds(backend@.slot),
    ensures
        match rewritten {
            Ok(target) => {
                &&& routing matches Routing::Forward { guard, addr, uri } && guard.slot()
                    == backend@.slot && addr@ == backend@.addr && uri == target
                &&& final(state)@ == old(state)@.acquire(backend@.slot)
            },
            Err(_) => {
                &&& routing matches Routing::Refuse(reply) && reply.says(
                    502,
                    "failed to construct downstream URI"@,
                )
                &&& final(state)@ == old(state)@
            },
        },
{
    let ghost before = state@;
    let guard = ConnectionGuard::acquire(state, &backend).unwrap();
    match rewritten {
        Ok(uri) => Routing::Forward { guard, addr: backend.addr, uri },
        Err(_) => {
            guard.release(state);
            proof {
                crate::laws::health::law_release_undoes_acquire(before, backend@.slot);
            }
            Routing::Refuse(
                Reply {
                    status: BAD_GATEWAY,
                    body: "failed to construct downstream URI".to_owned(),
                },
            )
        },
    }
}

/// The URI of a request for `original`, at the backend with the given address.
pub fn rewrite_uri(backend_addr: &str, original: &Uri) -> (rewritten: Result<Uri, InvalidUri>)
    ensures
        rewritten == crate::uri::parsed_uri(
            downstream_text(backend_addr@, crate::uri::uri_path_and_query(*original)),
        ),
        crate::uri::uri_path_and_query(*original) matches Some(text) ==> rewritten
            == crate::uri::parsed_uri(backend_addr@ + text),
        crate::uri::uri_path_and_query(*original) is None ==> rewritten
            == crate::uri::parsed_uri(backend_addr@ + "/"@),
{
    downstream_uri(backend_addr, path_and_query(original))
}

/// The URI of a request for the given path and query, at the backend with the given
/// address. A request without either asks for the root.
pub fn downstream_uri(backend_addr: &str, path_and_query: Option<&str>) -> (rewritten: Result<
    Uri,
    InvalidUri,
>)
    ensures
        rewritten == crate::uri::parsed_uri(
            downstream_text(
                backend_addr@,
                match path_and_query {
                    Some(text) => Some(text@),
                    None => None,
                },
            ),
        ),
        path_and_query matches Some(text) ==> rewritten == crate::uri::parsed_uri(
            backend_addr@ + text@,
        ),
        path_and_query is None ==> rewritten == crate::uri::parsed_uri(backend_addr@ + "/"@),
{
    match path_and_query {
        Some(text) => join_uri(backend_addr, text),
        None => join_uri(backend_addr, "/"),
    }
}

/// Ends a forwarded request: the response that came back is passed on as it is. Where the
/// exchange failed, because the request could not be sent or no response came back, it is
/// answered with 502. The request is not tried again elsewhere.
pub fn finish_request<R, E>(exchange: Result<R, E>) -> (answer: Result<R, Reply>)
    ensures
        match exchange {
            Ok(response) => answer == Ok::<R, Reply>(response),
            Err(_) => answer matches Err(reply) && reply.says(502, "upstream request failed"@)
                && reply.status == 502 && reply.body@ == "upstream request failed"@,
        },
{
    match exchange {
        Ok(response) => Ok(response),
        Err(_) => Err(Reply { status: BAD_GATEWAY, body: "upstream request failed".to_owned() }),
    }
}

/// One backend on the status page.
#[derive(Debug)]
pub struct BackendStatus {
    pub id: usize,
    pub addr: String,
    pub alive: bool,
    pub active_connections: usize,
}

impl View for BackendStatus {
    type V = BackendView;

    open spec fn view(&self) -> BackendView {
        BackendView {
            id: self.id,
            addr: self.addr@,
            alive: self.alive,
            active_connections: self.active_connections,
        }
    }
}

/// The status page: the active algorithm and every backend in the rotation, alive or not.
#[derive(Debug)]
pub struct ProxyStatus {
    pub algorithm: String,
    pub backends: Vec<BackendStatus>,
}

/// Live introspection of the routing table. Looking changes nothing.
pub fn status_handler(state: &AppState) -> (status: ProxyStatus)
    ensures
        status.algorithm@ == state@.algorithm.label_spec(),
        status.backends@.len() == state@.backends().len(),
        forall|i: int|
            0 <= i < state@.backends().len() ==> (#[trigger] status.backends@[i])@
                == state@.backends()[i],
        state.algorithm == Algorithm::RoundRobin ==> status.algorithm@ == "RoundRobin"@,
        state.algorithm == Algorithm::LeastConnections ==> status.algorithm@
            == "LeastConnections"@,
        status.backends@.len() == state@.rotation.len(),
        forall|i: int|
            0 <= i < state@.rotation.len() ==> {
                let backend = state@.known[state@.rotation[i]];
                &&& (#[trigger] status.backends@[i]).id == backend.id
                &&& status.backends@[i].addr@ == backend.addr
                &&& status.backends@[i].alive == backend.alive
                &&& status.backends@[i].active_connections == backend.active_connections
            },
{
    let mut backends: Vec<BackendStatus> = Vec::new();
    let mut i: usize = 0;
    while i < state.backends.len()
        invariant
            i <= state@.rotation.len(),
            backends@.len() == i,
            forall|j: int|
                0 <= j < i ==> (#[trigger] backends@[j])@ == state@.backends()[j],
        decreases state@.rotation.len() - i,
    {
        let backend = state.backends.backend(i);
        backends.push(
            BackendStatus {
                id: backend.id,
                addr: backend.addr.clone(),
                alive: backend.is_alive(),
                active_connections: backend.connections(),
            },
        );
        i += 1;
    }
    ProxyStatus { algorithm: state.algorithm.label(), backends }
}

} // verus!

//! How health checks and requests in flight change the table.

use vstd::prelude::*;

use crate::config::Algorithm;
use crate::health::Probe;
use crate::health::ProbeOutcome;
use crate::health::Transition;
use crate::state::BackendView;
use crate::state::StateView;

verus! {

/// `t` is `s` but for the backend in slot `k`, which is `b` in `t`.
pub open spec fn differs_at(s: StateView, t: StateView, k: int, b: BackendView) -> bool {
    &&& t == (StateView { known: t.known, ..s })
    &&& t.known.len() == s.known.len()
    &&& forall|j: int|
        0 <= j < s.known.len() ==> #[trigger] t.known[j] == (if j == k {
            b
        } else {
            s.known[j]
        })
}

/// Only success counts as healthy: a status from 200 to 299, in time. Every other status,
/// and every check without a status, counts as unhealthy.
pub proof fn law_only_a_success_is_healthy(outcome: ProbeOutcome)
    ensures
        match outcome {
            ProbeOutcome::Status(status) => outcome.healthy() <==> 200 <= status <= 299,
            ProbeOutcome::InvalidUri => !outcome.healthy(),
            ProbeOutcome::InvalidRequest => !outcome.healthy(),
            ProbeOutcome::Failed => !outcome.healthy(),
            ProbeOutcome::TimedOut => !outcome.healthy(),
        },
{
}

/// A probe carries the settings of the table that it was made for, and the slot, identifier
/// and address of its backend. So tables with different paths, or different timeouts, make
/// different probes.
pub proof fn law_a_probe_carries_the_settings(
    s: StateView,
    t: StateView,
    k: int,
    one: Probe,
    other: Probe,
)
    requires
        one.asks(s, k),
        other.asks(t, k),
    ensures
        one.path@ == s.health_check_path,
        one.timeout_secs == s.health_check_timeout_secs,
        one.backend.slot.number() == k,
        one.backend.id == s.known[k].id,
        one.backend.addr@ == s.known[k].addr,
        s.health_check_path != t.health_check_path ==> one.path@ != other.path@,
        s.health_check_timeout_secs != t.health_check_timeout_secs ==> one.timeout_secs
            != other.timeout_secs,
{
}

/// What a check means for a backend: it takes an alive one out where it is unhealthy, brings
/// a dead one back where it is healthy, and changes nothing otherwise.
pub proof fn law_a_transition_is_a_change_of_liveness(s: StateView, k: int, healthy: bool)
    ensures
        s.transition(k, healthy) == Transition::Unknown <==> !(0 <= k < s.known.len()),
        0 <= k < s.known.len() ==> {
            &&& s.transition(k, healthy) == Transition::Removed <==> s.known[k].alive && !healthy
            &&& s.transition(k, healthy) == Transition::Recovered <==> !s.known[k].alive
                && healthy
            &&& s.transition(k, healthy) == Transition::Unchanged <==> s.known[k].alive == healthy
        },
{
}

/// A request counted in flight adds one to its backend's count, and one counted off takes
/// one away, round the machine's range. Its liveness stays, and so does all the rest. A slot
/// that the table does not have changes nothing.
pub proof fn law_a_request_counts_for_one(s: StateView, k: int, j: int)
    ensures
        0 <= k < s.known.len() ==> {
            &&& s.acquire(k).known[k].active_connections == (s.known[k].active_connections + 1) % (
            usize::MAX + 1)
            &&& s.release(k).known[k].active_connections == (s.known[k].active_connections - 1) % (
            usize::MAX + 1)
            &&& s.acquire(k).known[k].alive == s.known[k].alive
            &&& s.release(k).known[k].alive == s.known[k].alive
        },
        0 <= j < s.known.len() ==> {
            &&& s.acquire(k).known[j].id == s.known[j].id
            &&& s.release(k).known[j].id == s.known[j].id
            &&& s.acquire(k).known[j].addr == s.known[j].addr
            &&& s.release(k).known[j].addr == s.known[j].addr
        },
        0 <= j < s.known.len() && j != k ==> {
            &&& s.acquire(k).known[j] == s.known[j]
            &&& s.release(k).known[j] == s.known[j]
        },
        !(0 <= k < s.known.len()) ==> s.acquire(k) == s && s.release(k) == s,
        s.acquire(k).known.len() == s.known.len(),
        s.release(k).known.len() == s.known.len(),
        s.acquire(k).rotation == s.rotation,
        s.release(k).rotation == s.rotation,
        s.acquire(k).algorithm == s.algorithm,
        s.release(k).algorithm == s.algorithm,
        s.acquire(k).health_check_path == s.health_check_path,
        s.release(k).health_check_path == s.health_check_path,
        s.acquire(k).health_check_timeout_secs == s.health_check_timeout_secs,
        s.release(k).health_check_timeout_secs == s.health_check_timeout_secs,
        s.acquire(k).rr_counter == s.rr_counter,
        s.release(k).rr_counter == s.rr_counter,
        s.acquire(k).next_backend_id == s.next_backend_id,
        s.release(k).next_backend_id == s.next_backend_id,
{
    if 0 <= k < s.known.len() {
        crate::laws::counting::law_counters_move_by_one(s.known[k].active_connections);
    }
}

/// A health check makes its backend alive if it was found healthy, and not alive if not.
/// All the rest stays, the backend's load included. A slot that the table does not have
/// changes nothing.
pub proof fn law_a_check_decides_liveness(s: StateView, k: int, healthy: bool, j: int)
    ensures
        0 <= k < s.known.len() ==> {
            &&& s.checked(k, healthy).known[k].alive == healthy
            &&& s.checked(k, healthy).known[k].active_connections == s.known[k].active_connections
        },
        0 <= j < s.known.len() ==> {
            &&& s.checked(k, healthy).known[j].id == s.known[j].id
            &&& s.checked(k, healthy).known[j].addr == s.known[j].addr
        },
        0 <= j < s.known.len() && j != k ==> s.checked(k, healthy).known[j] == s.known[j],
        !(0 <= k < s.known.len()) ==> s.checked(k, healthy) == s,
        s.checked(k, healthy).known.len() == s.known.len(),
        s.checked(k, healthy).rotation == s.rotation,
        s.checked(k, healthy).algorithm == s.algorithm,
        s.checked(k, healthy).health_check_path == s.health_check_path,
        s.checked(k, healthy).health_check_timeout_secs == s.health_check_timeout_secs,
        s.checked(k, healthy).rr_counter == s.rr_counter,
        s.checked(k, healthy).next_backend_id == s.next_backend_id,
{
}

/// Routing, counting and checking keep the table well-formed.
pub proof fn law_operations_keep_the_table_well_formed(s: StateView, k: int, healthy: bool)
    requires
        s.wf(),
    ensures
        s.after_pick().wf(),
        s.acquire(k).wf(),
        s.release(k).wf(),
        s.checked(k, healthy).wf(),
{
}

/// A health check decides whether its backend is alive, and touches nothing else: no other
/// backend, and neither the load nor the address of its own.
pub proof fn law_a_check_concerns_its_backend_alone(s: StateView, k: int, healthy: bool)
    ensures
        s.holds(k) ==> differs_at(s, s.checked(k, healthy), k, s.known[k].checked(healthy)),
        !s.holds(k) ==> s.checked(k, healthy) == s,
{
}

/// A handle from a snapshot shows what happens to its backend later: what the table holds in
/// its slot is the outcome of the health check, or the count with one request more or less;
/// and the handle still carries the backend's identifier and address.
pub proof fn law_a_handle_shows_later_changes(s: StateView, i: int, healthy: bool)
    requires
        s.wf(),
        0 <= i < s.rotation.len(),
    ensures
        ({
            let handle = crate::table::handle_of(s.known, s.rotation[i]);
            let k = handle.slot;
            &&& s.holds(k) && s.known[k] == s.backends()[i]
            &&& s.known[k].id == handle.id && s.known[k].addr == handle.addr
            &&& s.after_pick().known[k] == s.known[k]
            &&& s.checked(k, healthy).known[k] == s.known[k].checked(healthy)
            &&& s.acquire(k).known[k] == s.known[k].busier()
            &&& s.release(k).known[k] == s.known[k].idler()
        }),
{
}

/// Failover: right after a health check finds a backend unhealthy, no request is routed to
/// it, whatever the algorithm.
pub proof fn law_an_unhealthy_backend_gets_no_request(s: StateView, k: int)
    requires
        s.wf(),
    ensures
        s.checked(k, false).pick() != Some(k),
{
    let t = s.checked(k, false);
    if t.pick() == Some(k) {
        law_operations_keep_the_table_well_formed(s, k, false);
        crate::laws::selection::law_only_alive_backends_are_picked(t, k);
    }
}

/// Recovery: right after a health check finds a backend of the rotation healthy, it is among
/// those that requests are routed to.
pub proof fn law_a_recovered_backend_is_back_in_rotation(s: StateView, i: int)
    requires
        s.wf(),
        0 <= i < s.rotation.len(),
    ensures
        s.checked(s.rotation[i], true).alive().contains(s.rotation[i]),
{
    let t = s.checked(s.rotation[i], true);
    let known = t.known;
    assert(t.rotation[i] == s.rotation[i]);
    t.rotation.lemma_filter_contains(|k: int| known[k].alive, i);
}

/// Counting a request in flight, or off, changes its backend's load by one, and touches
/// nothing else.
pub proof fn law_a_request_loads_its_backend_alone(s: StateView, k: int)
    ensures
        s.holds(k) ==> {
            &&& differs_at(s, s.acquire(k), k, s.known[k].busier())
            &&& differs_at(s, s.release(k), k, s.known[k].idler())
        },
        !s.holds(k) ==> s.acquire(k) == s && s.release(k) == s,
{
}

/// The table after `n` requests to the backend in slot `k` have ended.
pub open spec fn after_releases(s: StateView, k: int, n: nat) -> StateView
    decreases n,
{
    if n == 0 {
        s
    } else {
        after_releases(s, k, (n - 1) as nat).release(k)
    }
}

/// As requests to a backend end, its count goes down one by one, to zero when all of them
/// have ended. Nothing else changes.
pub proof fn law_counts_go_down_to_zero(s: StateView, k: int, n: nat)
    requires
        s.holds(k),
        n <= s.known[k].active_connections,
    ensures
        differs_at(
            s,
            after_releases(s, k, n),
            k,
            BackendView {
                active_connections: (s.known[k].active_connections - n) as usize,
                ..s.known[k]
            },
        ),
    decreases n,
{
    if n > 0 {
        law_counts_go_down_to_zero(s, k, (n - 1) as nat);
    }
}

/// The loads of the alive backends in the rotation are within one of each other.
pub open spec fn level(s: StateView) -> bool {
    forall|i: int, j: int|
        0 <= i < s.rotation.len() && 0 <= j < s.rotation.len() && s.known[
            #[trigger] s.rotation[i]].alive && s.known[#[trigger] s.rotation[j]].alive ==> s.known[
            s.rotation[i]].active_connections <= s.known[s.rotation[j]].active_connections + 1
}

/// Least-connections keeps level loads level: another request goes where it does not widen
/// the spread.
pub proof fn law_least_connections_keeps_loads_level(s: StateView, k: int)
    requires
        s.wf(),
        s.algorithm == Algorithm::LeastConnections,
        s.pick() == Some(k),
        s.known[k].active_connections < usize::MAX,
        level(s),
    ensures
        level(s.after_pick().acquire(k)),
{
    let t = s.acquire(k);
    let known = s.known;
    crate::laws::selection::law_least_connections_picks_the_first_idlest(s);
    crate::laws::selection::law_only_alive_backends_are_picked(s, k);
    assert forall|i: int| 0 <= i < s.rotation.len() && known[
        #[trigger] s.rotation[i]].alive implies known[k].active_connections <= known[
        s.rotation[i]].active_connections by {
        s.rotation.lemma_filter_contains(|k: int| known[k].alive, i);
        let alive = s.alive();
        let n = choose|n: int| 0 <= n < alive.len() && alive[n] == s.rotation[i];
        assert(alive[n] == s.rotation[i]);
    }
    let p = choose|p: int| 0 <= p < s.rotation.len() && s.rotation[p] == k;
    assert(s.rotation[p] == k);
    assert forall|i: int, j: int|
        0 <= i < t.rotation.len() && 0 <= j < t.rotation.len() && t.known[
            #[trigger] t.rotation[i]].alive && t.known[
            #[trigger] t.rotation[j]].alive implies t.known[t.rotation[i]].active_connections
        <= t.known[t.rotation[j]].active_connections + 1 by {
        assert(known[s.rotation[i]].alive && known[s.rotation[j]].alive);
    }
}

/// A request leaves no trace in the load: counted in flight and off again, the table is as
/// it was.
pub proof fn law_release_undoes_acquire(s: StateView, k: int)
    ensures
        s.acquire(k).release(k) == s,
{
    assert(s.acquire(k).release(k).known =~= s.known);
}

/// While a forwarded request is pending, the backend it went to has one more request in
/// flight, and every other backend is as it was. When it has ended, every backend is as it
/// was, and so is the table but for the round-robin counter.
pub proof fn law_a_forwarded_request_leaves_no_trace(s: StateView, k: int)
    requires
        s.wf(),
        s.pick() == Some(k),
    ensures
        ({
            let pending = s.after_pick().acquire(k);
            let ended = pending.release(k);
            &&& differs_at(s.after_pick(), pending, k, s.known[k].busier())
            &&& s.known[k].active_connections < usize::MAX
                ==> pending.known[k].active_connections == s.known[k].active_connections + 1
            &&& ended == s.after_pick()
            &&& ended == (StateView { rr_counter: ended.rr_counter, ..s })
        }),
{
    crate::laws::selection::law_only_alive_backends_are_picked(s, k);
    law_release_undoes_acquire(s.after_pick(), k);
}

} // verus!

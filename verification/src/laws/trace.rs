//! Runs of the proxy: any number of requests, health checks and reloads, in any order.

use vstd::prelude::*;

use crate::config::ConfigView;
use crate::state::StateView;

verus! {

/// Something that happens to the table.
pub enum Event {
    /// A request is routed, and is in flight to the backend picked for it.
    Route,
    /// A request is answered by the proxy itself.
    Refuse,
    /// A guard is taken on the backend in this slot.
    Acquire(int),
    /// A request in flight to the backend in this slot ends.
    End(int),
    /// A health check finds the backend in this slot healthy, or not.
    Check(int, bool),
    /// A new configuration is applied.
    Reload(ConfigView),
}

/// The table after an event.
pub open spec fn step(s: StateView, event: Event) -> StateView {
    match event {
        Event::Route => match s.pick() {
            Some(k) => s.after_pick().acquire(k),
            None => s,
        },
        Event::Refuse => s.after_pick(),
        Event::Acquire(k) => s.acquire(k),
        Event::End(k) => s.release(k),
        Event::Check(k, healthy) => s.checked(k, healthy),
        Event::Reload(config) => s.reloaded(config),
    }
}

/// The table after a run.
pub open spec fn run(s: StateView, events: Seq<Event>) -> StateView
    decreases events.len(),
{
    if events.len() == 0 {
        s
    } else {
        step(run(s, events.drop_last()), events.last())
    }
}

/// By how much an event changes the number of requests in flight to the backend in slot `k`.
pub open spec fn change(s: StateView, event: Event, k: int) -> int {
    match event {
        Event::Route => if s.pick() == Some(k) {
            1int
        } else {
            0
        },
        Event::Acquire(acquired) => if acquired == k && s.holds(k) {
            1int
        } else {
            0
        },
        Event::End(ended) => if ended == k {
            -1int
        } else {
            0
        },
        _ => 0,
    }
}

/// The requests that are in flight to the backend in slot `k` after a run: those that were
/// counted in flight, by routing or by taking a guard directly, and have not ended.
pub open spec fn in_flight(s: StateView, events: Seq<Event>, k: int) -> int
    decreases events.len(),
{
    if events.len() == 0 {
        0
    } else {
        in_flight(s, events.drop_last(), k) + change(
            run(s, events.drop_last()),
            events.last(),
            k,
        )
    }
}

/// Only requests that were counted in flight during the run end in it.
pub open spec fn ends_match(s: StateView, events: Seq<Event>) -> bool
    decreases events.len(),
{
    events.len() > 0 ==> {
        let before = events.drop_last();
        &&& ends_match(s, before)
        &&& events.last() matches Event::End(k) ==> in_flight(s, before, k) > 0
    }
}

/// Every table that a proxy passes through is well-formed.
pub proof fn law_every_table_is_well_formed(s: StateView, events: Seq<Event>)
    requires
        s.wf(),
    ensures
        run(s, events).wf(),
    decreases events.len(),
{
    if events.len() > 0 {
        let at = run(s, events.drop_last());
        law_every_table_is_well_formed(s, events.drop_last());
        if let Event::Reload(config) = events.last() {
            crate::laws::reload::law_reload_keeps_the_table_well_formed(at, config);
        }
    }
}

/// Handles never expire: whatever happens, the table still has the backend that a handle was
/// given out for, in the same slot, with the same identifier and the same address.
pub proof fn law_handles_never_expire(s: StateView, events: Seq<Event>, k: int)
    requires
        s.holds(k),
    ensures
        run(s, events).holds(k),
        crate::table::handle_of(run(s, events).known, k) == crate::table::handle_of(s.known, k),
    decreases events.len(),
{
    if events.len() > 0 {
        law_handles_never_expire(s, events.drop_last(), k);
    }
}

/// A proxy starts from a well-formed table with a fresh backend, without requests in flight,
/// for each configured one.
pub proof fn law_a_proxy_starts_idle(config: ConfigView)
    ensures
        StateView::initial(config).wf(),
        StateView::initial(config).known.len() == config.backends.len(),
        forall|k: int|
            0 <= k < config.backends.len() ==> {
                let b = #[trigger] StateView::initial(config).known[k];
                &&& b.addr == config.backends[k]
                &&& b.alive
                &&& b.active_connections == 0
            },
{
}

/// A proxy starts with the configured settings, and with one backend for each configured one:
/// in the rotation in that order, numbered from zero, with its address, alive and idle.
pub proof fn law_a_proxy_starts_as_configured(config: ConfigView, i: int)
    ensures
        StateView::initial(config).algorithm == config.algorithm,
        StateView::initial(config).health_check_path == config.health_check_path,
        StateView::initial(config).health_check_timeout_secs == config.health_check_timeout_secs,
        StateView::initial(config).rr_counter == 0,
        StateView::initial(config).next_backend_id == config.backends.len() as int % (usize::MAX
            + 1),
        StateView::initial(config).known.len() == config.backends.len(),
        StateView::initial(config).rotation.len() == config.backends.len(),
        0 <= i < config.backends.len() ==> {
            &&& StateView::initial(config).rotation[i] == i
            &&& StateView::initial(config).known[i].id == i % (usize::MAX + 1)
            &&& StateView::initial(config).known[i].addr == config.backends[i]
            &&& StateView::initial(config).known[i].alive
            &&& StateView::initial(config).known[i].active_connections == 0
        },
{
}

/// No backend is in the rotation twice, whatever happens.
pub proof fn law_no_backend_is_in_the_rotation_twice(config: ConfigView, events: Seq<Event>)
    ensures
        run(StateView::initial(config), events).rotation.no_duplicates(),
    decreases events.len(),
{
    let s = StateView::initial(config);
    law_a_proxy_starts_idle(config);
    if events.len() > 0 {
        let before = events.drop_last();
        law_no_backend_is_in_the_rotation_twice(config, before);
        law_every_table_is_well_formed(s, before);
        if let Event::Reload(config) = events.last() {
            crate::laws::reload::law_reload_repeats_no_backend(run(s, before), config);
        }
    }
}

/// The remainder of `n` in the machine's range moves along with `n`.
proof fn lemma_wraps(n: int, count: usize)
    requires
        count == n % (usize::MAX + 1),
    ensures
        crate::state::next_count(count) == (n + 1) % (usize::MAX + 1),
        crate::state::previous_count(count) == (n - 1) % (usize::MAX + 1),
{
    let range = usize::MAX + 1;
    let q = n / range;
    vstd::arithmetic::div_mod::lemma_fundamental_div_mod(n, range);
    assert(range * q == q * range) by (nonlinear_arith);
    assert(range * (q + 1) == range * q + range) by (nonlinear_arith);
    assert(range * (q - 1) == range * q - range) by (nonlinear_arith);
    if count == usize::MAX {
        vstd::arithmetic::div_mod::lemma_fundamental_div_mod_converse(n + 1, range, q + 1, 0);
    } else {
        vstd::arithmetic::div_mod::lemma_fundamental_div_mod_converse(
            n + 1,
            range,
            q,
            count + 1,
        );
    }
    if count == 0 {
        vstd::arithmetic::div_mod::lemma_fundamental_div_mod_converse(
            n - 1,
            range,
            q - 1,
            usize::MAX as int,
        );
    } else {
        vstd::arithmetic::div_mod::lemma_fundamental_div_mod_converse(
            n - 1,
            range,
            q,
            count - 1,
        );
    }
}

/// The counts of the table are those of the requests in flight, slots that are not given out
/// yet have none, and no number in flight is negative.
spec fn counts_match(s: StateView, events: Seq<Event>) -> bool {
    let at = run(s, events);
    &&& forall|k: int|
        0 <= k < at.known.len() ==> (#[trigger] at.known[k]).active_connections == in_flight(
            s,
            events,
            k,
        ) % (usize::MAX + 1)
    &&& forall|k: int| !at.holds(k) ==> #[trigger] in_flight(s, events, k) == 0
    &&& forall|k: int| #[trigger] in_flight(s, events, k) >= 0
}

proof fn lemma_counts_match(s: StateView, events: Seq<Event>)
    requires
        s.wf(),
        forall|k: int| 0 <= k < s.known.len() ==> (#[trigger] s.known[k]).active_connections == 0,
        ends_match(s, events),
    ensures
        counts_match(s, events),
    decreases events.len(),
{
    if events.len() > 0 {
        let before = events.drop_last();
        let at = run(s, before);
        let event = events.last();
        let after = run(s, events);
        lemma_counts_match(s, before);
        law_every_table_is_well_formed(s, before);
        assert forall|k: int| #[trigger]
            in_flight(s, events, k) == in_flight(s, before, k) + change(at, event, k) by {}
        if event is Route && at.pick() is Some {
            crate::laws::selection::law_only_alive_backends_are_picked(at, at.pick()->0);
        }
        assert forall|k: int| 0 <= k < after.known.len() implies (
        #[trigger] after.known[k]).active_connections == in_flight(s, events, k) % (usize::MAX
            + 1) by {
            if k < at.known.len() {
                lemma_wraps(in_flight(s, before, k), at.known[k].active_connections);
            } else {
                assert(!at.holds(k));
            }
        }
    }
}

/// Counts never leak or drift: whatever happened, in whatever order, the count of a backend
/// is the number of requests in flight to it, counted round the machine's range. So it is
/// that number itself while the number fits. This holds of every backend that the proxy has
/// had, whether or not it is in the rotation.
pub proof fn law_counts_are_the_requests_in_flight(
    config: ConfigView,
    events: Seq<Event>,
    k: int,
)
    requires
        ends_match(StateView::initial(config), events),
        run(StateView::initial(config), events).holds(k),
    ensures
        ({
            let count = run(StateView::initial(config), events).known[k].active_connections;
            let n = in_flight(StateView::initial(config), events, k);
            &&& n >= 0
            &&& count == n % (usize::MAX + 1)
            &&& n <= usize::MAX ==> count == n
        }),
{
    let s = StateView::initial(config);
    law_a_proxy_starts_idle(config);
    lemma_counts_match(s, events);
    let n = in_flight(s, events, k);
    if n <= usize::MAX {
        vstd::arithmetic::div_mod::lemma_small_mod(n as nat, (usize::MAX + 1) as nat);
    }
}

/// Backends are numbered in the order in which they enter the table.
spec fn numbered(s: StateView) -> bool {
    &&& s.next_backend_id == crate::state::count_after(0, s.known.len())
    &&& forall|k: int|
        0 <= k < s.known.len() ==> (#[trigger] s.known[k]).id == crate::state::count_after(
            0,
            k as nat,
        )
}

/// Counting on from where a count from zero has got to.
proof fn lemma_count_on(first: nat, more: nat)
    ensures
        crate::state::count_after(crate::state::count_after(0, first), more)
            == crate::state::count_after(0, first + more),
{
    let range = usize::MAX + 1;
    vstd::arithmetic::div_mod::lemma_add_mod_noop(first as int, more as int, range);
    vstd::arithmetic::div_mod::lemma_add_mod_noop((first as int) % range, more as int, range);
    vstd::arithmetic::div_mod::lemma_mod_twice(first as int, range);
}

proof fn lemma_numbered(s: StateView, events: Seq<Event>)
    requires
        numbered(s),
    ensures
        numbered(run(s, events)),
    decreases events.len(),
{
    if events.len() > 0 {
        let at = run(s, events.drop_last());
        let after = run(s, events);
        lemma_numbered(s, events.drop_last());
        if let Event::Reload(config) = events.last() {
            lemma_count_on(at.known.len(), at.added(config).len());
            assert forall|k: int| 0 <= k < after.known.len() implies (#[trigger] after.known[k]).id
                == crate::state::count_after(0, k as nat) by {
                if k >= at.known.len() {
                    lemma_count_on(at.known.len(), (k - at.known.len()) as nat);
                }
            }
        }
    }
}

/// Identifiers count the backends in the order in which they enter the table, round the
/// machine's range. So no two backends share one while there are no more backends than the
/// range has numbers.
pub proof fn law_identifiers_count_the_backends(config: ConfigView, events: Seq<Event>)
    ensures
        ({
            let at = run(StateView::initial(config), events);
            &&& forall|k: int|
                0 <= k < at.known.len() ==> (#[trigger] at.known[k]).id
                    == crate::state::count_after(0, k as nat)
            &&& at.known.len() <= usize::MAX + 1 ==> forall|j: int, k: int|
                0 <= j < k < at.known.len() ==> (#[trigger] at.known[j]).id != (
                #[trigger] at.known[k]).id
        }),
{
    let s = StateView::initial(config);
    let at = run(s, events);
    lemma_numbered(s, events);
    if at.known.len() <= usize::MAX + 1 {
        assert forall|k: int| 0 <= k < at.known.len() implies (#[trigger] at.known[k]).id == k by {
            vstd::arithmetic::div_mod::lemma_small_mod(k as nat, (usize::MAX + 1) as nat);
        }
    }
}

/// No event of the run finds the backend in slot `k` healthy.
pub open spec fn never_recovers(events: Seq<Event>, k: int) -> bool {
    forall|i: int| 0 <= i < events.len() ==> #[trigger] events[i] != Event::Check(k, true)
}

proof fn lemma_stays_down(s: StateView, events: Seq<Event>, k: int)
    requires
        s.holds(k),
        !s.known[k].alive,
        never_recovers(events, k),
    ensures
        run(s, events).holds(k),
        !run(s, events).known[k].alive,
    decreases events.len(),
{
    if events.len() > 0 {
        let before = events.drop_last();
        assert(events[events.len() - 1] == events.last());
        assert forall|i: int| 0 <= i < before.len() implies #[trigger] before[i] != Event::Check(
            k,
            true,
        ) by {
            assert(events[i] == before[i]);
        }
        lemma_stays_down(s, before, k);
    }
}

/// Failover lasts: once a health check has found a backend unhealthy, no request is routed
/// to it, whatever happens, until a health check finds it healthy again.
pub proof fn law_an_unhealthy_backend_stays_out_of_rotation(
    s: StateView,
    k: int,
    events: Seq<Event>,
)
    requires
        s.holds(k),
        never_recovers(events, k),
    ensures
        run(s.checked(k, false), events).pick() != Some(k),
{
    let at = run(s.checked(k, false), events);
    lemma_stays_down(s.checked(k, false), events, k);
    if at.pick() == Some(k) {
        crate::laws::selection::law_only_alive_backends_are_picked(at, k);
    }
}

/// A backend that has left the rotation gets no request any more, whatever happens.
pub proof fn law_a_departed_backend_stays_out_of_rotation(
    s: StateView,
    k: int,
    events: Seq<Event>,
)
    requires
        s.wf(),
        s.holds(k),
        !s.rotation.contains(k),
    ensures
        !run(s, events).rotation.contains(k),
        run(s, events).pick() != Some(k),
    decreases events.len(),
{
    let after = run(s, events);
    if events.len() > 0 {
        let before = events.drop_last();
        law_a_departed_backend_stays_out_of_rotation(s, k, before);
        law_every_table_is_well_formed(s, before);
        law_handles_never_expire(s, before, k);
        if let Event::Reload(config) = events.last() {
            crate::laws::reload::law_a_departed_backend_does_not_come_back(
                run(s, before),
                config,
                k,
            );
        }
    }
    if after.pick() == Some(k) {
        crate::laws::selection::law_only_alive_backends_are_picked(after, k);
    }
}

} // verus!

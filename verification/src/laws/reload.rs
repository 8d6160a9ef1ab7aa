//! What a configuration reload keeps, adds and removes.

use vstd::prelude::*;

use crate::config::ConfigView;
use crate::state::BackendView;
use crate::state::StateView;

verus! {

/// The backend in slot `k` was in the rotation before the reload, is as it was, and is listed.
pub open spec fn is_kept(s: StateView, config: ConfigView, k: int) -> bool {
    &&& s.holds(k)
    &&& s.rotation.contains(k)
    &&& s.reloaded(config).known[k] == s.known[k]
    &&& config.backends.contains(s.known[k].addr)
}

/// The backend in slot `k` is the fresh one for the added address at position `n`: its slot
/// is new, its address is listed, and no backend in the rotation had it before.
pub open spec fn is_added(s: StateView, config: ConfigView, k: int, n: int) -> bool {
    let addr = s.added(config)[n];
    &&& k == s.known.len() + n
    &&& s.reloaded(config).known[k] == BackendView::fresh(
        crate::state::count_after(s.next_backend_id, n as nat),
        addr,
    )
    &&& config.backends.contains(addr)
    &&& !crate::watcher::backend_addrs(s.backends()).contains(addr)
}

/// The rotation after a reload, place by place: first the backends that are kept, then a
/// fresh one for each added address.
pub proof fn lemma_reloaded_rotation(s: StateView, config: ConfigView)
    requires
        s.wf(),
    ensures
        s.reloaded(config).rotation.len() == s.kept(config).len() + s.added(config).len(),
        forall|i: int|
            0 <= i < s.kept(config).len() ==> is_kept(
                s,
                config,
                #[trigger] s.reloaded(config).rotation[i],
            ),
        forall|i: int|
            s.kept(config).len() <= i < s.reloaded(config).rotation.len() ==> is_added(
                s,
                config,
                #[trigger] s.reloaded(config).rotation[i],
                i - s.kept(config).len(),
            ),
{
    let t = s.reloaded(config);
    let kept = s.kept(config);
    let added = s.added(config);
    let known = s.known;
    let listed = config.backends.to_set();
    let current = crate::watcher::backend_addrs(s.backends()).to_set();
    let stays = |k: int| listed.contains(known[k].addr);
    let new = |addr: Seq<char>| !current.contains(addr);
    assert forall|i: int| 0 <= i < kept.len() implies is_kept(
        s,
        config,
        #[trigger] t.rotation[i],
    ) by {
        let k = t.rotation[i];
        assert(k == kept[i]);
        assert(kept.contains(k));
        s.rotation.lemma_filter_contains_rev(stays, k);
        s.rotation.lemma_filter_pred(stays, i);
        let p = choose|p: int| 0 <= p < s.rotation.len() && s.rotation[p] == k;
        assert(s.rotation[p] == k);
    }
    assert forall|i: int| kept.len() <= i < t.rotation.len() implies is_added(
        s,
        config,
        #[trigger] t.rotation[i],
        i - kept.len(),
    ) by {
        let n = i - kept.len();
        assert(added.contains(added[n]));
        config.backends.lemma_filter_contains_rev(new, added[n]);
        config.backends.lemma_filter_pred(new, n);
    }
}

/// The configured settings take effect, whatever they were before; and the turn of the
/// round-robin stays where it was.
pub proof fn law_reload_puts_the_settings_into_effect(s: StateView, config: ConfigView)
    ensures
        s.reloaded(config).algorithm == config.algorithm,
        s.reloaded(config).health_check_path == config.health_check_path,
        s.reloaded(config).health_check_timeout_secs == config.health_check_timeout_secs,
        s.reloaded(config).rr_counter == s.rr_counter,
{
}

/// Two configurations that list the same backends lead to tables with the same backends,
/// whatever their settings; and two that differ in a setting lead to tables that differ in
/// it.
pub proof fn law_settings_and_backends_are_reloaded_independently(
    s: StateView,
    one: ConfigView,
    other: ConfigView,
)
    requires
        one.backends == other.backends,
    ensures
        s.reloaded(one).known == s.reloaded(other).known,
        s.reloaded(one).rotation == s.reloaded(other).rotation,
        s.reloaded(one).next_backend_id == s.reloaded(other).next_backend_id,
        one.algorithm != other.algorithm ==> s.reloaded(one).algorithm != s.reloaded(
            other,
        ).algorithm,
        one.health_check_path != other.health_check_path ==> s.reloaded(one).health_check_path
            != s.reloaded(other).health_check_path,
        one.health_check_timeout_secs != other.health_check_timeout_secs ==> s.reloaded(
            one,
        ).health_check_timeout_secs != s.reloaded(other).health_check_timeout_secs,
{
}

/// What a reload does to the backends. Let `stay` be the positions in the rotation, from
/// first to last, of all the backends whose address is listed, and `new` the positions in
/// the configuration of all the addresses that no backend in the rotation has.
///
/// Then the rotation is that of the backends at `stay`, in their order, followed by one
/// backend for each address at `new`, in their order. These are new, alive and idle, have
/// the address they were added for, and are numbered on from the next identifier. No backend
/// that the table had changes, and the summary's numbers are those of the added and of the
/// removed backends.
pub proof fn law_reload_keeps_what_is_listed_and_adds_what_is_new(
    s: StateView,
    config: ConfigView,
    stay: Seq<int>,
    new: Seq<int>,
)
    requires
        forall|i: int, j: int|
            0 <= i < j < stay.len() ==> #[trigger] stay[i] < #[trigger] stay[j],
        forall|i: int|
            0 <= i < stay.len() ==> 0 <= #[trigger] stay[i] < s.rotation.len()
                && config.backends.contains(s.known[s.rotation[stay[i]]].addr),
        forall|q: int|
            0 <= q < s.rotation.len() && config.backends.contains(
                s.known[#[trigger] s.rotation[q]].addr,
            ) ==> stay.contains(q),
        forall|i: int, j: int| 0 <= i < j < new.len() ==> #[trigger] new[i] < #[trigger] new[j],
        forall|i: int|
            0 <= i < new.len() ==> 0 <= #[trigger] new[i] < config.backends.len(),
        forall|i: int, r: int|
            0 <= i < new.len() && 0 <= r < s.rotation.len() ==> s.known[
                #[trigger] s.rotation[r]].addr != config.backends[#[trigger] new[i]],
        forall|q: int|
            0 <= q < config.backends.len() && (forall|r: int|
                0 <= r < s.rotation.len() ==> s.known[#[trigger] s.rotation[r]].addr
                    != config.backends[q]) ==> #[trigger] new.contains(q),
    ensures
        s.reloaded(config).rotation.len() == stay.len() + new.len(),
        forall|i: int|
            0 <= i < stay.len() ==> #[trigger] s.reloaded(config).rotation[i] == s.rotation[
                stay[i]],
        forall|j: int|
            0 <= j < new.len() ==> {
                let k = s.known.len() + j;
                let added = s.reloaded(config).known[k];
                &&& s.reloaded(config).rotation[stay.len() + j] == k
                &&& added.addr == config.backends[#[trigger] new[j]]
                &&& added.alive
                &&& added.active_connections == 0
                &&& added.id == (s.next_backend_id + j) % (usize::MAX + 1)
            },
        s.reloaded(config).known.len() == s.known.len() + new.len(),
        forall|k: int|
            0 <= k < s.known.len() ==> #[trigger] s.reloaded(config).known[k] == s.known[k],
        s.reloaded(config).next_backend_id == (s.next_backend_id + new.len()) % (usize::MAX + 1),
        s.added(config).len() == new.len(),
        s.removed(config).len() == s.rotation.len() - stay.len(),
{
    let t = s.reloaded(config);
    let known = s.known;
    let listed = config.backends.to_set();
    let addrs = crate::watcher::backend_addrs(s.backends());
    let current = addrs.to_set();
    let stays = |k: int| listed.contains(known[k].addr);
    let leaves = |k: int| !listed.contains(known[k].addr);
    let is_new = |addr: Seq<char>| !current.contains(addr);
    crate::table::lemma_filter_is_at(s.rotation, stays, stay);
    crate::table::lemma_filter_parts(s.rotation, stays, leaves);
    assert forall|r: int| 0 <= r < s.rotation.len() implies current.contains(
        known[#[trigger] s.rotation[r]].addr,
    ) by {
        assert(addrs[r] == known[s.rotation[r]].addr);
    }
    assert forall|i: int| 0 <= i < new.len() implies 0 <= #[trigger] new[i]
        < config.backends.len() && is_new(config.backends[new[i]]) by {
        if addrs.contains(config.backends[new[i]]) {
            let r = choose|r: int| 0 <= r < addrs.len() && addrs[r] == config.backends[new[i]];
            assert(known[s.rotation[r]].addr == config.backends[new[i]]);
        }
    }
    assert forall|q: int| 0 <= q < config.backends.len() && is_new(
        #[trigger] config.backends[q],
    ) implies new.contains(q) by {
        assert forall|r: int| 0 <= r < s.rotation.len() implies known[
            #[trigger] s.rotation[r]].addr != config.backends[q] by {
            assert(current.contains(known[s.rotation[r]].addr));
        }
    }
    crate::table::lemma_filter_is_at(config.backends, is_new, new);
    let kept = s.kept(config);
    let added = s.added(config);
    assert forall|i: int| 0 <= i < stay.len() implies #[trigger] t.rotation[i] == s.rotation[
        stay[i]] by {
        assert(t.rotation[i] == kept[i]);
    }
    assert forall|j: int| 0 <= j < new.len() implies {
        let k = known.len() + j;
        &&& t.rotation[stay.len() + j] == k
        &&& t.known[k].addr == config.backends[#[trigger] new[j]]
        &&& t.known[k].alive
        &&& t.known[k].active_connections == 0
        &&& t.known[k].id == (s.next_backend_id + j) % (usize::MAX + 1)
    } by {
        assert(added[j] == config.backends[new[j]]);
        assert(t.known[known.len() + j] == BackendView::fresh(
            crate::state::count_after(s.next_backend_id, j as nat),
            added[j],
        ));
    }
}

/// A reload puts no backend into the rotation twice.
pub proof fn law_reload_repeats_no_backend(s: StateView, config: ConfigView)
    requires
        s.wf(),
        s.rotation.no_duplicates(),
    ensures
        s.reloaded(config).rotation.no_duplicates(),
{
    let t = s.reloaded(config);
    let known = s.known;
    let listed = config.backends.to_set();
    let kept = s.kept(config);
    crate::laws::selection::lemma_filter_keeps_distinct(
        s.rotation,
        |k: int| listed.contains(known[k].addr),
    );
    lemma_reloaded_rotation(s, config);
    assert forall|i: int, j: int|
        0 <= i < t.rotation.len() && 0 <= j < t.rotation.len() && i != j implies t.rotation[i]
        != t.rotation[j] by {
        assert(i < kept.len() ==> t.rotation[i] == kept[i]);
        assert(j < kept.len() ==> t.rotation[j] == kept[j]);
        assert(is_kept(s, config, t.rotation[i]) || is_added(
            s,
            config,
            t.rotation[i],
            i - kept.len(),
        ));
        assert(is_kept(s, config, t.rotation[j]) || is_added(
            s,
            config,
            t.rotation[j],
            j - kept.len(),
        ));
    }
}

/// A reload keeps the table well-formed.
pub proof fn law_reload_keeps_the_table_well_formed(s: StateView, config: ConfigView)
    requires
        s.wf(),
    ensures
        s.reloaded(config).wf(),
{
    let t = s.reloaded(config);
    lemma_reloaded_rotation(s, config);
    assert forall|i: int| 0 <= i < t.rotation.len() implies 0 <= #[trigger] t.rotation[i]
        < t.known.len() by {
        if i < s.kept(config).len() {
            assert(s.holds(t.rotation[i]));
        }
    }
}

/// Handles stay good across a reload: what is read of a backend through its handle is the
/// same after the reload as before it, whether the backend stays in the rotation or not, and
/// whether or not it was in the rotation before.
pub proof fn law_reload_changes_no_backend(s: StateView, config: ConfigView, k: int)
    requires
        s.holds(k),
    ensures
        s.reloaded(config).holds(k),
        s.reloaded(config).known[k] == s.known[k],
{
}

/// Nothing is dropped that did not change: a backend that the new configuration still lists
/// stays in the rotation, with its identifier, its liveness and its requests in flight.
pub proof fn law_reload_leaves_listed_backends_alone(s: StateView, config: ConfigView, i: int)
    requires
        s.wf(),
        0 <= i < s.rotation.len(),
        config.backends.contains(s.backends()[i].addr),
    ensures
        s.reloaded(config).rotation.contains(s.rotation[i]),
        s.reloaded(config).known[s.rotation[i]] == s.backends()[i],
{
    let known = s.known;
    let listed = config.backends.to_set();
    s.rotation.lemma_filter_contains(|k: int| listed.contains(known[k].addr), i);
    let kept = s.kept(config);
    let p = choose|p: int| 0 <= p < kept.len() && kept[p] == s.rotation[i];
    assert(s.reloaded(config).rotation[p] == s.rotation[i]);
}

/// After a reload the rotation has a backend for each address that the configuration lists,
/// and for no other.
pub proof fn law_reload_serves_exactly_the_listed_addresses(
    s: StateView,
    config: ConfigView,
    addr: Seq<char>,
)
    requires
        s.wf(),
    ensures
        crate::watcher::backend_addrs(s.reloaded(config).backends()).contains(addr)
            <==> config.backends.contains(addr),
{
    let t = s.reloaded(config);
    let before = crate::watcher::backend_addrs(s.backends());
    let after = crate::watcher::backend_addrs(t.backends());
    lemma_reloaded_rotation(s, config);
    if after.contains(addr) {
        let i = choose|i: int| 0 <= i < after.len() && after[i] == addr;
        assert(t.known[t.rotation[i]].addr == addr);
    }
    if config.backends.contains(addr) {
        if before.contains(addr) {
            let i = choose|i: int| 0 <= i < before.len() && before[i] == addr;
            assert(s.backends()[i].addr == addr);
            law_reload_leaves_listed_backends_alone(s, config, i);
            let p = choose|p: int| 0 <= p < t.rotation.len() && t.rotation[p] == s.rotation[i];
            assert(after[p] == addr);
        } else {
            let i = choose|i: int| 0 <= i < config.backends.len() && config.backends[i] == addr;
            let current = before.to_set();
            config.backends.lemma_filter_contains(|addr: Seq<char>| !current.contains(addr), i);
            let added = s.added(config);
            let n = choose|n: int| 0 <= n < added.len() && added[n] == addr;
            let p = s.kept(config).len() + n;
            assert(t.known[t.rotation[p]].addr == added[n]);
            assert(after[p] == addr);
        }
    }
}

/// A backend that a reload adds takes requests at once: it is alive, and idle. It has a slot
/// that no backend had before.
pub proof fn law_added_backends_start_alive_and_idle(s: StateView, config: ConfigView, i: int)
    requires
        s.wf(),
        s.kept(config).len() <= i < s.reloaded(config).rotation.len(),
    ensures
        s.reloaded(config).backends()[i].alive,
        s.reloaded(config).backends()[i].active_connections == 0,
        !crate::watcher::backend_addrs(s.backends()).contains(
            s.reloaded(config).backends()[i].addr,
        ),
        !s.holds(s.reloaded(config).rotation[i]),
{
    lemma_reloaded_rotation(s, config);
    assert(s.reloaded(config).rotation[i] == s.known.len() + (i - s.kept(config).len()));
}

/// A list where everything qualifies is not changed by leaving out what does not.
proof fn lemma_filter_all<A>(s: Seq<A>, pred: spec_fn(A) -> bool)
    requires
        forall|i: int| 0 <= i < s.len() ==> pred(#[trigger] s[i]),
    ensures
        s.filter(pred) == s,
    decreases s.len(),
{
    reveal(Seq::filter);
    if s.len() > 0 {
        lemma_filter_all(s.drop_last(), pred);
        assert(s.drop_last().push(s.last()) =~= s);
    }
}

/// A list where nothing qualifies is left empty.
proof fn lemma_filter_none<A>(s: Seq<A>, pred: spec_fn(A) -> bool)
    requires
        forall|i: int| 0 <= i < s.len() ==> !pred(#[trigger] s[i]),
    ensures
        s.filter(pred) == Seq::<A>::empty(),
    decreases s.len(),
{
    reveal(Seq::filter);
    if s.len() > 0 {
        lemma_filter_none(s.drop_last(), pred);
    }
}

/// A table that serves exactly what the configuration lists, with its settings, is not
/// changed by a reload.
proof fn lemma_reload_of_what_is_served(s: StateView, config: ConfigView)
    requires
        s.algorithm == config.algorithm,
        s.health_check_path == config.health_check_path,
        s.health_check_timeout_secs == config.health_check_timeout_secs,
        forall|addr: Seq<char>|
            #[trigger] crate::watcher::backend_addrs(s.backends()).contains(addr)
                <==> config.backends.contains(addr),
    ensures
        s.reloaded(config) == s,
        s.added(config).len() == 0,
        s.removed(config).len() == 0,
{
    let known = s.known;
    let listed = config.backends.to_set();
    let addrs = crate::watcher::backend_addrs(s.backends());
    let current = addrs.to_set();
    assert forall|i: int| 0 <= i < s.rotation.len() implies listed.contains(
        known[#[trigger] s.rotation[i]].addr,
    ) by {
        assert(addrs[i] == known[s.rotation[i]].addr);
        assert(addrs.contains(known[s.rotation[i]].addr));
    }
    lemma_filter_all(s.rotation, |k: int| listed.contains(known[k].addr));
    lemma_filter_none(s.rotation, |k: int| !listed.contains(known[k].addr));
    assert forall|i: int| 0 <= i < config.backends.len() implies current.contains(
        #[trigger] config.backends[i],
    ) by {
        assert(addrs.contains(config.backends[i]));
    }
    lemma_filter_none(config.backends, |addr: Seq<char>| !current.contains(addr));
    vstd::arithmetic::div_mod::lemma_small_mod(
        s.next_backend_id as nat,
        (usize::MAX + 1) as nat,
    );
    assert(s.reloaded(config).known =~= s.known);
    assert(s.reloaded(config).rotation =~= s.rotation);
}

/// Saving the file again without a change changes nothing.
pub proof fn law_reload_is_idempotent(s: StateView, config: ConfigView)
    requires
        s.wf(),
    ensures
        s.reloaded(config).reloaded(config) == s.reloaded(config),
        s.reloaded(config).added(config).len() == 0,
        s.reloaded(config).removed(config).len() == 0,
{
    let t = s.reloaded(config);
    assert forall|addr: Seq<char>|
        #[trigger] crate::watcher::backend_addrs(t.backends()).contains(addr)
            <==> config.backends.contains(addr) by {
        law_reload_serves_exactly_the_listed_addresses(s, config, addr);
    }
    lemma_reload_of_what_is_served(t, config);
}

/// Reloading the configuration that the proxy started from changes nothing.
pub proof fn law_reload_of_the_initial_configuration_does_nothing(config: ConfigView)
    ensures
        StateView::initial(config).reloaded(config) == StateView::initial(config),
{
    let s = StateView::initial(config);
    assert(crate::watcher::backend_addrs(s.backends()) =~= config.backends);
    lemma_reload_of_what_is_served(s, config);
}

/// A backend that the new configuration does not list leaves the rotation at once, whether or
/// not requests are in flight to it: no request is routed to it any more.
pub proof fn law_a_removed_backend_leaves_the_rotation_at_once(
    s: StateView,
    config: ConfigView,
    k: int,
)
    requires
        s.wf(),
        s.holds(k),
        !config.backends.contains(s.known[k].addr),
    ensures
        !s.reloaded(config).rotation.contains(k),
        s.reloaded(config).pick() != Some(k),
{
    let t = s.reloaded(config);
    lemma_reloaded_rotation(s, config);
    if t.rotation.contains(k) {
        let i = choose|i: int| 0 <= i < t.rotation.len() && t.rotation[i] == k;
        assert(t.rotation[i] == k);
    }
    if t.pick() == Some(k) {
        crate::laws::selection::law_only_alive_backends_are_picked(t, k);
    }
}

/// A backend that is out of the rotation stays out of it: its address, listed again, gets a
/// fresh backend in a slot of its own.
pub proof fn law_a_departed_backend_does_not_come_back(s: StateView, config: ConfigView, k: int)
    requires
        s.wf(),
        s.holds(k),
        !s.rotation.contains(k),
    ensures
        !s.reloaded(config).rotation.contains(k),
{
    let t = s.reloaded(config);
    lemma_reloaded_rotation(s, config);
    if t.rotation.contains(k) {
        let i = choose|i: int| 0 <= i < t.rotation.len() && t.rotation[i] == k;
        assert(t.rotation[i] == k);
    }
}

/// A backend that a reload removes while requests are in flight to it keeps its count, and
/// as these requests end the count goes down, to zero when all of them have ended. The
/// rotation and the backends in it do not notice.
pub proof fn law_a_removed_backend_keeps_its_count(
    s: StateView,
    config: ConfigView,
    k: int,
    n: nat,
)
    requires
        s.wf(),
        s.holds(k),
        !config.backends.contains(s.known[k].addr),
        n <= s.known[k].active_connections,
    ensures
        ({
            let t = s.reloaded(config);
            let after = crate::laws::health::after_releases(t, k, n);
            &&& t.known[k] == s.known[k]
            &&& after.known[k] == (BackendView {
                active_connections: (s.known[k].active_connections - n) as usize,
                ..s.known[k]
            })
            &&& after.rotation == t.rotation
            &&& after.backends() == t.backends()
        }),
{
    let t = s.reloaded(config);
    let after = crate::laws::health::after_releases(t, k, n);
    crate::laws::health::law_counts_go_down_to_zero(t, k, n);
    law_reload_keeps_the_table_well_formed(s, config);
    law_a_removed_backend_leaves_the_rotation_at_once(s, config, k);
    assert forall|i: int| 0 <= i < t.rotation.len() implies #[trigger] after.backends()[i]
        == t.backends()[i] by {
        assert(t.rotation.contains(t.rotation[i]));
    }
    assert(after.backends() =~= t.backends());
}

} // verus!

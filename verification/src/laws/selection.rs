//! Which backend a request goes to.

use vstd::prelude::*;

use crate::config::Algorithm;
use crate::state::StateView;

verus! {

/// A request finds a backend if and only if some backend in the rotation is alive.
pub proof fn law_refused_only_when_all_are_down(s: StateView)
    ensures
        s.pick() is None <==> forall|i: int|
            0 <= i < s.backends().len() ==> !(#[trigger] s.backends()[i]).alive,
{
    let known = s.known;
    let pred = |k: int| known[k].alive;
    if s.pick() is None {
        assert forall|i: int| 0 <= i < s.backends().len() implies !(
        #[trigger] s.backends()[i]).alive by {
            if s.backends()[i].alive {
                s.rotation.lemma_filter_contains(pred, i);
                assert(s.alive().contains(s.rotation[i]));
            }
        }
    } else {
        let k = s.alive()[0];
        s.rotation.lemma_filter_pred(pred, 0);
        assert(s.alive().contains(k));
        s.rotation.lemma_filter_contains_rev(pred, k);
        let i = choose|i: int| 0 <= i < s.rotation.len() && s.rotation[i] == k;
        assert(s.backends()[i].alive);
    }
}

/// A request only ever goes to a backend that is in the rotation and alive.
pub proof fn law_only_alive_backends_are_picked(s: StateView, k: int)
    requires
        s.pick() == Some(k),
    ensures
        s.known[k].alive,
        s.rotation.contains(k),
        s.wf() ==> s.holds(k),
{
    lemma_pick_index_in_range(s);
    let known = s.known;
    let pred = |k: int| known[k].alive;
    s.rotation.lemma_filter_pred(pred, s.pick_index());
    assert(s.alive().contains(k));
    s.rotation.lemma_filter_contains_rev(pred, k);
}

/// Under least-connections, no alive backend has fewer requests in flight than the one that
/// is picked, and those before it in the rotation all have more.
pub proof fn law_least_connections_picks_the_first_idlest(s: StateView)
    requires
        s.algorithm == Algorithm::LeastConnections,
        s.alive().len() > 0,
    ensures
        0 <= s.pick_index() < s.alive().len(),
        s.pick() == Some(s.alive()[s.pick_index()]),
        forall|j: int|
            0 <= j < s.alive().len() ==> s.known[s.pick()->0].active_connections <= s.known[
                #[trigger] s.alive()[j]].active_connections,
        forall|j: int|
            0 <= j < s.pick_index() ==> s.known[s.pick()->0].active_connections < s.known[
                #[trigger] s.alive()[j]].active_connections,
{
    let _ = crate::balancer::lemma_least_loaded_exists(s.candidates());
    let i = s.pick_index();
    assert(crate::balancer::least_loaded(s.candidates(), i));
    assert forall|j: int| 0 <= j < s.alive().len() implies s.known[s.alive()[i]].active_connections
        <= s.known[#[trigger] s.alive()[j]].active_connections by {
        assert(s.candidates()[j] == s.known[s.alive()[j]]);
    }
    assert forall|j: int| 0 <= j < i implies s.known[s.alive()[i]].active_connections < s.known[
        #[trigger] s.alive()[j]].active_connections by {
        assert(s.candidates()[j] == s.known[s.alive()[j]]);
    }
}

/// The pick is a position in the list of alive backends.
proof fn lemma_pick_index_in_range(s: StateView)
    requires
        s.alive().len() > 0,
    ensures
        0 <= s.pick_index() < s.alive().len(),
{
    let _ = crate::balancer::lemma_least_loaded_exists(s.candidates());
}

/// The alive list is the alive part of the rotation: with `p` the positions in the rotation
/// of all the alive backends, from first to last, it has one entry for each of these
/// positions, and that is the slot there. So every alive backend is in it once per place in
/// the rotation, nothing else is, and the order of the rotation is kept.
pub proof fn law_every_alive_place_is_listed_once_and_in_order(s: StateView, p: Seq<int>)
    requires
        forall|i: int, j: int| 0 <= i < j < p.len() ==> #[trigger] p[i] < #[trigger] p[j],
        forall|i: int|
            0 <= i < p.len() ==> 0 <= #[trigger] p[i] < s.rotation.len() && s.known[
                s.rotation[p[i]]].alive,
        forall|q: int|
            0 <= q < s.rotation.len() && s.known[#[trigger] s.rotation[q]].alive ==> p.contains(q),
    ensures
        s.alive().len() == p.len(),
        forall|i: int| 0 <= i < p.len() ==> #[trigger] s.alive()[i] == s.rotation[p[i]],
{
    let known = s.known;
    crate::table::lemma_filter_is_at(s.rotation, |k: int| known[k].alive, p);
}

/// A rotation without repeated slots has an alive list without repeated slots.
pub proof fn law_no_alive_backend_is_listed_twice(s: StateView)
    requires
        s.rotation.no_duplicates(),
    ensures
        s.alive().no_duplicates(),
{
    let known = s.known;
    lemma_filter_keeps_distinct(s.rotation, |k: int| known[k].alive);
}

/// Leaving elements out makes no two equal.
pub proof fn lemma_filter_keeps_distinct<A>(s: Seq<A>, pred: spec_fn(A) -> bool)
    requires
        s.no_duplicates(),
    ensures
        s.filter(pred).no_duplicates(),
    decreases s.len(),
{
    reveal(Seq::filter);
    if s.len() > 0 {
        let rest = s.drop_last();
        lemma_filter_keeps_distinct(rest, pred);
        let kept = rest.filter(pred);
        assert forall|i: int| 0 <= i < kept.len() implies #[trigger] kept[i] != s.last() by {
            assert(kept.contains(kept[i]));
            rest.lemma_filter_contains_rev(pred, kept[i]);
            let q = choose|q: int| 0 <= q < rest.len() && rest[q] == kept[i];
            assert(s[q] != s[s.len() - 1]);
        }
    }
}

/// Where some backend in the rotation is alive a request finds one, and where none is it
/// finds none.
pub proof fn law_an_alive_place_is_all_a_request_needs(s: StateView, i: int)
    ensures
        0 <= i < s.rotation.len() && s.known[s.rotation[i]].alive ==> s.pick() is Some,
        (forall|j: int| 0 <= j < s.rotation.len() ==> !s.known[#[trigger] s.rotation[j]].alive)
            ==> s.pick() is None,
{
    law_refused_only_when_all_are_down(s);
    if 0 <= i < s.rotation.len() {
        assert(s.backends()[i] == s.known[s.rotation[i]]);
    }
    assert forall|j: int| 0 <= j < s.backends().len() implies #[trigger] s.backends()[j]
        == s.known[s.rotation[j]] by {}
}

/// Round-robin goes by turns: with `p` the positions in the rotation of all the alive
/// backends, from first to last, a request goes to the one whose turn the counter gives,
/// counted round these positions.
pub proof fn law_round_robin_goes_by_turns(s: StateView, p: Seq<int>)
    requires
        s.algorithm == Algorithm::RoundRobin,
        p.len() > 0,
        forall|i: int, j: int| 0 <= i < j < p.len() ==> #[trigger] p[i] < #[trigger] p[j],
        forall|i: int|
            0 <= i < p.len() ==> 0 <= #[trigger] p[i] < s.rotation.len() && s.known[
                s.rotation[p[i]]].alive,
        forall|q: int|
            0 <= q < s.rotation.len() && s.known[#[trigger] s.rotation[q]].alive ==> p.contains(q),
    ensures
        s.pick() == Some(s.rotation[p[s.rr_counter as int % p.len() as int]]),
{
    law_every_alive_place_is_listed_once_and_in_order(s, p);
    let turn = s.rr_counter as int % p.len() as int;
    vstd::arithmetic::div_mod::lemma_mod_bound(s.rr_counter as int, p.len() as int);
    assert(s.alive()[turn] == s.rotation[p[turn]]);
}

/// Round-robin gives no backend a second turn before every other has had one: in a rotation
/// without repeated slots, two tables that differ in the counter alone, and in that by less
/// than the number of alive backends, send their requests to different backends.
pub proof fn law_round_robin_goes_to_different_backends(
    s: StateView,
    p: Seq<int>,
    first: usize,
    second: usize,
)
    requires
        s.algorithm == Algorithm::RoundRobin,
        s.rotation.no_duplicates(),
        forall|i: int, j: int| 0 <= i < j < p.len() ==> #[trigger] p[i] < #[trigger] p[j],
        forall|i: int|
            0 <= i < p.len() ==> 0 <= #[trigger] p[i] < s.rotation.len() && s.known[
                s.rotation[p[i]]].alive,
        forall|q: int|
            0 <= q < s.rotation.len() && s.known[#[trigger] s.rotation[q]].alive ==> p.contains(q),
        first < second < first + p.len(),
    ensures
        (StateView { rr_counter: first, ..s }).pick() is Some,
        (StateView { rr_counter: second, ..s }).pick() is Some,
        (StateView { rr_counter: first, ..s }).pick() != (StateView {
            rr_counter: second,
            ..s
        }).pick(),
{
    let len = p.len() as int;
    let c = first as int;
    law_round_robin_goes_by_turns(StateView { rr_counter: first, ..s }, p);
    law_round_robin_goes_by_turns(StateView { rr_counter: second, ..s }, p);
    lemma_mod_step(c, second - first, len);
    vstd::arithmetic::div_mod::lemma_mod_bound(c, len);
    vstd::arithmetic::div_mod::lemma_mod_bound(second as int, len);
    let a = c % len;
    let b = second as int % len;
    assert(a != b);
    assert(p[a] != p[b]);
    assert(s.rotation[p[a]] != s.rotation[p[b]]);
}

/// Round-robin is fair to backends, not only to places in a list: in a rotation without
/// repeated slots, as many picks in a row as there are alive backends all go to different
/// ones.
pub proof fn law_a_round_goes_to_different_backends(s: StateView, p: Seq<int>, m: nat, n: nat)
    requires
        s.algorithm == Algorithm::RoundRobin,
        s.rotation.no_duplicates(),
        forall|i: int, j: int| 0 <= i < j < p.len() ==> #[trigger] p[i] < #[trigger] p[j],
        forall|i: int|
            0 <= i < p.len() ==> 0 <= #[trigger] p[i] < s.rotation.len() && s.known[
                s.rotation[p[i]]].alive,
        forall|q: int|
            0 <= q < s.rotation.len() && s.known[#[trigger] s.rotation[q]].alive ==> p.contains(q),
        m < n < p.len(),
        s.rr_counter + n <= usize::MAX || (usize::MAX + 1) % (p.len() as int) == 0,
    ensures
        after_picks(s, m).pick() is Some,
        after_picks(s, n).pick() is Some,
        after_picks(s, m).pick() != after_picks(s, n).pick(),
{
    let len = p.len() as int;
    let c = s.rr_counter as int;
    law_every_alive_place_is_listed_once_and_in_order(s, p);
    law_no_alive_backend_is_listed_twice(s);
    lemma_turn(s, m);
    lemma_turn(s, n);
    lemma_mod_step(c + m, n - m, len);
    law_round_robin_follows_the_counter(s, m);
    law_round_robin_follows_the_counter(s, n);
    vstd::arithmetic::div_mod::lemma_mod_bound(c + m, len);
    vstd::arithmetic::div_mod::lemma_mod_bound(c + n, len);
    let a = after_picks(s, m).pick_index();
    let b = after_picks(s, n).pick_index();
    assert(a != b);
    assert(s.alive()[a] != s.alive()[b]);
}

/// Least-connections goes to an alive backend with the fewest requests in flight, and to the
/// first such place in the rotation.
pub proof fn law_least_connections_goes_to_the_first_idlest_place(s: StateView, i: int)
    requires
        s.algorithm == Algorithm::LeastConnections,
        0 <= i < s.rotation.len(),
        s.known[s.rotation[i]].alive,
        forall|j: int|
            0 <= j < s.rotation.len() && s.known[#[trigger] s.rotation[j]].alive ==> s.known[
                s.rotation[i]].active_connections <= s.known[s.rotation[j]].active_connections,
        forall|j: int|
            0 <= j < i && s.known[#[trigger] s.rotation[j]].alive ==> s.known[
                s.rotation[i]].active_connections < s.known[s.rotation[j]].active_connections,
    ensures
        s.pick() == Some(s.rotation[i]),
{
    let known = s.known;
    let pred = |k: int| known[k].alive;
    let before = s.rotation.take(i);
    let upto = s.rotation.take(i + 1);
    let n = before.filter(pred).len() as int;
    crate::table::lemma_filter_of_next(s.rotation, i, pred);
    lemma_filter_of_take(s.rotation, i + 1, pred);
    assert(upto.filter(pred)[n] == s.rotation[i]);
    assert(s.alive()[n] == s.rotation[i]);
    let alive = s.alive();
    assert forall|j: int| 0 <= j < alive.len() implies known[
        s.rotation[i]].active_connections <= known[#[trigger] alive[j]].active_connections by {
        s.rotation.lemma_filter_pred(pred, j);
        assert(alive.contains(alive[j]));
        s.rotation.lemma_filter_contains_rev(pred, alive[j]);
        let q = choose|q: int| 0 <= q < s.rotation.len() && s.rotation[q] == alive[j];
        assert(s.rotation[q] == alive[j]);
    }
    assert forall|j: int| 0 <= j < n implies known[s.rotation[i]].active_connections < known[
        #[trigger] alive[j]].active_connections by {
        let early = before.filter(pred);
        assert(alive[j] == upto.filter(pred)[j]);
        assert(alive[j] == early[j]);
        before.lemma_filter_pred(pred, j);
        assert(early.contains(early[j]));
        before.lemma_filter_contains_rev(pred, early[j]);
        let q = choose|q: int| 0 <= q < before.len() && before[q] == early[j];
        assert(s.rotation[q] == early[j]);
    }
    law_least_connections_picks_the_first_idlest(s);
    let m = s.pick_index();
    assert(known[alive[m]].active_connections == known[alive[n]].active_connections);
    if m < n {
        assert(known[alive[n]].active_connections < known[alive[m]].active_connections);
    }
    if n < m {
        assert(known[alive[m]].active_connections < known[alive[n]].active_connections);
    }
}

/// What qualifies at the start of a list comes first in what qualifies of the whole.
proof fn lemma_filter_of_take<A>(s: Seq<A>, n: int, pred: spec_fn(A) -> bool)
    requires
        0 <= n <= s.len(),
    ensures
        s.take(n).filter(pred).len() <= s.filter(pred).len(),
        forall|j: int|
            0 <= j < s.take(n).filter(pred).len() ==> #[trigger] s.filter(pred)[j] == s.take(
                n,
            ).filter(pred)[j],
    decreases s.len() - n,
{
    if n == s.len() {
        assert(s.take(n) =~= s);
    } else {
        lemma_filter_of_take(s, n + 1, pred);
        crate::table::lemma_filter_of_next(s, n, pred);
        let shorter = s.take(n).filter(pred);
        let longer = s.take(n + 1).filter(pred);
        assert forall|j: int| 0 <= j < shorter.len() implies #[trigger] s.filter(pred)[j]
            == shorter[j] by {
            assert(longer[j] == shorter[j]);
        }
    }
}

/// Picking moves the round-robin counter on by one, round the machine's range, where
/// round-robin finds an alive backend. It changes nothing else, and where the algorithm is
/// another or no backend is alive it changes nothing at all.
pub proof fn law_a_pick_moves_the_counter_alone(s: StateView)
    ensures
        s.after_pick().known == s.known,
        s.after_pick().rotation == s.rotation,
        s.after_pick().algorithm == s.algorithm,
        s.after_pick().health_check_path == s.health_check_path,
        s.after_pick().health_check_timeout_secs == s.health_check_timeout_secs,
        s.after_pick().next_backend_id == s.next_backend_id,
        s.algorithm == Algorithm::LeastConnections ==> s.after_pick().rr_counter == s.rr_counter,
        (forall|j: int| 0 <= j < s.rotation.len() ==> !s.known[#[trigger] s.rotation[j]].alive)
            ==> s.after_pick().rr_counter == s.rr_counter,
        s.algorithm == Algorithm::RoundRobin && (exists|j: int|
            0 <= j < s.rotation.len() && s.known[#[trigger] s.rotation[j]].alive)
            ==> s.after_pick().rr_counter == (s.rr_counter + 1) % (usize::MAX + 1),
{
    law_an_alive_place_is_all_a_request_needs(s, 0);
    if exists|j: int| 0 <= j < s.rotation.len() && s.known[#[trigger] s.rotation[j]].alive {
        let j = choose|j: int| 0 <= j < s.rotation.len() && s.known[#[trigger] s.rotation[j]].alive;
        law_an_alive_place_is_all_a_request_needs(s, j);
    }
    if s.rr_counter < usize::MAX {
        vstd::arithmetic::div_mod::lemma_small_mod(
            (s.rr_counter + 1) as nat,
            (usize::MAX + 1) as nat,
        );
    } else {
        vstd::arithmetic::div_mod::lemma_mod_self_0(usize::MAX + 1);
    }
}

/// The table after `n` picks in a row.
pub open spec fn after_picks(s: StateView, n: nat) -> StateView
    decreases n,
{
    if n == 0 {
        s
    } else {
        after_picks(s, (n - 1) as nat).after_pick()
    }
}

/// The round-robin counter counts the picks, and nothing else in the table changes: the
/// pick after `n` others is the one at the counter's turn, counted round the list of alive
/// backends.
pub proof fn law_round_robin_follows_the_counter(s: StateView, n: nat)
    requires
        s.algorithm == Algorithm::RoundRobin,
        s.alive().len() > 0,
    ensures
        after_picks(s, n) == (StateView {
            rr_counter: crate::state::count_after(s.rr_counter, n),
            ..s
        }),
        after_picks(s, n).pick_index() == crate::state::count_after(s.rr_counter, n) as int
            % s.alive().len() as int,
        after_picks(s, n).pick() == Some(s.alive()[after_picks(s, n).pick_index()]),
    decreases n,
{
    if n == 0 {
        vstd::arithmetic::div_mod::lemma_small_mod(
            s.rr_counter as nat,
            (usize::MAX + 1) as nat,
        );
    } else {
        law_round_robin_follows_the_counter(s, (n - 1) as nat);
        crate::state::lemma_count_after_step(s.rr_counter, (n - 1) as nat);
        assert(after_picks(s, (n - 1) as nat).alive() == s.alive());
    }
    assert(after_picks(s, n).alive() == s.alive());
}

/// `n` picks in a row keep their turn: the round-robin counter does not go round at the end
/// of the machine's range on the way, or does so without losing step because the range is a
/// multiple of the length of the list.
pub open spec fn keeps_step(s: StateView, n: nat) -> bool {
    ||| s.rr_counter + n <= usize::MAX
    ||| (usize::MAX + 1) % s.alive().len() as int == 0
}

/// Where the turn is kept, so many picks move so many places on.
proof fn lemma_turn(s: StateView, n: nat)
    requires
        s.algorithm == Algorithm::RoundRobin,
        s.alive().len() > 0,
        keeps_step(s, n),
    ensures
        after_picks(s, n).pick_index() == (s.rr_counter + n) % (s.alive().len() as int),
{
    let range = usize::MAX + 1;
    let len = s.alive().len() as int;
    law_round_robin_follows_the_counter(s, n);
    if s.rr_counter + n <= usize::MAX {
        vstd::arithmetic::div_mod::lemma_small_mod((s.rr_counter + n) as nat, range as nat);
    } else {
        vstd::arithmetic::div_mod::lemma_fundamental_div_mod(range, len);
        let q = range / len;
        assert(q > 0) by (nonlinear_arith)
            requires
                range == len * q,
                range > 0,
                len > 0,
        ;
        vstd::arithmetic::div_mod::lemma_mod_mod(s.rr_counter + n, len, q);
    }
}

/// Round-robin goes through the alive backends in order and round again: while nothing else
/// changes, the pick after `n` others is `n` places further on, counted round the list.
pub proof fn law_round_robin_goes_in_order(s: StateView, n: nat)
    requires
        s.algorithm == Algorithm::RoundRobin,
        s.alive().len() > 0,
        keeps_step(s, n),
    ensures
        after_picks(s, n).pick() == Some(
            s.alive()[(s.pick_index() + n) % (s.alive().len() as int)],
        ),
{
    let len = s.alive().len() as int;
    lemma_turn(s, n);
    law_round_robin_follows_the_counter(s, n);
    vstd::arithmetic::div_mod::lemma_add_mod_noop(s.rr_counter as int, n as int, len);
    vstd::arithmetic::div_mod::lemma_mod_twice(s.rr_counter as int, len);
    vstd::arithmetic::div_mod::lemma_add_mod_noop(s.pick_index(), n as int, len);
}

/// Adding less than `len` to a number moves its remainder on by as much, at most once round.
proof fn lemma_mod_step(c: int, m: int, len: int)
    requires
        0 <= m < len,
    ensures
        (c + m) % len == (if c % len + m < len {
            c % len + m
        } else {
            c % len + m - len
        }),
{
    vstd::arithmetic::div_mod::lemma_fundamental_div_mod(c, len);
    let q = c / len;
    let start = c % len;
    if start + m < len {
        assert(c + m == q * len + (start + m)) by (nonlinear_arith)
            requires
                c == len * q + start,
        ;
        vstd::arithmetic::div_mod::lemma_fundamental_div_mod_converse(c + m, len, q, start + m);
    } else {
        assert(c + m == (q + 1) * len + (start + m - len)) by (nonlinear_arith)
            requires
                c == len * q + start,
        ;
        vstd::arithmetic::div_mod::lemma_fundamental_div_mod_converse(
            c + m,
            len,
            q + 1,
            start + m - len,
        );
    }
}

/// Round-robin is fair: while nothing else changes, as many picks in a row as there are
/// alive backends go to each of them exactly once.
pub proof fn law_round_robin_is_fair(s: StateView, i: int)
    requires
        s.algorithm == Algorithm::RoundRobin,
        0 <= i < s.alive().len(),
        keeps_step(s, (s.alive().len() - 1) as nat),
    ensures
        exists|n: nat|
            {
                &&& n < s.alive().len()
                &&& #[trigger] after_picks(s, n).pick_index() == i
                &&& forall|m: nat|
                    m < s.alive().len() && #[trigger] after_picks(s, m).pick_index() == i ==> m
                        == n
            },
{
    let len = s.alive().len() as int;
    let c = s.rr_counter as int;
    let start = c % len;
    let n = if start <= i {
        (i - start) as nat
    } else {
        (i - start + len) as nat
    };
    assert forall|m: nat| m < len implies #[trigger] after_picks(s, m).pick_index() == (if start + m
        < len {
        start + m
    } else {
        start + m - len
    }) by {
        lemma_turn(s, m);
        lemma_mod_step(c, m as int, len);
    }
    vstd::arithmetic::div_mod::lemma_mod_bound(c, len);
    assert(after_picks(s, n).pick_index() == i);
}

} // verus!

//! Configuration hot reload: when a change to the file counts, and how a new
//! configuration is applied to the live routing table.

use vstd::prelude::*;
use vstd::hash_set::StringHashSet;

use crate::config::Algorithm;
use crate::config::BackendConfig;
use crate::config::Config;
use crate::config::ConfigError;
use crate::config::ConfigView;
use crate::state::AppState;
use crate::state::Backend;
use crate::state::BackendView;
use crate::state::StateView;
use crate::table::BackendTable;

verus! {

/// What the file watcher reports.
#[derive(Debug)]
pub enum WatchEvent {
    /// The file, or its metadata, was modified.
    Modified,
    /// The file was created.
    Created,
    /// Anything else, such as an access or a removal.
    Other,
    /// The watch itself failed.
    Failed,
}

/// What to do about a `WatchEvent`.
#[derive(Debug)]
pub enum WatchAction {
    /// Wait so many milliseconds, then reload the file.
    ReloadAfter(u64),
    /// Nothing.
    Ignore,
    /// Report that the watch failed.
    Report,
}

/// How long to wait after a change before reading the file. Editors often emit several
/// rapid events for a single save (write + metadata touch); the pause avoids reading the
/// file mid-write, and the events that come in during it lead to no reloads of their own.
pub const DEBOUNCE_MILLIS: u64 = 150;

impl WatchEvent {
    /// The file may hold something new.
    pub open spec fn is_change(self) -> bool {
        self is Modified || self is Created
    }
}

/// What to do about an event, given whether a reload is already waiting.
pub open spec fn reaction(pending: bool, event: WatchEvent) -> WatchAction {
    match event {
        WatchEvent::Modified | WatchEvent::Created => if pending {
            WatchAction::Ignore
        } else {
            WatchAction::ReloadAfter(150)
        },
        WatchEvent::Other => WatchAction::Ignore,
        WatchEvent::Failed => WatchAction::Report,
    }
}

/// Merges the events of one save into one reload.
#[derive(Debug)]
pub struct Debouncer {
    pending: bool,
}

impl Debouncer {
    /// A reload is waiting for its pause to end.
    pub closed spec fn is_pending(&self) -> bool {
        self.pending
    }

    /// A debouncer with no reload waiting.
    pub fn new() -> (debouncer: Self)
        ensures
            !debouncer.is_pending(),
    {
        Debouncer { pending: false }
    }

    /// What to do about an event: the first change leads to a reload after the pause, and
    /// further changes are covered by that reload while it waits. Failures are reported,
    /// and everything else is ignored.
    pub fn on_event(&mut self, event: WatchEvent) -> (action: WatchAction)
        ensures
            action == reaction(old(self).is_pending(), event),
            final(self).is_pending() == (old(self).is_pending() || event.is_change()),
            event is Modified || event is Created ==> {
                &&& final(self).is_pending()
                &&& !old(self).is_pending() ==> action == WatchAction::ReloadAfter(150)
                &&& old(self).is_pending() ==> action == WatchAction::Ignore
            },
            event is Other || event is Failed ==> final(self).is_pending() == old(
                self,
            ).is_pending(),
            event is Other ==> action == WatchAction::Ignore,
            event is Failed ==> action == WatchAction::Report,
    {
        match event {
            WatchEvent::Modified | WatchEvent::Created => {
                if self.pending {
                    WatchAction::Ignore
                } else {
                    self.pending = true;
                    WatchAction::ReloadAfter(DEBOUNCE_MILLIS)
                }
            },
            WatchEvent::Other => WatchAction::Ignore,
            WatchEvent::Failed => WatchAction::Report,
        }
    }

    /// The pause is over. To be called right before the file is read, so that a change
    /// during the reading leads to another reload.
    pub fn on_reload(&mut self)
        ensures
            !final(self).is_pending(),
    {
        self.pending = false;
    }
}

/// The addresses of a list of backends, in order.
pub open spec fn backend_addrs(backends: Seq<BackendView>) -> Seq<Seq<char>> {
    Seq::new(backends.len(), |i: int| backends[i].addr)
}

/// The addresses that are not in `known`, in their order.
pub open spec fn unknown_only(addrs: Seq<Seq<char>>, known: Set<Seq<char>>) -> Seq<Seq<char>> {
    addrs.filter(|addr: Seq<char>| !known.contains(addr))
}

impl StateView {
    /// The slots of the backends that a reload keeps in the rotation.
    pub open spec fn kept(self, config: ConfigView) -> Seq<int> {
        crate::table::listed_slots(self.known, self.rotation, config.backends.to_set())
    }

    /// The slots of the backends that a reload takes out of the rotation.
    pub open spec fn removed(self, config: ConfigView) -> Seq<int> {
        crate::table::unlisted_slots(self.known, self.rotation, config.backends.to_set())
    }

    /// The addresses that a reload adds a backend for: those that no backend in the rotation
    /// has. A backend that left the rotation earlier does not come back; its address, listed
    /// again, gets a fresh one.
    pub open spec fn added(self, config: ConfigView) -> Seq<Seq<char>> {
        unknown_only(config.backends, backend_addrs(self.backends()).to_set())
    }

    /// The table after a reload: in the rotation the listed backends in their order, then a
    /// fresh backend for each newly listed address; the configured algorithm and
    /// health-check settings; and the round-robin counter as it was. No backend changes,
    /// whether it stays in the rotation or not.
    pub open spec fn reloaded(self, config: ConfigView) -> StateView {
        let added = self.added(config);
        StateView {
            known: self.known + crate::state::fresh_backends(self.next_backend_id, added),
            rotation: self.kept(config) + crate::state::slots_from(
                self.known.len(),
                added.len(),
            ),
            algorithm: config.algorithm,
            health_check_path: config.health_check_path,
            health_check_timeout_secs: config.health_check_timeout_secs,
            rr_counter: self.rr_counter,
            next_backend_id: crate::state::count_after(self.next_backend_id, added.len()),
        }
    }
}

/// What a reload did.
#[derive(Debug)]
pub struct ReloadSummary {
    pub total: usize,
    pub added: usize,
    pub removed: usize,
    pub algorithm: Algorithm,
}

/// The addresses in `entries`.
fn configured_addrs(entries: &Vec<BackendConfig>) -> (addrs: StringHashSet)
    ensures
        addrs@ == crate::config::addresses(entries@).to_set(),
{
    let mut addrs = StringHashSet::new();
    let ghost listed = crate::config::addresses(entries@);
    let mut i: usize = 0;
    assert(addrs@ =~= listed.take(0).to_set());
    while i < entries.len()
        invariant
            i <= entries@.len(),
            listed == crate::config::addresses(entries@),
            addrs@ == listed.take(i as int).to_set(),
        decreases entries@.len() - i,
    {
        addrs.insert(entries[i].addr.clone());
        proof {
            lemma_to_set_of_next(listed, i as int);
        }
        i += 1;
    }
    assert(listed.take(i as int) =~= listed);
    addrs
}

/// The addresses that the backends in the rotation have.
fn current_addrs(backends: &BackendTable) -> (addrs: StringHashSet)
    ensures
        addrs@ == backend_addrs(
            crate::state::backends_in(backends@.known, backends@.rotation),
        ).to_set(),
{
    let mut addrs = StringHashSet::new();
    let ghost current = backend_addrs(
        crate::state::backends_in(backends@.known, backends@.rotation),
    );
    let mut i: usize = 0;
    assert(addrs@ =~= current.take(0).to_set());
    while i < backends.len()
        invariant
            i <= backends@.rotation.len(),
            current == backend_addrs(
                crate::state::backends_in(backends@.known, backends@.rotation),
            ),
            addrs@ == current.take(i as int).to_set(),
        decreases backends@.rotation.len() - i,
    {
        addrs.insert(backends.backend(i).addr.clone());
        proof {
            lemma_to_set_of_next(current, i as int);
        }
        i += 1;
    }
    assert(current.take(i as int) =~= current);
    addrs
}

/// One element more in a prefix is one element more in its set.
proof fn lemma_to_set_of_next<A>(s: Seq<A>, n: int)
    requires
        0 <= n < s.len(),
    ensures
        s.take(n + 1).to_set() == s.take(n).to_set().insert(s[n]),
{
    let less = s.take(n);
    let more = s.take(n + 1);
    assert(more =~= less.push(s[n]));
    assert forall|a: A| #[trigger] more.to_set().contains(a) <==> less.to_set().insert(
        s[n],
    ).contains(a) by {
        if less.contains(a) {
            let k = choose|k: int| 0 <= k < less.len() && less[k] == a;
            assert(more[k] == a);
        }
        assert(more[n] == s[n]);
    }
    assert(more.to_set() =~= less.to_set().insert(s[n]));
}

/// Applies `config` to the live table: drops the backends that it no longer lists, adds
/// those that it newly lists, and leaves the others alone.
///
/// A dropped backend leaves the rotation at once, even with requests in flight. They still
/// finish, and are counted off in its slot. A gentler version would mark it as draining and
/// remove it once its count reaches zero.
fn apply(state: &mut AppState, config: &Config) -> (summary: ReloadSummary)
    ensures
        final(state)@ == old(state)@.reloaded(config@),
        summary.total == final(state)@.rotation.len(),
        summary.added == old(state)@.added(config@).len(),
        summary.removed == old(state)@.removed(config@).len(),
        summary.algorithm == config@.algorithm,
        final(state)@.wf(),
        final(state).algorithm == config.algorithm,
        final(state).health_check_path@ == config.health_check_path@,
        final(state).health_check_timeout_secs == config.health_check_timeout_secs,
        final(state).rr_counter == old(state).rr_counter,
{
    let ghost start = state@;
    let ghost listed = config@.backends;
    state.algorithm = config.algorithm;
    state.health_check_path = config.health_check_path.clone();
    state.health_check_timeout_secs = config.health_check_timeout_secs;

    let existing_addrs = current_addrs(&state.backends);
    let new_addrs = configured_addrs(&config.backends);
    let ghost existing = backend_addrs(start.backends()).to_set();
    let ghost first_id = start.next_backend_id;
    let removed: usize = state.backends.keep_listed(&new_addrs);

    let mut added: usize = 0;
    let mut i: usize = 0;
    proof {
        reveal(Seq::filter);
        assert(unknown_only(listed.take(0), existing) =~= Seq::empty());
        assert(state@.known =~= start.known + crate::state::fresh_backends(
            first_id,
            unknown_only(listed.take(0), existing),
        ));
        assert(state@.rotation =~= start.kept(config@) + crate::state::slots_from(
            start.known.len(),
            0,
        ));
        vstd::arithmetic::div_mod::lemma_small_mod(first_id as nat, (usize::MAX + 1) as nat);
    }
    while i < config.backends.len()
        invariant
            i <= config.backends@.len(),
            listed == config@.backends,
            existing == existing_addrs@,
            added <= i,
            added == unknown_only(listed.take(i as int), existing).len(),
            state@.wf(),
            state@ == (StateView {
                known: start.known + crate::state::fresh_backends(
                    first_id,
                    unknown_only(listed.take(i as int), existing),
                ),
                rotation: start.kept(config@) + crate::state::slots_from(
                    start.known.len(),
                    added as nat,
                ),
                algorithm: config@.algorithm,
                health_check_path: config@.health_check_path,
                health_check_timeout_secs: config@.health_check_timeout_secs,
                rr_counter: start.rr_counter,
                next_backend_id: crate::state::count_after(first_id, added as nat),
            }),
        decreases config.backends@.len() - i,
    {
        let ghost so_far = unknown_only(listed.take(i as int), existing);
        let ghost before = state@;
        proof {
            crate::table::lemma_filter_of_next(
                listed,
                i as int,
                |addr: Seq<char>| !existing.contains(addr),
            );
        }
        if !existing_addrs.contains(config.backends[i].addr.as_str()) {
            let id: usize = state.next_backend_id;
            state.next_backend_id = id.wrapping_add(1);
            state.backends.push(Backend::new(id, config.backends[i].addr.clone()));
            added += 1;
            proof {
                crate::state::lemma_count_after_step(first_id, so_far.len());
                assert(state@.known == before.known.push(
                    BackendView::fresh(id, listed[i as int]),
                ));
                assert(state@.known =~= start.known + crate::state::fresh_backends(
                    first_id,
                    unknown_only(listed.take(i + 1), existing),
                ));
                assert(state@.rotation =~= start.kept(config@) + crate::state::slots_from(
                    start.known.len(),
                    added as nat,
                ));
            }
        }
        i += 1;
    }
    assert(listed.take(i as int) =~= listed);
    ReloadSummary { total: state.backends.len(), added, removed, algorithm: config.algorithm }
}

/// Reloads the table from a freshly loaded configuration. Where loading failed, the table
/// stays as it was, and the error is handed back to be reported.
pub fn reload(state: &mut AppState, loaded: Result<Config, ConfigError>) -> (outcome: Result<
    ReloadSummary,
    ConfigError,
>)
    ensures
        match loaded {
            Err(error) => outcome == Err::<ReloadSummary, ConfigError>(error) && *final(state)
                == *old(state),
            Ok(config) => outcome matches Ok(summary) && {
                &&& final(state)@ == old(state)@.reloaded(config@)
                &&& summary.total == final(state)@.rotation.len()
                &&& summary.added == old(state)@.added(config@).len()
                &&& summary.removed == old(state)@.removed(config@).len()
                &&& summary.algorithm == config@.algorithm
                &&& final(state)@.wf()
                &&& final(state).algorithm == config.algorithm
                &&& final(state).health_check_path@ == config.health_check_path@
                &&& final(state).health_check_timeout_secs == config.health_check_timeout_secs
                &&& final(state).rr_counter == old(state).rr_counter
                &&& summary.algorithm == config.algorithm
            },
        },
{
    match loaded {
        Ok(config) => Ok(apply(state, &config)),
        Err(error) => Err(error),
    }
}

} // verus!

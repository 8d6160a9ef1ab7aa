use hyper::Uri;
use reverse_proxy::balancer::pick_backend;
use reverse_proxy::config::{Algorithm, BackendConfig, Config, ConfigError};
use reverse_proxy::health::{assess, check_once, record, HealthLoop, ProbeOutcome, Transition};
use reverse_proxy::proxy::{
    admit_request, downstream_uri, finish_request, proxy_handler, rewrite_uri, status_handler, Reply, Routing,
};
use reverse_proxy::state::{AppState, Backend, ConnectionGuard};
use reverse_proxy::table::BackendHandle;
use reverse_proxy::watcher::{reload, Debouncer, WatchAction, WatchEvent};

const A: &str = "http://127.0.0.1:9001";
const B: &str = "http://127.0.0.1:9002";
const C: &str = "http://127.0.0.1:9003";

fn config(addrs: &[&str], algorithm: Algorithm) -> Config {
    Config {
        listen_addr: "127.0.0.1:0".to_string(),
        algorithm,
        health_check_interval_secs: 1,
        health_check_timeout_secs: 1,
        health_check_path: "/health".to_string(),
        backends: addrs
            .iter()
            .map(|addr| BackendConfig {
                addr: addr.to_string(),
            })
            .collect(),
    }
}

fn state(addrs: &[&str], algorithm: Algorithm) -> AppState {
    AppState::from_config(&config(addrs, algorithm))
}

fn uri(text: &str) -> Uri {
    text.parse().unwrap()
}

/// The address of the backend that a request for `/` is forwarded to, and its guard.
fn route(state: &mut AppState) -> (String, ConnectionGuard) {
    match proxy_handler(state, &uri("/")) {
        Routing::Forward { guard, addr, .. } => (addr, guard),
        Routing::Refuse(reply) => panic!("refused with {}", reply.status),
    }
}

fn refusal(routing: Routing) -> (u16, String) {
    match routing {
        Routing::Refuse(reply) => (reply.status, reply.body),
        Routing::Forward { uri, .. } => panic!("forwarded to {}", uri),
    }
}

fn counts(state: &AppState) -> Vec<usize> {
    let all = state.all_backends();
    all.iter().map(|b| state.get(b).unwrap().connections()).collect()
}

fn ids(state: &AppState) -> Vec<usize> {
    state.all_backends().into_iter().map(|b| b.id).collect()
}

fn lives(state: &AppState) -> Vec<bool> {
    let all = state.all_backends();
    all.iter().map(|b| state.get(b).unwrap().is_alive()).collect()
}

/// The handle of the backend at position `i` of the rotation.
fn handle(state: &AppState, i: usize) -> BackendHandle {
    state.all_backends().remove(i)
}

/// A health check of the backend at position `i` of the rotation.
fn check(state: &mut AppState, i: usize, outcome: ProbeOutcome) -> Transition {
    let backend = handle(state, i);
    record(state, &backend, &outcome)
}

fn addrs(state: &AppState) -> Vec<String> {
    state.all_backends().into_iter().map(|b| b.addr).collect()
}

#[test]
fn a_new_backend_is_alive_and_idle() {
    let backend = Backend::new(3, A.to_string());
    assert_eq!(backend.id, 3);
    assert_eq!(backend.addr, A);
    assert!(backend.is_alive());
    assert_eq!(backend.connections(), 0);
}

#[test]
fn a_proxy_starts_with_the_configured_backends() {
    let state = state(&[A, B, A], Algorithm::LeastConnections);
    assert_eq!(ids(&state), vec![0, 1, 2]);
    assert_eq!(addrs(&state), vec![A, B, A]);
    assert_eq!(state.algorithm, Algorithm::LeastConnections);
    assert_eq!(state.health_check_path, "/health");
    assert_eq!(state.health_check_timeout_secs, 1);
    assert_eq!(state.rr_counter, 0);
    assert_eq!(state.next_backend_id, 3);
}

#[test]
fn proxy_forwards_requests_round_robin() {
    let mut state = state(&[A, B], Algorithm::RoundRobin);
    let mut hits = [0, 0];
    for _ in 0..4 {
        let (addr, guard) = route(&mut state);
        hits[if addr == A { 0 } else { 1 }] += 1;
        guard.release(&mut state);
    }
    assert_eq!(hits[0], 2, "backend 0 should get exactly half the requests");
    assert_eq!(hits[1], 2, "backend 1 should get exactly half the requests");
}

#[test]
fn proxy_routes_away_from_unhealthy_backend() {
    let mut state = state(&[A, B], Algorithm::RoundRobin);
    check(&mut state, 1, ProbeOutcome::Status(503));
    let mut hits = [0, 0];
    for _ in 0..5 {
        let (addr, guard) = route(&mut state);
        hits[if addr == A { 0 } else { 1 }] += 1;
        guard.release(&mut state);
    }
    assert_eq!(hits[1], 0, "unhealthy backend should never receive traffic");
    assert_eq!(hits[0], 5, "all traffic should land on the sole healthy backend");
}

#[test]
fn proxy_returns_503_when_no_backends_are_healthy() {
    let mut state = state(&[A], Algorithm::RoundRobin);
    check(&mut state, 0, ProbeOutcome::Status(503));
    let (status, body) = refusal(proxy_handler(&mut state, &uri("/")));
    assert_eq!(status, 503);
    assert_eq!(body, "no healthy backends available");
    assert_eq!(state.rr_counter, 0);
}

#[test]
fn proxy_returns_503_without_backends() {
    let mut state = state(&[], Algorithm::LeastConnections);
    assert_eq!(refusal(proxy_handler(&mut state, &uri("/"))).0, 503);
}

#[test]
fn least_connections_prefers_the_idler_backend_under_concurrent_load() {
    let mut state = state(&[A, B], Algorithm::LeastConnections);
    let (slow, slow_guard) = route(&mut state);
    assert_eq!(slow, A);
    for _ in 0..4 {
        let (addr, guard) = route(&mut state);
        assert_eq!(addr, B);
        guard.release(&mut state);
    }
    slow_guard.release(&mut state);
    assert_eq!(counts(&state), vec![0, 0]);
}

#[test]
fn status_endpoint_reports_live_backend_state() {
    let mut state = state(&[A, B], Algorithm::RoundRobin);
    let (_, _guard) = route(&mut state);
    check(&mut state, 1, ProbeOutcome::TimedOut);

    let status = status_handler(&state);
    assert_eq!(status.algorithm, "RoundRobin");
    assert_eq!(status.backends.len(), 2);
    assert_eq!(status.backends[0].id, 0);
    assert_eq!(status.backends[0].addr, A);
    assert!(status.backends[0].alive);
    assert_eq!(status.backends[0].active_connections, 1);
    assert_eq!(status.backends[1].id, 1);
    assert_eq!(status.backends[1].addr, B);
    assert!(!status.backends[1].alive);
    assert_eq!(status.backends[1].active_connections, 0);
}

#[test]
fn a_forwarded_request_keeps_its_path_and_query() {
    let mut state = state(&[A], Algorithm::RoundRobin);
    match proxy_handler(&mut state, &uri("http://example.org/a/b?c=d")) {
        Routing::Forward { addr, uri, .. } => {
            assert_eq!(addr, A);
            assert_eq!(uri.to_string(), "http://127.0.0.1:9001/a/b?c=d");
        }
        Routing::Refuse(reply) => panic!("refused with {}", reply.status),
    }
    assert_eq!(counts(&state), vec![1]);
}

#[test]
fn a_request_without_a_path_asks_for_the_root() {
    // An authority alone, as in a CONNECT request, has neither path nor query.
    let rewritten = rewrite_uri(A, &uri("example.org:80")).unwrap();
    assert_eq!(rewritten.to_string(), "http://127.0.0.1:9001/");
    let rewritten = downstream_uri(A, None).unwrap();
    assert_eq!(rewritten.to_string(), "http://127.0.0.1:9001/");
}

#[test]
fn rewriting_replaces_scheme_and_authority() {
    let rewritten = rewrite_uri(B, &uri("https://example.org:444/x?y")).unwrap();
    assert_eq!(rewritten.scheme_str(), Some("http"));
    assert_eq!(rewritten.authority().unwrap().as_str(), "127.0.0.1:9002");
    assert_eq!(rewritten.path(), "/x");
    assert_eq!(rewritten.query(), Some("y"));
    let rewritten = downstream_uri(B, Some("/x?y")).unwrap();
    assert_eq!(rewritten.to_string(), "http://127.0.0.1:9002/x?y");
}

#[test]
fn a_backend_address_that_makes_no_uri_is_answered_with_502() {
    let mut state = state(&["not a uri"], Algorithm::RoundRobin);
    assert!(rewrite_uri("not a uri", &uri("/")).is_err());
    let (status, body) = refusal(proxy_handler(&mut state, &uri("/")));
    assert_eq!(status, 502);
    assert_eq!(body, "failed to construct downstream URI");
    assert_eq!(counts(&state), vec![0]);
    assert_eq!(state.rr_counter, 1);
}

#[test]
fn a_request_is_admitted_under_its_rewritten_uri() {
    let mut state = state(&[A, B], Algorithm::RoundRobin);
    let backend = handle(&state, 1);
    match admit_request(&mut state, backend, rewrite_uri(B, &uri("/q"))) {
        Routing::Forward { addr, uri, .. } => {
            assert_eq!(addr, B);
            assert_eq!(uri.to_string(), "http://127.0.0.1:9002/q");
        }
        Routing::Refuse(reply) => panic!("refused with {}", reply.status),
    }
    assert_eq!(counts(&state), vec![0, 1]);
    let backend = handle(&state, 0);
    let refused = admit_request(&mut state, backend, rewrite_uri("not a uri", &uri("/q")));
    assert_eq!(refusal(refused).0, 502);
    assert_eq!(counts(&state), vec![0, 1]);
}

#[test]
fn a_response_is_passed_on_and_a_failed_exchange_is_answered_with_502() {
    let passed: Result<&str, Reply> = finish_request(Ok::<&str, u8>("response"));
    assert_eq!(passed.unwrap(), "response");
    let reply = finish_request(Err::<&str, u8>(7)).unwrap_err();
    assert_eq!(reply.status, 502);
    assert_eq!(reply.body, "upstream request failed");
}

#[test]
fn counts_are_the_requests_in_flight() {
    let mut state = state(&[A, B], Algorithm::RoundRobin);
    let (_, first) = route(&mut state);
    let (_, second) = route(&mut state);
    let (_, third) = route(&mut state);
    assert_eq!(counts(&state), vec![2, 1]);
    first.release(&mut state);
    assert_eq!(counts(&state), vec![1, 1]);
    second.release(&mut state);
    third.release(&mut state);
    assert_eq!(counts(&state), vec![0, 0]);
}

#[test]
fn least_connections_keeps_loads_level() {
    let mut state = state(&[A, B, C], Algorithm::LeastConnections);
    let guards: Vec<ConnectionGuard> = (0..7).map(|_| route(&mut state).1).collect();
    assert_eq!(counts(&state), vec![3, 2, 2]);
    for guard in guards {
        guard.release(&mut state);
    }
    assert_eq!(counts(&state), vec![0, 0, 0]);
}

#[test]
fn a_picked_backend_can_be_acquired_and_released() {
    let mut state = state(&[A], Algorithm::RoundRobin);
    let picked = pick_backend(&mut state).unwrap();
    let guard = ConnectionGuard::acquire(&mut state, &picked).unwrap();
    assert_eq!(state.get(&picked).unwrap().connections(), 1);
    guard.release(&mut state);
    assert_eq!(state.get(&picked).unwrap().connections(), 0);
    assert_eq!(counts(&state), vec![0]);
}

#[test]
fn changes_show_through_a_snapshot() {
    let mut state = state(&[A, B], Algorithm::RoundRobin);
    let all = state.all_backends();
    let alive = state.alive_backends();
    check(&mut state, 1, ProbeOutcome::Failed);
    let (_, _guard) = route(&mut state);
    reload(&mut state, Ok(config(&[B], Algorithm::RoundRobin))).unwrap();

    assert_eq!(all.len(), 2);
    assert_eq!(alive.len(), 2);
    assert_eq!(all[0].addr, A);
    assert_eq!(all[1].addr, B);
    assert_eq!(state.get(&all[0]).unwrap().connections(), 1);
    assert!(state.get(&all[0]).unwrap().is_alive());
    assert!(!state.get(&alive[1]).unwrap().is_alive());
}

#[test]
fn a_removed_backend_keeps_its_count_until_its_requests_end() {
    let mut state = state(&[A, B], Algorithm::RoundRobin);
    let removed = handle(&state, 0);
    let first = ConnectionGuard::acquire(&mut state, &removed).unwrap();
    let second = ConnectionGuard::acquire(&mut state, &removed).unwrap();
    reload(&mut state, Ok(config(&[B], Algorithm::RoundRobin))).unwrap();

    assert_eq!(addrs(&state), vec![B]);
    assert_eq!(route(&mut state).0, B);
    assert_eq!(state.get(&removed).unwrap().connections(), 2);
    first.release(&mut state);
    assert_eq!(state.get(&removed).unwrap().connections(), 1);
    second.release(&mut state);
    assert_eq!(state.get(&removed).unwrap().connections(), 0);
}

#[test]
fn a_handle_outlives_every_reload() {
    let mut state = state(&[A, B], Algorithm::RoundRobin);
    let old = handle(&state, 0);
    for addrs in [&[B][..], &[C], &[], &[A, C]] {
        reload(&mut state, Ok(config(addrs, Algorithm::RoundRobin))).unwrap();
    }

    // Long out of the rotation and idle, and still there: it can be read, counted and checked.
    assert_eq!(state.get(&old).unwrap().id, 0);
    assert_eq!(state.get(&old).unwrap().addr, A);
    let guard = ConnectionGuard::acquire(&mut state, &old).unwrap();
    assert_eq!(state.get(&old).unwrap().connections(), 1);
    guard.release(&mut state);
    assert_eq!(state.get(&old).unwrap().connections(), 0);
    assert_eq!(record(&mut state, &old, &ProbeOutcome::Failed), Transition::Removed);
    assert!(!state.get(&old).unwrap().is_alive());
    // The backends of the rotation notice nothing, not even the one with the same address.
    assert_eq!(addrs(&state), vec![A, C]);
    assert_eq!(counts(&state), vec![0, 0]);
    assert_eq!(lives(&state), vec![true, true]);
}

#[test]
fn the_picked_backend_is_counted_even_among_equal_identifiers() {
    let mut state = state(&[A, B], Algorithm::RoundRobin);
    state.next_backend_id = 0;
    reload(&mut state, Ok(config(&[A, B, C], Algorithm::RoundRobin))).unwrap();
    assert_eq!(ids(&state), vec![0, 1, 0]);

    state.rr_counter = 2;
    let picked = pick_backend(&mut state).unwrap();
    assert_eq!((picked.id, picked.addr.as_str()), (0, C));
    let guard = ConnectionGuard::acquire(&mut state, &picked).unwrap();
    assert_eq!(counts(&state), vec![0, 0, 1]);
    assert_eq!(record(&mut state, &picked, &ProbeOutcome::Failed), Transition::Removed);
    assert_eq!(lives(&state), vec![true, true, false]);
    guard.release(&mut state);
    assert_eq!(counts(&state), vec![0, 0, 0]);
}

#[test]
fn acquiring_counts_one_more_request() {
    let mut state = state(&[A, B], Algorithm::RoundRobin);
    let backend = handle(&state, 1);
    let first = ConnectionGuard::acquire(&mut state, &backend).unwrap();
    let _second = ConnectionGuard::acquire(&mut state, &backend).unwrap();
    assert_eq!(counts(&state), vec![0, 2]);
    first.release(&mut state);
    assert_eq!(counts(&state), vec![0, 1]);
}

#[test]
fn a_slot_that_the_table_does_not_have_is_not_found() {
    let stranger = handle(&state(&[A, B, C], Algorithm::RoundRobin), 2);
    let mut state = state(&[A], Algorithm::RoundRobin);
    assert!(state.get(&stranger).is_none());
    assert!(ConnectionGuard::acquire(&mut state, &stranger).is_none());
    assert_eq!(record(&mut state, &stranger, &ProbeOutcome::Failed), Transition::Unknown);
    assert_eq!(counts(&state), vec![0]);
    assert_eq!(lives(&state), vec![true]);
}

#[test]
fn the_first_tick_checks_nothing_and_later_ones_check_every_backend() {
    let mut state = state(&[A, B], Algorithm::RoundRobin);
    check(&mut state, 1, ProbeOutcome::Failed);
    let mut health = HealthLoop::new();
    assert!(health.on_tick(&state).is_empty());
    let probes = health.on_tick(&state);
    assert_eq!(probes.len(), 2);
    assert_eq!(probes[0].backend.id, 0);
    assert_eq!(probes[0].backend.addr, A);
    assert_eq!(probes[1].backend.id, 1);
    assert_eq!(probes[1].backend.addr, B);
    assert_eq!(probes[1].path, "/health");
    assert_eq!(probes[1].timeout_secs, 1);
}

#[test]
fn a_health_check_asks_for_the_configured_path() {
    let request = check_once(A, "/health").unwrap();
    assert_eq!(request.method, "GET");
    assert_eq!(request.uri.to_string(), "http://127.0.0.1:9001/health");
    assert!(request.body.is_empty());
    assert!(matches!(check_once("no uri", "/health"), Err(ProbeOutcome::InvalidUri)));
}

#[test]
fn only_a_timely_success_counts_as_healthy() {
    assert!(ProbeOutcome::Status(200).is_healthy());
    assert!(ProbeOutcome::Status(204).is_healthy());
    assert!(ProbeOutcome::Status(299).is_healthy());
    assert!(!ProbeOutcome::Status(199).is_healthy());
    assert!(!ProbeOutcome::Status(300).is_healthy());
    assert!(!ProbeOutcome::Status(503).is_healthy());
    assert!(!ProbeOutcome::Failed.is_healthy());
    assert!(!ProbeOutcome::TimedOut.is_healthy());
    assert!(!ProbeOutcome::InvalidUri.is_healthy());
    assert!(!ProbeOutcome::InvalidRequest.is_healthy());
}

#[test]
fn checks_take_a_backend_out_of_rotation_and_back() {
    let mut state = state(&[A, B], Algorithm::RoundRobin);
    assert_eq!(check(&mut state, 0, ProbeOutcome::Status(200)), Transition::Unchanged);
    assert_eq!(check(&mut state, 0, ProbeOutcome::Failed), Transition::Removed);
    assert_eq!(check(&mut state, 0, ProbeOutcome::Failed), Transition::Unchanged);
    assert_eq!(lives(&state), vec![false, true]);
    assert_eq!(route(&mut state).0, B);
    assert_eq!(check(&mut state, 0, ProbeOutcome::Status(200)), Transition::Recovered);
    assert_eq!(state.alive_backends().len(), 2);
}

#[test]
fn assessing_a_check_tells_what_recording_it_would_mean() {
    let mut state = state(&[A], Algorithm::RoundRobin);
    let backend = handle(&state, 0);
    assert_eq!(assess(&state, &backend, &ProbeOutcome::Status(200)), Transition::Unchanged);
    assert_eq!(assess(&state, &backend, &ProbeOutcome::Failed), Transition::Removed);
    assert_eq!(lives(&state), vec![true]);
    assert_eq!(record(&mut state, &backend, &ProbeOutcome::Failed), Transition::Removed);
    assert_eq!(assess(&state, &backend, &ProbeOutcome::Failed), Transition::Unchanged);
    assert_eq!(assess(&state, &backend, &ProbeOutcome::Status(200)), Transition::Recovered);
    assert_eq!(lives(&state), vec![false]);
}

#[test]
fn a_check_of_a_loaded_backend_leaves_its_load_alone() {
    let mut state = state(&[A], Algorithm::RoundRobin);
    let (_, guard) = route(&mut state);
    check(&mut state, 0, ProbeOutcome::Failed);
    assert_eq!(counts(&state), vec![1]);
    guard.release(&mut state);
    assert_eq!(counts(&state), vec![0]);
    assert_eq!(lives(&state), vec![false]);
}

#[test]
fn changes_to_the_file_are_reloaded_after_a_pause() {
    let mut debouncer = Debouncer::new();
    assert!(matches!(debouncer.on_event(WatchEvent::Modified), WatchAction::ReloadAfter(150)));
    debouncer.on_reload();
    assert!(matches!(debouncer.on_event(WatchEvent::Created), WatchAction::ReloadAfter(150)));
    debouncer.on_reload();
    assert!(matches!(debouncer.on_event(WatchEvent::Other), WatchAction::Ignore));
    assert!(matches!(debouncer.on_event(WatchEvent::Failed), WatchAction::Report));
    assert!(matches!(debouncer.on_event(WatchEvent::Modified), WatchAction::ReloadAfter(150)));
}

#[test]
fn a_burst_of_changes_is_reloaded_once() {
    let mut debouncer = Debouncer::new();
    let burst = [
        debouncer.on_event(WatchEvent::Other),
        debouncer.on_event(WatchEvent::Created),
        debouncer.on_event(WatchEvent::Modified),
        debouncer.on_event(WatchEvent::Failed),
        debouncer.on_event(WatchEvent::Modified),
    ];
    let reloads = burst.iter().filter(|a| matches!(a, WatchAction::ReloadAfter(_))).count();
    assert_eq!(reloads, 1);
    assert!(matches!(burst[1], WatchAction::ReloadAfter(150)));
    assert!(matches!(burst[2], WatchAction::Ignore));
    assert!(matches!(burst[3], WatchAction::Report));
    assert!(matches!(burst[4], WatchAction::Ignore));
}

#[test]
fn a_reload_keeps_adds_and_removes_backends() {
    let mut state = state(&[A, B], Algorithm::RoundRobin);
    let (_, guard) = route(&mut state);
    let (_, lost) = route(&mut state);
    assert_eq!(counts(&state), vec![1, 1]);
    check(&mut state, 0, ProbeOutcome::Failed);

    let mut new = config(&[C, A], Algorithm::LeastConnections);
    new.health_check_path = "/ping".to_string();
    new.health_check_timeout_secs = 9;
    let summary = reload(&mut state, Ok(new)).unwrap();

    assert_eq!(summary.total, 2);
    assert_eq!(summary.added, 1);
    assert_eq!(summary.removed, 1);
    assert_eq!(summary.algorithm, Algorithm::LeastConnections);
    // The backend that stayed is as it was, the new one comes last.
    assert_eq!(addrs(&state), vec![A, C]);
    assert_eq!(ids(&state), vec![0, 2]);
    assert_eq!(counts(&state), vec![1, 0]);
    assert_eq!(lives(&state), vec![false, true]);
    assert_eq!(state.algorithm, Algorithm::LeastConnections);
    assert_eq!(state.health_check_path, "/ping");
    assert_eq!(state.health_check_timeout_secs, 9);
    assert_eq!(state.rr_counter, 2);
    assert_eq!(state.next_backend_id, 3);

    // A request to the removed backend ends without touching the others.
    lost.release(&mut state);
    assert_eq!(counts(&state), vec![1, 0]);
    guard.release(&mut state);
    assert_eq!(counts(&state), vec![0, 0]);
}

#[test]
fn a_backend_that_comes_back_is_a_new_one() {
    let mut state = state(&[A], Algorithm::RoundRobin);
    let (_, old) = route(&mut state);
    reload(&mut state, Ok(config(&[], Algorithm::RoundRobin))).unwrap();
    assert_eq!(state.backends.len(), 0);
    reload(&mut state, Ok(config(&[A], Algorithm::RoundRobin))).unwrap();
    assert_eq!(ids(&state), vec![1]);
    old.release(&mut state);
    assert_eq!(counts(&state), vec![0]);
}

#[test]
fn a_newly_listed_address_is_added_as_often_as_it_is_listed() {
    let mut state = state(&[A], Algorithm::RoundRobin);
    let summary = reload(&mut state, Ok(config(&[A, B, A, B], Algorithm::RoundRobin))).unwrap();
    assert_eq!(addrs(&state), vec![A, B, B]);
    assert_eq!(ids(&state), vec![0, 1, 2]);
    assert_eq!(summary.added, 2);
    assert_eq!(summary.removed, 0);
}

#[test]
fn reloading_twice_is_reloading_once() {
    let mut state = state(&[A, B], Algorithm::RoundRobin);
    reload(&mut state, Ok(config(&[C, B], Algorithm::RoundRobin))).unwrap();
    let before = ids(&state);
    let summary = reload(&mut state, Ok(config(&[C, B], Algorithm::RoundRobin))).unwrap();
    assert_eq!(summary.added, 0);
    assert_eq!(summary.removed, 0);
    assert_eq!(ids(&state), before);
    assert_eq!(state.next_backend_id, 3);
}

#[test]
fn reloading_the_initial_configuration_changes_nothing() {
    let mut state = state(&[A, B, A], Algorithm::RoundRobin);
    let summary = reload(&mut state, Ok(config(&[A, B, A], Algorithm::RoundRobin))).unwrap();
    assert_eq!(summary.total, 3);
    assert_eq!(summary.added, 0);
    assert_eq!(ids(&state), vec![0, 1, 2]);
}

#[test]
fn a_reload_that_fails_keeps_the_previous_configuration() {
    let mut state = state(&[A], Algorithm::RoundRobin);
    let error = ConfigError::Parse {
        path: "config.toml".to_string(),
        source: "bad".to_string(),
    };
    let error = reload(&mut state, Err(error)).unwrap_err();
    assert_eq!(error.message(), "failed to parse config file config.toml: bad");
    assert_eq!(addrs(&state), vec![A]);
    assert_eq!(state.algorithm, Algorithm::RoundRobin);
}

#[test]
fn identifiers_go_round_at_the_end_of_their_range() {
    let mut state = state(&[A], Algorithm::RoundRobin);
    state.next_backend_id = usize::MAX;
    reload(&mut state, Ok(config(&[B, C], Algorithm::RoundRobin))).unwrap();
    assert_eq!(ids(&state), vec![usize::MAX, 0]);
    assert_eq!(state.next_backend_id, 1);
}

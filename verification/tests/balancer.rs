use reverse_proxy::balancer::{pick_backend, pick_least_connections, pick_round_robin};
use reverse_proxy::config::{Algorithm, BackendConfig, Config};
use reverse_proxy::health::{record, ProbeOutcome};
use reverse_proxy::state::{AppState, Backend, ConnectionGuard};

fn backend(id: usize) -> Backend {
    Backend::new(id, format!("http://127.0.0.1:900{id}"))
}

fn refs(backends: &[Backend]) -> Vec<&Backend> {
    backends.iter().collect()
}

fn state(n: usize, algorithm: Algorithm) -> AppState {
    AppState::from_config(&Config {
        listen_addr: "127.0.0.1:0".to_string(),
        algorithm,
        health_check_interval_secs: 1,
        health_check_timeout_secs: 1,
        health_check_path: "/health".to_string(),
        backends: (0..n)
            .map(|id| BackendConfig {
                addr: format!("http://127.0.0.1:900{id}"),
            })
            .collect(),
    })
}

/// A health check finds the backend at position `i` of the rotation dead.
fn kill(state: &mut AppState, i: usize) {
    let backend = state.all_backends().remove(i);
    record(state, &backend, &ProbeOutcome::Failed);
}

#[test]
fn round_robin_cycles_through_all_backends_in_order() {
    let mut counter = 0;
    let backends = vec![backend(0), backend(1), backend(2)];
    let alive = refs(&backends);

    let picks: Vec<usize> = (0..6)
        .map(|_| alive[pick_round_robin(&mut counter, &alive).unwrap()].id)
        .collect();

    assert_eq!(picks, vec![0, 1, 2, 0, 1, 2]);
}

#[test]
fn round_robin_returns_none_on_empty_backend_list() {
    let mut counter = 0;
    assert!(pick_round_robin(&mut counter, &[]).is_none());
}

#[test]
fn least_connections_picks_the_backend_with_fewest_in_flight() {
    let mut backends = vec![backend(0), backend(1), backend(2)];
    backends[0].active_connections = 5;
    backends[1].active_connections = 1;
    backends[2].active_connections = 3;

    let chosen = &backends[pick_least_connections(&refs(&backends)).unwrap()];
    assert_eq!(chosen.id, 1);
}

#[test]
fn least_connections_updates_pick_as_load_shifts() {
    let mut backends = vec![backend(0), backend(1)];
    backends[0].active_connections = 0;
    backends[1].active_connections = 0;

    // Tie -> first one wins deterministically.
    assert_eq!(backends[pick_least_connections(&refs(&backends)).unwrap()].id, 0);

    // Load backend 0 up; backend 1 should now win.
    backends[0].active_connections = 4;
    assert_eq!(backends[pick_least_connections(&refs(&backends)).unwrap()].id, 1);
}

#[test]
fn dead_backends_are_excluded_from_selection() {
    let mut state_backends = vec![backend(0), backend(1), backend(2)];
    state_backends[1].alive = false;

    let alive: Vec<&Backend> = state_backends.iter().filter(|b| b.is_alive()).collect();

    assert_eq!(alive.len(), 2);
    assert!(alive.iter().all(|b| b.id != 1));
}

#[test]
fn dead_backends_are_left_out_of_the_snapshot() {
    let mut state = state(3, Algorithm::RoundRobin);
    kill(&mut state, 1);

    let alive: Vec<usize> = state.alive_backends().iter().map(|b| b.id).collect();
    assert_eq!(alive, vec![0, 2]);
    let all: Vec<usize> = state.all_backends().iter().map(|b| b.id).collect();
    assert_eq!(all, vec![0, 1, 2]);
}

#[test]
fn least_connections_returns_none_on_empty_backend_list() {
    assert!(pick_least_connections(&[]).is_none());
}

#[test]
fn least_connections_takes_the_first_of_several_equally_idle_backends() {
    let mut backends = vec![backend(0), backend(1), backend(2)];
    backends[0].active_connections = 2;
    backends[1].active_connections = 1;
    backends[2].active_connections = 1;
    assert_eq!(backends[pick_least_connections(&refs(&backends)).unwrap()].id, 1);
}

#[test]
fn round_robin_counter_goes_round_at_the_end_of_its_range() {
    let backends = vec![backend(0), backend(1), backend(2)];
    let mut counter = usize::MAX;
    let picked = pick_round_robin(&mut counter, &refs(&backends));
    assert_eq!(picked, Some(usize::MAX % 3));
    assert_eq!(counter, 0);
    assert_eq!(pick_round_robin(&mut counter, &refs(&backends)), Some(0));
    assert_eq!(counter, 1);
}

#[test]
fn round_robin_counter_stays_on_an_empty_list() {
    let mut counter = 7;
    assert!(pick_round_robin(&mut counter, &[]).is_none());
    assert_eq!(counter, 7);
}

#[test]
fn round_robin_gives_every_backend_one_turn_per_round() {
    let mut state = state(4, Algorithm::RoundRobin);
    state.rr_counter = 10;
    let mut picks: Vec<usize> = (0..4).map(|_| pick_backend(&mut state).unwrap().id).collect();
    assert_eq!(picks, vec![2, 3, 0, 1]);
    picks.sort();
    assert_eq!(picks, vec![0, 1, 2, 3]);
    assert_eq!(state.rr_counter, 14);
}

#[test]
fn round_robin_skips_dead_backends() {
    let mut state = state(3, Algorithm::RoundRobin);
    kill(&mut state, 0);
    let picks: Vec<usize> = (0..4).map(|_| pick_backend(&mut state).unwrap().id).collect();
    assert_eq!(picks, vec![1, 2, 1, 2]);
}

#[test]
fn least_connections_leaves_the_round_robin_counter_alone() {
    let mut state = state(2, Algorithm::LeastConnections);
    let first = state.all_backends().remove(0);
    let _guard = ConnectionGuard::acquire(&mut state, &first).unwrap();
    let picked = pick_backend(&mut state).unwrap();
    assert_eq!(picked.id, 1);
    assert_eq!(picked.addr, "http://127.0.0.1:9001");
    assert_eq!(state.rr_counter, 0);
}

#[test]
fn nothing_is_picked_and_nothing_moves_when_all_backends_are_dead() {
    let mut state = state(2, Algorithm::RoundRobin);
    kill(&mut state, 0);
    kill(&mut state, 1);
    assert!(pick_backend(&mut state).is_none());
    assert_eq!(state.rr_counter, 0);
}

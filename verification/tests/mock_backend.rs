use reverse_proxy::mock_backend::MockState;

#[test]
fn requests_are_counted() {
    let mut mock = MockState::new("alpha".to_string(), 9001);
    assert_eq!(mock.root().request_count, 1);
    let second = mock.root();
    assert_eq!(second.name, "alpha");
    assert_eq!(second.port, 9001);
    assert_eq!(second.request_count, 2);
}

#[test]
fn health_can_be_switched_off_and_on() {
    let mut mock = MockState::new("bravo".to_string(), 9002);
    assert_eq!(mock.health(), 200);
    let off = mock.toggle_health();
    assert_eq!(off.name, "bravo");
    assert!(!off.healthy);
    assert_eq!(mock.health(), 503);
    assert!(mock.toggle_health().healthy);
    assert_eq!(mock.health(), 200);
}

use pointer_core::backoff::BackoffPolicy;
use pointer_core::supervisor::ConnectionSupervisor;
use pointer_core::supervisor::SupervisorAction;

#[test]
fn standard_schedule_is_exact() {
    let mut p = BackoffPolicy::new(2, 30, 2);
    let mut delays = Vec::new();
    for _ in 0..6 {
        delays.push(p.current_delay);
        p.on_failure();
    }
    assert_eq!(delays, vec![2, 4, 8, 16, 30, 30]);
}

#[test]
fn success_resets_to_initial() {
    let mut p = BackoffPolicy::new(2, 30, 2);
    p.on_failure();
    p.on_failure();
    p.on_failure();
    assert_eq!(p.current_delay, 16);
    p.on_success();
    assert_eq!(p.current_delay, 2);
    p.on_failure();
    assert_eq!(p.current_delay, 4);
}

#[test]
fn delay_never_exceeds_cap() {
    let mut p = BackoffPolicy::new(2, 30, 2);
    for _ in 0..20 {
        p.on_failure();
        assert!(p.current_delay >= 2);
        assert!(p.current_delay <= 30);
    }
    assert_eq!(p.current_delay, 30);
}

#[test]
fn three_failures_wait_two_four_eight() {
    let mut s = ConnectionSupervisor::new(BackoffPolicy::new(2, 30, 2));
    let mut waits = Vec::new();
    for _ in 0..3 {
        s.on_attempt();
        let actions = s.on_connection_end();
        assert_eq!(
            actions[0],
            SupervisorAction::EmitConnectivity { connected: false }
        );
        match actions[1] {
            SupervisorAction::Wait { seconds } => waits.push(seconds),
            _ => panic!("second action must be a wait"),
        }
        assert_eq!(actions.len(), 2);
    }
    assert_eq!(waits, vec![2, 4, 8]);
}

#[test]
fn reconnect_resets_backoff() {
    let mut s = ConnectionSupervisor::new(BackoffPolicy::new(2, 30, 2));
    s.on_attempt();
    s.on_connection_end();
    s.on_attempt();
    s.on_connection_end();
    s.on_attempt();
    let actions = s.on_connected();
    assert_eq!(
        actions,
        vec![SupervisorAction::EmitConnectivity { connected: true }]
    );
    let actions = s.on_connection_end();
    assert_eq!(actions[1], SupervisorAction::Wait { seconds: 2 });
}

//! Tests of the supervisor's state machine.

use roadmap_manager::config::SERVICE_PORT;
use roadmap_manager::supervisor::{StartDecision, StopAction, Supervisor};

#[test]
fn occupied_port_spawns_nothing_and_owns_nothing() {
    let mut sup = Supervisor::new();
    let decision = sup.on_probe(true);
    assert!(matches!(decision, StartDecision::UseExisting));
    assert!(sup.handle.is_none());
}

#[test]
fn free_port_requests_a_spawn_on_the_known_port() {
    let mut sup = Supervisor::new();
    let decision = sup.on_probe(false);
    match decision {
        StartDecision::Spawn { port } => assert_eq!(port, SERVICE_PORT),
        StartDecision::UseExisting => panic!("expected a spawn request"),
    }
}

#[test]
fn spawned_process_is_the_one_stop_terminates_and_stop_twice_is_safe() {
    let mut sup = Supervisor::new();
    let decision = sup.on_probe(false);
    assert!(matches!(decision, StartDecision::Spawn { .. }));
    sup.on_spawn_result(Some((4242, 1700000000)));
    let h = sup.handle.as_ref().expect("exactly one handle after a successful spawn");
    assert_eq!(h.pid, 4242);
    assert_eq!(h.port, SERVICE_PORT);
    assert_eq!(h.started_at, 1700000000);

    let first = sup.stop();
    match first {
        StopAction::TerminateOwned { pid } => assert_eq!(pid, 4242),
        _ => panic!("expected the owned process to be terminated"),
    }
    assert!(sup.handle.is_none());
    let second = sup.stop();
    assert!(matches!(second, StopAction::Nothing));
    sup.confirm_stopped();
    let third = sup.stop();
    assert!(matches!(third, StopAction::Nothing));
}

#[test]
fn stop_without_a_handle_falls_back_to_the_port_listener() {
    let mut sup = Supervisor::new();
    let _ = sup.on_probe(true);
    let action = sup.stop();
    match action {
        StopAction::TerminateListener { port } => assert_eq!(port, SERVICE_PORT),
        _ => panic!("expected the best-effort listener termination"),
    }
}

#[test]
fn failed_spawn_reports_and_leaves_the_supervisor_ready() {
    let mut sup = Supervisor::new();
    let _ = sup.on_probe(false);
    sup.on_spawn_result(None);
    assert!(sup.handle.is_none());
    // the application goes on; a later shutdown still works
    let action = sup.stop();
    assert!(matches!(action, StopAction::TerminateListener { .. }));
}

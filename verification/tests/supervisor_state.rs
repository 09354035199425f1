use verge_core::error::OrchError;
use verge_core::sidecar::{SidecarState, Supervisor};

fn supervisor() -> Supervisor {
    Supervisor::new("127.0.0.1".to_string(), 9090)
}

#[test]
fn start_is_valid_only_from_stopped() {
    let mut sup = supervisor();
    sup.begin_start().unwrap();
    assert_eq!(sup.state, SidecarState::Starting);
    // a second start while starting is refused
    assert!(matches!(sup.begin_start(), Err(OrchError::Validation(_))));
}

#[test]
fn full_lifecycle_reaches_running() {
    let mut sup = supervisor();
    sup.begin_start().unwrap();
    sup.on_spawned(4242, Some("test-secret".to_string()));
    assert_eq!(sup.process_id, Some(4242));
    sup.on_api_reachable();
    assert_eq!(sup.state, SidecarState::Running);
    let (host, port, secret) = sup.control_info();
    assert_eq!(host, "127.0.0.1");
    assert_eq!(port, 9090);
    assert!(secret.is_some());
}

#[test]
fn startup_failure_returns_to_stopped() {
    let mut sup = supervisor();
    sup.begin_start().unwrap();
    sup.on_spawned(1, None);
    let e = sup.on_startup_failed();
    assert_eq!(e, OrchError::Startup);
    assert_eq!(sup.state, SidecarState::Stopped);
    assert_eq!(sup.process_id, None);
}

#[test]
fn unexpected_exit_is_surfaced_as_crashed() {
    let mut sup = supervisor();
    sup.begin_start().unwrap();
    sup.on_spawned(7, None);
    sup.on_api_reachable();
    sup.on_process_exit();
    // crashed, not silently restarted: the state is exposed and no process
    // is owned until someone asks for a restart
    assert_eq!(sup.state, SidecarState::Crashed);
    assert_eq!(sup.process_id, None);
}

#[test]
fn restart_is_valid_from_running_and_crashed() {
    let mut sup = supervisor();
    assert!(matches!(sup.begin_restart(), Err(OrchError::Validation(_))));
    sup.begin_start().unwrap();
    sup.on_spawned(7, None);
    sup.on_api_reachable();
    sup.begin_restart().unwrap();
    assert_eq!(sup.state, SidecarState::Restarting);
    // the fresh process has no configuration yet: re-activation is owed
    assert_eq!(sup.last_pushed, None);
    sup.on_spawned(8, None);
    sup.on_api_reachable();
    assert_eq!(sup.state, SidecarState::Running);
    sup.on_process_exit();
    sup.begin_restart().unwrap();
    assert_eq!(sup.state, SidecarState::Restarting);
}

#[test]
fn stop_clears_the_handle_and_is_idempotent() {
    let mut sup = supervisor();
    sup.begin_start().unwrap();
    sup.on_spawned(7, Some("test-secret".to_string()));
    sup.on_api_reachable();
    sup.stop();
    assert_eq!(sup.state, SidecarState::Stopped);
    assert_eq!(sup.process_id, None);
    assert_eq!(sup.control_secret, None);
    let snapshot = sup.clone();
    sup.stop();
    assert_eq!(sup, snapshot);
}

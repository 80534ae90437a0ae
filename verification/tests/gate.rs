use swarmotterd::error::{is_permanent_watch_error, is_retryable_magnet_metadata_discovery_error, CoreError};
use swarmotterd::gate::ContainmentGate;
use swarmotterd::network::{NetworkContainmentMode, NetworkContainmentStatus, NetworkHealth};

#[test]
fn allow_then_block_advances_generation() {
    let mut gate = ContainmentGate::new(true);
    assert!(gate.traffic_allowed());
    assert_eq!(gate.generation(), 0);
    gate.allow();
    assert_eq!(gate.generation(), 0);
    gate.block(NetworkContainmentStatus::InterfaceMissing, "tun0 gone");
    assert!(!gate.traffic_allowed());
    assert_eq!(gate.generation(), 1);
    assert_eq!(
        gate.blocked_status(),
        Some(NetworkContainmentStatus::InterfaceMissing)
    );
    assert!(gate.blocked_detail().contains("tun0 gone"));
    let err = gate.enforce().unwrap_err();
    assert!(err.is_network_blocked());
    gate.allow();
    assert!(gate.traffic_allowed());
    assert_eq!(gate.generation(), 2);
    assert_eq!(gate.blocked_status(), None);
    assert!(gate.blocked_detail().is_empty());
}

#[test]
fn cancelled_since_returns_on_block() {
    let mut gate = ContainmentGate::new(true);
    let start = gate.generation();
    assert!(!gate.cancelled_since(start));
    gate.block(NetworkContainmentStatus::InterfaceDown, "down");
    assert!(gate.cancelled_since(start));
}

#[test]
fn block_when_already_blocked_keeps_status_detail() {
    let mut gate = ContainmentGate::new(false);
    gate.block(NetworkContainmentStatus::RouteInvalid, "no route");
    assert_eq!(gate.generation(), 0);
    assert_eq!(
        gate.blocked_status(),
        Some(NetworkContainmentStatus::RouteInvalid)
    );
    assert!(gate.blocked_detail().contains("no route"));
}

#[test]
fn work_is_cancelled_only_by_a_later_block() {
    let mut gate = ContainmentGate::new(true);
    let start = gate.generation();
    gate.block(NetworkContainmentStatus::InterfaceDown, "down");
    assert!(gate.cancelled_since(start));
    gate.allow();
    assert!(!gate.cancelled_since(start));
    assert!(gate.enforce().is_ok());
    gate.block(NetworkContainmentStatus::InterfaceDown, "down again");
    assert!(!gate.cancelled_since(gate.generation()));
    assert!(gate.cancelled_since(start));
}

#[test]
fn a_blocked_gate_says_why() {
    let mut gate = ContainmentGate::new(true);
    gate.block(NetworkContainmentStatus::InterfaceMissing, "tun0 gone");
    match gate.enforce() {
        Err(CoreError::NetworkBlocked(message)) => assert!(message.contains("tun0 gone")),
        other => panic!("unexpected: {other:?}"),
    }
}

#[test]
fn watch_error_classification_has_only_the_four_permanent_variants() {
    assert!(is_permanent_watch_error(&CoreError::Bencode("x".into())));
    assert!(is_permanent_watch_error(&CoreError::MalformedTorrent(
        "x".into()
    )));
    assert!(is_permanent_watch_error(&CoreError::InvalidInfoHash(
        "x".into()
    )));
    assert!(is_permanent_watch_error(&CoreError::Parse("x".into())));
    for transient in [
        CoreError::Storage("x".into()),
        CoreError::NetworkBlocked("x".into()),
        CoreError::Internal("x".into()),
        CoreError::InvalidConfig("x".into()),
    ] {
        assert!(!is_permanent_watch_error(&transient));
    }
}

#[test]
fn only_missing_metadata_peers_are_worth_another_try() {
    let message = "magnet metadata fetch failed after discovery retries: magnet metadata fetch: no peers discovered";
    assert!(is_retryable_magnet_metadata_discovery_error(
        &CoreError::Internal(message.into())
    ));
    assert!(!is_retryable_magnet_metadata_discovery_error(
        &CoreError::Internal("magnet metadata fetch: no peers discovered".into())
    ));
    assert!(!is_retryable_magnet_metadata_discovery_error(
        &CoreError::Storage(message.into())
    ));
}

#[test]
fn traffic_is_permitted_only_where_it_is_allowed() {
    let mut health = NetworkHealth {
        mode: NetworkContainmentMode::Strict,
        status: NetworkContainmentStatus::Healthy,
        traffic_allowed: true,
        detail: "tun0".to_string(),
    };
    assert!(health.permits_traffic());
    health.traffic_allowed = false;
    assert!(!health.permits_traffic());
    assert_eq!(NetworkContainmentStatus::SocketBindFailed.as_str(), "socket_bind_failed");
}

use greentic_ext_runtime::kind::ExtensionKind;
use greentic_ext_runtime::{Broker, BrokerError};

#[test]
fn denies_call_without_permission() {
    let broker = Broker::new();
    let err = broker
        .check_permission("caller", &["design".to_string()], ExtensionKind::Bundle)
        .unwrap_err();
    assert!(matches!(err, BrokerError::PermissionDenied(_)));
}

#[test]
fn allows_call_when_kind_in_allowlist() {
    let broker = Broker::new();
    broker
        .check_permission("caller", &["design".to_string(), "bundle".to_string()], ExtensionKind::Bundle)
        .unwrap();
}

#[test]
fn enforces_max_depth() {
    let broker = Broker::new();
    let err = broker.check_depth(9).unwrap_err();
    assert!(matches!(err, BrokerError::MaxDepthExceeded));
}

#[test]
fn the_depth_limit_starts_at_eight() {
    let broker = Broker::new();
    assert!(broker.check_depth(7).is_ok());
    assert!(matches!(broker.check_depth(8), Err(BrokerError::MaxDepthExceeded)));
}

#[test]
fn a_denial_names_the_caller_and_the_kind() {
    let broker = Broker::new();
    match broker.check_permission("caller", &[], ExtensionKind::WasixMcpRouter) {
        Err(BrokerError::PermissionDenied(m)) => {
            assert_eq!(m, "caller may not call WasixMcpRouter extensions")
        }
        other => panic!("unexpected: {other:?}"),
    }
    assert!(broker
        .check_permission("caller", &["mcp".to_string()], ExtensionKind::WasixMcpRouter)
        .is_ok());
}

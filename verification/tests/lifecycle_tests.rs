use raw_proxy::lifecycle::{
    incoming_recovery, next_backoff, outgoing_recovery, EndpointGenerations, ProxyError,
    RecoveryAction, SocketError,
};

#[test]
fn transport_fault_rebuilds_only_transport() {
    // a transport read failure mid-loop: the supervision step rebuilds
    // the transport endpoint alone; the queue endpoint's construction
    // count is unchanged across the fault
    let mut gens = EndpointGenerations::new();
    let err = ProxyError::VsockError(SocketError::ReadError);
    let action = outgoing_recovery(&err);
    assert_eq!(action, RecoveryAction::RebuildTransport);
    gens.record(action);
    assert_eq!(gens.queue_gen, 0);
    assert_eq!(gens.transport_gen, 1);
}

#[test]
fn queue_fault_rebuilds_only_queue() {
    let mut gens = EndpointGenerations::new();
    let err = ProxyError::NfqError(SocketError::VerdictError);
    let action = outgoing_recovery(&err);
    assert_eq!(action, RecoveryAction::RebuildQueue);
    gens.record(action);
    assert_eq!(gens.queue_gen, 1);
    assert_eq!(gens.transport_gen, 0);
}

#[test]
fn sink_fault_is_fatal_on_outgoing() {
    let err = ProxyError::IpError(SocketError::WriteError);
    assert_eq!(outgoing_recovery(&err), RecoveryAction::Fatal);
}

#[test]
fn incoming_recovers_transport_only() {
    let transport = ProxyError::VsockError(SocketError::ReadError);
    assert_eq!(incoming_recovery(&transport), RecoveryAction::RebuildTransport);
    // the TUN sink has no recovery path
    let sink = ProxyError::IpError(SocketError::WriteError);
    assert_eq!(incoming_recovery(&sink), RecoveryAction::Fatal);
    // a queue fault cannot arise on this pipeline
    let queue = ProxyError::NfqError(SocketError::ReadError);
    assert_eq!(incoming_recovery(&queue), RecoveryAction::Fatal);
}

#[test]
fn fatal_action_leaves_generations_unchanged() {
    let mut gens = EndpointGenerations::new();
    gens.record(RecoveryAction::RebuildTransport);
    gens.record(RecoveryAction::Fatal);
    assert_eq!(gens.queue_gen, 0);
    assert_eq!(gens.transport_gen, 1);
}

#[test]
fn backoff_doubles_until_capped() {
    assert_eq!(next_backoff(1, 64), 2);
    assert_eq!(next_backoff(2, 64), 4);
    assert_eq!(next_backoff(32, 64), 64);
    assert_eq!(next_backoff(40, 64), 64);
    assert_eq!(next_backoff(64, 64), 64);
}

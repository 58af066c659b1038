//! Endpoint lifecycle management: fault classification and the recovery
//! policy of the supervision loop around each directional forwarder.
//!
//! Each pipeline owns its endpoints exclusively and never repairs one in
//! place: on a classified fault, exactly the failed endpoint is discarded
//! and rebuilt (with backoff against transient construction failures),
//! while the other endpoint keeps its state.  Any unclassified error is a
//! programming-invariant violation and fatal.

use vstd::prelude::*;

verus! {

/// A failed operation on a byte-oriented endpoint.
#[derive(Clone, Copy, PartialEq, Eq, Structural, Debug)]
pub enum SocketError {
    ReadError,
    WriteError,
    VerdictError,
}

/// A classified pipeline fault: on the queue endpoint, on the
/// byte-stream transport, or on the IP-side sink (the TUN device).
#[derive(Clone, Copy, PartialEq, Eq, Structural, Debug)]
pub enum ProxyError {
    NfqError(SocketError),
    VsockError(SocketError),
    IpError(SocketError),
}

/// What the supervision loop does about a fault: rebuild exactly one
/// endpoint and resume, or terminate.
#[derive(Clone, Copy, PartialEq, Eq, Structural, Debug)]
pub enum RecoveryAction {
    RebuildQueue,
    RebuildTransport,
    Fatal,
}

/// Recovery policy of the outgoing pipeline: a queue fault rebuilds the
/// queue handle, a transport fault rebuilds the transport connection, and
/// a sink fault cannot arise there, so it is fatal.
pub open spec fn outgoing_recovery_spec(err: ProxyError) -> RecoveryAction {
    match err {
        ProxyError::NfqError(_) => RecoveryAction::RebuildQueue,
        ProxyError::VsockError(_) => RecoveryAction::RebuildTransport,
        ProxyError::IpError(_) => RecoveryAction::Fatal,
    }
}

/// Recovery policy of the incoming pipeline: a transport fault rebuilds
/// the transport connection; a sink fault on the TUN device has no
/// recovery path and is fatal, as is any fault that cannot arise there.
pub open spec fn incoming_recovery_spec(err: ProxyError) -> RecoveryAction {
    match err {
        ProxyError::VsockError(_) => RecoveryAction::RebuildTransport,
        ProxyError::NfqError(_) => RecoveryAction::Fatal,
        ProxyError::IpError(_) => RecoveryAction::Fatal,
    }
}

/// Classify a fault of the outgoing pipeline into its recovery action.
pub fn outgoing_recovery(err: &ProxyError) -> (a: RecoveryAction)
    ensures
        a == outgoing_recovery_spec(*err),
{
    match err {
        ProxyError::NfqError(_) => RecoveryAction::RebuildQueue,
        ProxyError::VsockError(_) => RecoveryAction::RebuildTransport,
        ProxyError::IpError(_) => RecoveryAction::Fatal,
    }
}

/// Classify a fault of the incoming pipeline into its recovery action.
pub fn incoming_recovery(err: &ProxyError) -> (a: RecoveryAction)
    ensures
        a == incoming_recovery_spec(*err),
{
    match err {
        ProxyError::VsockError(_) => RecoveryAction::RebuildTransport,
        ProxyError::NfqError(_) => RecoveryAction::Fatal,
        ProxyError::IpError(_) => RecoveryAction::Fatal,
    }
}

/// How often each endpoint of a pipeline has been constructed.  A rebuild
/// bumps the failed endpoint's generation; the untouched endpoint keeps
/// its generation, which is the observable form of "the other endpoint
/// remains the same instance across the fault".
#[derive(Clone, Copy, PartialEq, Eq, Structural, Debug)]
pub struct EndpointGenerations {
    pub queue_gen: u64,
    pub transport_gen: u64,
}

/// The generation counters after a recovery action is carried out.
pub open spec fn record_spec(g: EndpointGenerations, a: RecoveryAction) -> EndpointGenerations {
    match a {
        RecoveryAction::RebuildQueue => EndpointGenerations {
            queue_gen: (g.queue_gen + 1) as u64,
            ..g
        },
        RecoveryAction::RebuildTransport => EndpointGenerations {
            transport_gen: (g.transport_gen + 1) as u64,
            ..g
        },
        RecoveryAction::Fatal => g,
    }
}

impl EndpointGenerations {
    /// Counters of a pipeline whose endpoints are not yet constructed.
    pub fn new() -> (g: Self)
        ensures
            g.queue_gen == 0,
            g.transport_gen == 0,
    {
        EndpointGenerations { queue_gen: 0, transport_gen: 0 }
    }

    /// Record that a recovery action was carried out: the rebuilt
    /// endpoint's generation advances, the other is untouched.
    pub fn record(&mut self, a: RecoveryAction)
        requires
            old(self).queue_gen < u64::MAX,
            old(self).transport_gen < u64::MAX,
        ensures
            *final(self) == record_spec(*old(self), a),
    {
        match a {
            RecoveryAction::RebuildQueue => {
                self.queue_gen = self.queue_gen + 1;
            },
            RecoveryAction::RebuildTransport => {
                self.transport_gen = self.transport_gen + 1;
            },
            RecoveryAction::Fatal => {},
        }
    }
}

/// Fault isolation, transport side: a classified transport fault, on
/// either pipeline, leads the supervision loop to rebuild only the
/// transport endpoint — the queue endpoint's generation is unchanged.
pub proof fn lemma_transport_fault_preserves_queue(g: EndpointGenerations, e: SocketError)
    requires
        g.transport_gen < u64::MAX,
    ensures
        outgoing_recovery_spec(ProxyError::VsockError(e)) == RecoveryAction::RebuildTransport,
        incoming_recovery_spec(ProxyError::VsockError(e)) == RecoveryAction::RebuildTransport,
        ({
            let g2 = record_spec(g, outgoing_recovery_spec(ProxyError::VsockError(e)));
            g2.queue_gen == g.queue_gen && g2.transport_gen == g.transport_gen + 1
        }),
{
}

/// Fault isolation, queue side: a classified queue fault on the outgoing
/// pipeline rebuilds only the queue handle — the transport endpoint's
/// generation is unchanged.
pub proof fn lemma_queue_fault_preserves_transport(g: EndpointGenerations, e: SocketError)
    requires
        g.queue_gen < u64::MAX,
    ensures
        outgoing_recovery_spec(ProxyError::NfqError(e)) == RecoveryAction::RebuildQueue,
        ({
            let g2 = record_spec(g, outgoing_recovery_spec(ProxyError::NfqError(e)));
            g2.transport_gen == g.transport_gen && g2.queue_gen == g.queue_gen + 1
        }),
{
}

/// Next delay of the endpoint-reconstruction backoff: doubled, capped.
pub fn next_backoff(delay_ms: u64, cap_ms: u64) -> (next: u64)
    requires
        1 <= delay_ms <= cap_ms,
    ensures
        next == if 2 * delay_ms <= cap_ms {
            2 * delay_ms
        } else {
            cap_ms as int
        },
        1 <= next <= cap_ms,
{
    if delay_ms <= cap_ms / 2 {
        delay_ms * 2
    } else {
        cap_ms
    }
}

} // verus!

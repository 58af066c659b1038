//! Data plane of a NAT-less packet tunnel: IPv4 header parsing and in-place
//! rewriting (source address substitution, TTL decrement, checksum repair),
//! the wire framing used over the byte-stream transport, the per-packet
//! decisions of the two directional forwarding loops, and the endpoint
//! recovery policy that rebuilds exactly the failed endpoint.

pub mod checksum;
pub mod forwarder;
pub mod framer;
pub mod lifecycle;
pub mod packet;
pub mod rewrite;

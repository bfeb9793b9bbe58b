//! How often things are done and how long they are waited for.
use vstd::prelude::*;

verus! {

/// The seconds between two signs of life that an agent gives on its carrier.
pub const HEARTBEAT_SECONDS: u64 = 20;

/// The seconds after which an agent on a WebSocket carrier tries QUIC again.
pub const QUIC_PROBE_SECONDS: u64 = 300;

/// The seconds that an agent waits for a QUIC connection.
pub const QUIC_CONNECT_SECONDS: u64 = 5;

/// The seconds of silence between two signs of life that the relay gives on a QUIC carrier.
pub const QUIC_KEEP_ALIVE_SECONDS: u64 = 15;

/// The seconds of silence after which an agent ends a stream.
pub const STREAM_IDLE_SECONDS: u64 = 600;

/// The seconds of silence after which an agent ends a UDP session.
pub const UDP_IDLE_SECONDS: u64 = 60;

/// The seconds between two looks for UDP sessions that are over.
pub const UDP_UPKEEP_SECONDS: u64 = 5;

/// The seconds between two looks for what the relay may forget.
pub const CLEANUP_SECONDS: u64 = 3600;

/// The milliseconds that the relay waits for the location of an address.
pub const GEO_LOOKUP_MILLIS: u64 = 900;

/// The milliseconds between the end of a listener and the start of the next one on its port.
pub const LISTENER_PAUSE_MILLIS: u64 = 25;

} // verus!

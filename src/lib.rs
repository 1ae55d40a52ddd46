//! Routing decisions for a TLS passthrough proxy: framing and server-name
//! extraction for the first TLS record of a connection, and the per-direction
//! relay state machine that forwards bytes once a backend is chosen.

pub mod record;
pub mod sni;
pub mod relay;

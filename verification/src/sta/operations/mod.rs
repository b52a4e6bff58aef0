//! Operations of the station.
pub mod connect;
pub mod handshake;
pub mod handshake_laws;
pub mod scan;

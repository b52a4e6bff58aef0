//! Operations that interface implementations have in common.
pub mod deauth;
pub mod scan;

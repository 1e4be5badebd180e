//! Object identifiers in common use.

pub mod host;
pub mod interfaces;
pub mod ip;
pub mod system;
pub mod tcp;
pub mod udp;

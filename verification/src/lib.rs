//! Layered construction of network packets.
//!
//! A packet is built by stacking protocol layers over a raw payload: a
//! transport header, a network header, and either a link-layer addressing
//! header or a byte-stuffing framer for serial links. Every encoder is a
//! pure function from bytes to bytes, specified exactly and verified.

pub mod builder;
pub mod bytes;
pub mod ethernet;
pub mod ip;
pub mod slip;
pub mod udp;

//! Core logic of a minimal IP-packet tunneling engine.
//!
//! The engine bridges a virtual network interface with a UDP socket. In
//! point-to-point mode every frame read from the interface is encapsulated
//! verbatim as the payload of a UDP datagram sent to one fixed remote, and
//! every datagram received from an IPv4 sender is written verbatim back into
//! the interface. In relay mode one node keeps a registry of the IPv4 peers
//! seen on its socket and rebroadcasts each received datagram to every other
//! registered peer.
//!
//! This crate holds the decisions of that engine — configuration validation,
//! the packet-buffer model, the peer registry, and the per-datagram pump
//! steps — as verified functions. The surrounding process (socket and
//! interface I/O, task spawning, logging) is ordinary unverified glue that
//! feeds these functions plain values.

pub mod buffer;
pub mod config;
pub mod endpoint;
pub mod registry;
pub mod relay;
pub mod tunnel;

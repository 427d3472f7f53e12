//! A user-space bridge between a layer-3 (raw IP packet) interface and a
//! layer-2 (Ethernet frame) interface.
//!
//! The library holds the pure, verified core of the bridge: parsing and
//! validation of Ethernet, ARP and IPv4 headers, synthesis of Ethernet and
//! ARP frames, the proxy-ARP responder, and the per-packet decision logic of
//! the two forwarding directions. All I/O (the virtual network devices, the
//! forwarding loops' reads and writes) lives outside the library and hands it
//! plain byte buffers.

pub mod codec;
pub mod forward;
pub mod responder;

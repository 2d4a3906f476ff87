//! Per-host virtual network namespace for a discrete-event network simulator.
//!
//! A [`NetworkNamespace`](ns::NetworkNamespace) owns a host's two network
//! interfaces (loopback and one routable), mediates ephemeral port
//! allocation, and tracks which (protocol, local port, peer) tuples are
//! claimed, so that simulated sockets behave like real ones with respect to
//! address and port conflicts.

pub mod addr;
pub mod interface;
pub mod namespace;
pub mod ports;
pub mod registry;
pub mod unix;

pub use addr::Ipv4Address;
pub use addr::ProtocolType;
pub use addr::SocketAddressV4;
pub use interface::NetworkInterface;
pub use interface::PcapOptions;
pub use interface::QDiscMode;
pub use namespace::NetworkNamespace;
pub use ports::PortRng;
pub use registry::AddressRegistry;

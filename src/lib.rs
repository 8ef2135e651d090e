//! Discovery of a host's network identity and of its gateway's link-layer
//! address, and assembly of the client configuration that describes it.
//!
//! The library holds the logic: which neighbor-table command to run, how its
//! output is read, which interface and addresses are chosen, and how the
//! configuration record is put together. Running commands, asking the
//! operating system and writing files is left to the caller.

pub mod text;
pub mod mac;
pub mod neighbor;
pub mod resolve;
pub mod profile;

pub use mac::{MacStyle, normalize_mac};
pub use resolve::{
    HostFamily, NeighborCommand, fallback_mac_string, neighbor_command, mac_in_line,
    scan_neighbor_output, resolve_gateway_mac,
};
pub use profile::{
    Config, LogConfig, Socks5Config, NetworkConfig, Ipv4Config, Ipv6Config, ServerConfig,
    TransportConfig, KcpConfig, InterfaceInfo, Ipv6Entry, preferred_interface, ipv4_socket_addr,
    ipv6_socket_addr, ipv6_router_mac, network_profile, client_config,
};

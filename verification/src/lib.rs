//! Inspection of IPv4 and IPv6 networks written in CIDR notation or with a
//! netmask: parsing into a validated descriptor, derivation of the subnet
//! facts, and rendering of the fixed textual report.

pub mod address;
pub mod bridge;
pub mod cidr;
pub mod ipinspector;
pub mod network;
pub mod network_parser;
pub mod output_formatter;
pub mod text;

pub use address::{Family, IpAddress};
pub use cidr::{FailureKind, ParseFailure};
pub use ipinspector::{IpInspector, IpNetworkParseError};
pub use network::{DerivedFacts, HostCount, Network};
pub use network_parser::{MyAddrParseError, NetworkParser};
pub use output_formatter::OutputFormatter;

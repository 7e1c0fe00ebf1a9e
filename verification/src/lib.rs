//! Verified core of the frizz HTTP client and port scanner: transport
//! protocol names, the nmap service table, request planning, the service
//! file refresh decisions and scan planning.
pub mod protocol;
pub mod text;
pub mod services;
pub mod request;
pub mod refresh;
pub mod scan;

pub use protocol::{get_transport_layer_protocol_name, TransportLayerProtocol};
pub use request::{ExecRequest, FizzResult};
pub use services::{get_details, get_most_common_ports, get_most_common_ports_with_name, get_service_file};

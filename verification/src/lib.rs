//! SOCKS5 CONNECT protocol: parsing of client messages, encoding of server
//! replies, and the decision logic of the proxy and its benchmark client.

pub mod client;
pub mod config;
pub mod handshake;
pub mod http;
pub mod laws;
pub mod load;
pub mod protocol;
pub mod schedule;
pub mod text;

pub use protocol::{
    encode_general_failure_reply, encode_method_selection_no_auth, encode_success_reply,
    parse_connect_request, select_no_auth, ConnectRequest, SocksError, TargetAddr, ATYP_DOMAIN,
    ATYP_IPV4, ATYP_IPV6, CMD_CONNECT, METHOD_NO_AUTH, VERSION,
};

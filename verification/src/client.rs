//! The client side of a SOCKS5 CONNECT handshake, as the benchmark drives it:
//! the messages it sends and the checks it makes on the proxy's answers.

use vstd::prelude::*;

use crate::protocol::{ATYP_IPV4, ATYP_IPV6, CMD_CONNECT, METHOD_NO_AUTH, VERSION};
use crate::text::{byte_list_text, push_byte_list, push_str};

verus! {

/// An IP address, by its bytes in network order.
#[derive(Debug, Clone, Copy, PartialEq, Eq)]
pub enum IpAddress {
    V4([u8; 4]),
    V6([u8; 16]),
}

/// An IP address and a port.
#[derive(Debug, Clone, Copy, PartialEq, Eq)]
pub struct SocketAddress {
    pub ip: IpAddress,
    pub port: u16,
}

/// Why the proxy's answer was refused.
#[derive(Debug, Clone, PartialEq, Eq)]
pub enum ClientError {
    /// The method selection was not `VER 5, no authentication`.
    UnexpectedMethodSelection([u8; 2]),
    /// The CONNECT reply did not report success.
    ConnectFailed([u8; 10]),
}

/// The greeting that the client sends: version 5, one method, no authentication.
pub open spec fn client_greeting_bytes() -> Seq<u8> {
    seq![VERSION, 1u8, METHOD_NO_AUTH]
}

/// The CONNECT request for `addr`: header, address type and address bytes,
/// then the port in network order.
pub open spec fn connect_request_bytes(addr: SocketAddress) -> Seq<u8> {
    let head = seq![VERSION, CMD_CONNECT, 0x00u8];
    let address = match addr.ip {
        IpAddress::V4(a) => seq![ATYP_IPV4] + a@,
        IpAddress::V6(a) => seq![ATYP_IPV6] + a@,
    };
    head + address + seq![(addr.port / 256) as u8, (addr.port % 256) as u8]
}

/// The description of a client error.
pub open spec fn client_error_message(e: ClientError) -> Seq<char> {
    match e {
        ClientError::UnexpectedMethodSelection(m) => "unexpected SOCKS5 method selection: "@
            + byte_list_text(m@),
        ClientError::ConnectFailed(r) => "SOCKS5 CONNECT failed: "@ + byte_list_text(r@),
    }
}

/// The greeting that the client sends first.
pub fn client_greeting() -> (res: [u8; 3])
    ensures
        res@ == client_greeting_bytes(),
{
    let res = [VERSION, 0x01, METHOD_NO_AUTH];
    assert(res@ =~= client_greeting_bytes());
    res
}

/// Accepts the proxy's method selection only when it is `VER 5, no authentication`.
pub fn check_method_selection(method: &[u8; 2]) -> (res: Result<(), ClientError>)
    ensures
        res is Ok <==> method@ == seq![VERSION, METHOD_NO_AUTH],
        res matches Err(e) ==> e == ClientError::UnexpectedMethodSelection(*method),
{
    if method[0] == VERSION && method[1] == METHOD_NO_AUTH {
        assert(method@ =~= seq![VERSION, METHOD_NO_AUTH]);
        Ok(())
    } else {
        proof {
            if method@ == seq![VERSION, METHOD_NO_AUTH] {
                assert(method@[0] == VERSION);
            }
        }
        Err(ClientError::UnexpectedMethodSelection(*method))
    }
}

/// Encodes the CONNECT request for `target_addr`.
pub fn encode_socks_connect_request(target_addr: &SocketAddress) -> (request: Vec<u8>)
    ensures
        request@ == connect_request_bytes(*target_addr),
{
    let mut request: Vec<u8> = Vec::new();
    request.push(VERSION);
    request.push(CMD_CONNECT);
    request.push(0x00);
    match &target_addr.ip {
        IpAddress::V4(ip) => {
            request.push(ATYP_IPV4);
            let mut i: usize = 0;
            while i < 4
                invariant
                    0 <= i <= 4,
                    request@ == seq![VERSION, CMD_CONNECT, 0x00u8, ATYP_IPV4] + ip@.subrange(
                        0,
                        i as int,
                    ),
                decreases 4 - i,
            {
                request.push(ip[i]);
                i = i + 1;
                assert(request@ =~= seq![VERSION, CMD_CONNECT, 0x00u8, ATYP_IPV4] + ip@.subrange(
                    0,
                    i as int,
                ));
            }
        },
        IpAddress::V6(ip) => {
            request.push(ATYP_IPV6);
            let mut i: usize = 0;
            while i < 16
                invariant
                    0 <= i <= 16,
                    request@ == seq![VERSION, CMD_CONNECT, 0x00u8, ATYP_IPV6] + ip@.subrange(
                        0,
                        i as int,
                    ),
                decreases 16 - i,
            {
                request.push(ip[i]);
                i = i + 1;
                assert(request@ =~= seq![VERSION, CMD_CONNECT, 0x00u8, ATYP_IPV6] + ip@.subrange(
                    0,
                    i as int,
                ));
            }
        },
    }
    let port = target_addr.port;
    request.push((port / 256) as u8);
    request.push((port % 256) as u8);
    assert(request@ =~= connect_request_bytes(*target_addr));
    request
}

/// Accepts the proxy's CONNECT reply only when it has version 5 and reply
/// code 0 (success).
pub fn check_connect_reply(response: &[u8; 10]) -> (res: Result<(), ClientError>)
    ensures
        res is Ok <==> (response@[0] == VERSION && response@[1] == 0x00),
        res matches Err(e) ==> e == ClientError::ConnectFailed(*response),
{
    if response[0] != VERSION || response[1] != 0x00 {
        Err(ClientError::ConnectFailed(*response))
    } else {
        Ok(())
    }
}

impl ClientError {
    /// Describes the error in words.
    pub fn message(&self) -> (s: String)
        ensures
            s@ == client_error_message(*self),
    {
        let mut s = String::new();
        match self {
            ClientError::UnexpectedMethodSelection(m) => {
                push_str(&mut s, "unexpected SOCKS5 method selection: ");
                push_byte_list(&mut s, m);
            },
            ClientError::ConnectFailed(r) => {
                push_str(&mut s, "SOCKS5 CONNECT failed: ");
                push_byte_list(&mut s, r);
            },
        }
        assert(s@ =~= client_error_message(*self));
        s
    }
}

} // verus!

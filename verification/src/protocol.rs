//! The SOCKS5 messages that a no-authentication CONNECT proxy reads and writes.

use vstd::prelude::*;
use vstd::slice::slice_subrange;
use vstd::utf8::{decode_utf8, valid_utf8};

use crate::text::{decimal, hex_byte, push_decimal, push_hex_byte, push_str, utf8_decode};

verus! {

pub const VERSION: u8 = 0x05;

pub const METHOD_NO_AUTH: u8 = 0x00;

pub const CMD_CONNECT: u8 = 0x01;

pub const ATYP_IPV4: u8 = 0x01;

pub const ATYP_DOMAIN: u8 = 0x03;

pub const ATYP_IPV6: u8 = 0x04;

/// The destination named by a CONNECT request.
#[derive(Debug, Clone, PartialEq, Eq)]
pub enum TargetAddr {
    Ipv4([u8; 4]),
    Domain(String),
    Ipv6([u8; 16]),
}

/// A parsed CONNECT request: where to connect, and on which port.
#[derive(Debug, Clone, PartialEq, Eq)]
pub struct ConnectRequest {
    pub target: TargetAddr,
    pub port: u16,
}

/// Why a client message was refused.
#[derive(Debug, Clone, PartialEq, Eq)]
pub enum SocksError {
    ShortBuffer { needed: usize, actual: usize },
    InvalidVersion(u8),
    NoAcceptableAuthMethod,
    UnsupportedCommand(u8),
    InvalidReserved(u8),
    UnsupportedAddressType(u8),
    EmptyDomain,
    InvalidDomain,
    TrailingBytes,
}

/// The mathematical value of a target address: the address bytes, or the
/// characters of the domain name.
pub enum SpecTargetAddr {
    Ipv4(Seq<u8>),
    Domain(Seq<char>),
    Ipv6(Seq<u8>),
}

pub struct SpecConnectRequest {
    pub target: SpecTargetAddr,
    pub port: u16,
}

impl View for TargetAddr {
    type V = SpecTargetAddr;

    open spec fn view(&self) -> SpecTargetAddr {
        match self {
            TargetAddr::Ipv4(a) => SpecTargetAddr::Ipv4(a@),
            TargetAddr::Domain(d) => SpecTargetAddr::Domain(d@),
            TargetAddr::Ipv6(a) => SpecTargetAddr::Ipv6(a@),
        }
    }
}

impl View for ConnectRequest {
    type V = SpecConnectRequest;

    open spec fn view(&self) -> SpecConnectRequest {
        SpecConnectRequest { target: self.target@, port: self.port }
    }
}

/// The value of a big-endian 16-bit field.
pub open spec fn be_u16(hi: u8, lo: u8) -> u16 {
    (hi as int * 256 + lo as int) as u16
}

/// The result of asking for at least `needed` bytes in a buffer of `len` bytes.
pub open spec fn min_len_result(len: nat, needed: nat) -> Result<(), SocksError> {
    if len < needed {
        Err(SocksError::ShortBuffer { needed: needed as usize, actual: len as usize })
    } else {
        Ok(())
    }
}

/// The result of asking for exactly `needed` bytes in a buffer of `len` bytes.
pub open spec fn exact_len_result(len: nat, needed: nat) -> Result<(), SocksError> {
    if len < needed {
        Err(SocksError::ShortBuffer { needed: needed as usize, actual: len as usize })
    } else if len > needed {
        Err(SocksError::TrailingBytes)
    } else {
        Ok(())
    }
}

/// What `select_no_auth` answers to the client greeting `g`
/// (`VER`, `NMETHODS`, then `NMETHODS` method bytes): the length first, then
/// the methods, then the version.
pub open spec fn greeting_result(g: Seq<u8>) -> Result<(), SocksError> {
    if g.len() < 2 {
        min_len_result(g.len(), 2)
    } else {
        match exact_len_result(g.len(), (2 + g[1]) as nat) {
            Err(e) => Err(e),
            Ok(()) => if !g.subrange(2, g.len() as int).contains(METHOD_NO_AUTH) {
                Err(SocksError::NoAcceptableAuthMethod)
            } else if g[0] != VERSION {
                Err(SocksError::InvalidVersion(g[0]))
            } else {
                Ok(())
            },
        }
    }
}

/// What the IPv4 branch answers to a request whose header was accepted.
pub open spec fn ipv4_request_result(buf: Seq<u8>) -> Result<SpecConnectRequest, SocksError> {
    match exact_len_result(buf.len(), 10) {
        Err(e) => Err(e),
        Ok(()) => Ok(
            SpecConnectRequest {
                target: SpecTargetAddr::Ipv4(buf.subrange(4, 8)),
                port: be_u16(buf[8], buf[9]),
            },
        ),
    }
}

/// True when the bytes of an IPv6 request between the first four address
/// bytes and the last twelve are all zero: the padding of a request longer
/// than 22 bytes.
pub open spec fn ipv6_padding_is_zero(buf: Seq<u8>) -> bool {
    forall|i: int| 8 <= i < buf.len() - 14 ==> buf[i] == 0
}

/// What the IPv6 branch answers to a request whose header was accepted. The
/// address is the first four bytes of the address field and its last
/// twelve; a field longer than 16 bytes is accepted when the bytes between
/// them are zero padding, and refused as trailing bytes otherwise.
pub open spec fn ipv6_request_result(buf: Seq<u8>) -> Result<SpecConnectRequest, SocksError> {
    if buf.len() < 22 {
        Err(SocksError::ShortBuffer { needed: 22, actual: buf.len() as usize })
    } else if !ipv6_padding_is_zero(buf) {
        Err(SocksError::TrailingBytes)
    } else {
        Ok(
            SpecConnectRequest {
                target: SpecTargetAddr::Ipv6(
                    buf.subrange(4, 8) + buf.subrange(buf.len() - 14, buf.len() - 2),
                ),
                port: be_u16(buf[buf.len() - 2], buf[buf.len() - 1]),
            },
        )
    }
}

/// What the domain branch answers to a request whose header was accepted:
/// a length byte, that many bytes of UTF-8, then the port.
pub open spec fn domain_request_result(buf: Seq<u8>) -> Result<SpecConnectRequest, SocksError> {
    if buf.len() < 5 {
        Err(SocksError::ShortBuffer { needed: 5, actual: buf.len() as usize })
    } else if buf[4] == 0 {
        Err(SocksError::EmptyDomain)
    } else {
        match exact_len_result(buf.len(), (7 + buf[4]) as nat) {
            Err(e) => Err(e),
            Ok(()) => if !valid_utf8(buf.subrange(5, 5 + buf[4])) {
                Err(SocksError::InvalidDomain)
            } else {
                Ok(
                    SpecConnectRequest {
                        target: SpecTargetAddr::Domain(decode_utf8(buf.subrange(5, 5 + buf[4]))),
                        port: be_u16(buf[5 + buf[4]], buf[6 + buf[4]]),
                    },
                )
            },
        }
    }
}

/// What `parse_connect_request` answers to `buf`
/// (`VER`, `CMD`, `RSV`, `ATYP`, address, port).
pub open spec fn connect_request_result(buf: Seq<u8>) -> Result<SpecConnectRequest, SocksError> {
    if buf.len() < 4 {
        Err(SocksError::ShortBuffer { needed: 4, actual: buf.len() as usize })
    } else if buf[0] != VERSION {
        Err(SocksError::InvalidVersion(buf[0]))
    } else if buf[1] != CMD_CONNECT {
        Err(SocksError::UnsupportedCommand(buf[1]))
    } else if buf[2] != 0 {
        Err(SocksError::InvalidReserved(buf[2]))
    } else if buf[3] == ATYP_IPV4 {
        ipv4_request_result(buf)
    } else if buf[3] == ATYP_DOMAIN {
        domain_request_result(buf)
    } else if buf[3] == ATYP_IPV6 {
        ipv6_request_result(buf)
    } else {
        Err(SocksError::UnsupportedAddressType(buf[3]))
    }
}

/// The result of an exec parse, read through the views.
pub open spec fn request_result_view(r: Result<ConnectRequest, SocksError>) -> Result<
    SpecConnectRequest,
    SocksError,
> {
    match r {
        Ok(req) => Ok(req@),
        Err(e) => Err(e),
    }
}

/// The bytes of a server reply with reply code `rep` and a zero IPv4 bound address.
pub open spec fn reply_bytes(rep: u8) -> Seq<u8> {
    seq![VERSION, rep, 0x00u8, ATYP_IPV4, 0u8, 0u8, 0u8, 0u8, 0u8, 0u8]
}


/// The human-readable description of an error.
pub open spec fn error_message(e: SocksError) -> Seq<char> {
    match e {
        SocksError::ShortBuffer { needed, actual } => "short buffer: needed "@ + decimal(
            needed as nat,
        ) + " bytes, got "@ + decimal(actual as nat),
        SocksError::InvalidVersion(v) => "invalid SOCKS version: "@ + hex_byte(v),
        SocksError::NoAcceptableAuthMethod => "no acceptable auth method"@,
        SocksError::UnsupportedCommand(c) => "unsupported command: "@ + hex_byte(c),
        SocksError::InvalidReserved(r) => "invalid reserved byte: "@ + hex_byte(r),
        SocksError::UnsupportedAddressType(a) => "unsupported address type: "@ + hex_byte(a),
        SocksError::EmptyDomain => "empty domain name"@,
        SocksError::InvalidDomain => "invalid domain name"@,
        SocksError::TrailingBytes => "trailing bytes"@,
    }
}

/// The `host:port` text of a request. For an IPv6 target the host part is
/// `ipv6_text` in square brackets: the caller supplies the address's
/// canonical text form.
pub open spec fn target_text(req: SpecConnectRequest, ipv6_text: Seq<char>) -> Seq<char> {
    match req.target {
        SpecTargetAddr::Ipv4(a) => decimal(a[0] as nat) + "."@ + decimal(a[1] as nat) + "."@
            + decimal(a[2] as nat) + "."@ + decimal(a[3] as nat) + ":"@ + decimal(req.port as nat),
        SpecTargetAddr::Domain(d) => d + ":"@ + decimal(req.port as nat),
        SpecTargetAddr::Ipv6(_) => "["@ + ipv6_text + "]:"@ + decimal(req.port as nat),
    }
}

impl SocksError {
    /// Describes the error in words, as the proxy logs it.
    pub fn message(&self) -> (s: String)
        ensures
            s@ == error_message(*self),
    {
        let mut s = String::new();
        match self {
            SocksError::ShortBuffer { needed, actual } => {
                push_str(&mut s, "short buffer: needed ");
                push_decimal(&mut s, *needed as u64);
                push_str(&mut s, " bytes, got ");
                push_decimal(&mut s, *actual as u64);
            },
            SocksError::InvalidVersion(v) => {
                push_str(&mut s, "invalid SOCKS version: ");
                push_hex_byte(&mut s, *v);
            },
            SocksError::NoAcceptableAuthMethod => {
                push_str(&mut s, "no acceptable auth method");
            },
            SocksError::UnsupportedCommand(c) => {
                push_str(&mut s, "unsupported command: ");
                push_hex_byte(&mut s, *c);
            },
            SocksError::InvalidReserved(r) => {
                push_str(&mut s, "invalid reserved byte: ");
                push_hex_byte(&mut s, *r);
            },
            SocksError::UnsupportedAddressType(a) => {
                push_str(&mut s, "unsupported address type: ");
                push_hex_byte(&mut s, *a);
            },
            SocksError::EmptyDomain => {
                push_str(&mut s, "empty domain name");
            },
            SocksError::InvalidDomain => {
                push_str(&mut s, "invalid domain name");
            },
            SocksError::TrailingBytes => {
                push_str(&mut s, "trailing bytes");
            },
        }
        assert(s@ =~= error_message(*self));
        s
    }
}

impl ConnectRequest {
    /// The `host:port` text to connect to: dotted decimal for IPv4, the name
    /// for a domain, and `[ipv6_text]` for IPv6, where `ipv6_text` is the
    /// canonical text form of the address (which the caller computes).
    pub fn target_string(&self, ipv6_text: &str) -> (s: String)
        ensures
            s@ == target_text(self@, ipv6_text@),
    {
        let mut s = String::new();
        match &self.target {
            TargetAddr::Ipv4(addr) => {
                push_decimal(&mut s, addr[0] as u64);
                push_str(&mut s, ".");
                push_decimal(&mut s, addr[1] as u64);
                push_str(&mut s, ".");
                push_decimal(&mut s, addr[2] as u64);
                push_str(&mut s, ".");
                push_decimal(&mut s, addr[3] as u64);
                push_str(&mut s, ":");
            },
            TargetAddr::Domain(domain) => {
                push_str(&mut s, domain.as_str());
                push_str(&mut s, ":");
            },
            TargetAddr::Ipv6(_) => {
                push_str(&mut s, "[");
                push_str(&mut s, ipv6_text);
                push_str(&mut s, "]:");
            },
        }
        push_decimal(&mut s, self.port as u64);
        assert(s@ =~= target_text(self@, ipv6_text@));
        s
    }
}

/// Checks that the client greeting offers the no-authentication method.
///
/// The greeting must be exactly `VER NMETHODS METHODS...`, with version 5,
/// and one of its methods must be `METHOD_NO_AUTH`.
pub fn select_no_auth(greeting: &[u8]) -> (res: Result<(), SocksError>)
    ensures
        res == greeting_result(greeting@),
{
    require_min_len(greeting, 2)?;
    let method_count = greeting[1] as usize;
    let expected_len = 2 + method_count;
    require_exact_len(greeting, expected_len)?;

    let mut i: usize = 2;
    while i < greeting.len()
        invariant
            2 <= i <= greeting.len(),
            greeting.len() == expected_len,
            expected_len == 2 + greeting@[1],
            forall|j: int| 2 <= j < i ==> greeting@[j] != METHOD_NO_AUTH,
        decreases greeting.len() - i,
    {
        if greeting[i] == METHOD_NO_AUTH {
            proof {
                let methods = greeting@.subrange(2, greeting@.len() as int);
                assert(methods[i - 2] == METHOD_NO_AUTH);
            }
            if greeting[0] != VERSION {
                return Err(SocksError::InvalidVersion(greeting[0]));
            }
            return Ok(());
        }
        i = i + 1;
    }
    proof {
        let methods = greeting@.subrange(2, greeting@.len() as int);
        assert forall|k: int| 0 <= k < methods.len() implies methods[k] != METHOD_NO_AUTH by {
            assert(methods[k] == greeting@[k + 2]);
        }
    }
    Err(SocksError::NoAcceptableAuthMethod)
}

/// Parses a CONNECT request: `VER CMD RSV ATYP ADDR PORT`, with version 5,
/// command CONNECT, a zero reserved byte, and nothing after the port. An
/// IPv6 address field longer than 16 bytes is read as the first four address
/// bytes, zero padding, and the last twelve.
pub fn parse_connect_request(buf: &[u8]) -> (res: Result<ConnectRequest, SocksError>)
    ensures
        request_result_view(res) == connect_request_result(buf@),
{
    require_min_len(buf, 4)?;
    if buf[0] != VERSION {
        return Err(SocksError::InvalidVersion(buf[0]));
    }
    if buf[1] != CMD_CONNECT {
        return Err(SocksError::UnsupportedCommand(buf[1]));
    }
    if buf[2] != 0x00 {
        return Err(SocksError::InvalidReserved(buf[2]));
    }
    let atyp = buf[3];
    if atyp == ATYP_IPV4 {
        parse_ipv4_connect_request(buf)
    } else if atyp == ATYP_DOMAIN {
        parse_domain_connect_request(buf)
    } else if atyp == ATYP_IPV6 {
        parse_ipv6_connect_request(buf)
    } else {
        Err(SocksError::UnsupportedAddressType(atyp))
    }
}

/// The server's answer to the greeting: version 5, no authentication.
pub fn encode_method_selection_no_auth() -> (res: [u8; 2])
    ensures
        res@ == seq![VERSION, METHOD_NO_AUTH],
{
    let res = [VERSION, METHOD_NO_AUTH];
    assert(res@ =~= seq![VERSION, METHOD_NO_AUTH]);
    res
}

/// The reply that reports a successful CONNECT (reply code 0).
pub fn encode_success_reply() -> (res: [u8; 10])
    ensures
        res@ == reply_bytes(0x00),
{
    encode_reply(0x00)
}

/// The reply that reports a general SOCKS server failure (reply code 1).
pub fn encode_general_failure_reply() -> (res: [u8; 10])
    ensures
        res@ == reply_bytes(0x01),
{
    encode_reply(0x01)
}

fn parse_ipv4_connect_request(buf: &[u8]) -> (res: Result<ConnectRequest, SocksError>)
    requires
        buf@.len() >= 4,
    ensures
        request_result_view(res) == ipv4_request_result(buf@),
{
    require_exact_len(buf, 10)?;
    let addr = [buf[4], buf[5], buf[6], buf[7]];
    assert(addr@ =~= buf@.subrange(4, 8));
    let port = (buf[8] as u16) * 256 + (buf[9] as u16);
    Ok(ConnectRequest { target: TargetAddr::Ipv4(addr), port })
}

fn parse_domain_connect_request(buf: &[u8]) -> (res: Result<ConnectRequest, SocksError>)
    ensures
        request_result_view(res) == domain_request_result(buf@),
{
    require_min_len(buf, 5)?;
    let domain_len = buf[4] as usize;
    if domain_len == 0 {
        return Err(SocksError::EmptyDomain);
    }
    let expected_len = 5 + domain_len + 2;
    require_exact_len(buf, expected_len)?;

    let domain_end = 5 + domain_len;
    let domain_bytes = slice_subrange(buf, 5, domain_end);
    let domain = match utf8_decode(domain_bytes) {
        Some(s) => s.to_owned(),
        None => return Err(SocksError::InvalidDomain),
    };
    let port = (buf[domain_end] as u16) * 256 + (buf[domain_end + 1] as u16);
    Ok(ConnectRequest { target: TargetAddr::Domain(domain), port })
}

fn parse_ipv6_connect_request(buf: &[u8]) -> (res: Result<ConnectRequest, SocksError>)
    requires
        buf@.len() >= 4,
    ensures
        request_result_view(res) == ipv6_request_result(buf@),
{
    require_min_len(buf, 22)?;
    let n = buf.len();
    let tail = n - 14;
    let mut i: usize = 8;
    while i < tail
        invariant
            n == buf@.len(),
            tail == n - 14,
            8 <= i <= tail,
            forall|j: int| 8 <= j < i ==> buf@[j] == 0,
        decreases tail - i,
    {
        if buf[i] != 0 {
            return Err(SocksError::TrailingBytes);
        }
        i = i + 1;
    }
    let addr = [
        buf[4],
        buf[5],
        buf[6],
        buf[7],
        buf[tail],
        buf[tail + 1],
        buf[tail + 2],
        buf[tail + 3],
        buf[tail + 4],
        buf[tail + 5],
        buf[tail + 6],
        buf[tail + 7],
        buf[tail + 8],
        buf[tail + 9],
        buf[tail + 10],
        buf[tail + 11],
    ];
    assert(addr@ =~= buf@.subrange(4, 8) + buf@.subrange(n - 14, n - 2));
    let port = (buf[n - 2] as u16) * 256 + (buf[n - 1] as u16);
    Ok(ConnectRequest { target: TargetAddr::Ipv6(addr), port })
}

fn encode_reply(rep: u8) -> (res: [u8; 10])
    ensures
        res@ == reply_bytes(rep),
{
    let res = [VERSION, rep, 0x00, ATYP_IPV4, 0, 0, 0, 0, 0, 0];
    assert(res@ =~= reply_bytes(rep));
    res
}

fn require_min_len(buf: &[u8], needed: usize) -> (res: Result<(), SocksError>)
    ensures
        res == min_len_result(buf@.len(), needed as nat),
{
    if buf.len() < needed {
        Err(SocksError::ShortBuffer { needed, actual: buf.len() })
    } else {
        Ok(())
    }
}

fn require_exact_len(buf: &[u8], needed: usize) -> (res: Result<(), SocksError>)
    ensures
        res == exact_len_result(buf@.len(), needed as nat),
{
    if buf.len() < needed {
        Err(SocksError::ShortBuffer { needed, actual: buf.len() })
    } else if buf.len() == needed {
        Ok(())
    } else {
        Err(SocksError::TrailingBytes)
    }
}

} // verus!

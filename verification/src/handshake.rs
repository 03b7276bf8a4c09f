//! The proxy side of a SOCKS5 CONNECT handshake, as a state machine.
//!
//! The machine decides; the caller does the I/O. Each call hands back the next
//! action: read an exact number of bytes, write bytes, connect to the target,
//! start relaying, or give up. The caller performs it and reports back with
//! `received`, `sent` or `connected`.

use vstd::prelude::*;

use crate::protocol::{
    connect_request_result, encode_method_selection_no_auth, encode_success_reply,
    error_message, greeting_result, parse_connect_request, reply_bytes, select_no_auth,
    ConnectRequest, SocksError, SpecConnectRequest, ATYP_DOMAIN, ATYP_IPV4, ATYP_IPV6,
    METHOD_NO_AUTH, VERSION,
};
use crate::text::push_str;

verus! {

/// Where the handshake stands.
#[derive(Debug, Clone, Copy, PartialEq, Eq, Structural)]
pub enum Phase {
    /// Waiting for `VER NMETHODS`.
    GreetingHead,
    /// Waiting for the `NMETHODS` method bytes.
    GreetingMethods,
    /// The method selection is being written.
    SendingMethod,
    /// Waiting for `VER CMD RSV ATYP`.
    RequestHead,
    /// Waiting for the length byte of a domain name.
    DomainLength,
    /// Waiting for the rest of the request: address and port.
    RequestRest,
    /// The target is being connected to.
    Connecting,
    /// The success reply is being written.
    SendingReply,
    /// The handshake is over and data is relayed.
    Relaying,
    /// The handshake was given up.
    Failed,
}

/// Why the handshake was given up.
#[derive(Debug, Clone, PartialEq, Eq)]
pub enum HandshakeError {
    /// The greeting does not start with version 5.
    NotSocks5,
    /// The request names an address type that the proxy cannot read.
    UnknownAddressType,
    /// The greeting or the request was refused.
    Protocol(SocksError),
}

/// What the caller is to do next.
#[derive(Debug)]
pub enum ServerAction {
    /// Read exactly this many bytes and pass them to `received`.
    Read(usize),
    /// Write these bytes and then call `sent`.
    Write(Vec<u8>),
    /// Connect to the target of this request and then call `connected`.
    Connect(ConnectRequest),
    /// Relay data between the client and the target.
    Relay,
    /// Give up with this error.
    Fail(HandshakeError),
}

/// The state of one client's handshake.
pub struct ServerHandshake {
    phase: Phase,
    buf: Vec<u8>,
}

/// The mathematical state: the phase, and the bytes of the current message
/// read so far.
pub struct SpecHandshake {
    pub phase: Phase,
    pub buf: Seq<u8>,
}

pub enum SpecServerAction {
    Read(nat),
    Write(Seq<u8>),
    Connect(SpecConnectRequest),
    Relay,
    Fail(HandshakeError),
}

impl View for ServerHandshake {
    type V = SpecHandshake;

    closed spec fn view(&self) -> SpecHandshake {
        SpecHandshake { phase: self.phase, buf: self.buf@ }
    }
}

impl View for ServerAction {
    type V = SpecServerAction;

    open spec fn view(&self) -> SpecServerAction {
        match self {
            ServerAction::Read(n) => SpecServerAction::Read(*n as nat),
            ServerAction::Write(b) => SpecServerAction::Write(b@),
            ServerAction::Connect(r) => SpecServerAction::Connect(r@),
            ServerAction::Relay => SpecServerAction::Relay,
            ServerAction::Fail(e) => SpecServerAction::Fail(*e),
        }
    }
}

/// The description of a handshake error.
pub open spec fn handshake_error_message(e: HandshakeError) -> Seq<char> {
    match e {
        HandshakeError::NotSocks5 => "Not socks5!"@,
        HandshakeError::UnknownAddressType => "Unknown ATYP"@,
        HandshakeError::Protocol(s) => error_message(s),
    }
}

/// How many bytes of the address and port follow a request head `h`
/// with a known address type.
pub open spec fn request_tail_len(h: Seq<u8>) -> nat {
    if h[3] == ATYP_IPV4 {
        6
    } else if h[3] == ATYP_IPV6 {
        18
    } else {
        h[4] as nat + 2
    }
}

/// How many bytes the machine waits for in state `s` (zero when it waits for
/// none).
pub open spec fn wanted(s: SpecHandshake) -> nat {
    match s.phase {
        Phase::GreetingHead => 2,
        Phase::GreetingMethods => s.buf[1] as nat,
        Phase::RequestHead => 4,
        Phase::DomainLength => 1,
        Phase::RequestRest => request_tail_len(s.buf),
        _ => 0,
    }
}

/// True when the machine waits for bytes.
pub open spec fn awaits_bytes(p: Phase) -> bool {
    p == Phase::GreetingHead || p == Phase::GreetingMethods || p == Phase::RequestHead || p
        == Phase::DomainLength || p == Phase::RequestRest
}

/// The invariant of the machine: what it has buffered in each phase.
pub open spec fn handshake_wf(s: SpecHandshake) -> bool {
    match s.phase {
        Phase::GreetingHead => s.buf.len() == 0,
        Phase::GreetingMethods => s.buf.len() == 2 && s.buf[0] == VERSION,
        Phase::RequestHead => s.buf.len() == 0,
        Phase::DomainLength => s.buf.len() == 4 && s.buf[3] == ATYP_DOMAIN,
        Phase::RequestRest => {
            ||| s.buf.len() == 4 && (s.buf[3] == ATYP_IPV4 || s.buf[3] == ATYP_IPV6)
            ||| s.buf.len() == 5 && s.buf[3] == ATYP_DOMAIN
        },
        _ => s.buf.len() == 0,
    }
}

/// The machine's answer to the bytes `b` (of the wanted length) in state `s`.
pub open spec fn on_received(s: SpecHandshake, b: Seq<u8>) -> (SpecHandshake, SpecServerAction) {
    match s.phase {
        Phase::GreetingHead => if b[0] != VERSION {
            (
                SpecHandshake { phase: Phase::Failed, buf: seq![] },
                SpecServerAction::Fail(HandshakeError::NotSocks5),
            )
        } else {
            (
                SpecHandshake { phase: Phase::GreetingMethods, buf: b },
                SpecServerAction::Read(b[1] as nat),
            )
        },
        Phase::GreetingMethods => match greeting_result(s.buf + b) {
            Ok(_) => (
                SpecHandshake { phase: Phase::SendingMethod, buf: seq![] },
                SpecServerAction::Write(seq![VERSION, METHOD_NO_AUTH]),
            ),
            Err(e) => (
                SpecHandshake { phase: Phase::Failed, buf: seq![] },
                SpecServerAction::Fail(HandshakeError::Protocol(e)),
            ),
        },
        Phase::RequestHead => if b[3] == ATYP_IPV4 || b[3] == ATYP_IPV6 {
            (
                SpecHandshake { phase: Phase::RequestRest, buf: b },
                SpecServerAction::Read(request_tail_len(b)),
            )
        } else if b[3] == ATYP_DOMAIN {
            (SpecHandshake { phase: Phase::DomainLength, buf: b }, SpecServerAction::Read(1))
        } else {
            (
                SpecHandshake { phase: Phase::Failed, buf: seq![] },
                SpecServerAction::Fail(HandshakeError::UnknownAddressType),
            )
        },
        Phase::DomainLength => (
            SpecHandshake { phase: Phase::RequestRest, buf: s.buf + b },
            SpecServerAction::Read(b[0] as nat + 2),
        ),
        _ => match connect_request_result(s.buf + b) {
            Ok(req) => (
                SpecHandshake { phase: Phase::Connecting, buf: seq![] },
                SpecServerAction::Connect(req),
            ),
            Err(e) => (
                SpecHandshake { phase: Phase::Failed, buf: seq![] },
                SpecServerAction::Fail(HandshakeError::Protocol(e)),
            ),
        },
    }
}

impl HandshakeError {
    /// Describes the error in words.
    pub fn message(&self) -> (s: String)
        ensures
            s@ == handshake_error_message(*self),
    {
        match self {
            HandshakeError::NotSocks5 => {
                let mut s = String::new();
                push_str(&mut s, "Not socks5!");
                assert(s@ =~= "Not socks5!"@);
                s
            },
            HandshakeError::UnknownAddressType => {
                let mut s = String::new();
                push_str(&mut s, "Unknown ATYP");
                assert(s@ =~= "Unknown ATYP"@);
                s
            },
            HandshakeError::Protocol(e) => e.message(),
        }
    }
}

impl ServerHandshake {
    /// A new handshake, and its first action: read `VER NMETHODS`.
    pub fn new() -> (res: (ServerHandshake, ServerAction))
        ensures
            res.0.wf(),
            res.0@ == (SpecHandshake { phase: Phase::GreetingHead, buf: seq![] }),
            res.1@ == SpecServerAction::Read(2),
    {
        let hs = ServerHandshake { phase: Phase::GreetingHead, buf: Vec::new() };
        assert(hs.buf@ =~= seq![]);
        (hs, ServerAction::Read(2))
    }

    /// The invariant that every handshake keeps.
    pub closed spec fn wf(&self) -> bool {
        handshake_wf(self@)
    }

    /// The current phase.
    pub fn phase(&self) -> (p: Phase)
        ensures
            p == self@.phase,
    {
        self.phase
    }

    /// How many bytes the handshake waits for, when it waits for bytes.
    pub fn wanted(&self) -> (n: usize)
        requires
            self.wf(),
        ensures
            n == wanted(self@),
    {
        match self.phase {
            Phase::GreetingHead => 2,
            Phase::GreetingMethods => self.buf[1] as usize,
            Phase::RequestHead => 4,
            Phase::DomainLength => 1,
            Phase::RequestRest => {
                if self.buf[3] == ATYP_IPV4 {
                    6
                } else if self.buf[3] == ATYP_IPV6 {
                    18
                } else {
                    self.buf[4] as usize + 2
                }
            },
            _ => 0,
        }
    }

    /// Takes the bytes that the last `Read` action asked for.
    pub fn received(&mut self, bytes: &[u8]) -> (action: ServerAction)
        requires
            old(self).wf(),
            awaits_bytes(old(self)@.phase),
            bytes@.len() == wanted(old(self)@),
        ensures
            final(self).wf(),
            (final(self)@, action@) == on_received(old(self)@, bytes@),
    {
        match self.phase {
            Phase::GreetingHead => {
                if bytes[0] != VERSION {
                    self.fail(HandshakeError::NotSocks5)
                } else {
                    self.buf = slice_to_vec_u8(bytes);
                    self.phase = Phase::GreetingMethods;
                    ServerAction::Read(bytes[1] as usize)
                }
            },
            Phase::GreetingMethods => {
                self.append(bytes);
                match select_no_auth(self.buf.as_slice()) {
                    Ok(()) => {
                        self.buf = Vec::new();
                        self.phase = Phase::SendingMethod;
                        let reply = encode_method_selection_no_auth();
                        let out = vec![reply[0], reply[1]];
                        assert(out@ =~= seq![VERSION, METHOD_NO_AUTH]);
                        assert(self.buf@ =~= seq![]);
                        ServerAction::Write(out)
                    },
                    Err(e) => self.fail(HandshakeError::Protocol(e)),
                }
            },
            Phase::RequestHead => {
                let atyp = bytes[3];
                if atyp == ATYP_IPV4 || atyp == ATYP_IPV6 {
                    self.buf = slice_to_vec_u8(bytes);
                    self.phase = Phase::RequestRest;
                    if atyp == ATYP_IPV4 {
                        ServerAction::Read(6)
                    } else {
                        ServerAction::Read(18)
                    }
                } else if atyp == ATYP_DOMAIN {
                    self.buf = slice_to_vec_u8(bytes);
                    self.phase = Phase::DomainLength;
                    ServerAction::Read(1)
                } else {
                    self.fail(HandshakeError::UnknownAddressType)
                }
            },
            Phase::DomainLength => {
                let domain_len = bytes[0];
                self.append(bytes);
                self.phase = Phase::RequestRest;
                ServerAction::Read(domain_len as usize + 2)
            },
            _ => {
                self.append(bytes);
                match parse_connect_request(self.buf.as_slice()) {
                    Ok(req) => {
                        self.buf = Vec::new();
                        self.phase = Phase::Connecting;
                        assert(self.buf@ =~= seq![]);
                        ServerAction::Connect(req)
                    },
                    Err(e) => self.fail(HandshakeError::Protocol(e)),
                }
            },
        }
    }

    /// Reports that the last `Write` action was carried out.
    pub fn sent(&mut self) -> (action: ServerAction)
        requires
            old(self).wf(),
            old(self)@.phase == Phase::SendingMethod || old(self)@.phase == Phase::SendingReply,
        ensures
            final(self).wf(),
            old(self)@.phase == Phase::SendingMethod ==> final(self)@ == (SpecHandshake {
                phase: Phase::RequestHead,
                buf: seq![],
            }) && action@ == SpecServerAction::Read(4),
            old(self)@.phase == Phase::SendingReply ==> final(self)@ == (SpecHandshake {
                phase: Phase::Relaying,
                buf: seq![],
            }) && action@ == SpecServerAction::Relay,
    {
        assert(self.buf@ =~= seq![]);
        if self.phase == Phase::SendingMethod {
            self.phase = Phase::RequestHead;
            ServerAction::Read(4)
        } else {
            self.phase = Phase::Relaying;
            ServerAction::Relay
        }
    }

    /// Reports that the connection to the target was made.
    pub fn connected(&mut self) -> (action: ServerAction)
        requires
            old(self).wf(),
            old(self)@.phase == Phase::Connecting,
        ensures
            final(self).wf(),
            final(self)@ == (SpecHandshake { phase: Phase::SendingReply, buf: seq![] }),
            action@ == SpecServerAction::Write(reply_bytes(0x00)),
    {
        assert(self.buf@ =~= seq![]);
        self.phase = Phase::SendingReply;
        let reply = encode_success_reply();
        let mut out: Vec<u8> = Vec::new();
        let mut i: usize = 0;
        while i < 10
            invariant
                0 <= i <= 10,
                reply@ == reply_bytes(0x00),
                out@ == reply@.subrange(0, i as int),
            decreases 10 - i,
        {
            out.push(reply[i]);
            i = i + 1;
        }
        assert(out@ =~= reply@);
        ServerAction::Write(out)
    }

    fn append(&mut self, bytes: &[u8])
        ensures
            final(self).phase == old(self).phase,
            final(self).buf@ == old(self).buf@ + bytes@,
    {
        let mut i: usize = 0;
        let ghost start = self.buf@;
        while i < bytes.len()
            invariant
                0 <= i <= bytes.len(),
                self.phase == old(self).phase,
                start == old(self).buf@,
                self.buf@ == start + bytes@.subrange(0, i as int),
            decreases bytes.len() - i,
        {
            self.buf.push(bytes[i]);
            i = i + 1;
            assert(self.buf@ =~= start + bytes@.subrange(0, i as int));
        }
        assert(bytes@.subrange(0, bytes@.len() as int) =~= bytes@);
    }

    fn fail(&mut self, e: HandshakeError) -> (action: ServerAction)
        ensures
            final(self)@ == (SpecHandshake { phase: Phase::Failed, buf: seq![] }),
            action@ == SpecServerAction::Fail(e),
    {
        self.phase = Phase::Failed;
        self.buf = Vec::new();
        assert(self.buf@ =~= seq![]);
        ServerAction::Fail(e)
    }
}

fn slice_to_vec_u8(bytes: &[u8]) -> (v: Vec<u8>)
    ensures
        v@ == bytes@,
{
    let mut v: Vec<u8> = Vec::new();
    let mut i: usize = 0;
    while i < bytes.len()
        invariant
            0 <= i <= bytes.len(),
            v@ == bytes@.subrange(0, i as int),
        decreases bytes.len() - i,
    {
        v.push(bytes[i]);
        i = i + 1;
    }
    assert(v@ =~= bytes@);
    v
}

} // verus!

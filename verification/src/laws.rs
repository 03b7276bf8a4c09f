//! Properties that relate the parser, the encoders, the proxy's handshake and
//! the benchmark client's checks.

use vstd::prelude::*;
use vstd::utf8::{
    decode_utf8_encode_utf8, encode_utf8, encode_utf8_decode_utf8, encode_utf8_valid_utf8,
};

use crate::config::{concurrency_result, config_result, piece_values, split_commas, ConfigView};
use crate::client::{client_greeting_bytes, connect_request_bytes, IpAddress, SocketAddress};
use crate::handshake::{
    awaits_bytes, handshake_wf, on_received, wanted, HandshakeError, Phase, SpecHandshake,
    SpecServerAction,
};
use crate::http::{header_scan, HeaderScan, MAX_REQUEST_HEADER};
use crate::text::{decimal, digit_char, digits_value, is_digit, unsigned_digits, usize_text_value};
use crate::protocol::{
    be_u16, connect_request_result, greeting_result, reply_bytes, target_text, SocksError,
    SpecConnectRequest,
    SpecTargetAddr, ATYP_DOMAIN, ATYP_IPV4, ATYP_IPV6, CMD_CONNECT, METHOD_NO_AUTH, VERSION,
};

verus! {

/// The request that a socket address stands for.
pub open spec fn request_for(addr: SocketAddress) -> SpecConnectRequest {
    SpecConnectRequest {
        target: match addr.ip {
            IpAddress::V4(a) => SpecTargetAddr::Ipv4(a@),
            IpAddress::V6(a) => SpecTargetAddr::Ipv6(a@),
        },
        port: addr.port,
    }
}

/// The canonical bytes of a CONNECT request: header, address type, address
/// (a length byte and UTF-8 for a domain), port in network order.
pub open spec fn request_bytes(req: SpecConnectRequest) -> Seq<u8> {
    let address = match req.target {
        SpecTargetAddr::Ipv4(a) => seq![ATYP_IPV4] + a,
        SpecTargetAddr::Domain(d) => seq![ATYP_DOMAIN, encode_utf8(d).len() as u8] + encode_utf8(d),
        SpecTargetAddr::Ipv6(a) => seq![ATYP_IPV6] + a,
    };
    seq![VERSION, CMD_CONNECT, 0x00u8] + address + seq![
        (req.port / 256) as u8,
        (req.port % 256) as u8,
    ]
}

proof fn lemma_be_u16_split(port: u16)
    ensures
        be_u16((port / 256) as u8, (port % 256) as u8) == port,
        (port / 256) < 256,
{
}

proof fn lemma_be_u16_join(hi: u8, lo: u8)
    ensures
        (be_u16(hi, lo) / 256) as u8 == hi,
        (be_u16(hi, lo) % 256) as u8 == lo,
{
}

/// True for an IPv6 request longer than its 22 canonical bytes: one whose
/// zero padding the parser drops.
pub open spec fn is_padded_ipv6_request(buf: Seq<u8>) -> bool {
    buf.len() >= 4 && buf[3] == ATYP_IPV6 && buf.len() != 22
}

/// Whatever `parse_connect_request` accepts, other than a zero-padded IPv6
/// request, is exactly the canonical encoding of what it returns: no byte is
/// ignored.
pub proof fn law_parse_reads_canonical_bytes(buf: Seq<u8>)
    requires
        connect_request_result(buf) is Ok,
        !is_padded_ipv6_request(buf),
    ensures
        request_bytes(connect_request_result(buf)->Ok_0) == buf,
{
    let req = connect_request_result(buf)->Ok_0;
    if buf[3] == ATYP_IPV4 {
        lemma_be_u16_join(buf[8], buf[9]);
        assert(request_bytes(req) =~= buf);
    } else if buf[3] == ATYP_IPV6 {
        lemma_be_u16_join(buf[20], buf[21]);
        assert(buf.subrange(4, 8) + buf.subrange(8, 20) =~= buf.subrange(4, 20));
        assert(request_bytes(req) =~= buf);
    } else {
        let n = buf[4] as int;
        let raw = buf.subrange(5, 5 + n);
        decode_utf8_encode_utf8(raw);
        lemma_be_u16_join(buf[5 + n], buf[6 + n]);
        assert(request_bytes(req) =~= buf);
    }
}

/// A zero-padded IPv6 request gives the same request as its canonical
/// 22 bytes.
pub proof fn law_ipv6_padding_is_dropped(buf: Seq<u8>)
    requires
        connect_request_result(buf) is Ok,
        is_padded_ipv6_request(buf),
    ensures
        request_bytes(connect_request_result(buf)->Ok_0).len() == 22,
        connect_request_result(request_bytes(connect_request_result(buf)->Ok_0))
            == connect_request_result(buf),
{
    let req = connect_request_result(buf)->Ok_0;
    law_canonical_bytes_parse(req);
}

/// Two buffers that `parse_connect_request` turns into the same request are
/// the same buffer, unless one is a zero-padded IPv6 request.
pub proof fn law_parse_is_injective(b1: Seq<u8>, b2: Seq<u8>)
    requires
        connect_request_result(b1) is Ok,
        connect_request_result(b1) == connect_request_result(b2),
        !is_padded_ipv6_request(b1),
        !is_padded_ipv6_request(b2),
    ensures
        b1 == b2,
{
    law_parse_reads_canonical_bytes(b1);
    law_parse_reads_canonical_bytes(b2);
}

/// Every request whose domain name (if any) takes 1 to 255 bytes of UTF-8 and
/// whose addresses have the right length is read back from its canonical
/// bytes.
pub proof fn law_canonical_bytes_parse(req: SpecConnectRequest)
    requires
        match req.target {
            SpecTargetAddr::Ipv4(a) => a.len() == 4,
            SpecTargetAddr::Ipv6(a) => a.len() == 16,
            SpecTargetAddr::Domain(d) => 1 <= encode_utf8(d).len() <= 255,
        },
    ensures
        connect_request_result(request_bytes(req)) == Ok::<SpecConnectRequest, SocksError>(req),
{
    let b = request_bytes(req);
    lemma_be_u16_split(req.port);
    match req.target {
        SpecTargetAddr::Ipv4(a) => {
            assert(b.subrange(4, 8) =~= a);
        },
        SpecTargetAddr::Ipv6(a) => {
            assert(b.subrange(4, 8) + b.subrange(8, 20) =~= a);
        },
        SpecTargetAddr::Domain(d) => {
            let e = encode_utf8(d);
            let n = e.len() as int;
            assert(b[4] == n as u8);
            assert(b.subrange(5, 5 + n) =~= e);
            encode_utf8_valid_utf8(d);
            encode_utf8_decode_utf8(d);
            assert(b[5 + n] == (req.port / 256) as u8);
            assert(b[6 + n] == (req.port % 256) as u8);
        },
    }
}

/// The benchmark client's CONNECT request for any socket address is parsed by
/// the proxy into a request for that same address and port.
pub proof fn law_client_request_parses(addr: SocketAddress)
    ensures
        connect_request_bytes(addr) == request_bytes(request_for(addr)),
        connect_request_result(connect_request_bytes(addr)) == Ok::<SpecConnectRequest, SocksError>(
            request_for(addr),
        ),
{
    assert(connect_request_bytes(addr) =~= request_bytes(request_for(addr)));
    law_canonical_bytes_parse(request_for(addr));
}

/// The proxy accepts the benchmark client's greeting.
pub proof fn law_client_greeting_accepted()
    ensures
        greeting_result(client_greeting_bytes()) == Ok::<(), SocksError>(()),
{
    let g = client_greeting_bytes();
    assert(g.subrange(2, 3)[0] == METHOD_NO_AUTH);
}

/// The proxy's handshake, fed the benchmark client's greeting and request for
/// `addr` in the pieces it asks for, answers the greeting with the
/// no-authentication method selection and then asks to connect to `addr`.
pub proof fn law_handshake_serves_client(addr: SocketAddress)
    ensures
        ({
            let g = client_greeting_bytes();
            let r = connect_request_bytes(addr);
            let s0 = SpecHandshake { phase: Phase::GreetingHead, buf: seq![] };
            let (s1, a1) = on_received(s0, g.subrange(0, 2));
            let (s2, a2) = on_received(s1, g.subrange(2, 3));
            let s3 = SpecHandshake { phase: Phase::RequestHead, buf: seq![] };
            let (s4, a4) = on_received(s3, r.subrange(0, 4));
            let (s5, a5) = on_received(s4, r.subrange(4, r.len() as int));
            &&& a1 == SpecServerAction::Read(1)
            &&& a2 == SpecServerAction::Write(seq![VERSION, METHOD_NO_AUTH])
            &&& s2.phase == Phase::SendingMethod
            &&& a4 == SpecServerAction::Read((r.len() - 4) as nat)
            &&& s5.phase == Phase::Connecting
            &&& a5 == SpecServerAction::Connect(request_for(addr))
        }),
{
    let g = client_greeting_bytes();
    let r = connect_request_bytes(addr);
    law_client_greeting_accepted();
    assert(seq![g[0], g[1]] + g.subrange(2, 3) =~= g);
    assert(g.subrange(0, 2) =~= seq![g[0], g[1]]);
    law_client_request_parses(addr);
    let s3 = SpecHandshake { phase: Phase::RequestHead, buf: seq![] };
    let (s4, a4) = on_received(s3, r.subrange(0, 4));
    assert(s4.buf + r.subrange(4, r.len() as int) =~= r);
}

/// The benchmark client accepts the proxy's success reply and refuses its
/// general-failure reply.
pub proof fn law_client_accepts_success_reply_only()
    ensures
        reply_bytes(0x00)[0] == VERSION && reply_bytes(0x00)[1] == 0x00,
        !(reply_bytes(0x01)[0] == VERSION && reply_bytes(0x01)[1] == 0x00),
{
}

/// What the proxy answers a message that the parser answers with `r`.
pub open spec fn answer_for(r: Result<SpecConnectRequest, SocksError>) -> SpecServerAction {
    match r {
        Ok(req) => SpecServerAction::Connect(req),
        Err(e) => SpecServerAction::Fail(HandshakeError::Protocol(e)),
    }
}

/// The handshake reads a greeting in two pieces, `VER NMETHODS` and the
/// methods, and then answers as `select_no_auth` does on the whole greeting:
/// the method selection when it is accepted, its error otherwise (a greeting
/// of another version is refused at the first piece).
pub proof fn law_handshake_answers_greeting_as_select_no_auth(g: Seq<u8>)
    requires
        g.len() >= 2,
        g.len() == 2 + g[1],
    ensures
        ({
            let s0 = SpecHandshake { phase: Phase::GreetingHead, buf: seq![] };
            let (s1, a1) = on_received(s0, g.subrange(0, 2));
            let (s2, a2) = on_received(s1, g.subrange(2, g.len() as int));
            if g[0] != VERSION {
                a1 == SpecServerAction::Fail(HandshakeError::NotSocks5)
            } else {
                &&& a1 == SpecServerAction::Read(g[1] as nat)
                &&& a2 == match greeting_result(g) {
                    Ok(_) => SpecServerAction::Write(seq![VERSION, METHOD_NO_AUTH]),
                    Err(e) => SpecServerAction::Fail(HandshakeError::Protocol(e)),
                }
            }
        }),
{
    assert(g.subrange(0, 2) + g.subrange(2, g.len() as int) =~= g);
}

/// For a request of a known address type whose length agrees with its header,
/// the handshake reads it in the pieces it asks for (head, then the domain
/// length byte for a domain, then the rest) and answers as
/// `parse_connect_request` does on the whole request.
pub proof fn law_handshake_answers_request_as_parser(r: Seq<u8>)
    requires
        r.len() >= 4,
        (r[3] == ATYP_IPV4 && r.len() == 10) || (r[3] == ATYP_IPV6 && r.len() == 22) || (r[3]
            == ATYP_DOMAIN && r.len() >= 5 && r.len() == 7 + r[4]),
    ensures
        ({
            let s3 = SpecHandshake { phase: Phase::RequestHead, buf: seq![] };
            let (s4, a4) = on_received(s3, r.subrange(0, 4));
            if r[3] == ATYP_DOMAIN {
                let (s5, a5) = on_received(s4, r.subrange(4, 5));
                &&& a4 == SpecServerAction::Read(1)
                &&& a5 == SpecServerAction::Read((r.len() - 5) as nat)
                &&& on_received(s5, r.subrange(5, r.len() as int)).1 == answer_for(
                    connect_request_result(r),
                )
            } else {
                &&& a4 == SpecServerAction::Read((r.len() - 4) as nat)
                &&& on_received(s4, r.subrange(4, r.len() as int)).1 == answer_for(
                    connect_request_result(r),
                )
            }
        }),
{
    let s3 = SpecHandshake { phase: Phase::RequestHead, buf: seq![] };
    let (s4, a4) = on_received(s3, r.subrange(0, 4));
    if r[3] == ATYP_DOMAIN {
        let (s5, a5) = on_received(s4, r.subrange(4, 5));
        assert(s5.buf =~= r.subrange(0, 5));
        assert(s5.buf + r.subrange(5, r.len() as int) =~= r);
    } else {
        assert(s4.buf + r.subrange(4, r.len() as int) =~= r);
    }
}

proof fn lemma_split_commas_nonempty(s: Seq<char>)
    ensures
        split_commas(s).len() >= 1,
    decreases s.len(),
{
    if s.len() > 0 {
        lemma_split_commas_nonempty(s.drop_last());
    }
}

proof fn lemma_piece_values_len(parts: Seq<Seq<char>>)
    ensures
        piece_values(parts) matches Ok(vs) ==> vs.len() == parts.len(),
    decreases parts.len(),
{
    if parts.len() > 0 {
        lemma_piece_values_len(parts.drop_last());
    }
}

/// A concurrency list that is read at all has one number per comma-separated
/// piece, so never fewer than one.
pub proof fn law_concurrency_list_has_a_value_per_piece(s: Seq<char>)
    ensures
        concurrency_result(s) matches Ok(vs) ==> vs.len() == split_commas(s).len()
            && vs.len() >= 1,
{
    lemma_split_commas_nonempty(s);
    lemma_piece_values_len(split_commas(s));
}

/// A greeting is accepted exactly when it has at least two bytes, is as long
/// as its method count says, has version 5, and offers the no-authentication
/// method at some position among its method bytes.
pub proof fn law_greeting_accepted_iff_no_auth_offered(g: Seq<u8>)
    ensures
        greeting_result(g) is Ok <==> (g.len() >= 2 && g.len() == 2 + g[1] && g[0] == 5 && exists|
            i: int,
        | 2 <= i < g.len() && g[i] == 0),
{
    if g.len() >= 2 && g.len() == 2 + g[1] {
        let m = g.subrange(2, g.len() as int);
        if exists|i: int| 2 <= i < g.len() && g[i] == 0 {
            let i = choose|i: int| 2 <= i < g.len() && g[i] == 0;
            assert(m[i - 2] == 0);
        }
        if m.contains(METHOD_NO_AUTH) {
            let k = choose|k: int| 0 <= k < m.len() && m[k] == METHOD_NO_AUTH;
            assert(g[k + 2] == 0);
        }
    }
}

/// Every settings value that `Config::from_args` accepts has at least one
/// concurrency level, and every level is positive.
pub proof fn law_accepted_concurrency_levels_are_positive(
    args: Seq<Seq<char>>,
    tokio_bin: Seq<char>,
    compio_bin: Seq<char>,
)
    ensures
        config_result(args, tokio_bin, compio_bin) matches Ok(c) ==> c.concurrency.len() > 0
            && forall|i: int| 0 <= i < c.concurrency.len() ==> c.concurrency[i] > 0,
{
    if config_result(args, tokio_bin, compio_bin) is Ok {
        let c: ConfigView = config_result(args, tokio_bin, compio_bin)->Ok_0;
        assert forall|i: int| 0 <= i < c.concurrency.len() implies c.concurrency[i] > 0 by {
            if c.concurrency[i] == 0 {
                assert(c.concurrency.contains(0));
            }
        }
    }
}

/// After every step that asks to read, the handshake waits for exactly the
/// number of bytes that the step asked for; this holds for the first step of
/// a new handshake and for the step after the method selection is written.
pub proof fn law_wanted_matches_last_read(s: SpecHandshake, b: Seq<u8>)
    requires
        handshake_wf(s),
        awaits_bytes(s.phase),
        b.len() == wanted(s),
    ensures
        on_received(s, b).1 matches SpecServerAction::Read(n) ==> wanted(on_received(s, b).0)
            == n,
        wanted(SpecHandshake { phase: Phase::GreetingHead, buf: seq![] }) == 2,
        wanted(SpecHandshake { phase: Phase::RequestHead, buf: seq![] }) == 4,
{
    if s.phase == Phase::DomainLength {
        assert((s.buf + b)[4] == b[0]);
        assert((s.buf + b)[3] == ATYP_DOMAIN);
    }
    if s.phase == Phase::RequestHead {
        assert(b.len() == 4);
    }
}

/// After an IPv4 or IPv6 request head the handshake waits for the address
/// and the two port bytes (6 or 18 bytes); after a domain's length byte `n`
/// it waits for the `n` name bytes and the two port bytes.
pub proof fn law_wanted_counts_address_and_port(head: Seq<u8>, len_byte: u8)
    requires
        head.len() == 4,
    ensures
        ({
            let s = SpecHandshake { phase: Phase::RequestHead, buf: seq![] };
            let (t, _) = on_received(s, head);
            &&& head[3] == ATYP_IPV4 ==> wanted(t) == 4 + 2
            &&& head[3] == ATYP_IPV6 ==> wanted(t) == 16 + 2
            &&& head[3] == ATYP_DOMAIN ==> wanted(on_received(t, seq![len_byte]).0) == len_byte
                + 2
        }),
{
    let s = SpecHandshake { phase: Phase::RequestHead, buf: seq![] };
    let (t, _) = on_received(s, head);
    if head[3] == ATYP_DOMAIN {
        assert((t.buf + seq![len_byte])[4] == len_byte);
        assert((t.buf + seq![len_byte])[3] == ATYP_DOMAIN);
    }
}

proof fn lemma_digit_char(d: nat)
    requires
        d < 10,
    ensures
        is_digit(digit_char(d)),
        digit_char(d) as nat - 48 == d,
        (d == 0) == (digit_char(d) == '0'),
{
    assert(((48 + d) as char) as u32 == 48 + d);
}

/// The decimal text of any number is made of ASCII digits, has no leading
/// zero (unless it is "0"), reads back as the number, and is what
/// `str::parse::<usize>` reads back as that number.
pub proof fn law_decimal_reads_back(n: nat)
    ensures
        decimal(n).len() >= 1,
        forall|i: int| 0 <= i < decimal(n).len() ==> is_digit(#[trigger] decimal(n)[i]),
        n > 0 ==> decimal(n)[0] != '0',
        decimal(n).len() > 1 ==> decimal(n)[0] != '0',
        digits_value(decimal(n)) == n,
        n <= usize::MAX ==> usize_text_value(decimal(n)) == Some(n as usize),
    decreases n,
{
    let d = decimal(n);
    if n < 10 {
        lemma_digit_char(n);
        assert(d == seq![digit_char(n)]);
        assert(d.drop_last() =~= seq![]);
        assert(d.last() == digit_char(n));
        assert(digits_value(d.drop_last()) == 0);
        assert(digits_value(d) == n);
    } else {
        law_decimal_reads_back(n / 10);
        lemma_digit_char(n % 10);
        let p = decimal(n / 10);
        assert(d == p.push(digit_char(n % 10)));
        assert(d.drop_last() =~= p);
        assert(d.last() == digit_char(n % 10));
        assert(d[0] == p[0]);
        assert(digits_value(d) == digits_value(p) * 10 + n % 10);
        assert(n == (n / 10) * 10 + n % 10);
        assert forall|i: int| 0 <= i < d.len() implies is_digit(#[trigger] d[i]) by {
            if i < p.len() {
                assert(d[i] == p[i]);
            }
        }
    }
    if n <= usize::MAX {
        assert(d[0] != '+') by {
            assert(is_digit(d[0]));
        }
        assert(unsigned_digits(d) == d);
    }
}

/// The text that the proxy dials ends with a colon and then ASCII digits
/// that read back as the port, whatever the port and the address type.
pub proof fn law_target_text_ends_with_port(req: SpecConnectRequest, ipv6_text: Seq<char>)
    ensures
        ({
            let s = target_text(req, ipv6_text);
            let k = s.len() - decimal(req.port as nat).len();
            &&& k >= 1
            &&& s[k - 1] == ':'
            &&& forall|i: int| k <= i < s.len() ==> is_digit(#[trigger] s[i])
            &&& digits_value(s.subrange(k, s.len() as int)) == req.port
        }),
{
    law_decimal_reads_back(req.port as nat);
    reveal_strlit(":");
    reveal_strlit("]:");
    let s = target_text(req, ipv6_text);
    let d = decimal(req.port as nat);
    let k = s.len() - d.len();
    assert(s.subrange(k, s.len() as int) =~= d);
    assert forall|i: int| k <= i < s.len() implies is_digit(#[trigger] s[i]) by {
        assert(s[i] == d[i - k]);
    }
}

/// A request of at most `MAX_REQUEST_HEADER` bytes that holds an empty line
/// (`\r\n\r\n`) anywhere is complete; one that holds none waits for more;
/// one longer than `MAX_REQUEST_HEADER` is too large.
pub proof fn law_header_end_anywhere_completes(p: Seq<u8>, q: Seq<u8>, b: Seq<u8>)
    ensures
        (p + seq![13u8, 10, 13, 10] + q).len() <= MAX_REQUEST_HEADER ==> header_scan(
            p + seq![13u8, 10, 13, 10] + q,
        ) == HeaderScan::Complete,
        header_scan(b) == HeaderScan::NeedMore ==> b.len() <= MAX_REQUEST_HEADER && forall|i: int|
            0 <= i && i + 4 <= b.len() ==> #[trigger] b.subrange(i, i + 4) != seq![13u8, 10, 13, 10],
        b.len() > MAX_REQUEST_HEADER ==> header_scan(b) == HeaderScan::TooLarge,
{
    let r = p + seq![13u8, 10, 13, 10] + q;
    assert(r.subrange(p.len() as int, p.len() as int + 4) =~= seq![13u8, 10, 13, 10]);
}

} // verus!

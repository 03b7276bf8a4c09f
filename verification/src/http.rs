//! The HTTP exchange that the benchmark sends through the proxy: the request,
//! the local target server's reading of it, and its response.

use vstd::prelude::*;
use vstd::slice::slice_to_vec;
use vstd::utf8::encode_utf8;

use crate::text::{decimal, push_decimal, push_str};

verus! {

/// The largest request header, in bytes, that the target server reads.
pub const MAX_REQUEST_HEADER: usize = 16384;

/// What the target server makes of the request bytes read so far.
#[derive(Debug, Clone, Copy, PartialEq, Eq, Structural)]
pub enum HeaderScan {
    /// The header is not complete yet: read more.
    NeedMore,
    /// The header ends with an empty line: answer.
    Complete,
    /// More than `MAX_REQUEST_HEADER` bytes arrived: give up.
    TooLarge,
}

/// The bytes that the response body repeats.
pub open spec fn body_pattern_bytes() -> Seq<u8> {
    seq![
        97u8, 115, 121, 110, 99, 45, 114, 117, 110, 116, 105, 109, 101, 45, 115, 111, 99, 107,
        115, 53, 45, 98, 101, 110, 99, 104, 109, 97, 114, 107, 10,
    ]
}

/// A body of `len` bytes: the pattern repeated and cut off at `len`.
pub open spec fn body_bytes(len: nat) -> Seq<u8> {
    Seq::new(len, |i: int| body_pattern_bytes()[i % 31])
}

/// The text of the benchmark's GET request to `host`.
pub open spec fn request_text(host: Seq<char>) -> Seq<char> {
    "GET /benchmark HTTP/1.1\r\nHost: "@ + host + "\r\nConnection: close\r\n\r\n"@
}

/// The header of the target server's response to a body of `len` bytes.
pub open spec fn response_header_text(len: nat) -> Seq<char> {
    "HTTP/1.1 200 OK\r\nContent-Length: "@ + decimal(len) + "\r\nConnection: close\r\n\r\n"@
}

/// True when `b` holds an empty line: the bytes `\r\n\r\n`.
pub open spec fn has_header_end(b: Seq<u8>) -> bool {
    exists|i: int| 0 <= i && i + 4 <= b.len() && #[trigger] b.subrange(i, i + 4) == seq![13u8, 10, 13, 10]
}

/// What the target server decides after reading `b`: too large first, then
/// complete, else read more.
pub open spec fn header_scan(b: Seq<u8>) -> HeaderScan {
    if b.len() > MAX_REQUEST_HEADER {
        HeaderScan::TooLarge
    } else if has_header_end(b) {
        HeaderScan::Complete
    } else {
        HeaderScan::NeedMore
    }
}

fn body_pattern() -> (p: [u8; 31])
    ensures
        p@ == body_pattern_bytes(),
{
    let p = [
        97, 115, 121, 110, 99, 45, 114, 117, 110, 116, 105, 109, 101, 45, 115, 111, 99, 107, 115,
        53, 45, 98, 101, 110, 99, 104, 109, 97, 114, 107, 10,
    ];
    assert(p@ =~= body_pattern_bytes());
    p
}

/// The response body: `len` bytes of `async-runtime-socks5-benchmark\n`
/// repeated, the last copy cut short.
pub fn make_body(len: usize) -> (body: Vec<u8>)
    ensures
        body@ == body_bytes(len as nat),
{
    let pattern = body_pattern();
    let mut body: Vec<u8> = Vec::new();
    while body.len() < len
        invariant
            pattern@ == body_pattern_bytes(),
            body@.len() <= len,
            body@.len() < len ==> body@.len() % 31 == 0,
            forall|i: int| 0 <= i < body@.len() ==> #[trigger] body@[i] == body_pattern_bytes()[i % 31],
        decreases len - body@.len(),
    {
        let remaining = len - body.len();
        let take = if remaining < 31 {
            remaining
        } else {
            31
        };
        let base = body.len();
        let mut j: usize = 0;
        while j < take
            invariant
                pattern@ == body_pattern_bytes(),
                take <= 31,
                base + take <= len,
                base % 31 == 0,
                0 <= j <= take,
                body@.len() == base + j,
                forall|i: int| 0 <= i < body@.len() ==> #[trigger] body@[i] == body_pattern_bytes()[i % 31],
            decreases take - j,
        {
            assert((base + j) % 31 == j as int) by {
                assert(base % 31 == 0);
            }
            body.push(pattern[j]);
            j = j + 1;
        }
        assert(body@.len() < len ==> body@.len() % 31 == 0) by {
            if body@.len() < len {
                assert(take == 31);
            }
        }
    }
    assert(body@ =~= body_bytes(len as nat));
    body
}

/// The benchmark's GET request to `host` (the target's `ip:port` text), as bytes.
pub fn http_request(host: &str) -> (request: Vec<u8>)
    ensures
        request@ == encode_utf8(request_text(host@)),
{
    let mut text = String::new();
    push_str(&mut text, "GET /benchmark HTTP/1.1\r\nHost: ");
    push_str(&mut text, host);
    push_str(&mut text, "\r\nConnection: close\r\n\r\n");
    assert(text@ =~= request_text(host@));
    slice_to_vec(text.as_str().as_bytes())
}

/// The header of the target server's response to a body of `body_len` bytes.
pub fn http_response_header(body_len: usize) -> (header: String)
    ensures
        header@ == response_header_text(body_len as nat),
{
    let mut header = String::new();
    push_str(&mut header, "HTTP/1.1 200 OK\r\nContent-Length: ");
    push_decimal(&mut header, body_len as u64);
    push_str(&mut header, "\r\nConnection: close\r\n\r\n");
    assert(header@ =~= response_header_text(body_len as nat));
    header
}

/// Decides what the target server does with the request bytes read so far.
pub fn scan_request_header(request: &[u8]) -> (scan: HeaderScan)
    ensures
        scan == header_scan(request@),
{
    if request.len() > MAX_REQUEST_HEADER {
        return HeaderScan::TooLarge;
    }
    let mut i: usize = 0;
    while i + 4 <= request.len()
        invariant
            request@.len() <= MAX_REQUEST_HEADER,
            i <= request@.len(),
            forall|k: int|
                0 <= k < i && k + 4 <= request@.len() ==> #[trigger] request@.subrange(k, k + 4)
                    != seq![13u8, 10, 13, 10],
        decreases request@.len() - i,
    {
        if request[i] == 13 && request[i + 1] == 10 && request[i + 2] == 13 && request[i + 3]
            == 10 {
            assert(request@.subrange(i as int, i + 4) =~= seq![13u8, 10, 13, 10]);
            return HeaderScan::Complete;
        }
        assert(request@.subrange(i as int, i + 4)[0] == request@[i as int]);
        assert(request@.subrange(i as int, i + 4)[1] == request@[i + 1]);
        assert(request@.subrange(i as int, i + 4)[2] == request@[i + 2]);
        assert(request@.subrange(i as int, i + 4)[3] == request@[i + 3]);
        i = i + 1;
    }
    HeaderScan::NeedMore
}

} // verus!

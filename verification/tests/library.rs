use socks5_core::client::{
    check_connect_reply, check_method_selection, client_greeting, encode_socks_connect_request,
    ClientError, IpAddress, SocketAddress,
};
use socks5_core::config::{parse_arg, parse_concurrency, take_arg, Config, ConfigError};
use socks5_core::handshake::{HandshakeError, Phase, ServerAction, ServerHandshake};
use socks5_core::load::LoadTally;
use socks5_core::schedule::{bench_steps, probe_step, warmup_passed, BenchStep, ProbeStep};
use socks5_core::http::{
    http_request, http_response_header, make_body, scan_request_header, HeaderScan,
};
use socks5_core::text::{parse_usize, trim_text};
use socks5_core::{
    encode_general_failure_reply, encode_method_selection_no_auth, encode_success_reply,
    parse_connect_request, select_no_auth, ConnectRequest, SocksError, TargetAddr,
};

fn strings(items: &[&str]) -> Vec<String> {
    items.iter().map(|s| s.to_string()).collect()
}

// ---- protocol ----

#[test]
fn select_no_auth_rejects_empty_and_one_byte_greetings() {
    assert_eq!(
        select_no_auth(&[]),
        Err(SocksError::ShortBuffer { needed: 2, actual: 0 })
    );
    assert_eq!(
        select_no_auth(&[0x05]),
        Err(SocksError::ShortBuffer { needed: 2, actual: 1 })
    );
}

#[test]
fn select_no_auth_rejects_greeting_without_methods() {
    assert_eq!(select_no_auth(&[0x05, 0x00]), Err(SocksError::NoAcceptableAuthMethod));
}

#[test]
fn select_no_auth_finds_no_auth_last() {
    assert_eq!(select_no_auth(&[0x05, 0x03, 0x01, 0x02, 0x00]), Ok(()));
}

#[test]
fn parse_connect_request_rejects_short_header() {
    assert_eq!(
        parse_connect_request(&[]),
        Err(SocksError::ShortBuffer { needed: 4, actual: 0 })
    );
    assert_eq!(
        parse_connect_request(&[0x05, 0x01, 0x00]),
        Err(SocksError::ShortBuffer { needed: 4, actual: 3 })
    );
}

#[test]
fn parse_connect_request_rejects_wrong_version() {
    assert_eq!(
        parse_connect_request(&[0x04, 0x01, 0x00, 0x01, 127, 0, 0, 1, 0, 80]),
        Err(SocksError::InvalidVersion(0x04))
    );
}

#[test]
fn parse_connect_request_rejects_domain_without_length() {
    assert_eq!(
        parse_connect_request(&[0x05, 0x01, 0x00, 0x03]),
        Err(SocksError::ShortBuffer { needed: 5, actual: 4 })
    );
}

#[test]
fn parse_connect_request_rejects_short_domain() {
    assert_eq!(
        parse_connect_request(&[0x05, 0x01, 0x00, 0x03, 3, b'a', b'b']),
        Err(SocksError::ShortBuffer { needed: 10, actual: 7 })
    );
}

#[test]
fn parse_connect_request_rejects_domain_trailing_bytes() {
    assert_eq!(
        parse_connect_request(&[0x05, 0x01, 0x00, 0x03, 1, b'a', 0, 80, 0]),
        Err(SocksError::TrailingBytes)
    );
}

#[test]
fn parse_connect_request_rejects_short_and_long_ipv6() {
    let mut buf = vec![0x05, 0x01, 0x00, 0x04];
    buf.extend_from_slice(&[0u8; 16]);
    assert_eq!(
        parse_connect_request(&buf),
        Err(SocksError::ShortBuffer { needed: 22, actual: 20 })
    );
    buf.extend_from_slice(&[0, 1, 2]);
    buf[8] = 0xff;
    assert_eq!(parse_connect_request(&buf), Err(SocksError::TrailingBytes));
    let mut padded = vec![0x05, 0x01, 0x00, 0x04, 1, 2, 3, 4, 0];
    padded.extend_from_slice(&[9u8; 12]);
    padded.extend_from_slice(&[0, 80]);
    assert_eq!(
        parse_connect_request(&padded),
        Ok(ConnectRequest {
            target: TargetAddr::Ipv6([1, 2, 3, 4, 9, 9, 9, 9, 9, 9, 9, 9, 9, 9, 9, 9]),
            port: 80
        })
    );
}

#[test]
fn select_no_auth_checks_version_last() {
    assert_eq!(
        select_no_auth(&[0x04, 0x05, 0x00]),
        Err(SocksError::ShortBuffer { needed: 7, actual: 3 })
    );
    assert_eq!(select_no_auth(&[0x04, 0x01, 0x02]), Err(SocksError::NoAcceptableAuthMethod));
    assert_eq!(select_no_auth(&[0x04, 0x01, 0x00, 0x00]), Err(SocksError::TrailingBytes));
    assert_eq!(select_no_auth(&[0x06, 0x02, 0x01, 0x00]), Err(SocksError::InvalidVersion(0x06)));
}

#[test]
fn trim_text_matches_std() {
    for s in [
        "", " ", "1", " 1 ", "\t8\n", "\u{3000}x\u{2009}", "\u{85}a b\u{a0}", "\u{200b}y",
        "a\u{1680}", "\r\n", "\u{202f}\u{205f}z\u{2028}\u{2029}",
    ] {
        assert_eq!(trim_text(s), s.trim(), "text {s:?}");
    }
}

#[test]
fn parse_connect_request_accepts_utf8_domain() {
    let req = parse_connect_request(&[0x05, 0x01, 0x00, 0x03, 3, b'x', 0xc3, 0xa9, 0xff, 0xff])
        .expect("valid UTF-8 domain");
    assert_eq!(
        req,
        ConnectRequest {
            target: TargetAddr::Domain(String::from("x\u{e9}")),
            port: 65535
        }
    );
}

#[test]
fn parse_connect_request_rejects_overlong_utf8() {
    assert_eq!(
        parse_connect_request(&[0x05, 0x01, 0x00, 0x03, 2, 0xc0, 0x80, 0, 80]),
        Err(SocksError::InvalidDomain)
    );
}

#[test]
fn parse_connect_request_reads_big_endian_port() {
    let req = parse_connect_request(&[0x05, 0x01, 0x00, 0x01, 10, 0, 0, 2, 0x00, 0x01])
        .expect("valid request");
    assert_eq!(req.port, 1);
    let req = parse_connect_request(&[0x05, 0x01, 0x00, 0x01, 10, 0, 0, 2, 0x01, 0x00])
        .expect("valid request");
    assert_eq!(req.port, 256);
}

#[test]
fn replies_differ_only_in_reply_code() {
    let ok = encode_success_reply();
    let fail = encode_general_failure_reply();
    assert_eq!(ok[1], 0x00);
    assert_eq!(fail[1], 0x01);
    assert_eq!(ok[0], fail[0]);
    assert_eq!(&ok[2..], &fail[2..]);
}

#[test]
fn socks_error_messages() {
    assert_eq!(
        SocksError::ShortBuffer { needed: 4, actual: 3 }.message(),
        "short buffer: needed 4 bytes, got 3"
    );
    assert_eq!(
        SocksError::ShortBuffer { needed: 10, actual: 105 }.message(),
        "short buffer: needed 10 bytes, got 105"
    );
    assert_eq!(SocksError::InvalidVersion(0x04).message(), "invalid SOCKS version: 0x04");
    assert_eq!(SocksError::NoAcceptableAuthMethod.message(), "no acceptable auth method");
    assert_eq!(SocksError::UnsupportedCommand(0x02).message(), "unsupported command: 0x02");
    assert_eq!(SocksError::InvalidReserved(0xff).message(), "invalid reserved byte: 0xff");
    assert_eq!(
        SocksError::UnsupportedAddressType(0xab).message(),
        "unsupported address type: 0xab"
    );
    assert_eq!(SocksError::EmptyDomain.message(), "empty domain name");
    assert_eq!(SocksError::InvalidDomain.message(), "invalid domain name");
    assert_eq!(SocksError::TrailingBytes.message(), "trailing bytes");
}

#[test]
fn socks_error_messages_match_std_formatting() {
    for v in [0u8, 5, 15, 16, 0x7f, 0xa0, 0xff] {
        assert_eq!(
            SocksError::InvalidVersion(v).message(),
            format!("invalid SOCKS version: {v:#04x}")
        );
    }
    for n in [0usize, 1, 9, 10, 99, 100, 65535, usize::MAX] {
        assert_eq!(
            SocksError::ShortBuffer { needed: n, actual: 7 }.message(),
            format!("short buffer: needed {n} bytes, got 7")
        );
    }
}

#[test]
fn target_string_formats_each_address_type() {
    let v4 = ConnectRequest { target: TargetAddr::Ipv4([127, 0, 0, 1]), port: 8080 };
    assert_eq!(v4.target_string(""), "127.0.0.1:8080");
    let v4 = ConnectRequest { target: TargetAddr::Ipv4([255, 10, 0, 200]), port: 0 };
    assert_eq!(v4.target_string("ignored"), "255.10.0.200:0");
    let domain = ConnectRequest {
        target: TargetAddr::Domain(String::from("example.com")),
        port: 443,
    };
    assert_eq!(domain.target_string(""), "example.com:443");
    let v6 = ConnectRequest { target: TargetAddr::Ipv6([0; 16]), port: 5000 };
    assert_eq!(v6.target_string("2001:db8::1"), "[2001:db8::1]:5000");
}

#[test]
fn decimal_numbers_match_std() {
    for n in [0usize, 7, 10, 42, 1000, 8080, 65535, usize::MAX] {
        assert_eq!(
            http_response_header(n),
            format!("HTTP/1.1 200 OK\r\nContent-Length: {n}\r\nConnection: close\r\n\r\n")
        );
    }
}

// ---- handshake ----

#[test]
fn handshake_serves_a_domain_request() {
    let (mut hs, action) = ServerHandshake::new();
    assert!(matches!(action, ServerAction::Read(2)));
    let action = hs.received(&[0x05, 0x02]);
    assert!(matches!(action, ServerAction::Read(2)));
    let action = hs.received(&[0x02, 0x00]);
    match action {
        ServerAction::Write(bytes) => assert_eq!(bytes, vec![0x05, 0x00]),
        other => panic!("unexpected action {other:?}"),
    }
    assert_eq!(hs.phase(), Phase::SendingMethod);
    assert!(matches!(hs.sent(), ServerAction::Read(4)));
    assert!(matches!(hs.received(&[0x05, 0x01, 0x00, 0x03]), ServerAction::Read(1)));
    assert_eq!(hs.wanted(), 1);
    assert!(matches!(hs.received(&[11]), ServerAction::Read(13)));
    let action = hs.received(b"example.com\x01\xbb");
    match action {
        ServerAction::Connect(req) => assert_eq!(
            req,
            ConnectRequest {
                target: TargetAddr::Domain(String::from("example.com")),
                port: 443
            }
        ),
        other => panic!("unexpected action {other:?}"),
    }
    match hs.connected() {
        ServerAction::Write(bytes) => assert_eq!(bytes, encode_success_reply().to_vec()),
        other => panic!("unexpected action {other:?}"),
    }
    assert!(matches!(hs.sent(), ServerAction::Relay));
    assert_eq!(hs.phase(), Phase::Relaying);
}

#[test]
fn handshake_reads_ipv4_and_ipv6_tails() {
    let (mut hs, _) = ServerHandshake::new();
    hs.received(&[0x05, 0x01]);
    hs.received(&[0x00]);
    hs.sent();
    assert!(matches!(hs.received(&[0x05, 0x01, 0x00, 0x01]), ServerAction::Read(6)));

    let (mut hs, _) = ServerHandshake::new();
    hs.received(&[0x05, 0x01]);
    hs.received(&[0x00]);
    hs.sent();
    assert!(matches!(hs.received(&[0x05, 0x01, 0x00, 0x04]), ServerAction::Read(18)));
}

#[test]
fn handshake_rejects_other_versions() {
    let (mut hs, _) = ServerHandshake::new();
    match hs.received(&[0x04, 0x01]) {
        ServerAction::Fail(e) => {
            assert_eq!(e, HandshakeError::NotSocks5);
            assert_eq!(e.message(), "Not socks5!");
        }
        other => panic!("unexpected action {other:?}"),
    }
    assert_eq!(hs.phase(), Phase::Failed);
}

#[test]
fn handshake_rejects_missing_no_auth() {
    let (mut hs, _) = ServerHandshake::new();
    hs.received(&[0x05, 0x01]);
    match hs.received(&[0x02]) {
        ServerAction::Fail(e) => {
            assert_eq!(e, HandshakeError::Protocol(SocksError::NoAcceptableAuthMethod));
            assert_eq!(e.message(), "no acceptable auth method");
        }
        other => panic!("unexpected action {other:?}"),
    }
}

#[test]
fn handshake_rejects_unknown_address_type() {
    let (mut hs, _) = ServerHandshake::new();
    hs.received(&[0x05, 0x01]);
    hs.received(&[0x00]);
    hs.sent();
    match hs.received(&[0x05, 0x01, 0x00, 0x09]) {
        ServerAction::Fail(e) => {
            assert_eq!(e, HandshakeError::UnknownAddressType);
            assert_eq!(e.message(), "Unknown ATYP");
        }
        other => panic!("unexpected action {other:?}"),
    }
}

#[test]
fn handshake_reports_parse_errors_of_the_request() {
    let (mut hs, _) = ServerHandshake::new();
    hs.received(&[0x05, 0x01]);
    hs.received(&[0x00]);
    hs.sent();
    hs.received(&[0x05, 0x02, 0x00, 0x01]);
    match hs.received(&[127, 0, 0, 1, 0, 80]) {
        ServerAction::Fail(e) => {
            assert_eq!(e, HandshakeError::Protocol(SocksError::UnsupportedCommand(0x02)))
        }
        other => panic!("unexpected action {other:?}"),
    }

    let (mut hs, _) = ServerHandshake::new();
    hs.received(&[0x05, 0x01]);
    hs.received(&[0x00]);
    hs.sent();
    hs.received(&[0x05, 0x01, 0x00, 0x03]);
    hs.received(&[0]);
    match hs.received(&[0, 80]) {
        ServerAction::Fail(e) => assert_eq!(e, HandshakeError::Protocol(SocksError::EmptyDomain)),
        other => panic!("unexpected action {other:?}"),
    }
}

// ---- client ----

#[test]
fn client_greeting_is_accepted_by_the_proxy() {
    assert_eq!(client_greeting(), [0x05, 0x01, 0x00]);
    assert_eq!(select_no_auth(&client_greeting()), Ok(()));
}

#[test]
fn encode_socks_connect_request_ipv4() {
    let addr = SocketAddress { ip: IpAddress::V4([127, 0, 0, 1]), port: 18081 };
    assert_eq!(
        encode_socks_connect_request(&addr),
        vec![0x05, 0x01, 0x00, 0x01, 127, 0, 0, 1, 0x46, 0xa1]
    );
}

#[test]
fn encode_socks_connect_request_ipv6() {
    let mut ip = [0u8; 16];
    ip[15] = 1;
    let addr = SocketAddress { ip: IpAddress::V6(ip), port: 80 };
    let mut expected = vec![0x05, 0x01, 0x00, 0x04];
    expected.extend_from_slice(&ip);
    expected.extend_from_slice(&[0, 80]);
    assert_eq!(encode_socks_connect_request(&addr), expected);
}

#[test]
fn client_requests_parse_back() {
    for port in [0u16, 1, 80, 255, 256, 8080, 65535] {
        let addr = SocketAddress { ip: IpAddress::V4([192, 168, 1, 20]), port };
        let req = parse_connect_request(&encode_socks_connect_request(&addr)).expect("parses");
        assert_eq!(req, ConnectRequest { target: TargetAddr::Ipv4([192, 168, 1, 20]), port });

        let ip = [0x20, 0x01, 0x0d, 0xb8, 1, 2, 3, 4, 5, 6, 7, 8, 9, 10, 11, 12];
        let addr = SocketAddress { ip: IpAddress::V6(ip), port };
        let req = parse_connect_request(&encode_socks_connect_request(&addr)).expect("parses");
        assert_eq!(req, ConnectRequest { target: TargetAddr::Ipv6(ip), port });
    }
}

#[test]
fn client_checks_method_selection() {
    assert_eq!(check_method_selection(&encode_method_selection_no_auth()), Ok(()));
    let err = check_method_selection(&[0x05, 0xff]).unwrap_err();
    assert_eq!(err, ClientError::UnexpectedMethodSelection([0x05, 0xff]));
    assert_eq!(err.message(), "unexpected SOCKS5 method selection: [5, 255]");
}

#[test]
fn client_checks_connect_reply() {
    assert_eq!(check_connect_reply(&encode_success_reply()), Ok(()));
    let fail = encode_general_failure_reply();
    let err = check_connect_reply(&fail).unwrap_err();
    assert_eq!(err, ClientError::ConnectFailed(fail));
    assert_eq!(
        err.message(),
        "SOCKS5 CONNECT failed: [5, 1, 0, 1, 0, 0, 0, 0, 0, 0]"
    );
    assert!(check_connect_reply(&[0x04, 0, 0, 1, 0, 0, 0, 0, 0, 0]).is_err());
}

#[test]
fn client_error_message_matches_debug_formatting() {
    let r = [5u8, 1, 0, 1, 10, 200, 0, 255, 1, 2];
    assert_eq!(
        ClientError::ConnectFailed(r).message(),
        format!("SOCKS5 CONNECT failed: {r:?}")
    );
}

// ---- command line ----

fn config(args: &[&str]) -> Result<Config, ConfigError> {
    Config::from_args(&strings(args), "bin/socks5-tokio".into(), "bin/socks5-compio".into())
}

#[test]
fn config_defaults() {
    let c = config(&[]).expect("defaults are valid");
    assert_eq!(c.requests, 2000);
    assert_eq!(c.warmup, 200);
    assert_eq!(c.concurrency, vec![1, 16, 64]);
    assert_eq!(c.body_bytes, 16384);
    assert_eq!(c.rounds, 1);
    assert_eq!(c.output_dir, "target/socks5-bench");
    assert_eq!(c.tokio_bin, "bin/socks5-tokio");
    assert_eq!(c.compio_bin, "bin/socks5-compio");
    assert_eq!(c.only, None);
    assert!(!c.show_proxy_output);
    assert!(!c.help);
}

#[test]
fn config_reads_every_option() {
    let c = config(&[
        "--requests", "10", "--warmup", "0", "--concurrency", "1, 8", "--body-bytes", "+99",
        "--rounds", "3", "--output-dir", "out", "--tokio-bin", "t", "--compio-bin", "c",
        "--only", "compio", "--show-proxy-output", "-h",
    ])
    .expect("valid options");
    assert_eq!(c.requests, 10);
    assert_eq!(c.warmup, 0);
    assert_eq!(c.concurrency, vec![1, 8]);
    assert_eq!(c.body_bytes, 99);
    assert_eq!(c.rounds, 3);
    assert_eq!(c.output_dir, "out");
    assert_eq!(c.tokio_bin, "t");
    assert_eq!(c.compio_bin, "c");
    assert_eq!(c.only.as_deref(), Some("compio"));
    assert!(c.show_proxy_output);
    assert!(c.help);
    assert!(config(&["--help"]).expect("valid").help);
}

#[test]
fn config_later_options_win() {
    let c = config(&["--requests", "5", "--requests", "7"]).expect("valid");
    assert_eq!(c.requests, 7);
}

#[test]
fn config_errors() {
    let e = config(&["--bogus"]).unwrap_err();
    assert_eq!(e, ConfigError::UnknownArgument("--bogus".into()));
    assert_eq!(e.message(), "unknown argument: --bogus");

    let e = config(&["--requests"]).unwrap_err();
    assert_eq!(e, ConfigError::MissingValue("--requests".into()));
    assert_eq!(e.message(), "--requests requires a value");

    let e = config(&["--warmup", "x"]).unwrap_err();
    assert_eq!(e, ConfigError::InvalidValue { name: "--warmup".into(), value: "x".into() });
    assert_eq!(e.message(), "invalid value for --warmup: x");

    let e = config(&["--concurrency", "1,x"]).unwrap_err();
    assert_eq!(e, ConfigError::InvalidConcurrency("x".into()));
    assert_eq!(e.message(), "invalid concurrency value: x");

    let e = config(&["--only", "async-std"]).unwrap_err();
    assert_eq!(e, ConfigError::InvalidOnly);
    assert_eq!(e.message(), "--only must be tokio or compio");

    let e = config(&["--requests", "0"]).unwrap_err();
    assert_eq!(e, ConfigError::RequestsZero);
    assert_eq!(e.message(), "--requests must be greater than zero");

    let e = config(&["--concurrency", "4,0"]).unwrap_err();
    assert_eq!(e, ConfigError::ConcurrencyZero);
    assert_eq!(e.message(), "--concurrency values must be greater than zero");

    let e = config(&["--body-bytes", "0"]).unwrap_err();
    assert_eq!(e, ConfigError::BodyBytesZero);
    assert_eq!(e.message(), "--body-bytes must be greater than zero");

    let e = config(&["--rounds", "0"]).unwrap_err();
    assert_eq!(e, ConfigError::RoundsZero);
    assert_eq!(e.message(), "--rounds must be greater than zero");
}

#[test]
fn config_reports_the_first_error() {
    let e = config(&["--requests", "0", "--bogus"]).unwrap_err();
    assert_eq!(e, ConfigError::UnknownArgument("--bogus".into()));
    let e = config(&["--bogus", "--requests"]).unwrap_err();
    assert_eq!(e, ConfigError::UnknownArgument("--bogus".into()));
}

#[test]
fn parse_concurrency_lists() {
    assert_eq!(parse_concurrency("1,16,64"), Ok(vec![1, 16, 64]));
    assert_eq!(parse_concurrency(" 4 ,\t8 "), Ok(vec![4, 8]));
    assert_eq!(parse_concurrency("7"), Ok(vec![7]));
    assert_eq!(
        parse_concurrency(""),
        Err(ConfigError::InvalidConcurrency(String::new()))
    );
    assert_eq!(
        parse_concurrency("1,,2"),
        Err(ConfigError::InvalidConcurrency(String::new()))
    );
    assert_eq!(
        parse_concurrency("1, x ,y"),
        Err(ConfigError::InvalidConcurrency(" x ".into()))
    );
}

#[test]
fn take_and_parse_arg() {
    let args = strings(&["5", "abc"]);
    let mut pos = 0;
    assert_eq!(parse_arg(&args, &mut pos, "--n"), Ok(5));
    assert_eq!(pos, 1);
    assert_eq!(
        parse_arg(&args, &mut pos, "--n"),
        Err(ConfigError::InvalidValue { name: "--n".into(), value: "abc".into() })
    );
    assert_eq!(pos, 2);
    assert_eq!(
        take_arg(&args, &mut pos, "--n"),
        Err(ConfigError::MissingValue("--n".into()))
    );
    assert_eq!(pos, 2);
    let mut pos = 1;
    assert_eq!(take_arg(&args, &mut pos, "--n"), Ok("abc".to_string()));
}

#[test]
fn parse_usize_matches_std() {
    for s in [
        "0", "42", "+42", "007", "", "+", "-1", "1 ", " 1", "18446744073709551615",
        "18446744073709551616", "99999999999999999999999", "1a", "\u{661}",
    ] {
        assert_eq!(parse_usize(s), s.parse::<usize>().ok(), "text {s:?}");
    }
}

#[test]
fn proxies_follow_only() {
    let names = |args: &[&str]| -> Vec<(&'static str, String)> {
        config(args)
            .expect("valid")
            .proxies()
            .into_iter()
            .map(|p| (p.name, p.path))
            .collect()
    };
    assert_eq!(
        names(&[]),
        vec![
            ("tokio", "bin/socks5-tokio".to_string()),
            ("compio", "bin/socks5-compio".to_string())
        ]
    );
    assert_eq!(names(&["--only", "tokio"]), vec![("tokio", "bin/socks5-tokio".to_string())]);
    assert_eq!(
        names(&["--only", "compio"]),
        vec![("compio", "bin/socks5-compio".to_string())]
    );
}

// ---- http ----

#[test]
fn make_body_repeats_the_pattern() {
    let pattern = b"async-runtime-socks5-benchmark\n";
    assert_eq!(make_body(0), Vec::<u8>::new());
    assert_eq!(make_body(5), b"async".to_vec());
    assert_eq!(make_body(31), pattern.to_vec());
    let mut two = pattern.to_vec();
    two.extend_from_slice(pattern);
    assert_eq!(make_body(62), two);
    let body = make_body(40);
    assert_eq!(&body[..31], &pattern[..]);
    assert_eq!(&body[31..], &pattern[..9]);
    assert_eq!(make_body(16384).len(), 16384);
}

#[test]
fn http_request_text() {
    assert_eq!(
        http_request("127.0.0.1:18081"),
        b"GET /benchmark HTTP/1.1\r\nHost: 127.0.0.1:18081\r\nConnection: close\r\n\r\n".to_vec()
    );
}

#[test]
fn http_response_header_text() {
    assert_eq!(
        http_response_header(16384),
        "HTTP/1.1 200 OK\r\nContent-Length: 16384\r\nConnection: close\r\n\r\n"
    );
    assert_eq!(
        http_response_header(0),
        "HTTP/1.1 200 OK\r\nContent-Length: 0\r\nConnection: close\r\n\r\n"
    );
}

#[test]
fn scan_request_header_decisions() {
    assert_eq!(scan_request_header(b""), HeaderScan::NeedMore);
    assert_eq!(scan_request_header(b"GET / HTTP/1.1\r\n"), HeaderScan::NeedMore);
    assert_eq!(scan_request_header(b"GET / HTTP/1.1\r\n\r\n"), HeaderScan::Complete);
    assert_eq!(scan_request_header(b"\r\n\r\nbody"), HeaderScan::Complete);
    assert_eq!(scan_request_header(&vec![b'a'; 16384]), HeaderScan::NeedMore);
    let mut big = vec![b'a'; 16385];
    assert_eq!(scan_request_header(&big), HeaderScan::TooLarge);
    big[0..4].copy_from_slice(b"\r\n\r\n");
    assert_eq!(scan_request_header(&big), HeaderScan::TooLarge);
}

#[test]
fn parse_connect_request_drops_ipv6_zero_padding() {
    let mut buf = vec![0x05, 0x01, 0x00, 0x04, 0x20, 0x01, 0x0d, 0xb8];
    buf.extend_from_slice(&[0u8; 5]);
    buf.extend_from_slice(&[0, 0, 0, 0, 0, 0, 0, 0, 0, 0, 0, 7, 0x00, 0x50]);
    let req = parse_connect_request(&buf).expect("zero padding is skipped");
    assert_eq!(
        req,
        ConnectRequest {
            target: TargetAddr::Ipv6([0x20, 0x01, 0x0d, 0xb8, 0, 0, 0, 0, 0, 0, 0, 0, 0, 0, 0, 7]),
            port: 80
        }
    );
    buf[8] = 1;
    assert_eq!(parse_connect_request(&buf), Err(SocksError::TrailingBytes));
}

// ---- load tally ----

#[test]
fn load_tally_counts_outcomes() {
    let mut t = LoadTally::new();
    t.record(5, 100, None);
    t.record(7, 0, Some("e1".into()));
    t.record(9, 50, None);
    for i in 2..=5 {
        t.record(1, 0, Some(format!("e{i}")));
    }
    assert_eq!(t.latencies, vec![5, 9]);
    assert_eq!(t.bytes, 150);
    assert_eq!(t.errors, 5);
    assert_eq!(t.first_errors, vec!["e1".to_string(), "e2".into(), "e3".into()]);
}

#[test]
fn handshake_serves_the_benchmark_client() {
    let addr = SocketAddress { ip: IpAddress::V4([127, 0, 0, 1]), port: 18081 };
    let greeting = client_greeting();
    let request = encode_socks_connect_request(&addr);

    let (mut hs, _) = ServerHandshake::new();
    assert!(matches!(hs.received(&greeting[..2]), ServerAction::Read(1)));
    match hs.received(&greeting[2..]) {
        ServerAction::Write(reply) => {
            assert_eq!(check_method_selection(&[reply[0], reply[1]]), Ok(()))
        }
        other => panic!("unexpected action {other:?}"),
    }
    hs.sent();
    assert!(matches!(hs.received(&request[..4]), ServerAction::Read(6)));
    match hs.received(&request[4..]) {
        ServerAction::Connect(req) => {
            assert_eq!(req.target_string(""), "127.0.0.1:18081");
        }
        other => panic!("unexpected action {other:?}"),
    }
    match hs.connected() {
        ServerAction::Write(reply) => {
            let reply: [u8; 10] = reply.try_into().expect("ten bytes");
            assert_eq!(check_connect_reply(&reply), Ok(()));
        }
        other => panic!("unexpected action {other:?}"),
    }
}

// ---- schedule ----

#[test]
fn bench_steps_follow_rounds_proxies_and_levels() {
    let c = config(&["--rounds", "2", "--concurrency", "1,4", "--warmup", "3"]).expect("valid");
    let steps = bench_steps(&c);
    let mut expected = Vec::new();
    for round in 1..=2 {
        for proxy in 0..2 {
            expected.push(BenchStep::StartProxy { proxy });
            for concurrency in [1, 4] {
                expected.push(BenchStep::Warmup { round, proxy, concurrency });
                expected.push(BenchStep::Measure { round, proxy, concurrency });
            }
            expected.push(BenchStep::StopProxy { proxy });
        }
    }
    assert_eq!(steps, expected);
}

#[test]
fn bench_steps_without_warmup_for_one_proxy() {
    let c = config(&["--warmup", "0", "--only", "compio", "--concurrency", "8"]).expect("valid");
    assert_eq!(
        bench_steps(&c),
        vec![
            BenchStep::StartProxy { proxy: 0 },
            BenchStep::Measure { round: 1, proxy: 0, concurrency: 8 },
            BenchStep::StopProxy { proxy: 0 },
        ]
    );
    assert_eq!(c.proxies()[0].name, "compio");
}

#[test]
fn bench_steps_default_count() {
    let c = config(&[]).expect("valid");
    // 1 round, 2 proxies, 3 levels with warmup and measure, plus start and stop.
    assert_eq!(bench_steps(&c).len(), 2 * (2 + 3 * 2));
}

#[test]
fn warmup_gate() {
    assert!(warmup_passed(0, 0));
    assert!(warmup_passed(0, 5));
    assert!(warmup_passed(200, 0));
    assert!(!warmup_passed(200, 1));
}

#[test]
fn probe_step_decisions() {
    assert_eq!(probe_step(true, true, 0, 10), ProbeStep::Exited);
    assert_eq!(probe_step(false, true, 99, 10), ProbeStep::Ready);
    assert_eq!(probe_step(false, false, 10, 10), ProbeStep::TimedOut);
    assert_eq!(probe_step(false, false, 9, 10), ProbeStep::Retry);
}

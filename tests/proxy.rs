use tunnel_proxy::destination::{default_port, resolve_destination, resolve_parts, text_is, UrlParts};
use tunnel_proxy::error::ProxyError;
use tunnel_proxy::handshake::{is_whitespace, parse_handshake, parse_handshake_text, split_tokens};
use tunnel_proxy::policy::AllowSet;
use tunnel_proxy::relay::{Pump, PumpAction, ReadEvent};
use tunnel_proxy::session::{decide, decide_destination, rejection_response, Decision};

fn allow_baidu() -> AllowSet {
    AllowSet::new(vec!["baidu.com".to_string()])
}

#[test]
fn handshake_three_tokens() {
    let h = parse_handshake(b"GET http://baidu.com/ HTTP/1.1\r\nHost: baidu.com\r\n\r\n".to_vec())
        .unwrap();
    assert_eq!(h.method, "GET");
    assert_eq!(h.target, "http://baidu.com/");
    assert_eq!(h.protocol, "HTTP/1.1");
}

#[test]
fn handshake_extra_whitespace_runs() {
    let h = parse_handshake_text("  \t CONNECT   example.org:443 \t HTTP/1.1   \r\n").unwrap();
    assert_eq!(h.method, "CONNECT");
    assert_eq!(h.target, "example.org:443");
    assert_eq!(h.protocol, "HTTP/1.1");
}

#[test]
fn handshake_method_case_kept() {
    let h = parse_handshake_text("get http://a.b/ HTTP/1.0").unwrap();
    assert_eq!(h.method, "get");
    assert_eq!(h.protocol, "HTTP/1.0");
}

#[test]
fn handshake_unicode_whitespace() {
    let h = parse_handshake_text("GET\u{3000}x\u{a0}y").unwrap();
    assert_eq!(h.method, "GET");
    assert_eq!(h.target, "x");
    assert_eq!(h.protocol, "y");
}

#[test]
fn handshake_too_few_tokens() {
    assert_eq!(parse_handshake(b"GET http://baidu.com/\r\n".to_vec()).err(), Some(ProxyError::MalformedHandshake));
    assert_eq!(parse_handshake(b"".to_vec()).err(), Some(ProxyError::MalformedHandshake));
    assert_eq!(parse_handshake(b" \r\n  ".to_vec()).err(), Some(ProxyError::MalformedHandshake));
}

#[test]
fn handshake_invalid_utf8() {
    let r = parse_handshake(vec![b'G', b'E', b'T', b' ', 0xff, b' ', b'x', b' ', b'y']);
    assert_eq!(r.err(), Some(ProxyError::MalformedHandshake));
}

#[test]
fn tokens_split() {
    let t = split_tokens(" a  bc\td \n");
    assert_eq!(t, vec!["a".to_string(), "bc".to_string(), "d".to_string()]);
    assert!(split_tokens("").is_empty());
}

#[test]
fn whitespace_predicate() {
    assert!(is_whitespace(' '));
    assert!(is_whitespace('\r'));
    assert!(is_whitespace('\u{2028}'));
    assert!(!is_whitespace('a'));
    assert!(!is_whitespace('\u{200b}'));
}

#[test]
fn text_comparison() {
    assert!(text_is("http", "http"));
    assert!(!text_is("http", "https"));
    assert!(!text_is("HTTP", "http"));
}

#[test]
fn default_ports() {
    assert_eq!(default_port("http"), Some(80));
    assert_eq!(default_port("ws"), Some(80));
    assert_eq!(default_port("https"), Some(443));
    assert_eq!(default_port("wss"), Some(443));
    assert_eq!(default_port("ftp"), Some(21));
    assert_eq!(default_port("gopher"), None);
}

#[test]
fn resolve_http_default() {
    let d = resolve_destination("http://baidu.com/").unwrap();
    assert_eq!(d.host, "baidu.com");
    assert_eq!(d.port, 80);
}

#[test]
fn resolve_https_default() {
    let d = resolve_destination("https://Example.COM/path").unwrap();
    assert_eq!(d.host, "example.com");
    assert_eq!(d.port, 443);
}

#[test]
fn resolve_explicit_port() {
    let d = resolve_destination("http://baidu.com:8080/").unwrap();
    assert_eq!(d.port, 8080);
    let d = resolve_destination("http://baidu.com:80/").unwrap();
    assert_eq!(d.port, 80);
    let d = resolve_destination("foo://Host.Example:81").unwrap();
    assert_eq!(d.host, "host.example");
    assert_eq!(d.port, 81);
}

#[test]
fn resolve_failures() {
    assert_eq!(resolve_destination("foo://example.com").err(), Some(ProxyError::UnresolvableDestination));
    assert_eq!(resolve_destination("not a url").err(), Some(ProxyError::UnresolvableDestination));
    assert_eq!(resolve_destination("mailto:a@b.c").err(), Some(ProxyError::UnresolvableDestination));
    assert_eq!(resolve_destination("http://a.b:0/").err(), Some(ProxyError::UnresolvableDestination));
}

#[test]
fn resolve_from_parts() {
    let p = UrlParts { scheme: "http".to_string(), host: Some("MiXeD.org".to_string()), port: None };
    let d = resolve_parts(&p).unwrap();
    assert_eq!(d.host, "mixed.org");
    assert_eq!(d.port, 80);
    let p = UrlParts { scheme: "x".to_string(), host: Some("h".to_string()), port: Some(7) };
    assert_eq!(resolve_parts(&p).unwrap().port, 7);
    let p = UrlParts { scheme: "x".to_string(), host: Some("h".to_string()), port: None };
    assert_eq!(resolve_parts(&p).err(), Some(ProxyError::UnresolvableDestination));
    let p = UrlParts { scheme: "https".to_string(), host: None, port: None };
    assert_eq!(resolve_parts(&p).err(), Some(ProxyError::UnresolvableDestination));
    let p = UrlParts { scheme: "https".to_string(), host: Some(String::new()), port: None };
    assert_eq!(resolve_parts(&p).err(), Some(ProxyError::UnresolvableDestination));
}

#[test]
fn allowlist_exact_membership() {
    let a = AllowSet::new(vec!["Baidu.com".to_string(), "example.org".to_string()]);
    assert!(a.contains("baidu.com"));
    assert!(a.contains("BAIDU.COM"));
    assert!(a.contains("example.org"));
    assert!(!a.contains("www.baidu.com"));
    assert!(!a.contains("baidu.co"));
    assert!(!AllowSet::new(vec![]).contains("baidu.com"));
}

#[test]
fn rejection_literal() {
    assert_eq!(rejection_response(), b"HTTP/1.1 403 Forbidden\r\n\r\n".to_vec());
}

#[test]
fn scenario_allowed_host_connects() {
    let bytes = b"GET http://baidu.com/ HTTP/1.1\r\nHost: baidu.com\r\n\r\n".to_vec();
    match decide(bytes.clone(), &allow_baidu()) {
        Decision::Connect(d, replay) => {
            assert_eq!(d.host, "baidu.com");
            assert_eq!(d.port, 80);
            assert_eq!(replay, bytes);
        }
        _ => panic!("expected a connection"),
    }
}

#[test]
fn scenario_denied_host_rejected() {
    let bytes = b"GET http://example.com/ HTTP/1.1\r\nHost: example.com\r\n\r\n".to_vec();
    assert!(matches!(decide(bytes, &allow_baidu()), Decision::Reject));
}

#[test]
fn subdomain_rejected() {
    let bytes = b"GET http://www.baidu.com/ HTTP/1.1\r\n\r\n".to_vec();
    assert!(matches!(decide(bytes, &allow_baidu()), Decision::Reject));
}

#[test]
fn malformed_never_connects() {
    let r = decide(b"GET\r\n".to_vec(), &allow_baidu());
    assert!(matches!(r, Decision::Abort(ProxyError::MalformedHandshake)));
}

#[test]
fn unresolvable_target_aborts() {
    let r = decide(b"GET /index.html HTTP/1.1\r\n".to_vec(), &allow_baidu());
    assert!(matches!(r, Decision::Abort(ProxyError::UnresolvableDestination)));
}

#[test]
fn decide_from_parts() {
    let p = UrlParts { scheme: "https".to_string(), host: Some("BAIDU.com".to_string()), port: None };
    match decide_destination(&p, &allow_baidu(), vec![1, 2, 3]) {
        Decision::Connect(d, replay) => {
            assert_eq!(d.host, "baidu.com");
            assert_eq!(d.port, 443);
            assert_eq!(replay, vec![1, 2, 3]);
        }
        _ => panic!("expected a connection"),
    }
    let p = UrlParts { scheme: "https".to_string(), host: Some("other.com".to_string()), port: None };
    assert!(matches!(decide_destination(&p, &allow_baidu(), vec![]), Decision::Reject));
}

#[test]
fn scenario_client_half_close() {
    let mut to_upstream = Pump::new();
    let mut to_client = Pump::new();
    assert!(matches!(to_upstream.on_read(ReadEvent::Data(b"par".to_vec())), PumpAction::Write(b) if b == b"par".to_vec()));
    assert!(matches!(to_upstream.on_read(ReadEvent::End), PumpAction::ShutdownWrite));
    assert!(!to_upstream.is_running());
    assert!(matches!(to_upstream.on_read(ReadEvent::Data(vec![1])), PumpAction::Stop));
    assert!(to_client.is_running());
    assert!(matches!(to_client.on_read(ReadEvent::Data(b"resp".to_vec())), PumpAction::Write(b) if b == b"resp".to_vec()));
    assert!(matches!(to_client.on_read(ReadEvent::End), PumpAction::ShutdownWrite));
    assert!(!to_client.is_running());
}

#[test]
fn relay_bytes_unchanged_in_order() {
    let chunks: Vec<Vec<u8>> = vec![b"abc".to_vec(), vec![], vec![0, 255, 10], b"z".to_vec()];
    let mut pump = Pump::new();
    let mut out: Vec<u8> = Vec::new();
    for c in chunks.iter() {
        match pump.on_read(ReadEvent::Data(c.clone())) {
            PumpAction::Write(b) => out.extend_from_slice(&b),
            _ => panic!("expected a write"),
        }
    }
    assert!(matches!(pump.on_read(ReadEvent::End), PumpAction::ShutdownWrite));
    assert_eq!(out, chunks.concat());
}

#[test]
fn relay_fault_stops_without_shutdown() {
    let mut pump = Pump::new();
    assert!(matches!(pump.on_read(ReadEvent::Fault), PumpAction::Stop));
    assert!(!pump.is_running());
}

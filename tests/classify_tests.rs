use tetanux::classify::{
    classify, established_reply, not_allowed_reply, parse_authority, rewrite_request, Intent,
    TargetError, UrlParts,
};
use tetanux::head::{Header, RequestHead};

fn head(method: &str, target: &str, headers: &[(&str, &str)]) -> RequestHead {
    RequestHead {
        method: Some(method.to_string()),
        target: Some(target.to_string()),
        version: Some(1),
        headers: headers
            .iter()
            .map(|(n, v)| Header { name: n.as_bytes().to_vec(), value: v.as_bytes().to_vec() })
            .collect(),
    }
}

#[test]
fn connect_gives_tunnel_to_host_and_port() {
    match classify(&head("CONNECT", "example.com:443", &[("Host", "example.com:443")])) {
        Ok(Intent::Tunnel(e)) => {
            assert_eq!(e.host, "example.com");
            assert_eq!(e.port, 443);
        }
        _ => panic!("expected a tunnel"),
    }
}

#[test]
fn connect_ipv6_authority_uses_last_colon() {
    let e = parse_authority("[::1]:8443").expect("authority");
    assert_eq!(e.host, "[::1]");
    assert_eq!(e.port, 8443);
}

#[test]
fn connect_without_port_is_invalid() {
    for t in ["example.com", "example.com:", ":443", "example.com:http", "example.com:65536"] {
        assert!(matches!(
            classify(&head("CONNECT", t, &[])),
            Err(TargetError::InvalidTarget)
        ), "{}", t);
    }
}

#[test]
fn get_rewrites_request_for_origin() {
    let h = head(
        "GET",
        "http://example.com/a/b?x=1&y=2",
        &[("Host", "example.com"), ("User-Agent", "t/1"), ("X-Dup", "1"), ("X-Dup", "2")],
    );
    match classify(&h) {
        Ok(Intent::Forward(e, req)) => {
            assert_eq!(e.host, "example.com");
            assert_eq!(e.port, 80);
            assert_eq!(
                String::from_utf8(req).unwrap(),
                "GET /a/b?x=1&y=2 HTTP/1.1\r\nHost: example.com\r\nUser-Agent: t/1\r\nX-Dup: 1\r\nX-Dup: 2\r\nAccept: */*\r\nConnection: close\r\n\r\n"
            );
        }
        _ => panic!("expected a forward"),
    }
}

#[test]
fn get_uses_explicit_port_and_root_path() {
    match classify(&head("GET", "http://127.0.0.1:8081", &[])) {
        Ok(Intent::Forward(e, req)) => {
            assert_eq!(e.host, "127.0.0.1");
            assert_eq!(e.port, 8081);
            assert_eq!(
                String::from_utf8(req).unwrap(),
                "GET / HTTP/1.1\r\nAccept: */*\r\nConnection: close\r\n\r\n"
            );
        }
        _ => panic!("expected a forward"),
    }
}

#[test]
fn get_header_values_forwarded_byte_for_byte() {
    let h = RequestHead {
        method: Some("GET".to_string()),
        target: Some("http://h/".to_string()),
        version: Some(1),
        headers: vec![Header { name: b"X-Raw".to_vec(), value: vec![0xff, b'a', 0x80] }],
    };
    match classify(&h) {
        Ok(Intent::Forward(_, req)) => {
            let mut want = b"GET / HTTP/1.1\r\nX-Raw: ".to_vec();
            want.extend_from_slice(&[0xff, b'a', 0x80]);
            want.extend_from_slice(b"\r\nAccept: */*\r\nConnection: close\r\n\r\n");
            assert_eq!(req, want);
        }
        _ => panic!("expected a forward"),
    }
}

#[test]
fn get_without_absolute_uri_is_invalid() {
    for t in ["/index.html", "example.com/x", "data:text/plain,hi", ""] {
        assert!(matches!(classify(&head("GET", t, &[])), Err(TargetError::InvalidTarget)), "{}", t);
    }
    let mut h = head("GET", "http://h/", &[]);
    h.target = None;
    assert!(matches!(classify(&h), Err(TargetError::InvalidTarget)));
}

#[test]
fn other_methods_are_rejected() {
    for m in ["POST", "PUT", "DELETE", "HEAD", "get", "OPTIONS"] {
        assert!(matches!(classify(&head(m, "http://h/", &[])), Ok(Intent::Reject)), "{}", m);
    }
}

#[test]
fn rewrite_request_without_query() {
    let u = UrlParts { host: Some("h".to_string()), port: None, path: b"/p".to_vec(), query: None };
    let hs = vec![Header { name: b"Host".to_vec(), value: b"other".to_vec() }];
    assert_eq!(
        rewrite_request(&u, &hs),
        b"GET /p HTTP/1.1\r\nHost: other\r\nAccept: */*\r\nConnection: close\r\n\r\n".to_vec()
    );
    let q = UrlParts { host: None, port: None, path: b"/".to_vec(), query: Some(Vec::new()) };
    assert_eq!(
        rewrite_request(&q, &Vec::new()),
        b"GET /? HTTP/1.1\r\nAccept: */*\r\nConnection: close\r\n\r\n".to_vec()
    );
}

#[test]
fn literal_replies() {
    assert_eq!(established_reply(), b"HTTP/1.1 200 Connection Established\r\n\r\n".to_vec());
    assert_eq!(not_allowed_reply(), b"HTTP/1.1 405 Method Not Allowed\r\n\r\n".to_vec());
}

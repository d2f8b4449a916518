use tetanux::head::{HeadReader, HeadStatus, ParseError, HEAD_CAPACITY};

const REQUEST: &[u8] = b"GET http://example.com/a?b=1 HTTP/1.1\r\nHost: example.com\r\nAccept: text/html\r\n\r\n";

fn summary(s: &HeadStatus) -> String {
    match s {
        HeadStatus::Incomplete => "incomplete".to_string(),
        HeadStatus::Failed(e) => format!("failed {:?}", e),
        HeadStatus::Parsed(h, n) => {
            let mut out = format!("{:?} {:?} {:?} {}", h.method, h.target, h.version, n);
            for x in h.headers.iter() {
                out += &format!(" [{}={}]", String::from_utf8_lossy(&x.name), String::from_utf8_lossy(&x.value));
            }
            out
        }
    }
}

#[test]
fn head_parsed_whole() {
    let mut r = HeadReader::new();
    let s = r.feed(REQUEST);
    match &s {
        HeadStatus::Parsed(h, n) => {
            assert_eq!(*n, REQUEST.len());
            assert_eq!(h.method.as_deref(), Some("GET"));
            assert_eq!(h.target.as_deref(), Some("http://example.com/a?b=1"));
            assert_eq!(h.version, Some(1));
            assert_eq!(h.headers.len(), 2);
            assert_eq!(h.headers[0].name, b"Host".to_vec());
            assert_eq!(h.headers[0].value, b"example.com".to_vec());
            assert_eq!(h.headers[1].name, b"Accept".to_vec());
            assert_eq!(h.headers[1].value, b"text/html".to_vec());
        }
        _ => panic!("not parsed: {}", summary(&s)),
    }
}

#[test]
fn head_fragmentation_invariant_one_byte_at_a_time() {
    let whole = summary(&HeadReader::new().feed(REQUEST));
    let mut r = HeadReader::new();
    let mut last = String::new();
    for (i, b) in REQUEST.iter().enumerate() {
        let s = r.feed(&[*b]);
        if i + 1 < REQUEST.len() {
            assert!(matches!(s, HeadStatus::Incomplete), "byte {}", i);
        }
        last = summary(&s);
    }
    assert_eq!(last, whole);
}

#[test]
fn head_fragmentation_invariant_uneven_pieces() {
    let whole = summary(&HeadReader::new().feed(REQUEST));
    for cut in 1..REQUEST.len() {
        let mut r = HeadReader::new();
        let first = r.feed(&REQUEST[..cut]);
        assert!(matches!(first, HeadStatus::Incomplete));
        assert_eq!(summary(&r.feed(&REQUEST[cut..])), whole);
    }
}

#[test]
fn head_body_bytes_after_blank_line_not_consumed() {
    let mut bytes = REQUEST.to_vec();
    bytes.extend_from_slice(b"body");
    match HeadReader::new().feed(&bytes) {
        HeadStatus::Parsed(_, n) => assert_eq!(n, REQUEST.len()),
        s => panic!("{}", summary(&s)),
    }
}

#[test]
fn head_incomplete_until_blank_line() {
    let first = b"GET / HTTP/1.1\r\nHost: a\r\n";
    let mut r = HeadReader::new();
    assert!(matches!(r.feed(first), HeadStatus::Incomplete));
    assert_eq!(r.room(), HEAD_CAPACITY - first.len());
    assert!(matches!(r.feed(b"\r\n"), HeadStatus::Parsed(_, n) if n == first.len() + 2));
}

#[test]
fn head_oversized_is_fatal() {
    let mut r = HeadReader::new();
    let mut line = b"GET / HTTP/1.1\r\nX-Long: ".to_vec();
    line.extend(std::iter::repeat(b'a').take(HEAD_CAPACITY));
    let s = r.feed(&line[..HEAD_CAPACITY - 1]);
    assert!(matches!(s, HeadStatus::Incomplete));
    assert_eq!(r.room(), 1);
    let s = r.feed(&line[HEAD_CAPACITY - 1..]);
    assert!(matches!(s, HeadStatus::Failed(ParseError::HeadersTooLarge)));
    assert_eq!(r.room(), 0);
    let s = r.feed(b"\r\n\r\n");
    assert!(matches!(s, HeadStatus::Failed(ParseError::HeadersTooLarge)));
}

#[test]
fn head_blank_line_just_within_capacity() {
    let mut bytes = b"GET / HTTP/1.1\r\nX-Pad: ".to_vec();
    let pad = HEAD_CAPACITY - bytes.len() - 6;
    bytes.extend(std::iter::repeat(b'a').take(pad));
    bytes.extend_from_slice(b"\r\n\r\n");
    assert_eq!(bytes.len(), HEAD_CAPACITY - 2);
    assert!(matches!(HeadReader::new().feed(&bytes), HeadStatus::Parsed(_, n) if n == HEAD_CAPACITY - 2));
}

#[test]
fn head_malformed_grammar() {
    let s = HeadReader::new().feed(b"GET / HTTP/1.1\r\nBad Header\r\n\r\n");
    assert!(matches!(s, HeadStatus::Failed(ParseError::Malformed)));
    let s = HeadReader::new().feed(b"GET / FTP/1.1\r\n\r\n");
    assert!(matches!(s, HeadStatus::Failed(ParseError::Malformed)));
}

#[test]
fn head_leading_empty_lines_skipped() {
    let bytes = b"\r\n\r\nGET / HTTP/1.1\r\n\r\n";
    match HeadReader::new().feed(bytes) {
        HeadStatus::Parsed(h, n) => {
            assert_eq!(n, bytes.len());
            assert_eq!(h.method.as_deref(), Some("GET"));
        }
        s => panic!("{}", summary(&s)),
    }
}

use ferrugem::headers::Header;
use ferrugem::response::accepts_value;
use ferrugem::response::find;
use ferrugem::response::parse_response;
use ferrugem::response::split_field;
use ferrugem::response::split_lines;
use ferrugem::response::status_of;
use ferrugem::response::ProtocolError;
use ferrugem::response::Response;

#[test]
fn reads_status_headers_and_body() {
    let raw = b"HTTP/1.1 200 OK\r\nContent-Type: text/plain\r\nX-A: b\r\n\r\nhello";
    assert_eq!(
        parse_response(raw),
        Ok(Response {
            status: 200,
            headers: vec![Header::new(b"Content-Type", b"text/plain"), Header::new(b"X-A", b"b")],
            body: b"hello".to_vec(),
        })
    );
}

#[test]
fn body_is_everything_after_the_first_empty_line() {
    let raw = b"HTTP/1.1 404 Not Found\r\n\r\na\r\n\r\nb\r\n";
    assert_eq!(
        parse_response(raw),
        Ok(Response { status: 404, headers: Vec::new(), body: b"a\r\n\r\nb\r\n".to_vec() })
    );
}

#[test]
fn body_of_no_bytes() {
    let raw = b"HTTP/1.1 204 No Content\r\n\r\n";
    assert_eq!(parse_response(raw), Ok(Response { status: 204, headers: Vec::new(), body: Vec::new() }));
}

#[test]
fn body_of_one_byte() {
    let raw = b"HTTP/1.1 200 OK\r\n\r\n\x00";
    assert_eq!(parse_response(raw), Ok(Response { status: 200, headers: Vec::new(), body: vec![0u8] }));
}

#[test]
fn body_of_megabytes_comes_through_byte_for_byte() {
    let mut body = Vec::new();
    for i in 0..3_000_000usize {
        body.push((i % 251) as u8);
    }
    let mut raw = b"HTTP/1.1 200 OK\r\nContent-Length: 3000000\r\n\r\n".to_vec();
    raw.extend_from_slice(&body);
    let parsed = parse_response(&raw).unwrap();
    assert_eq!(parsed.status, 200);
    assert_eq!(parsed.headers, vec![Header::new(b"Content-Length", b"3000000")]);
    assert_eq!(parsed.body, body);
}

#[test]
fn head_without_empty_line_has_no_body() {
    let raw = b"HTTP/1.0 301 Moved\nLocation: /x";
    assert_eq!(
        parse_response(raw),
        Ok(Response { status: 301, headers: vec![Header::new(b"Location", b"/x")], body: Vec::new() })
    );
}

#[test]
fn lines_without_separator_are_passed_over() {
    let raw = b"HTTP/1.1 200 OK\r\nnoise\r\nA: 1\r\nB:2\r\n\r\n";
    assert_eq!(
        parse_response(raw),
        Ok(Response { status: 200, headers: vec![Header::new(b"A", b"1")], body: Vec::new() })
    );
}

#[test]
fn value_keeps_later_separators() {
    let raw = b"HTTP/1.1 200 OK\r\nA: b: c\r\n\r\n";
    assert_eq!(
        parse_response(raw),
        Ok(Response { status: 200, headers: vec![Header::new(b"A", b"b: c")], body: Vec::new() })
    );
}

#[test]
fn missing_or_broken_status_line_is_a_protocol_error() {
    assert_eq!(parse_response(b""), Err(ProtocolError::BadStatus));
    assert_eq!(parse_response(b"\r\n\r\nbody"), Err(ProtocolError::BadStatus));
    assert_eq!(parse_response(b"garbage\r\n\r\n"), Err(ProtocolError::BadStatus));
    assert_eq!(parse_response(b"HTTP/1.1\r\n\r\n"), Err(ProtocolError::BadStatus));
    assert_eq!(parse_response(b"HTTP/1.1 99 Low\r\n\r\n"), Err(ProtocolError::BadStatus));
    assert_eq!(parse_response(b"HTTP/1.1 099 Low\r\n\r\n"), Err(ProtocolError::BadStatus));
    assert_eq!(parse_response(b"HTTP/1.1 1000 High\r\n\r\n"), Err(ProtocolError::BadStatus));
    assert_eq!(parse_response(b"HTTP/1.1 2x0 Odd\r\n\r\n"), Err(ProtocolError::BadStatus));
    assert_eq!(parse_response(b"A: 1\r\nHTTP/1.1 200 OK\r\n\r\n"), Err(ProtocolError::BadStatus));
}

#[test]
fn header_name_that_no_header_may_have_is_a_protocol_error() {
    assert_eq!(
        parse_response(b"HTTP/1.1 200 OK\r\nBad Name: x\r\n\r\n"),
        Err(ProtocolError::BadHeader)
    );
    assert_eq!(parse_response(b"HTTP/1.1 200 OK\r\n: x\r\n\r\n"), Err(ProtocolError::BadHeader));
    assert_eq!(
        parse_response(b"HTTP/1.1 200 OK\r\nGood: 1\r\nB(ad): x\r\n\r\n"),
        Err(ProtocolError::BadHeader)
    );
}

#[test]
fn header_value_with_control_bytes_is_a_protocol_error() {
    assert_eq!(
        parse_response(b"HTTP/1.1 200 OK\r\nA: x\x01y\r\n\r\n"),
        Err(ProtocolError::BadHeader)
    );
    assert_eq!(
        parse_response(b"HTTP/1.1 200 OK\r\nA: x\x7f\r\n\r\n"),
        Err(ProtocolError::BadHeader)
    );
}

#[test]
fn header_value_may_hold_tabs_and_high_bytes() {
    let raw = b"HTTP/1.1 200 OK\r\nA: x\ty\xff\r\n\r\n";
    assert_eq!(
        parse_response(raw),
        Ok(Response { status: 200, headers: vec![Header::new(b"A", b"x\ty\xff")], body: Vec::new() })
    );
}

#[test]
fn status_edges() {
    assert_eq!(status_of(b"HTTP/1.1 100 Continue"), Some(100));
    assert_eq!(status_of(b"HTTP/1.1 999"), Some(999));
    assert_eq!(status_of(b"HTTP/2 \t 503\tDown"), Some(503));
    assert_eq!(status_of(b"HTTP/ 200"), Some(200));
    assert_eq!(status_of(b"http/1.1 200 OK"), None);
    assert_eq!(status_of(b"HTTP/1.1 2000"), None);
    assert_eq!(status_of(b"HTTP/1.1 20"), None);
    assert_eq!(status_of(b"HTTP/1.1 "), None);
    assert_eq!(status_of(b"HTTP"), None);
    assert_eq!(status_of(b""), None);
}

#[test]
fn find_gives_the_first_occurrence_or_the_length() {
    assert_eq!(find(b"abcabc", b"bc"), 1);
    assert_eq!(find(b"abcabc", b"abc"), 0);
    assert_eq!(find(b"abcabc", b"cab"), 2);
    assert_eq!(find(b"abcabc", b"x"), 6);
    assert_eq!(find(b"ab", b"abc"), 2);
    assert_eq!(find(b"", b"a"), 0);
    assert_eq!(find(b"aab", b"ab"), 1);
}

#[test]
fn lines_split_at_line_feeds_and_lose_one_carriage_return() {
    assert_eq!(split_lines(b"a\r\nb\nc"), vec![b"a".to_vec(), b"b".to_vec(), b"c".to_vec()]);
    assert_eq!(split_lines(b"a\r\n"), vec![b"a".to_vec()]);
    assert_eq!(split_lines(b"a\n\nb"), vec![b"a".to_vec(), Vec::new(), b"b".to_vec()]);
    assert_eq!(split_lines(b"a\r\r\n"), vec![b"a\r".to_vec()]);
    assert_eq!(split_lines(b"a\r"), vec![b"a".to_vec()]);
    assert_eq!(split_lines(b""), Vec::<Vec<u8>>::new());
    assert_eq!(split_lines(b"\n"), vec![Vec::<u8>::new()]);
}

#[test]
fn field_splits_at_the_first_colon_and_space() {
    assert_eq!(split_field(b"Name: value"), Some(Header::new(b"Name", b"value")));
    assert_eq!(split_field(b"Name: "), Some(Header::new(b"Name", b"")));
    assert_eq!(split_field(b": v"), Some(Header::new(b"", b"v")));
    assert_eq!(split_field(b"a:b: c"), Some(Header::new(b"a:b", b"c")));
    assert_eq!(split_field(b"Name:value"), None);
    assert_eq!(split_field(b""), None);
}

#[test]
fn value_bytes() {
    assert!(accepts_value(b""));
    assert!(accepts_value(b"plain text\t!"));
    assert!(accepts_value(&[0x80, 0xff]));
    assert!(!accepts_value(b"a\nb"));
    assert!(!accepts_value(&[0x1f]));
    assert!(!accepts_value(&[0x7f]));
}

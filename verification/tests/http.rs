use alavai::http::{
    ChunkError, ChunkLine, HttpError, dechunk, ends_headers, find, parse_http_response,
    read_chunk_size, take_records, watch_request, decimal,
};

#[test]
fn plain_response_body() {
    let raw = b"HTTP/1.1 200 OK\r\nContent-Type: application/json\r\n\r\n{\"a\":1}";
    assert_eq!(parse_http_response(raw).unwrap(), b"{\"a\":1}".to_vec());
}

#[test]
fn chunked_response_is_dechunked() {
    let raw = b"HTTP/1.1 200 OK\r\nTransfer-Encoding: chunked\r\n\r\n4\r\nWiki\r\n5\r\npedia\r\n0\r\n\r\n";
    assert_eq!(parse_http_response(raw).unwrap(), b"Wikipedia".to_vec());
}

#[test]
fn chunked_header_is_case_insensitive() {
    let raw = b"HTTP/1.1 200 OK\r\ntransfer-encoding: Chunked\r\n\r\n3\r\nabc\r\n0\r\n\r\n";
    assert_eq!(parse_http_response(raw).unwrap(), b"abc".to_vec());
}

#[test]
fn error_status_carries_body() {
    let raw = b"HTTP/1.1 403 Forbidden\r\n\r\naccess denied";
    assert_eq!(
        parse_http_response(raw),
        Err(HttpError::Status { code: 403, body: b"access denied".to_vec() })
    );
}

#[test]
fn missing_terminator_and_bad_status() {
    assert_eq!(parse_http_response(b"HTTP/1.1 200 OK\r\n"), Err(HttpError::NoHeaderTerminator));
    assert_eq!(parse_http_response(b"HTTP/1.1\r\n\r\nx"), Err(HttpError::BadStatusLine("HTTP/1.1".to_string())));
    assert_eq!(
        parse_http_response(b"HTTP/1.1 OK 200\r\nA: b\r\n\r\nx"),
        Err(HttpError::BadStatusLine("HTTP/1.1 OK 200".to_string()))
    );
}

#[test]
fn error_messages() {
    let raw = b"HTTP/1.1 403 Forbidden\r\nContent-Length: 13\r\n\r\nnot operator\n";
    let e = parse_http_response(raw).unwrap_err();
    assert_eq!(e.message(), "LocalAPI returned HTTP 403: not operator");
    assert_eq!(
        HttpError::NoHeaderTerminator.message(),
        "malformed HTTP response (no header terminator)"
    );
    let bad = parse_http_response(b"HTTP/1.1 OK \"x\"\r\n\r\n").unwrap_err();
    assert_eq!(bad.message(), "malformed HTTP status line: \"HTTP/1.1 OK \\\"x\\\"\"");
    assert_eq!(HttpError::Chunk(ChunkError::Truncated).message(), "truncated chunk body");
    assert_eq!(ChunkError::BadSize.message(), "parse chunk size");
    let not_text = parse_http_response(b"HTTP/1.1 200 OK\r\nTransfer-Encoding: chunked\r\n\r\n3\xc3\r\nabc\r\n")
        .unwrap_err();
    assert_eq!(not_text.message(), "incomplete utf-8 byte sequence from index 1");
    let status = HttpError::Status { code: 500, body: b"  \xffboom \r\n".to_vec() };
    assert_eq!(status.message(), "LocalAPI returned HTTP 500: \u{fffd}boom");
}

#[test]
fn chunk_errors_surface() {
    let raw = b"HTTP/1.1 200 OK\r\nTransfer-Encoding: chunked\r\n\r\nzz\r\nabc\r\n";
    assert_eq!(parse_http_response(raw), Err(HttpError::Chunk(ChunkError::BadSize)));
}

#[test]
fn dechunk_cases() {
    assert_eq!(dechunk(b"3\r\nabc\r\n0\r\n\r\n").unwrap(), b"abc".to_vec());
    assert_eq!(dechunk(b"a;ext=1\r\n0123456789\r\n0\r\n").unwrap(), b"0123456789".to_vec());
    assert_eq!(dechunk(b"5\r\nab"), Err(ChunkError::Truncated));
    assert_eq!(dechunk(b"5"), Err(ChunkError::MissingHeader));
    assert_eq!(
        dechunk(b"\xff\r\n"),
        Err(ChunkError::NotText("invalid utf-8 sequence of 1 bytes from index 0".to_string()))
    );
    assert_eq!(dechunk(b"q\r\n"), Err(ChunkError::BadSize));
    assert_eq!(dechunk(b"0\r\n").unwrap(), Vec::<u8>::new());
}

#[test]
fn find_locates_needles() {
    assert_eq!(find(b"abcabc", b"ca"), Some(2));
    assert_eq!(find(b"abc", b"x"), None);
    assert_eq!(find(b"ab", b"abc"), None);
}

#[test]
fn header_end_lines() {
    assert!(ends_headers("\r\n"));
    assert!(ends_headers("\n"));
    assert!(!ends_headers("Content-Type: x\r\n"));
}

#[test]
fn chunk_size_lines() {
    assert_eq!(read_chunk_size("\r\n"), Ok(ChunkLine::Blank));
    assert_eq!(read_chunk_size("0\r\n"), Ok(ChunkLine::Last));
    assert_eq!(read_chunk_size("1a\r\n"), Ok(ChunkLine::Size(26)));
    assert_eq!(read_chunk_size("1A;foo=bar\r\n"), Ok(ChunkLine::Size(26)));
    assert_eq!(read_chunk_size("xyz\r\n"), Err(ChunkError::BadSize));
}

#[test]
fn records_split_at_newlines() {
    let mut buf: Vec<u8> = b"{\"a\"".to_vec();
    let lines = take_records(&mut buf, b":1}\n\n{\"b\":2}\n{\"c\"");
    assert_eq!(lines, vec![b"{\"a\":1}".to_vec(), b"{\"b\":2}".to_vec()]);
    assert_eq!(buf, b"{\"c\"".to_vec());
    let none = take_records(&mut buf, b":3");
    assert!(none.is_empty());
    assert_eq!(buf, b"{\"c\":3".to_vec());
}

#[test]
fn watch_request_subscribes_with_mask() {
    let text = String::from_utf8(watch_request()).unwrap();
    assert_eq!(
        text,
        "GET /localapi/v0/watch-ipn-bus?mask=270 HTTP/1.1\r\nHost: local-tailscaled.sock\r\nConnection: keep-alive\r\n\r\n"
    );
}

#[test]
fn decimal_digits() {
    assert_eq!(decimal(0), "0");
    assert_eq!(decimal(1234567890), "1234567890");
    assert_eq!(decimal(u64::MAX), "18446744073709551615");
}

#[test]
fn records_do_not_depend_on_chunking() {
    let stream = b"{\"State\":6}\n{\"Prefs\":{}}\n\n{\"NetMap\":null}\n{\"part";
    let mut whole_buf = Vec::new();
    let whole = take_records(&mut whole_buf, stream);
    for cut in 0..stream.len() {
        let mut buf = Vec::new();
        let mut got = take_records(&mut buf, &stream[..cut]);
        got.extend(take_records(&mut buf, &stream[cut..]));
        assert_eq!(got, whole);
        assert_eq!(buf, whole_buf);
    }
    assert_eq!(whole.len(), 3);
    assert_eq!(whole_buf, b"{\"part".to_vec());
}

#[test]
fn chunk_framing_round_trips() {
    let chunks: Vec<Vec<u8>> = vec![b"ab\r\ncd".to_vec(), vec![b'x'; 26], b"0\r\n\r\n".to_vec()];
    let mut body = Vec::new();
    for c in &chunks {
        body.extend_from_slice(format!("{:x}\r\n", c.len()).as_bytes());
        body.extend_from_slice(c);
        body.extend_from_slice(b"\r\n");
    }
    body.extend_from_slice(b"0\r\n\r\n");
    assert_eq!(dechunk(&body).unwrap(), chunks.concat());
}

use stelliberty_ipc::http::{decimal_string, HttpError, IpcClient};

fn parse(text: &str) -> Result<Option<stelliberty_ipc::http::HttpResponse>, HttpError> {
    IpcClient::read_http_response_static(text.as_bytes())
}

#[test]
fn content_length_body_is_read() {
    let r = parse("HTTP/1.1 200 OK\r\nContent-Length: 5\r\n\r\nhello").unwrap().unwrap();
    assert_eq!(r.status_code, 200);
    assert_eq!(r.body, "hello");
}

#[test]
fn chunked_body_is_reassembled() {
    let r = parse("HTTP/1.1 200 OK\r\nTransfer-Encoding: chunked\r\n\r\n5\r\nhello\r\n0\r\n\r\n")
        .unwrap()
        .unwrap();
    assert_eq!(r.status_code, 200);
    assert_eq!(r.body, "hello");
}

#[test]
fn chunked_body_with_several_chunks_and_hex_sizes() {
    let r = parse("HTTP/1.1 201 Created\r\ntransfer-encoding: gzip, chunked\r\n\r\n3\r\nabc\r\nA\r\n0123456789\r\n0\r\n\r\n")
        .unwrap()
        .unwrap();
    assert_eq!(r.status_code, 201);
    assert_eq!(r.body, "abc0123456789");
}

#[test]
fn header_names_ignore_case() {
    let r = parse("HTTP/1.1 404 Not Found\r\ncontent-LENGTH:  3 \r\n\r\nabcdef").unwrap().unwrap();
    assert_eq!(r.status_code, 404);
    assert_eq!(r.body, "abc");
}

#[test]
fn no_length_means_empty_body() {
    let r = parse("HTTP/1.1 204 No Content\r\nX-Other: 1\r\n\r\n").unwrap().unwrap();
    assert_eq!(r.status_code, 204);
    assert_eq!(r.body, "");
}

#[test]
fn incomplete_head_asks_for_more() {
    assert!(matches!(parse("HTTP/1.1 200 OK\r\nContent-Len"), Ok(None)));
    assert!(matches!(parse(""), Ok(None)));
}

#[test]
fn incomplete_body_asks_for_more() {
    assert!(matches!(parse("HTTP/1.1 200 OK\r\nContent-Length: 10\r\n\r\nhello"), Ok(None)));
    assert!(matches!(
        parse("HTTP/1.1 200 OK\r\nTransfer-Encoding: chunked\r\n\r\n5\r\nhello\r\n0\r\n"),
        Ok(None)
    ));
}

#[test]
fn incomplete_response_at_eof_is_connection_closed() {
    let r = IpcClient::read_http_response_at_eof(b"HTTP/1.1 200 OK\r\n");
    assert!(matches!(r, Err(HttpError::ConnectionClosed)));
}

#[test]
fn blank_head_is_empty_response() {
    assert!(matches!(parse("\r\n"), Err(HttpError::EmptyResponse)));
}

#[test]
fn malformed_status_lines_are_rejected() {
    assert!(matches!(parse("HTTP/1.1\r\n\r\n"), Err(HttpError::InvalidStatusLine)));
    assert!(matches!(parse("HTTP/1.1 abc OK\r\n\r\n"), Err(HttpError::InvalidStatusCode)));
    assert!(matches!(parse("HTTP/1.1 70000 OK\r\n\r\n"), Err(HttpError::InvalidStatusCode)));
}

#[test]
fn bad_chunk_size_is_rejected() {
    assert!(matches!(
        parse("HTTP/1.1 200 OK\r\nTransfer-Encoding: chunked\r\n\r\nzz\r\nhello\r\n0\r\n\r\n"),
        Err(HttpError::InvalidChunkSize)
    ));
}

#[test]
fn non_utf8_body_is_rejected() {
    let mut data = b"HTTP/1.1 200 OK\r\nContent-Length: 2\r\n\r\n".to_vec();
    data.push(0xff);
    data.push(0xfe);
    assert!(matches!(IpcClient::read_http_response_static(&data), Err(HttpError::InvalidUtf8Body)));
}

#[test]
fn status_code_parsing() {
    assert_eq!(IpcClient::parse_status_code_static(b"HTTP/1.1 200 OK\r\n"), Ok(200));
    assert_eq!(IpcClient::parse_status_code_static(b"HTTP/1.1   503"), Ok(503));
    assert_eq!(IpcClient::parse_status_code_static(b"HTTP/1.1 +200 OK"), Ok(200));
    assert_eq!(IpcClient::parse_status_code_static(b"HTTP/1.1"), Err(HttpError::InvalidStatusLine));
    assert_eq!(IpcClient::parse_status_code_static(b"   "), Err(HttpError::InvalidStatusLine));
    assert_eq!(IpcClient::parse_status_code_static(b"HTTP/1.1 2x0 OK"), Err(HttpError::InvalidStatusCode));
}

#[test]
fn request_without_body() {
    let r = IpcClient::build_http_request_static("GET", "/version", None);
    assert_eq!(r, "GET /version HTTP/1.1\r\nHost: localhost\r\n\r\n");
}

#[test]
fn request_with_body_counts_bytes() {
    let r = IpcClient::build_http_request_static("PUT", "/configs?force=true", Some("{\"path\":\"é\"}"));
    assert_eq!(
        r,
        "PUT /configs?force=true HTTP/1.1\r\nHost: localhost\r\nContent-Type: application/json\r\nContent-Length: 13\r\n\r\n{\"path\":\"é\"}"
    );
}

#[test]
fn decimal_notation() {
    assert_eq!(decimal_string(0), "0");
    assert_eq!(decimal_string(7), "7");
    assert_eq!(decimal_string(1234567890), "1234567890");
}

#[test]
fn endpoint_paths() {
    assert_eq!(IpcClient::default_ipc_path(true, true), r"\\.\pipe\stelliberty_dev");
    assert_eq!(IpcClient::default_ipc_path(true, false), r"\\.\pipe\stelliberty");
    assert_eq!(IpcClient::default_ipc_path(false, true), "/tmp/stelliberty_dev.sock");
    assert_eq!(IpcClient::default_ipc_path(false, false), "/tmp/stelliberty.sock");
}

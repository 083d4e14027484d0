//! The buffered HTTP response reader.

use yubihsm_channel::http::{HttpResponseError, ResponseReader, MAX_RESPONSE_SIZE};

fn reader_with(bytes: &[u8]) -> ResponseReader {
    let mut r = ResponseReader::new();
    r.append(bytes).unwrap();
    r
}

#[test]
fn parses_a_complete_response() {
    let mut r = reader_with(b"HTTP/1.1 200 OK\r\nContent-Length: 5\r\n\r\nhello");
    assert!(r.scan_body_offset());
    assert_eq!(r.body_offset, Some(38));
    r.parse_headers().unwrap();
    assert_eq!(r.content_length, 5);
    assert!(r.body_complete());
    assert_eq!(r.take_body(), b"hello".to_vec());
}

#[test]
fn parses_across_chunks() {
    let mut r = ResponseReader::new();
    r.append(b"HTTP/1.1 200 OK\r\nConten").unwrap();
    assert!(!r.scan_body_offset());
    r.append(b"t-Length: 3\r\n\r\nab").unwrap();
    assert!(r.scan_body_offset());
    r.parse_headers().unwrap();
    assert_eq!(r.content_length, 3);
    assert!(!r.body_complete());
    r.append(b"c").unwrap();
    assert!(r.body_complete());
    assert_eq!(r.take_body(), b"abc".to_vec());
}

#[test]
fn other_headers_are_ignored_and_last_content_length_wins() {
    let mut r = reader_with(
        b"HTTP/1.1 200 OK\r\nServer: x\r\nContent-Length: 9\r\nDate: y\r\nContent-Length: 2\r\n\r\nok",
    );
    assert!(r.scan_body_offset());
    r.parse_headers().unwrap();
    assert_eq!(r.content_length, 2);
    assert_eq!(r.take_body(), b"ok".to_vec());
}

#[test]
fn missing_content_length_means_empty_body() {
    let mut r = reader_with(b"HTTP/1.1 200 OK\r\n\r\n");
    assert!(r.scan_body_offset());
    r.parse_headers().unwrap();
    assert_eq!(r.content_length, 0);
    assert!(r.body_complete());
}

#[test]
fn non_success_status_is_refused() {
    let mut r = reader_with(b"HTTP/1.1 404 Not Found\r\nContent-Length: 0\r\n\r\n");
    assert!(r.scan_body_offset());
    assert_eq!(
        r.parse_headers().unwrap_err(),
        HttpResponseError::UnexpectedStatus
    );
}

#[test]
fn transfer_encoding_is_refused() {
    let mut r = reader_with(b"HTTP/1.1 200 OK\r\nTransfer-Encoding: chunked\r\n\r\n");
    assert!(r.scan_body_offset());
    assert_eq!(
        r.parse_headers().unwrap_err(),
        HttpResponseError::UnsupportedTransferEncoding
    );
}

#[test]
fn malformed_content_length_is_refused() {
    let mut r = reader_with(b"HTTP/1.1 200 OK\r\nContent-Length: 12x\r\n\r\n");
    assert!(r.scan_body_offset());
    assert_eq!(
        r.parse_headers().unwrap_err(),
        HttpResponseError::MalformedHeaders
    );
    let mut r2 = reader_with(b"HTTP/1.1 200 OK\r\nContent-Length: \r\n\r\n");
    assert!(r2.scan_body_offset());
    assert_eq!(
        r2.parse_headers().unwrap_err(),
        HttpResponseError::MalformedHeaders
    );
}

#[test]
fn oversized_declared_body_is_refused() {
    let mut r = reader_with(b"HTTP/1.1 200 OK\r\nContent-Length: 5000\r\n\r\n");
    assert!(r.scan_body_offset());
    assert_eq!(
        r.parse_headers().unwrap_err(),
        HttpResponseError::OversizeBody
    );
    // A number far past any machine bound is refused the same way.
    let mut r2 =
        reader_with(b"HTTP/1.1 200 OK\r\nContent-Length: 99999999999999999999999999\r\n\r\n");
    assert!(r2.scan_body_offset());
    assert_eq!(
        r2.parse_headers().unwrap_err(),
        HttpResponseError::OversizeBody
    );
}

#[test]
fn reader_refuses_growth_past_its_bound() {
    let mut r = ResponseReader::new();
    r.append(&[0u8; MAX_RESPONSE_SIZE]).unwrap();
    assert_eq!(
        r.append(&[0u8]).unwrap_err(),
        HttpResponseError::OversizeResponse
    );
}

#[test]
fn no_delimiter_means_no_body_offset() {
    let mut r = reader_with(b"HTTP/1.1 200 OK\r\nContent-Length: 5\r\n");
    assert!(!r.scan_body_offset());
    assert_eq!(r.body_offset, None);
}

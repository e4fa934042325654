use alhc::headers::parse_head;
use alhc::response::ResponseBody;

#[test]
fn status_and_merged_headers_decode() {
    let raw = b"HTTP/1.1 200 OK\r\nContent-Type: text/plain\r\nSet-Cookie: a=1\r\nSet-Cookie: b=2\r\n";
    let body = ResponseBody::from_raw_head(raw, Vec::new());
    assert_eq!(body.status_code(), 200);
    assert_eq!(body.header("Set-Cookie"), Some("a=1; b=2"));
    assert_eq!(body.header("Content-Type"), Some("text/plain"));
}

#[test]
fn header_lookup_ignores_ascii_case() {
    let raw = b"HTTP/1.1 200 OK\r\nContent-Type: text/plain\r\n";
    let body = ResponseBody::from_raw_head(raw, Vec::new());
    assert_eq!(body.header("content-type"), Some("text/plain"));
    assert_eq!(body.header("CONTENT-TYPE"), Some("text/plain"));
    assert_eq!(body.header("content-typo"), None);
}

#[test]
fn unreadable_status_decodes_to_zero() {
    let (code, _) = parse_head(b"HTTP/1.1 abc OK\r\n");
    assert_eq!(code, 0);
    let (code, _) = parse_head(b"HTTP/1.1\r\n");
    assert_eq!(code, 0);
    let (code, _) = parse_head(b"HTTP/1.1 99999 Huge\r\n");
    assert_eq!(code, 0);
    let (code, hs) = parse_head(b"");
    assert_eq!(code, 0);
    assert!(hs.is_empty());
}

#[test]
fn status_without_reason_phrase_decodes() {
    let (code, _) = parse_head(b"HTTP/1.1 204");
    assert_eq!(code, 204);
}

#[test]
fn header_values_are_trimmed() {
    let (code, hs) = parse_head(b"HTTP/1.1 404 NF\r\nX-Pad:   spaced value  \r\n");
    assert_eq!(code, 404);
    assert_eq!(hs.len(), 1);
    assert_eq!(hs[0].0, b"X-Pad".to_vec());
    assert_eq!(hs[0].1, b"spaced value".to_vec());
}

#[test]
fn lines_without_separator_are_ignored() {
    let (_, hs) = parse_head(b"HTTP/1.1 200 OK\r\nnot a header\r\nAlso:no space\r\nReal: yes\r\n");
    assert_eq!(hs.len(), 1);
    assert_eq!(hs[0].0, b"Real".to_vec());
    assert_eq!(hs[0].1, b"yes".to_vec());
}

#[test]
fn final_line_without_ending_still_counts() {
    let (_, hs) = parse_head(b"HTTP/1.1 200 OK\r\nA: 1\r\nB: 2");
    assert_eq!(hs.len(), 2);
    assert_eq!(hs[1].0, b"B".to_vec());
    assert_eq!(hs[1].1, b"2".to_vec());
}

#[test]
fn three_repeats_join_in_order() {
    let raw = b"HTTP/1.1 200 OK\r\nK: a\r\nK: b\r\nK: c\r\n";
    let body = ResponseBody::from_raw_head(raw, Vec::new());
    assert_eq!(body.header("k"), Some("a; b; c"));
}

#[test]
fn body_payload_accessors_agree() {
    let raw = b"HTTP/1.1 200 OK\r\n";
    let body = ResponseBody::from_raw_head(raw, vec![104, 105]);
    assert_eq!(body.data(), &[104, 105]);
    assert_eq!(body.data_string(), "hi");
    assert_eq!(body.into_data(), vec![104, 105]);
}

#[test]
fn data_string_decodes_multibyte_utf8() {
    let raw = b"HTTP/1.1 200 OK\r\n";
    let body = ResponseBody::from_raw_head(raw, "caf\u{e9}".as_bytes().to_vec());
    assert_eq!(body.data_string(), "caf\u{e9}");
}

#[test]
fn from_parts_keeps_fields() {
    let body = ResponseBody::from_parts(
        vec![1, 2, 3],
        301,
        vec![("Location".to_string(), "/there".to_string())],
    );
    assert_eq!(body.status_code(), 301);
    assert_eq!(body.header("location"), Some("/there"));
    assert_eq!(body.data(), &[1, 2, 3]);
}

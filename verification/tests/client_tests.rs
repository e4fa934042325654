use alhc::bridge;
use alhc::bridge::{CallbackEvent, StreamEvent};
use alhc::client::{Client, ClientBuilder};
use alhc::err_code::{resolve_io_error_from_error_code, IoErrorKind};
use alhc::get_client_builder;
use alhc::method::Method;
use alhc::prelude::{CommonClientBuilder, CommonClientExt};
use alhc::url::split_url;

#[test]
fn timeout_code_maps_to_timed_out() {
    let e = resolve_io_error_from_error_code(12002);
    assert_eq!(e.kind, IoErrorKind::TimedOut);
    assert_eq!(e.code, 12002);
}

#[test]
fn unrecognized_code_maps_to_other() {
    let e = resolve_io_error_from_error_code(99999);
    assert_eq!(e.kind, IoErrorKind::Other);
    assert_eq!(e.code, 99999);
}

#[test]
fn each_error_kind_has_its_codes() {
    assert_eq!(resolve_io_error_from_error_code(12029).kind, IoErrorKind::NotConnected);
    assert_eq!(resolve_io_error_from_error_code(12030).kind, IoErrorKind::ConnectionAborted);
    assert_eq!(resolve_io_error_from_error_code(12183).kind, IoErrorKind::OutOfMemory);
    assert_eq!(resolve_io_error_from_error_code(12182).kind, IoErrorKind::OutOfMemory);
    assert_eq!(resolve_io_error_from_error_code(12184).kind, IoErrorKind::OutOfMemory);
    assert_eq!(resolve_io_error_from_error_code(12009).kind, IoErrorKind::InvalidInput);
    assert_eq!(resolve_io_error_from_error_code(12005).kind, IoErrorKind::InvalidInput);
    assert_eq!(resolve_io_error_from_error_code(12153).kind, IoErrorKind::InvalidData);
    assert_eq!(resolve_io_error_from_error_code(12150).kind, IoErrorKind::NotFound);
    assert_eq!(resolve_io_error_from_error_code(12017).kind, IoErrorKind::Other);
}

#[test]
fn callback_codes_decode_to_events() {
    assert_eq!(bridge::decode_callback_status(4194304, 0, 0), CallbackEvent::WriteCompleted);
    assert_eq!(bridge::decode_callback_status(1048576, 0, 0), CallbackEvent::WriteCompleted);
    assert_eq!(bridge::decode_callback_status(131072, 0, 0), CallbackEvent::HeadersAvailable);
    assert_eq!(bridge::decode_callback_status(262144, 0, 0), CallbackEvent::DataAvailable);
    assert_eq!(bridge::decode_callback_status(524288, 777, 0), CallbackEvent::ReadComplete(777));
    assert_eq!(bridge::decode_callback_status(64, 0, 0), CallbackEvent::WakeOnly);
    assert_eq!(bridge::decode_callback_status(512, 0, 0), CallbackEvent::WakeOnly);
    assert_eq!(bridge::decode_callback_status(12345, 0, 0), CallbackEvent::WakeOnly);
}

#[test]
fn cancelled_error_is_suppressed_others_surface() {
    assert_eq!(bridge::decode_callback_status(2097152, 0, 12017), CallbackEvent::Suppressed);
    match bridge::decode_callback_status(2097152, 0, 12002) {
        CallbackEvent::RequestError(e) => {
            assert_eq!(e.kind, IoErrorKind::TimedOut);
            assert_eq!(e.code, 12002);
        }
        other => panic!("expected an error event, got {:?}", other),
    }
}

#[test]
fn header_query_first_pass_tolerates_small_buffer() {
    assert!(bridge::header_query_first_pass_ok(true, 0));
    assert!(bridge::header_query_first_pass_ok(false, 122));
    assert!(!bridge::header_query_first_pass_ok(false, 12002));
}

#[test]
fn stream_events_decode() {
    assert_eq!(bridge::decode_stream_event(1), StreamEvent::OpenCompleted);
    assert_eq!(bridge::decode_stream_event(2), StreamEvent::HasBytesAvailable);
    assert_eq!(bridge::decode_stream_event(4), StreamEvent::CanAcceptBytes);
    assert_eq!(bridge::decode_stream_event(8), StreamEvent::ErrorOccurred);
    assert_eq!(bridge::decode_stream_event(16), StreamEvent::EndEncountered);
    assert_eq!(bridge::decode_stream_event(32), StreamEvent::Other);
}

#[test]
fn url_splits_into_components() {
    let p = split_url(b"https://example.com:8080/a/b?x=1").unwrap();
    assert_eq!(p.scheme, b"https".to_vec());
    assert_eq!(p.host, b"example.com".to_vec());
    assert_eq!(p.port, b"8080".to_vec());
    assert_eq!(p.path, b"/a/b".to_vec());
    assert_eq!(p.query, b"?x=1".to_vec());
}

#[test]
fn url_defaults_are_empty() {
    let p = split_url(b"https://example.com").unwrap();
    assert_eq!(p.host, b"example.com".to_vec());
    assert!(p.port.is_empty());
    assert!(p.path.is_empty());
    assert!(p.query.is_empty());
}

#[test]
fn url_without_scheme_is_invalid_input() {
    let e = match split_url(b"example.com/a") {
        Ok(_) => panic!("a URL without a scheme must be rejected"),
        Err(e) => e,
    };
    assert_eq!(e.kind, IoErrorKind::InvalidInput);
    assert_eq!(e.code, 12005);
}

#[test]
fn one_connection_per_host_over_many_requests() {
    // Fifty requests to one host share a single cached connection: only the
    // first connects.
    let mut client = Client::new();
    let (first, created) = client.get_or_connect_connection(b"example.com", 1001);
    assert!(created);
    assert_eq!(first, 1001);
    for fresh in 1002..1052u64 {
        let (h, created) = client.get_or_connect_connection(b"example.com", fresh);
        assert!(!created);
        assert_eq!(h, first);
    }
    assert_eq!(client.lookup_connection(b"example.com"), Some(first));
    assert_eq!(client.lookup_connection(b"other.example"), None);
}

#[test]
fn distinct_hosts_get_distinct_entries() {
    let mut cache = alhc::cache::ConnectionCache::new();
    let (a, created_a) = cache.get_or_insert(b"a.example", 1);
    let (b, created_b) = cache.get_or_insert(b"b.example", 2);
    assert!(created_a && created_b);
    assert_eq!((a, b), (1, 2));
    assert_eq!(cache.len(), 2);
    let (a2, created) = cache.get_or_insert(b"a.example", 3);
    assert!(!created);
    assert_eq!(a2, 1);
    assert_eq!(cache.len(), 2);
}

#[test]
fn request_head_carries_url_parts() {
    let client = Client::new();
    let head = client.request(Method::GET, b"https://example.com/path?q=2").unwrap();
    assert_eq!(head.method, Method::GET);
    assert_eq!(head.host, b"example.com".to_vec());
    assert_eq!(head.path, b"/path".to_vec());
    assert_eq!(head.query, b"?q=2".to_vec());
    assert!(head.headers.is_empty());
}

#[test]
fn bad_url_is_rejected_by_request() {
    let client = Client::new();
    let e = match client.request(Method::GET, b"nonsense") {
        Ok(_) => panic!("a URL without a scheme must be rejected"),
        Err(e) => e,
    };
    assert_eq!(e.kind, IoErrorKind::InvalidInput);
}

#[test]
fn headers_add_and_replace() {
    let client = Client::new();
    let mut head = client.request(Method::POST, b"https://h.example/x").unwrap();
    head.header(b"Accept", b"text/plain");
    head.header(b"Accept", b"text/html");
    assert_eq!(head.headers.len(), 2);
    head.replace_header(b"accept", b"application/json");
    assert_eq!(head.headers.len(), 2);
    assert_eq!(head.headers[0].0, b"Accept".to_vec());
    assert_eq!(head.headers[0].1, b"application/json".to_vec());
    assert_eq!(head.headers[1].1, b"text/html".to_vec());
    head.replace_header(b"X-New", b"1");
    assert_eq!(head.headers.len(), 3);
    assert_eq!(head.headers[2].0, b"X-New".to_vec());
}

#[test]
fn builder_and_convenience_methods() {
    let builder: ClientBuilder = get_client_builder();
    let mut client = builder.build().unwrap();
    client.set_timeout(1500);
    let head = client.get(b"https://example.com/").unwrap();
    assert_eq!(head.method, Method::GET);
    let head = client.post(b"https://example.com/").unwrap();
    assert_eq!(head.method, Method::POST);
    let head = client.put(b"https://example.com/").unwrap();
    assert_eq!(head.method, Method::PUT);
    let head = client.delete(b"https://example.com/").unwrap();
    assert_eq!(head.method, Method::DELETE);
    let head = client.head(b"https://example.com/").unwrap();
    assert_eq!(head.method, Method::HEAD);
    let head = client.patch(b"https://example.com/").unwrap();
    assert_eq!(head.method, Method::PATCH);
    let head = client.options(b"https://example.com/").unwrap();
    assert_eq!(head.method, Method::OPTIONS);
}

#[test]
fn method_text_forms() {
    assert_eq!(Method::GET.as_str(), "GET");
    assert_eq!(Method::POST.as_str(), "POST");
    assert_eq!(Method::HEAD.as_str(), "HEAD");
    assert_eq!(Method::PUT.as_str(), "PUT");
    assert_eq!(Method::TRACE.as_str(), "TRACE");
    assert_eq!(Method::DELETE.as_str(), "DELETE");
    assert_eq!(Method::CONNECT.as_str(), "CONNECT");
    assert_eq!(Method::OPTIONS.as_str(), "OPTIONS");
    assert_eq!(Method::PATCH.as_str(), "PATCH");
}

#[test]
fn method_wide_form_is_utf16_with_nul() {
    assert_eq!(Method::GET.as_wide(), vec![71u16, 69, 84, 0]);
    assert_eq!(Method::DELETE.as_wide(), vec![68u16, 69, 76, 69, 84, 69, 0]);
}

#[test]
fn str_to_utf16_appends_terminator() {
    assert_eq!(alhc::method::str_to_utf16("hi"), vec![104u16, 105, 0]);
    assert_eq!(alhc::method::str_to_utf16(""), vec![0u16]);
}

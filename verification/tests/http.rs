use http2_server::bytes::{decimal_bytes, parse_usize_bytes};
use http2_server::gc_buffer::GCBuffer;
use http2_server::read::{cache_key, FileCache};
use http2_server::request::{Method, Request};
use http2_server::response::{Response, ResponseBuilder, StatusCode};
use http2_server::types::{ContentType, Header};
use http2_server::util::handle_request;

fn buffer_of(text: &[u8]) -> [u8; 1024] {
    let mut buf = [0u8; 1024];
    buf[..text.len()].copy_from_slice(text);
    buf
}

fn request(method: Method, path: &[u8], headers: Vec<(&[u8], &[u8])>) -> Request {
    Request {
        method,
        path: path.to_vec(),
        headers: headers
            .into_iter()
            .map(|(n, v)| Header::new(n.to_vec(), v.to_vec()))
            .collect(),
        body: Vec::new(),
        stream_id: 7,
    }
}

fn cache() -> FileCache {
    let mut c = FileCache::new();
    c.insert(b"/index.html".to_vec(), b"0123456789".to_vec());
    c.insert(b"/app.js".to_vec(), b"let x;".to_vec());
    c
}

fn header<'a>(r: &'a Response, name: &[u8]) -> Option<&'a [u8]> {
    r.headers
        .iter()
        .find(|h| h.name == name)
        .map(|h| h.value.as_slice())
}

#[test]
fn request_from_bytes_reads_line_headers_and_body() {
    let r = Request::from_bytes(buffer_of(
        b"GET /index.html HTTP/1.1\r\nHost: localhost\r\nRange: bytes=0-3\r\n\r\nhello\r\nworld",
    ))
    .unwrap();
    assert_eq!(r.method, Method::GET);
    assert_eq!(r.path, b"/index.html".to_vec());
    assert_eq!(r.headers.len(), 2);
    assert_eq!(r.headers[0].name, b"Host".to_vec());
    assert_eq!(r.headers[0].value, b"localhost".to_vec());
    assert_eq!(r.headers[1].name, b"Range".to_vec());
    assert_eq!(r.headers[1].value, b"bytes=0-3".to_vec());
    let mut body = b"hello\nworld".to_vec();
    body.extend_from_slice(&[0u8; 1024][..1024 - 75]);
    assert_eq!(r.body, body);
    assert_eq!(r.get_header(b"Host").unwrap().value, b"localhost".to_vec());
    assert!(r.get_header(b"host").is_none());
}

#[test]
fn request_from_bytes_errors() {
    let e = |t: &[u8]| Request::from_bytes(buffer_of(t)).err().unwrap();
    assert_eq!(e(b"GET\r\n\r\n"), "Missing path");
    assert_eq!(e(b"GET /\r\n\r\n"), "Missing version");
    assert_eq!(e(b"GET / HTTP/2.0\r\n\r\n"), "Unsupported HTTP version");
    assert_eq!(e(b"GET / HTTP/1.1\r\nHost localhost\r\n\r\n"), "Header missing value");
    assert_eq!(e(b"BREW / HTTP/1.1\r\n\r\n"), "Unrecognized method");
    assert_eq!(e(b"   \r\n"), "Missing Method");
}

#[test]
fn request_from_bytes_without_empty_line_has_no_body() {
    let r = Request::from_bytes(buffer_of(b"HEAD /a.txt HTTP/1.1\nA: b")).unwrap();
    assert_eq!(r.method, Method::HEAD);
    // The zero bytes after the text make up the rest of the last header line.
    assert_eq!(r.headers.len(), 1);
    assert!(r.body.is_empty());
}

#[test]
fn method_names() {
    assert_eq!(Method::from_str(b"DELETE"), Ok(Method::DELETE));
    assert_eq!(Method::from_str(b"PUT"), Ok(Method::PUT));
    assert_eq!(Method::from_str(b"get"), Err("Unrecognized method"));
}

#[test]
fn content_types() {
    assert_eq!(ContentType::from_extension(b"html"), ContentType::HTML);
    assert_eq!(ContentType::from_extension(b"css"), ContentType::CSS);
    assert_eq!(ContentType::from_extension(b"js"), ContentType::JavaScript);
    assert_eq!(ContentType::from_extension(b"txt"), ContentType::Text);
    assert_eq!(ContentType::from_extension(b"png"), ContentType::Unknown);
    assert_eq!(ContentType::CSS.media_type(), b"text/css".to_vec());
}

#[test]
fn status_codes() {
    assert_eq!(StatusCode::OK.to_code(), 200);
    assert_eq!(StatusCode::PartialContent.to_code(), 206);
    assert_eq!(StatusCode::RangeNotSatisfiable.to_code(), 416);
    assert_eq!(StatusCode::NotFound.status_text(), b"404 Not Found".to_vec());
}

#[test]
fn get_whole_file() {
    let r = handle_request(&request(Method::GET, b"/index.html", vec![]), &cache()).unwrap();
    assert_eq!(r.status_code, StatusCode::OK);
    assert_eq!(r.body, b"0123456789".to_vec());
    assert_eq!(r.stream_id, 7);
    assert_eq!(header(&r, b"content-type"), Some(&b"text/html"[..]));
    assert_eq!(header(&r, b"content-length"), Some(&b"10"[..]));
    assert!(header(&r, b"Date").is_some());
}

#[test]
fn get_range_of_file() {
    let r = handle_request(
        &request(Method::GET, b"/index.html", vec![(b"range", b"bytes=2-5")]),
        &cache(),
    )
    .unwrap();
    assert_eq!(r.status_code, StatusCode::PartialContent);
    assert_eq!(r.body, b"234".to_vec());
    assert_eq!(header(&r, b"content-range"), Some(&b"bytes 2-5/3"[..]));
}

#[test]
fn get_open_range() {
    let r = handle_request(
        &request(Method::GET, b"/index.html", vec![(b"range", b"bytes=7-")]),
        &cache(),
    )
    .unwrap();
    assert_eq!(r.body, b"789".to_vec());
    assert_eq!(header(&r, b"content-range"), Some(&b"bytes 7-2/3"[..]));
}

#[test]
fn range_outside_file_cannot_be_satisfied() {
    let r = handle_request(
        &request(Method::GET, b"/index.html", vec![(b"range", b"bytes=20-30")]),
        &cache(),
    )
    .unwrap();
    assert_eq!(r.status_code, StatusCode::RangeNotSatisfiable);
    assert!(r.body.is_empty());
}

#[test]
fn malformed_range_is_an_error() {
    let e = handle_request(
        &request(Method::GET, b"/index.html", vec![(b"range", b"lines=1-2")]),
        &cache(),
    )
    .unwrap_err();
    assert_eq!(e, "Invalid range header");
}

#[test]
fn unknown_extension_is_bad_request() {
    let r = handle_request(&request(Method::GET, b"/image.png", vec![]), &cache()).unwrap();
    assert_eq!(r.status_code, StatusCode::BadRequest);
}

#[test]
fn missing_file_is_not_found() {
    let r = handle_request(&request(Method::GET, b"/other.html", vec![]), &cache()).unwrap();
    assert_eq!(r.status_code, StatusCode::NotFound);
    assert_eq!(header(&r, b"Content-Length"), Some(&b"0"[..]));
}

#[test]
fn head_has_no_body() {
    let r = handle_request(&request(Method::HEAD, b"/app.js", vec![]), &cache()).unwrap();
    assert_eq!(r.status_code, StatusCode::OK);
    assert!(r.body.is_empty());
    assert_eq!(header(&r, b"content-length"), Some(&b"6"[..]));
    assert_eq!(header(&r, b"content-type"), Some(&b"text/javascript"[..]));
}

#[test]
fn other_methods_are_not_allowed() {
    let r = handle_request(&request(Method::POST, b"/index.html", vec![]), &cache()).unwrap();
    assert_eq!(r.status_code, StatusCode::MethodNotAllowed);
}

#[test]
fn canned_responses() {
    assert_eq!(Response::bad_request(1).status_code, StatusCode::BadRequest);
    assert_eq!(Response::not_found(1).status_code, StatusCode::NotFound);
    assert_eq!(
        Response::method_not_allowed(1).status_code,
        StatusCode::MethodNotAllowed
    );
    let r = Response::internal_server_error(9);
    assert_eq!(r.status_code, StatusCode::InteralServerError);
    assert_eq!(r.stream_id, 9);
    assert!(r.body.is_empty());
}

#[test]
fn response_bytes() {
    let r = ResponseBuilder::new()
        .status_code(StatusCode::OK)
        .header(b"A".to_vec(), b"1".to_vec())
        .body(b"hi".to_vec())
        .stream_id(3)
        .build_with_date(b"today".to_vec());
    assert_eq!(
        r.to_bytes(),
        b"HTTP/1.1 200 OK\r\nA: 1\r\nDate: today\r\nContent-Length: 2\r\n\r\nhi".to_vec()
    );
}

#[test]
fn builder_header_set_twice_keeps_last_value() {
    let r = ResponseBuilder::new()
        .header(b"X".to_vec(), b"1".to_vec())
        .header(b"X".to_vec(), b"2".to_vec())
        .build_with_date(b"d".to_vec());
    assert_eq!(header(&r, b"X"), Some(&b"2"[..]));
    assert_eq!(r.headers.iter().filter(|h| h.name == b"X").count(), 1);
}

#[test]
fn cache_keys() {
    assert_eq!(cache_key(b"public\\css\\a.css", b"public"), b"/css/a.css".to_vec());
    assert_eq!(cache_key(b"./public/index.html", b"./public"), b"/index.html".to_vec());
    assert_eq!(cache_key(b"abab/x", b"ab"), b"/x".to_vec());
    assert_eq!(cache_key(b"x", b""), b"x".to_vec());
}

#[test]
fn cache_replaces_same_key() {
    let mut c = cache();
    assert_eq!(c.len(), 2);
    c.insert(b"/app.js".to_vec(), b"new".to_vec());
    assert_eq!(c.len(), 2);
    assert_eq!(c.get(b"/app.js"), Some(&b"new".to_vec()));
    assert_eq!(c.get(b"/none"), None);
}

#[test]
fn decimal_text() {
    assert_eq!(decimal_bytes(0), b"0".to_vec());
    assert_eq!(decimal_bytes(1234567890), b"1234567890".to_vec());
    assert_eq!(parse_usize_bytes(b"42"), Some(42));
    assert_eq!(parse_usize_bytes(b""), None);
    assert_eq!(parse_usize_bytes(b"4x"), None);
}

#[test]
fn buffer_hands_out_bytes_in_order() {
    let mut b = GCBuffer::new();
    assert_eq!(b.len(), 0);
    b.extend(b"abc");
    b.extend(b"def");
    assert_eq!(b.len(), 6);
    assert_eq!(b.peek(2), b"ab");
    assert_eq!(b.read_n_bytes(4), b"abcd".to_vec());
    assert_eq!(b.len(), 2);
    b.extend(b"g");
    assert_eq!(b.read_n_bytes(3), b"efg".to_vec());
    assert_eq!(b.len(), 0);
}

#[test]
fn buffer_keeps_unread_bytes_when_compacting() {
    let mut b = GCBuffer::new();
    let data: Vec<u8> = (0..40000u32).map(|i| (i % 251) as u8).collect();
    b.extend(&data);
    assert_eq!(b.read_n_bytes(33000), data[..33000].to_vec());
    assert_eq!(b.len(), 7000);
    assert_eq!(b.peek(3), &data[33000..33003]);
    assert_eq!(b.read_n_bytes(7000), data[33000..].to_vec());
}

#[test]
fn buffer_takes_whole_frames_only() {
    let mut b = GCBuffer::new();
    b.extend(&[0, 0]);
    assert!(b.take_frame().is_none());
    b.extend(&[2, 0, 0, 0, 0, 0, 1, 7]);
    // The header is there but one payload byte is missing.
    assert!(b.take_frame().is_none());
    assert_eq!(b.len(), 10);
    b.extend(&[8, 0, 0]);
    assert_eq!(b.take_frame(), Some(vec![0, 0, 2, 0, 0, 0, 0, 0, 1, 7, 8]));
    assert_eq!(b.len(), 2);
    assert!(b.take_frame().is_none());
}

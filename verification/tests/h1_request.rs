use ylong_http::h1::RequestEncoder;
use ylong_http::headers::Headers;
use ylong_http::request::{RequestPart, Uri};

fn part(method: &str, absolute: &str, path: Option<&str>, version: &str, headers: &[(&str, &str)]) -> RequestPart {
    let mut h = Headers::new();
    for (name, value) in headers {
        h.insert(name.as_bytes(), value.as_bytes()).unwrap();
    }
    RequestPart {
        method: method.as_bytes().to_vec(),
        uri: Uri::new(absolute.as_bytes().to_vec(), path.map(|p| p.as_bytes().to_vec())),
        version: version.as_bytes().to_vec(),
        headers: h,
    }
}

#[test]
fn ut_request_encoder_new() {
    let _encoder = RequestEncoder::new(part("GET", "/", Some("/"), "HTTP/1.1", &[]));
}

fn encoder_case(method: &str, uri: &str, version: &str, headers: &[(&str, &str)], request_line: &str) {
    let mut encoder = RequestEncoder::new(part(method, uri, None, version, headers));
    encoder.absolute_uri(true);
    let mut buf = [0u8; 5];
    let mut res = Vec::new();
    loop {
        let size = encoder.encode(&mut buf).unwrap();
        res.extend_from_slice(&buf[..size]);
        if size < buf.len() {
            break;
        }
    }
    let s = std::str::from_utf8(res.as_slice()).expect("Cannot convert res to &str");
    assert!(s.find(request_line).is_some());
    for (name, value) in headers {
        let target_header = format!("{}:{}\r\n", name.to_lowercase(), value.to_lowercase());
        assert!(s.find(target_header.as_str()).is_some());
    }
}

#[test]
fn ut_request_encoder_encode_1() {
    encoder_case("GET", "www.example.com", "HTTP/1.1", &[], "GET www.example.com HTTP/1.1\r\n");
    encoder_case("GET", "www.example.com", "HTTP/1.1", &[("ACCEPT", "text/html")], "GET www.example.com HTTP/1.1\r\n");
    encoder_case(
        "GET",
        "www.example.com",
        "HTTP/1.1",
        &[("ACCEPT", "text/html"), ("HOST", "127.0.0.1")],
        "GET www.example.com HTTP/1.1\r\n",
    );
}

#[test]
fn ut_request_encoder_set_proxy() {
    let mut encoder = RequestEncoder::new(part("GET", "www.example.com", None, "HTTP/1.1", &[]));
    assert!(!encoder.is_absolute_uri());
    encoder.absolute_uri(true);
    assert!(encoder.is_absolute_uri());
    encoder.absolute_uri(false);
    let mut buf = [0u8; 100];
    let size = encoder.encode(&mut buf).unwrap();
    let res = std::str::from_utf8(&buf[..size]).unwrap();
    assert_eq!(res, "GET / HTTP/1.1\r\n\r\n");
}

#[test]
fn request_encoder_refuses_empty_buffer() {
    let mut encoder = RequestEncoder::new(part("GET", "www.example.com", None, "HTTP/1.1", &[]));
    let mut buf = [0u8; 0];
    assert!(encoder.encode(&mut buf).is_err());
}

#[test]
fn request_encoder_doc_example() {
    let mut encoder = RequestEncoder::new(part("GET", "www.example.com", None, "HTTP/1.1", &[("ACCEPT", "text/html")]));
    encoder.absolute_uri(true);
    let mut buf = [0_u8; 10];
    let mut message = Vec::new();
    loop {
        let size = encoder.encode(&mut buf).unwrap();
        message.extend_from_slice(&buf[..size]);
        if size < buf.len() {
            break;
        }
    }
    assert_eq!(message.as_slice(), b"GET www.example.com HTTP/1.1\r\naccept:text/html\r\n\r\n");
}

use ylong_http::error::{ErrorKind, H1Error, HttpError};
use ylong_http::h1::ResponseDecoder;

fn check(result: (ylong_http::response::ResponsePart, &[u8]), version: &str, status: u16, headers: &[(&str, &str)], body: &[u8]) {
    assert_eq!(version, result.0.version.as_str());
    assert_eq!(status, result.0.status.as_u16());
    assert_eq!(headers.len(), result.0.headers.len());
    for (key, value) in headers {
        assert_eq!(value.as_bytes(), result.0.headers.get(key.as_bytes()).unwrap().as_slice());
    }
    assert_eq!(body, result.1);
}

fn unit_complete(input: &[u8], version: &str, status: u16, headers: &[(&str, &str)], body: &[u8]) {
    let mut decoder = ResponseDecoder::new();
    let result = decoder.decode(input).unwrap().unwrap();
    check(result, version, status, headers, body);
}

fn unit_segment(input: (&[u8], &[u8]), version: &str, status: u16, headers: &[(&str, &str)], body: &[u8]) {
    let mut decoder = ResponseDecoder::new();
    let result = decoder.decode(input.0).unwrap();
    assert_eq!(true, result.is_none());
    let result = decoder.decode(input.1).unwrap().unwrap();
    check(result, version, status, headers, body);
}

fn unit_invalid(input: &[u8], error: Option<HttpError>) {
    let mut decoder = ResponseDecoder::new();
    let result = decoder.decode(input);
    assert_eq!(error, result.err());
}

#[test]
    fn ut_response_decoder_decode_0() {
    // Decode a complete response separated by CRLF.
    unit_complete(
        "HTTP/1.1 304 OK\r\nAge:270646\r\nDate:Mon, 19 Dec 2022 01:46:59 GMT\r\nEtag:\"3147526947+gzip\"\r\n\r\nbody part".as_bytes(),
        "HTTP/1.1",
        304_u16,
        &[("age", "270646"), ("date", "Mon, 19 Dec 2022 01:46:59 GMT"), ("etag", r#""3147526947+gzip""#)],
        r#"body part"#.as_bytes()
    );
    // Decode a complete response separated by LF.
    unit_complete(
        "HTTP/1.1 304 OK\nAge:270646\nDate:Mon, 19 Dec 2022 01:46:59 GMT\nEtag:\"3147526947+gzip\"\n\nbody part".as_bytes(),
        "HTTP/1.1",
        304_u16,
        &[("age", "270646"), ("date", "Mon, 19 Dec 2022 01:46:59 GMT"), ("etag", r#""3147526947+gzip""#)],
        r#"body part"#.as_bytes()
    );
    // Decode a response without reason-phrase.
    unit_complete(
        "HTTP/1.1 304 \r\nAge:270646\r\nDate:Mon, 19 Dec 2022 01:46:59 GMT\r\nEtag:\"3147526947+gzip\"\r\n\r\nbody part".as_bytes(),
        "HTTP/1.1",
        304_u16,
        &[("age", "270646"), ("date", "Mon, 19 Dec 2022 01:46:59 GMT"), ("etag", r#""3147526947+gzip""#)],
        r#"body part"#.as_bytes()
    );

    // Decode a response that contains the OWS.
    unit_complete(
        "HTTP/1.1 304 \r\nAge: \t 270646 \t \t\r\nDate: \t Mon, 19 Dec 2022 01:46:59 GMT \t \t\r\nEtag:\t \"3147526947+gzip\" \t \t\r\n\r\nbody part".as_bytes(),
        "HTTP/1.1",
        304_u16,
        &[("age", "270646"), ("date", "Mon, 19 Dec 2022 01:46:59 GMT"), ("etag", r#""3147526947+gzip""#)],
        r#"body part"#.as_bytes()
    );
    // Decode a response without a message-body
    unit_complete(
        "HTTP/1.1 304 \r\nAge: \t 270646 \t \t\r\nDate: \t Mon, 19 Dec 2022 01:46:59 GMT \t \t\r\nEtag:\t \"3147526947+gzip\" \t \t\r\n\r\n".as_bytes(),
        "HTTP/1.1",
        304_u16,
        &[("age", "270646"), ("date", "Mon, 19 Dec 2022 01:46:59 GMT"), ("etag", r#""3147526947+gzip""#)],
        r#""#.as_bytes()
    );
    // Decode has multiple set-cookie responses.
    unit_complete(
        "HTTP/1.1 304 \r\nSet-Cookie: \t template=; Path=/; Domain=example.com; Expires=Mon, 19 Dec 2022 12:58:54 UTC \t \t\r\n\
    Set-Cookie: \t ezov=06331; Path=/; Domain=example.com; Expires=Mon, 19 Dec 2022 12:58:54 UTC \t \t\r\n\r\n".as_bytes(),
        "HTTP/1.1",
        304_u16,
       &[("set-cookie", "template=; Path=/; Domain=example.com; Expires=Mon, 19 Dec 2022 12:58:54 UTC, ezov=06331; Path=/; Domain=example.com; Expires=Mon, 19 Dec 2022 12:58:54 UTC")],
        r#""#.as_bytes()
    );
    // Decode a response without a header.
    unit_complete(
        "HTTP/1.1 304 \r\n\r\n".as_bytes(),
        "HTTP/1.1",
        304_u16,
        &[],
        r#""#.as_bytes()
    );
    // Decode a response without a header and separated by LF.
    unit_complete(
        "HTTP/1.1 304 \n\n".as_bytes(),
        "HTTP/1.1",
        304_u16,
        &[],
        r#""#.as_bytes()
    );
    // Decode a response with a header and an empty value.
    unit_complete(
        "HTTP/1.1 304 \r\nempty_header: \r\n\r\n".as_bytes(),
        "HTTP/1.1",
        304_u16,
        &[("empty_header", "")],
        r#""#.as_bytes()
    );
    // Decode a response with a header and an empty value.
    unit_complete(
        "HTTP/1.0 304 \r\nempty_header: \r\n\r\n".as_bytes(),
        "HTTP/1.0",
        304_u16,
        &[("empty_header", "")],
        r#""#.as_bytes()
    );
}
#[test]
fn ut_response_decoder_decode_1() {
    unit_segment(
        ("HT".as_bytes(), "TP/1.1 304 OK\r\nAge: \t 270646 \t \t\r\nDate: \t Mon, 19 Dec 2022 01:46:59 GMT \t \t\r\nEtag:\t \"3147526947+gzip\" \t \t\r\n\r\nbody part".as_bytes()),
        "HTTP/1.1",
        304_u16,
        &[("age", "270646"), ("date", "Mon, 19 Dec 2022 01:46:59 GMT"), ("etag", r#""3147526947+gzip""#)],
        r#"body part"#.as_bytes()
    );
    unit_segment(
        ("HTTP/1.1 3".as_bytes(), "04 OK\r\nAge: \t 270646 \t \t\r\nDate: \t Mon, 19 Dec 2022 01:46:59 GMT \t \t\r\nEtag:\t \"3147526947+gzip\" \t \t\r\n\r\nbody part".as_bytes()),
        "HTTP/1.1",
        304_u16,
        &[("age", "270646"), ("date", "Mon, 19 Dec 2022 01:46:59 GMT"), ("etag", r#""3147526947+gzip""#)],
        r#"body part"#.as_bytes()
    );
    unit_segment(
        ("HTTP/1.1 304 O".as_bytes(), "K\r\nAge: \t 270646 \t \t\r\nDate: \t Mon, 19 Dec 2022 01:46:59 GMT \t \t\r\nEtag:\t \"3147526947+gzip\" \t \t\r\n\r\nbody part".as_bytes()),
        "HTTP/1.1",
        304_u16,
        &[("age", "270646"), ("date", "Mon, 19 Dec 2022 01:46:59 GMT"), ("etag", r#""3147526947+gzip""#)],
        r#"body part"#.as_bytes()
    );
    unit_segment(
        ("HTTP/1.1 304 OK\r".as_bytes(), "\nAge: \t 270646 \t \t\r\nDate: \t Mon, 19 Dec 2022 01:46:59 GMT \t \t\r\nEtag:\t \"3147526947+gzip\" \t \t\r\n\r\nbody part".as_bytes()),
        "HTTP/1.1",
        304_u16,
        &[("age", "270646"), ("date", "Mon, 19 Dec 2022 01:46:59 GMT"), ("etag", r#""3147526947+gzip""#)],
        r#"body part"#.as_bytes()
    );
    unit_segment(
        ("HTTP/1.1 304 OK\r\nA".as_bytes(), "ge: \t 270646 \t \t\r\nDate: \t Mon, 19 Dec 2022 01:46:59 GMT \t \t\r\nEtag:\t \"3147526947+gzip\" \t \t\r\n\r\nbody part".as_bytes()),
        "HTTP/1.1",
        304_u16,
        &[("age", "270646"), ("date", "Mon, 19 Dec 2022 01:46:59 GMT"), ("etag", r#""3147526947+gzip""#)],
        r#"body part"#.as_bytes()
    );
    unit_segment(
        ("HTTP/1.1 304 OK\r\nAge: ".as_bytes(), "\t 270646 \t \t\r\nDate: \t Mon, 19 Dec 2022 01:46:59 GMT \t \t\r\nEtag:\t \"3147526947+gzip\" \t \t\r\n\r\nbody part".as_bytes()),
        "HTTP/1.1",
        304_u16,
        &[("age", "270646"), ("date", "Mon, 19 Dec 2022 01:46:59 GMT"), ("etag", r#""3147526947+gzip""#)],
        r#"body part"#.as_bytes()
    );
    unit_segment(
        ("HTTP/1.1 304 OK\r\nAge: \t 270".as_bytes(), "646 \t \t\r\nDate: \t Mon, 19 Dec 2022 01:46:59 GMT \t \t\r\nEtag:\t \"3147526947+gzip\" \t \t\r\n\r\nbody part".as_bytes()),
        "HTTP/1.1",
        304_u16,
        &[("age", "270646"), ("date", "Mon, 19 Dec 2022 01:46:59 GMT"), ("etag", r#""3147526947+gzip""#)],
        r#"body part"#.as_bytes()
    );
    unit_segment(
        ("HTTP/1.1 304 OK\r\nAge: \t 270646 \t".as_bytes(), " \t\r\nDate: \t Mon, 19 Dec 2022 01:46:59 GMT \t \t\r\nEtag:\t \"3147526947+gzip\" \t \t\r\n\r\nbody part".as_bytes()),
        "HTTP/1.1",
        304_u16,
        &[("age", "270646"), ("date", "Mon, 19 Dec 2022 01:46:59 GMT"), ("etag", r#""3147526947+gzip""#)],
        r#"body part"#.as_bytes()
    );
    unit_segment(
        ("HTTP/1.1 304 OK\r\nAge: \t 270646 \t \t\r".as_bytes(), "\nDate: \t Mon, 19 Dec 2022 01:46:59 GMT \t \t\r\nEtag:\t \"3147526947+gzip\" \t \t\r\n\r\nbody part".as_bytes()),
        "HTTP/1.1",
        304_u16,
        &[("age", "270646"), ("date", "Mon, 19 Dec 2022 01:46:59 GMT"), ("etag", r#""3147526947+gzip""#)],
        r#"body part"#.as_bytes()
    );
    unit_segment(
        ("HTTP/1.1 304 OK\r\nAge: \t 270646 \t \t\r\n".as_bytes(), "Date: \t Mon, 19 Dec 2022 01:46:59 GMT \t \t\r\nEtag:\t \"3147526947+gzip\" \t \t\r\n\r\nbody part".as_bytes()),
        "HTTP/1.1",
        304_u16,
        &[("age", "270646"), ("date", "Mon, 19 Dec 2022 01:46:59 GMT"), ("etag", r#""3147526947+gzip""#)],
        r#"body part"#.as_bytes()
    );
    unit_segment(
        ("HTTP/1.1 304 OK\r\nAge: \t 270646 \t \t\r\nDa".as_bytes(), "te: \t Mon, 19 Dec 2022 01:46:59 GMT \t \t\r\nEtag:\t \"3147526947+gzip\" \t \t\r\n\r\nbody part".as_bytes()),
        "HTTP/1.1",
        304_u16,
        &[("age", "270646"), ("date", "Mon, 19 Dec 2022 01:46:59 GMT"), ("etag", r#""3147526947+gzip""#)],
        r#"body part"#.as_bytes()
    );
    unit_segment(
        ("HTTP/1.1 304 OK\r\nAge: \t 270646 \t \t\r\nDate: \t Mon, 19 Dec 2022 01:46:59 GMT \t \t\r\nEtag:\t \"3147526947+gzip\" \t \t\r\n".as_bytes(), "\r\nbody part".as_bytes()),
        "HTTP/1.1",
        304_u16,
        &[("age", "270646"), ("date", "Mon, 19 Dec 2022 01:46:59 GMT"), ("etag", r#""3147526947+gzip""#)],
        r#"body part"#.as_bytes()
    );
    unit_segment(
        ("HTTP/1.1 304 OK\r\nAge: \t 270646 \t \t\r\nDate: \t Mon, 19 Dec 2022 01:46:59 GMT \t \t\r\nEtag:\t \"3147526947+gzip\" \t \t\r\n\r".as_bytes(), "\nbody part".as_bytes()),
        "HTTP/1.1",
        304_u16,
        &[("age", "270646"), ("date", "Mon, 19 Dec 2022 01:46:59 GMT"), ("etag", r#""3147526947+gzip""#)],
        r#"body part"#.as_bytes()
    );
    unit_segment(
        ("HTTP/1.1 304 OK\r\n".as_bytes(), "\r\nbody part".as_bytes()),
        "HTTP/1.1",
        304_u16,
        &[],
        r#"body part"#.as_bytes()
    );
    unit_segment(
        ("HTTP/1.1 304 OK\r\n".as_bytes(), "\nbody part".as_bytes()),
        "HTTP/1.1",
        304_u16,
        &[],
        r#"body part"#.as_bytes()
    );
}
#[test]
fn ut_response_decoder_decode_2() {
    unit_invalid("HTTP/1.2 304 OK\r\nAge:270646\r\nDate:Mon, 19 Dec 2022 01:46:59 GMT\r\nEtag:\"3147526947+gzip\"\r\n\r\nbody part".as_bytes(), Some(HttpError::from(ErrorKind::H1(H1Error::InvalidResponse))));
    unit_invalid("HTTP/1.1 3040 OK\r\nAge:270646\r\nDate:Mon, 19 Dec 2022 01:46:59 GMT\r\nEtag:\"3147526947+gzip\"\r\n\r\nbody part".as_bytes(), Some(HttpError::from(ErrorKind::H1(H1Error::InvalidResponse))));
    unit_invalid("HTTP/1.1 3 4 OK\r\nAge:270646\r\nDate:Mon, 19 Dec 2022 01:46:59 GMT\r\nEtag:\"3147526947+gzip\"\r\n\r\nbody part".as_bytes(), Some(HttpError::from(ErrorKind::H1(H1Error::InvalidResponse))));
    unit_invalid("HTTP/1.1 304 \0K\r\nAge:270646\r\nDate:Mon, 19 Dec 2022 01:46:59 GMT\r\nEtag:\"3147526947+gzip\"\r\n\r\nbody part".as_bytes(), Some(HttpError::from(ErrorKind::H1(H1Error::InvalidResponse))));
    unit_invalid("HTTP/1.1 304 OK\r\r\nAge:270646\r\nDate:Mon, 19 Dec 2022 01:46:59 GMT\r\nEtag:\"3147526947+gzip\"\r\n\r\nbody part".as_bytes(), Some(HttpError::from(ErrorKind::H1(H1Error::InvalidResponse))));
    unit_invalid("HTTP/1.1 304 OK\r\nA;ge:270646\r\nDate:Mon, 19 Dec 2022 01:46:59 GMT\r\nEtag:\"3147526947+gzip\"\r\n\r\nbody part".as_bytes(), Some(HttpError::from(ErrorKind::H1(H1Error::InvalidResponse))));
    unit_invalid("HTTP/1.1 304 OK\r\nA;ge:270646\r\nDate:Mon, 19 Dec 2022 01:46:59 GMT\r\nEtag:\"3147526947+gzip\"\r\n\r\nbody part".as_bytes(), Some(HttpError::from(ErrorKind::H1(H1Error::InvalidResponse))));
    unit_invalid("HTTP/1.1 304 OK\r\nAge:270\r646\r\nDate:Mon, 19 Dec 2022 01:46:59 GMT\r\nEtag:\"3147526947+gzip\"\r\n\r\nbody part".as_bytes(), Some(HttpError::from(ErrorKind::H1(H1Error::InvalidResponse))));
    unit_invalid("HTTP/1.1 304 OK\r\nAge:270\r646\r\nDate:Mon, 19 Dec 2022 01:46:59 GMT\r\nEtag:\"3147526947+gzip\"\r\n\r\nbody part".as_bytes(), Some(HttpError::from(ErrorKind::H1(H1Error::InvalidResponse))));
    unit_invalid("HTTP/1.1 304 OK\r\nAge:270646\r\r\nDate:Mon, 19 Dec 2022 01:46:59 GMT\r\nEtag:\"3147526947+gzip\"\r\n\r\nbody part".as_bytes(), Some(HttpError::from(ErrorKind::H1(H1Error::InvalidResponse))));
    unit_invalid("HTTP/1.1 304 OK\r\nAge:270646\r\n\rDate:Mon, 19 Dec 2022 01:46:59 GMT\r\nEtag:\"3147526947+gzip\"\r\n\r\nbody part".as_bytes(), Some(HttpError::from(ErrorKind::H1(H1Error::InvalidResponse))));
    unit_invalid("HTTP/1.1 304 OK\r\nAge:270646\r\n\rDate:Mon, 19 Dec 2022 01:46:59 GMT\r\nEtag:\"3147526947+gzip\"\r\n\r\r\nbody part".as_bytes(), Some(HttpError::from(ErrorKind::H1(H1Error::InvalidResponse))));
}

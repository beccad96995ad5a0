use ylong_http::error::{ErrorKind, HttpError};
use ylong_http::headers::Headers;

#[test]
fn insert_then_get_gives_the_value() {
    let mut h = Headers::new();
    assert!(h.is_empty());
    assert_eq!(h.insert(b"Accept", b"text/html"), Ok(()));
    assert_eq!(h.get(b"accept"), Some(&b"text/html".to_vec()));
    assert_eq!(h.get(b"ACCEPT"), Some(&b"text/html".to_vec()));
    assert_eq!(h.insert(b"accept", b"*/*"), Ok(()));
    assert_eq!(h.get(b"accept"), Some(&b"*/*".to_vec()));
    assert_eq!(h.len(), 1);
}

#[test]
fn append_joins_values_and_keeps_names_unique() {
    let mut h = Headers::new();
    h.append(b"accept", b"text/html");
    h.append(b"Host", b"example.com");
    h.append(b"ACCEPT", b"*/*");
    assert_eq!(h.len(), 2);
    assert_eq!(h.get(b"accept"), Some(&b"text/html, */*".to_vec()));
    assert_eq!(h.line(0), (&b"accept"[..], &b"text/html, */*"[..]));
    assert_eq!(h.line(1), (&b"host"[..], &b"example.com"[..]));
    assert_eq!(h.get(b"missing"), None);
}

#[test]
fn insert_refuses_invalid_names_and_values() {
    let mut h = Headers::new();
    assert_eq!(h.insert(b"bad name", b"v"), Err(HttpError::from(ErrorKind::InvalidInput)));
    assert_eq!(h.insert(b"name", b"a\r\nb"), Err(HttpError::from(ErrorKind::InvalidInput)));
    assert!(h.is_empty());
}

#[test]
fn to_lines_writes_name_colon_value() {
    let mut h = Headers::new();
    h.append(b"Accept", b"text/html");
    h.append(b"host", b"example.com");
    assert_eq!(h.to_lines(), b"accept:text/html\r\nhost:example.com\r\n".to_vec());
    assert_eq!(Headers::new().to_lines(), Vec::<u8>::new());
}

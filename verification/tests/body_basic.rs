use ylong_http::body::sync_impl::Body;
use ylong_http::body::{EmptyBody, TextBody, TextBodyDecoder};

#[test]
fn ut_empty_body_new() {
    let _body = EmptyBody::new();
}

#[test]
fn ut_empty_body_sync_impl_data() {
    let mut body = EmptyBody::new();
    let mut buf = [0u8; 1];
    assert_eq!(body.data(&mut buf), Ok(0));
}

#[test]
fn ut_syn_body_mut_syn_body_data() {
    let mut body = EmptyBody::new();
    let body_mut = &mut body;
    let mut buf = [0u8; 1];
    assert_eq!(body_mut.data(&mut buf), Ok(0));
}

#[test]
fn ut_text_body_from_bytes() {
    let bytes = b"Hello World!";
    let _body = TextBody::from_bytes(bytes);
}

#[test]
fn ut_text_body_from_bytes_syn_data() {
    let bytes = b"Hello World!";
    let mut body = TextBody::from_bytes(bytes);
    let mut buf = [0u8; 5];
    let size = body.data(&mut buf).expect("First read failed.");
    assert_eq!(size, 5);
    assert_eq!(&buf[..size], b"Hello");
    let size = body.data(&mut buf).expect("Second read failed.");
    assert_eq!(size, 5);
    assert_eq!(&buf[..size], b" Worl");
    let size = body.data(&mut buf).expect("Third read failed.");
    assert_eq!(size, 2);
    assert_eq!(&buf[..size], b"d!");
}

#[test]
fn ut_text_body_decoder_decode() {
    let bytes = b"this is the text body! and this is remaining data";
    let mut decoder = TextBodyDecoder::new(22);
    let (text, left) = decoder.decode(&bytes[..4]);
    assert!(text.is_partial());
    assert_eq!(text.data(), b"this");
    assert!(left.is_empty());
    let (text, left) = decoder.decode(&bytes[4..11]);
    assert!(text.is_partial());
    assert_eq!(text.data(), b" is the");
    assert!(left.is_empty());
    let (text, left) = decoder.decode(&bytes[11..26]);
    assert!(text.is_complete());
    assert_eq!(text.data(), b" text body!");
    assert_eq!(left, b" and");
    let (text, left) = decoder.decode(&bytes[26..]);
    assert!(text.is_complete());
    assert!(text.data().is_empty());
    assert_eq!(left, b" this is remaining data");
    let bytes = b"this is the text body! And this is remaining data";
    let mut decoder = TextBodyDecoder::new(22);
    let (text, left) = decoder.decode(bytes);
    assert!(text.is_complete());
    assert_eq!(text.data(), b"this is the text body!");
    assert_eq!(left, b" And this is remaining data");
}

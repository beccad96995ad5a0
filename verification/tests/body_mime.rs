use ylong_http::body::{MimeType, MimeTypeTag};
use ylong_http::error::{ErrorKind, HttpError};

fn parts(m: &MimeType) -> (MimeTypeTag, Vec<u8>, usize) {
    (m.tag(), m.as_bytes().to_vec(), m.slash())
}

#[test]
fn ut_mime_type_tag_from_bytes() {
    assert_eq!(MimeTypeTag::from_bytes(b"application"), Ok(MimeTypeTag::Application));
    assert_eq!(MimeTypeTag::from_bytes(b"audio"), Ok(MimeTypeTag::Audio));
    assert_eq!(MimeTypeTag::from_bytes(b"font"), Ok(MimeTypeTag::Font));
    assert_eq!(MimeTypeTag::from_bytes(b"image"), Ok(MimeTypeTag::Image));
    assert_eq!(MimeTypeTag::from_bytes(b"message"), Ok(MimeTypeTag::Message));
    assert_eq!(MimeTypeTag::from_bytes(b"model"), Ok(MimeTypeTag::Model));
    assert_eq!(MimeTypeTag::from_bytes(b"multipart"), Ok(MimeTypeTag::Multipart));
    assert_eq!(MimeTypeTag::from_bytes(b"text"), Ok(MimeTypeTag::Text));
    assert_eq!(MimeTypeTag::from_bytes(b"video"), Ok(MimeTypeTag::Video));
    assert_eq!(MimeTypeTag::from_bytes(b"x-world"), Ok(MimeTypeTag::Xnew));
    assert_eq!(MimeTypeTag::from_bytes(b"APPLICATION"), Ok(MimeTypeTag::Application));
    assert_eq!(MimeTypeTag::from_bytes(b"x-ab/cd"), Err(HttpError::from(ErrorKind::InvalidInput)));
    assert_eq!(MimeTypeTag::from_bytes(b"notype"), Err(HttpError::from(ErrorKind::InvalidInput)));
}

#[test]
fn ut_mime_type_from_bytes() {
    let m = MimeType::from_bytes(b"application/octet-stream").unwrap();
    assert_eq!(parts(&m), (MimeTypeTag::Application, b"application/octet-stream".to_vec(), 11));
    let m = MimeType::from_bytes(b"TEXT/PLAIN").unwrap();
    assert_eq!(parts(&m), (MimeTypeTag::Text, b"TEXT/PLAIN".to_vec(), 4));
    assert_eq!(MimeType::from_bytes(b"TEXT/~PLAIN"), Err(HttpError::from(ErrorKind::InvalidInput)));
    assert_eq!(MimeType::from_bytes(b"application/octet/stream"), Err(HttpError::from(ErrorKind::InvalidInput)));
}

#[test]
fn ut_mime_type_from_path() {
    assert_eq!(MimeType::from_path("./foo/bar.evy"), MimeType::from_bytes(b"application/envoy"));
    assert_eq!(MimeType::from_path("foo.*"), MimeType::from_bytes(b"application/octet-stream"));
    assert_eq!(MimeType::from_path(""), Err(HttpError::from(ErrorKind::InvalidInput)));
    assert_eq!(MimeType::from_path(".txt"), Err(HttpError::from(ErrorKind::InvalidInput)));
    assert_eq!(MimeType::from_path("./foo/bar"), Err(HttpError::from(ErrorKind::InvalidInput)));
}

#[test]
fn ut_mime_type_eq() {
    assert_eq!(
        MimeType::from_bytes(b"application/octet-stream").unwrap(),
        MimeType::from_bytes(b"application/octet-stream").unwrap()
    );
    assert_ne!(MimeType::from_bytes(b"application/octet-stream"), MimeType::from_bytes(b"application/pdf"));
    assert_eq!(MimeType::from_extension("pdf"), MimeType::from_bytes(b"application/pdf"));
}

#[test]
fn ut_mimetype_is_application() {
    assert!(MimeType::from_bytes(b"application/pdf").unwrap().is_application());
    assert!(!MimeType::from_bytes(b"audio/basic").unwrap().is_application());
}

#[test]
fn ut_mimetype_is_audio() {
    assert!(MimeType::from_bytes(b"audio/basic").unwrap().is_audio());
    assert!(!MimeType::from_bytes(b"application/pdf").unwrap().is_audio());
}

#[test]
fn ut_mime_type_is_font() {
    assert!(MimeType::from_bytes(b"font/collection").unwrap().is_font());
    assert!(!MimeType::from_bytes(b"application/pdf").unwrap().is_font());
}

#[test]
fn ut_mimetype_is_image() {
    assert!(MimeType::from_bytes(b"image/bmp").unwrap().is_image());
    assert!(!MimeType::from_bytes(b"application/pdf").unwrap().is_image());
}

#[test]
fn ut_mimetype_is_message() {
    assert!(MimeType::from_bytes(b"message/example").unwrap().is_message());
    assert!(!MimeType::from_bytes(b"application/pdf").unwrap().is_message());
}

#[test]
fn ut_mimetype_is_model() {
    assert!(MimeType::from_bytes(b"model/e57").unwrap().is_model());
    assert!(!MimeType::from_bytes(b"application/pdf").unwrap().is_model());
}

#[test]
fn ut_mime_type_is_multipart() {
    assert!(MimeType::from_bytes(b"multipart/form-data").unwrap().is_multipart());
    assert!(!MimeType::from_bytes(b"application/pdf").unwrap().is_multipart());
}

#[test]
fn ut_mime_type_is_text() {
    assert!(MimeType::from_bytes(b"text/csv").unwrap().is_text());
    assert!(!MimeType::from_bytes(b"application/pdf").unwrap().is_text());
}

#[test]
fn ut_mimetype_is_video() {
    assert!(MimeType::from_bytes(b"video/mpeg").unwrap().is_video());
    assert!(!MimeType::from_bytes(b"application/pdf").unwrap().is_video());
}

#[test]
fn ut_mime_type_is_xnew() {
    assert!(MimeType::from_bytes(b"x-world/x-vrml").unwrap().is_xnew());
    assert!(!MimeType::from_bytes(b"application/pdf").unwrap().is_xnew());
}

#[test]
fn ut_mime_type_main_type() {
    let mime_type = MimeType::from_bytes(b"application/octet-stream").unwrap();
    assert_eq!(mime_type.main_type(), "application");

    let mime_type = MimeType::from_bytes(b"TeXT/PLAIN").unwrap();
    assert_eq!(mime_type.main_type(), "TeXT");
}

#[test]
fn ut_mimetype_sub_type() {
    let mime_type = MimeType::from_bytes(b"application/octet-stream").unwrap();
    assert_eq!(mime_type.sub_type(), "octet-stream");
}

#[test]
fn ut_mimetype_as_str() {
    let mime_type = MimeType::from_bytes(b"application/pdf").unwrap();
    assert_eq!(mime_type.as_str(), "application/pdf");

    let mime_type = MimeType::from_bytes(b"application/octet-stream").unwrap();
    assert_eq!(mime_type.as_str(), "application/octet-stream");
}

#[test]
fn mime_type_text_of_extension() {
    let mime_type = MimeType::from_extension("pdf").unwrap();
    assert_eq!(mime_type.as_str(), "application/pdf");
    assert_eq!(mime_type.main_type(), "application");
    assert_eq!(mime_type.sub_type(), "pdf");
}

#[test]
fn mime_type_from_path_with_directories() {
    assert_eq!(MimeType::from_path("a/b/c.evy/."), MimeType::from_bytes(b"application/envoy"));
    assert_eq!(MimeType::from_path("a/b/c.evy//"), MimeType::from_bytes(b"application/envoy"));
    assert_eq!(MimeType::from_path("dir/.hidden"), Err(HttpError::from(ErrorKind::InvalidInput)));
    assert_eq!(MimeType::from_path("dir/x.y/.."), Err(HttpError::from(ErrorKind::InvalidInput)));
    assert_eq!(MimeType::from_path("/"), Err(HttpError::from(ErrorKind::InvalidInput)));
    let m = MimeType::from_path("docs/report.unknownext").unwrap();
    assert_eq!(m.as_str(), "application/octet-stream");
    assert_eq!(m.main_type(), "application");
    assert_eq!(m.sub_type(), "octet-stream");
}

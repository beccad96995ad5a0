use ylong_http::body::mime::simple::{boundary_from_seed, gen_boundary};
use ylong_http::body::{MultiPart, MultiPartBase, Part};

#[test]
fn ut_gen_boundary() {
    let s1 = gen_boundary();
    let s2 = gen_boundary();
    assert_ne!(s1, s2);
}

#[test]
fn ut_part_new() {
    let part = Part::new();
    assert!(part.name.is_none());
    assert!(part.file_name.is_none());
    assert!(part.mime.is_none());
    assert!(part.length.is_none());
    assert!(part.body.is_none());
}

#[test]
fn ut_part_default() {
    let part = Part::default();
    assert!(part.name.is_none());
    assert!(part.file_name.is_none());
    assert!(part.mime.is_none());
    assert!(part.length.is_none());
    assert!(part.body.is_none());
}

#[test]
fn ut_multipart_new() {
    let mp = MultiPart::new();
    assert!(mp.parts.is_empty());
    assert!(!mp.boundary().is_empty());
}

#[test]
fn ut_multipart_set() {
    let mp = MultiPart::default();
    // --boundary--/r/n
    assert_eq!(mp.total_bytes(), Some(2 + mp.boundary().len() as u64 + 4));

    let mp = mp.part(
        Part::new()
            .name("name")
            .file_name("example.txt")
            .mime("application/octet-stream")
            .body(b"1234"),
    );
    assert_eq!(
        mp.total_bytes(),
        Some(
            (2 + mp.boundary().len() as u64 + 2)
                + (30 + 9 + 4 + 13 + 11 + 2)       // name, filename, \r\n
                + (16 + 24 + 2 + 2)                // mime, \r\n
                + 4                                // body
                + (2 + mp.boundary().len() as u64 + 4)
        )
    );
}

#[test]
fn part_setters_keep_other_fields() {
    let part = Part::new()
        .name("name")
        .file_name("example.txt")
        .mime("application/octet-stream")
        .body(b"1234");
    assert_eq!(part.name, Some("name".to_string()));
    assert_eq!(part.file_name, Some("example.txt".to_string()));
    assert_eq!(part.mime, Some("application/octet-stream".to_string()));
    assert_eq!(part.body, Some(b"1234".to_vec()));
    assert_eq!(part.length, Some(4));
    let part = part.length(Some(8));
    assert_eq!(part.length, Some(8));
    assert_eq!(part.body, Some(b"1234".to_vec()));
}

#[test]
fn boundary_from_seed_exact() {
    assert_eq!(
        boundary_from_seed(1),
        "47e4ce4b896cdd1d-abcfa6a8e079651d-b9d10d8feb731f57-4db418a0bb1b019d"
    );
    assert_eq!(
        boundary_from_seed(0x0123_4567_89ab_cdef),
        "7c9482472cb6708c-d5705692bf1f28de-88b71e3ba5e005c0-5e5d8a88f0c0cbe6"
    );
}

#[test]
fn gen_boundary_shape() {
    let b = gen_boundary();
    assert_eq!(b.len(), 67);
    for (i, c) in b.bytes().enumerate() {
        if i == 16 || i == 33 || i == 50 {
            assert_eq!(c, b'-');
        } else {
            assert!(c.is_ascii_digit() || (b'a'..=b'f').contains(&c));
        }
    }
}

fn read_all(mp: &mut MultiPart, size: usize) -> (Vec<usize>, Vec<u8>) {
    let mut buf = vec![0u8; size];
    let mut sizes = vec![];
    let mut out = vec![];
    loop {
        let n = mp.read(&mut buf);
        if n == 0 {
            break;
        }
        sizes.push(n);
        out.extend_from_slice(&buf[..n]);
    }
    (sizes, out)
}

#[test]
fn multipart_read_message() {
    let mut mp = MultiPart::new().part(
        Part::new()
            .name("name")
            .file_name("example.txt")
            .mime("application/octet-stream")
            .body(b"1234"),
    );
    let total = mp.total_bytes().unwrap();
    let b = mp.boundary().to_string();
    let (sizes, out) = read_all(&mut mp, 50);
    assert_eq!(sizes, vec![50, 50, 50, 50, 50, 11]);
    assert_eq!(out.len() as u64, total);
    let expected = format!(
        "--{b}\r\nContent-Disposition: form-data; name=\"name\"; filename=\"example.txt\"\r\n\
         Content-Type: application/octet-stream\r\n\r\n1234\r\n--{b}--\r\n"
    );
    assert_eq!(out, expected.into_bytes());
}

#[test]
fn multipart_read_two_parts_and_reuse() {
    let mut mp = MultiPart::new()
        .part(Part::new().name("name").body(b"xiaoming"))
        .part(Part::new().name("password").body(b"123456789"));
    let b = mp.boundary().to_string();
    let (_, out) = read_all(&mut mp, 7);
    let expected = format!(
        "--{b}\r\nContent-Disposition: form-data; name=\"name\"\r\n\r\nxiaoming\r\n\
         --{b}\r\nContent-Disposition: form-data; name=\"password\"\r\n\r\n123456789\r\n--{b}--\r\n"
    );
    assert_eq!(out, expected.clone().into_bytes());
    assert_eq!(mp.total_bytes(), Some(out.len() as u64));
    // Done: reading gives nothing more, until the reading starts over.
    let mut buf = [0u8; 10];
    assert_eq!(mp.read(&mut buf), 0);
    mp.reuse();
    let (_, again) = read_all(&mut mp, 1000);
    assert_eq!(again, expected.into_bytes());
}

#[test]
fn multipart_parts_added_after_reading_are_not_sent() {
    let mut mp = MultiPart::new().part(Part::new().body(b"a"));
    let b = mp.boundary().to_string();
    let mut buf = [0u8; 4];
    assert_eq!(mp.read(&mut buf), 4);
    let mut mp = mp.part(Part::new().body(b"b"));
    let (_, rest) = read_all(&mut mp, 100);
    let expected = format!("--{b}\r\nContent-Disposition: form-data\r\n\r\na\r\n--{b}--\r\n");
    assert_eq!([&buf[..], &rest[..]].concat(), expected.into_bytes());
}

#[test]
fn multipart_total_without_length() {
    let mp = MultiPart::new()
        .part(Part::new().name("a").body(b"x"))
        .part(Part::new().name("b"));
    assert_eq!(mp.total_bytes(), None);
    let mp = MultiPart::new().part(Part::new().mime("text/plain").length(Some(3)));
    let b = mp.boundary().len() as u64;
    assert_eq!(mp.total_bytes(), Some((2 + b + 2) + 30 + 2 + (16 + 10) + 4 + 3 + (2 + b + 4)));
}

#[test]
fn multipart_base_gives_the_message() {
    let mp = MultiPart::new();
    assert!(std::ptr::eq(mp.multipart(), &mp));
}

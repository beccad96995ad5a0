use ylong_http::h2::hpack::table::Header;
use ylong_http::h2::hpack::{HpackDecoder, HpackEncoder};
use ylong_http::h2::Parts;

fn block(fields: &[(Header, &str)]) -> Parts {
    let mut parts = Parts::new();
    for (h, v) in fields {
        parts.update(h.copy(), v.as_bytes().to_vec());
    }
    parts
}

fn send(encoder: &mut HpackEncoder, decoder: &mut HpackDecoder, parts: Parts) -> Parts {
    encoder.set_parts(parts);
    let mut out = vec![];
    let mut buf = [0u8; 5];
    loop {
        let n = encoder.encode(&mut buf);
        out.extend_from_slice(&buf[..n]);
        if encoder.is_finished() {
            break;
        }
    }
    assert!(decoder.decode(&out).is_ok());
    decoder.finish().unwrap()
}

fn other(name: &str) -> Header {
    Header::Other(name.as_bytes().to_vec())
}

fn check(parts: &Parts, method: &str, path: &str, lines: &[(&str, &str)]) {
    let (pseudo, headers) = parts.parts();
    assert_eq!(pseudo.method(), Some(method.as_bytes()));
    assert_eq!(pseudo.path(), Some(path.as_bytes()));
    assert_eq!(headers.len(), lines.len());
    for (k, v) in lines {
        assert_eq!(headers.get(k.as_bytes()), Some(&v.as_bytes().to_vec()));
    }
}

#[test]
fn hpack_blocks_read_back() {
    for huffman in [false, true] {
        let mut encoder = HpackEncoder::new(4096, huffman);
        let mut decoder = HpackDecoder::with_max_size(4096, 16 << 20);
        let b1 = block(&[
            (Header::Method, "GET"),
            (Header::Path, "/index.html"),
            (Header::Authority, "www.example.com"),
            (other("custom-key"), "custom-value"),
        ]);
        let got = send(&mut encoder, &mut decoder, b1);
        check(&got, "GET", "/index.html", &[("custom-key", "custom-value")]);
        let b2 = block(&[
            (Header::Method, "POST"),
            (Header::Path, "/upload"),
            (other("custom-key"), "custom-value"),
            (other("accept"), "*/*"),
        ]);
        let got = send(&mut encoder, &mut decoder, b2);
        check(&got, "POST", "/upload", &[("custom-key", "custom-value"), ("accept", "*/*")]);
        assert_eq!(decoder.table().curr_size(), encoder.table().curr_size());
    }
}

#[test]
fn hpack_dynamic_name_with_new_value_reads_back() {
    // A name held only by the dynamic table, with another value, is sent as
    // a literal with the entry's name index: the decoder reads the new value.
    let mut encoder = HpackEncoder::new(4096, false);
    let mut decoder = HpackDecoder::with_max_size(4096, 16 << 20);
    let got = send(&mut encoder, &mut decoder, block(&[(Header::Method, "GET"), (Header::Path, "/"), (other("x-a"), "1")]));
    check(&got, "GET", "/", &[("x-a", "1")]);
    let got = send(&mut encoder, &mut decoder, block(&[(Header::Method, "GET"), (Header::Path, "/"), (other("x-a"), "2")]));
    check(&got, "GET", "/", &[("x-a", "2")]);
    assert_eq!(decoder.table().curr_size(), encoder.table().curr_size());
}

#[test]
fn hpack_table_size_update_reads_back() {
    let mut encoder = HpackEncoder::new(4096, false);
    let mut decoder = HpackDecoder::with_max_size(4096, 16 << 20);
    let got = send(&mut encoder, &mut decoder, block(&[(Header::Method, "GET"), (Header::Path, "/"), (other("x-a"), "1")]));
    check(&got, "GET", "/", &[("x-a", "1")]);
    assert!(encoder.table().curr_size() > 0);
    encoder.update_max_dynamic_table_size(0);
    assert_eq!(encoder.table().curr_size(), 0);
    assert_eq!(encoder.table().max_size(), 0);
    encoder.set_parts(block(&[(Header::Method, "GET"), (Header::Path, "/"), (other("x-a"), "2")]));
    let mut buf = [0u8; 64];
    let n = encoder.encode(&mut buf);
    assert!(n > 0);
    assert_eq!(buf[0], 0x20);
    assert!(decoder.decode(&buf[..n]).is_ok());
    let got = decoder.finish().unwrap();
    check(&got, "GET", "/", &[("x-a", "2")]);
    assert_eq!(decoder.table().curr_size(), 0);
    assert_eq!(decoder.table().max_size(), 0);
}

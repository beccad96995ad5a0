use ylong_http::huffman::{decode, encode};

#[test]
fn huffman_reads_back() {
    let samples: Vec<Vec<u8>> = vec![
        b"".to_vec(),
        b"www.example.com".to_vec(),
        b"no-cache".to_vec(),
        b"custom-key".to_vec(),
        b"Mon, 21 Oct 2013 20:13:21 GMT".to_vec(),
        (0..=255u8).collect(),
    ];
    for s in samples {
        let e = encode(&s);
        assert_eq!(decode(&e), Some(s));
    }
}

#[test]
fn huffman_known_codes() {
    // RFC 7541, C.4.1: "www.example.com".
    assert_eq!(
        encode(b"www.example.com"),
        vec![0xf1, 0xe3, 0xc2, 0xe5, 0xf2, 0x3a, 0x6b, 0xa0, 0xab, 0x90, 0xf4, 0xff]
    );
    // RFC 7541, C.4.2: "no-cache".
    assert_eq!(encode(b"no-cache"), vec![0xa8, 0xeb, 0x10, 0x64, 0x9c, 0xbf]);
}

#[test]
fn huffman_refuses_bad_padding() {
    // A whole octet of padding ones.
    let mut e = encode(b"a");
    e.push(0xff);
    assert_eq!(decode(&e), None);
    // Padding with a zero bit: "0" is 00000, padded with 000 instead of 111.
    assert_eq!(decode(&[0x00]), None);
}

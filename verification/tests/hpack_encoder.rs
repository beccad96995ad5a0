use ylong_http::h2::hpack::integer::{IntegerDecoder, IntegerEncoder};
use ylong_http::h2::hpack::table::Header;
use ylong_http::h2::hpack::HpackEncoder;
use ylong_http::h2::Parts;

fn hex(s: &str) -> Vec<u8> {
    let b = s.as_bytes();
    let val = |c: u8| -> u8 {
        match c {
            b'0'..=b'9' => c - b'0',
            b'a'..=b'f' => c - b'a' + 10,
            b'A'..=b'F' => c - b'A' + 10,
            _ => panic!("not a hex digit"),
        }
    };
    (0..b.len() / 2).map(|i| val(b[2 * i]) * 16 + val(b[2 * i + 1])).collect()
}

fn other(name: &str) -> Header {
    Header::Other(name.as_bytes().to_vec())
}

fn encode_case(encoder: &mut HpackEncoder, len: usize, res: &str, size: usize, fields: Vec<(Header, &str)>) {
    let mut vec = vec![0u8; len];
    let mut cur = 0;
    for (h, v) in fields {
        let mut parts = Parts::new();
        parts.update(h, v.as_bytes().to_vec());
        encoder.set_parts(parts);
        cur += encoder.encode(&mut vec[cur..]);
    }
    assert_eq!(cur, len);
    let result = hex(res);
    assert_eq!(vec.as_slice(), result.as_slice());
    assert_eq!(encoder.table().curr_size(), size);
}

#[test]
fn ut_hpack_encoder() {
    // C.2.1. Literal Header Field with Indexing
    encode_case(
        &mut HpackEncoder::new(4096, false),
        26,
        "400a637573746f6d2d6b65790d637573746f6d2d686561646572",
        55,
        vec![(other("custom-key"), "custom-header")],
    );
    // C.2.4. Indexed Header Field
    encode_case(&mut HpackEncoder::new(4096, false), 1, "82", 0, vec![(Header::Method, "GET")]);
    // C.3. Request Examples without Huffman Coding
    {
        let mut encoder = HpackEncoder::new(4096, false);
        encode_case(
            &mut encoder,
            20,
            "828684410f7777772e6578616d706c652e636f6d",
            57,
            vec![(Header::Method, "GET"), (Header::Scheme, "http"), (Header::Path, "/"), (Header::Authority, "www.example.com")],
        );
        encode_case(
            &mut encoder,
            14,
            "828684be58086e6f2d6361636865",
            110,
            vec![
                (Header::Method, "GET"),
                (Header::Scheme, "http"),
                (Header::Path, "/"),
                (Header::Authority, "www.example.com"),
                (other("cache-control"), "no-cache"),
            ],
        );
        encode_case(
            &mut encoder,
            29,
            "828785bf400a637573746f6d2d6b65790c637573746f6d2d76616c7565",
            164,
            vec![
                (Header::Method, "GET"),
                (Header::Scheme, "https"),
                (Header::Path, "/index.html"),
                (Header::Authority, "www.example.com"),
                (other("custom-key"), "custom-value"),
            ],
        );
    }
    // C.5. Response Examples without Huffman Coding
    {
        let mut encoder = HpackEncoder::new(256, false);
        encode_case(
            &mut encoder,
            70,
            "4803333032580770726976617465611d4d6f6e2c203231204f637420323031332032303a31333a323120474d546e1768747470733a2f2f7777772e6578616d706c652e636f6d",
            222,
            vec![
                (Header::Status, "302"),
                (other("cache-control"), "private"),
                (other("date"), "Mon, 21 Oct 2013 20:13:21 GMT"),
                (other("location"), "https://www.example.com"),
            ],
        );
        encode_case(
            &mut encoder,
            8,
            "4803333037c1c0bf",
            222,
            vec![
                (Header::Status, "307"),
                (other("cache-control"), "private"),
                (other("date"), "Mon, 21 Oct 2013 20:13:21 GMT"),
                (other("location"), "https://www.example.com"),
            ],
        );
        encode_case(
            &mut encoder,
            98,
            "88c1611d4d6f6e2c203231204f637420323031332032303a31333a323220474d54c05a04677a69707738666f6f3d4153444a4b48514b425a584f5157454f50495541585157454f49553b206d61782d6167653d333630303b2076657273696f6e3d31",
            215,
            vec![
                (Header::Status, "200"),
                (other("cache-control"), "private"),
                (other("date"), "Mon, 21 Oct 2013 20:13:22 GMT"),
                (other("location"), "https://www.example.com"),
                (other("content-encoding"), "gzip"),
                (other("set-cookie"), "foo=ASDJKHQKBZXOQWEOPIUAXQWEOIU; max-age=3600; version=1"),
            ],
        );
    }
}

#[test]
fn ut_integer_decode() {
    // C.1.1. Encoding 10 using a 5-bit prefix
    match IntegerDecoder::first_byte(0x0a, 0x1f) {
        Ok(idx) => assert_eq!(idx, 10),
        _ => panic!("IntegerDecoder::first_byte() failed!"),
    }
    // C.1.2. Encoding 1337 using a 5-bit prefix
    match IntegerDecoder::first_byte(0x1f, 0x1f) {
        Err(mut int) => {
            match int.next_byte(0x9a) {
                Ok(v) => assert_eq!(v, None),
                _ => panic!("IntegerDecoder::next_byte() failed!"),
            }
            match int.next_byte(0x0a) {
                Ok(v) => assert_eq!(v, Some(1337)),
                _ => panic!("IntegerDecoder::next_byte() failed!"),
            }
        }
        _ => panic!("IntegerDecoder::first_byte() failed!"),
    }
    // C.1.3. Encoding 42 starting at an octet boundary
    match IntegerDecoder::first_byte(0x2a, 0xff) {
        Ok(idx) => assert_eq!(idx, 42),
        _ => panic!("IntegerDecoder::first_byte() failed!"),
    }
}

fn encode_integer(int: usize, mask: u8, pre: u8, bytes: &[u8]) {
    let mut integer = IntegerEncoder::new(int, mask, pre);
    for b in bytes {
        assert_eq!(integer.next_byte(), Some(*b));
    }
    assert_eq!(integer.next_byte(), None);
}

#[test]
fn ut_integer_encode() {
    encode_integer(10, 0x1f, 0x00, &[0x0a]);
    encode_integer(1337, 0x1f, 0x00, &[0x1f, 0x9a, 0x0a]);
    encode_integer(42, 0xff, 0x00, &[0x2a]);
}

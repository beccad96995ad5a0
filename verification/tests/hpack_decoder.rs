use ylong_http::h2::hpack::table::Header;
use ylong_http::h2::hpack::HpackDecoder;
use ylong_http::h2::{Parts, PseudoHeaders};
use ylong_http::headers::Headers;

const MAX_HEADER_LIST_SIZE: usize = 16 << 20;

fn hex(s: &str) -> Vec<u8> {
    let b = s.as_bytes();
    let val = |c: u8| -> u8 {
        match c {
            b'0'..=b'9' => c - b'0',
            b'a'..=b'f' => c - b'a' + 10,
            b'A'..=b'F' => c - b'A' + 10,
            _ => panic!("not a hex digit"),
        }
    };
    (0..b.len() / 2).map(|i| val(b[2 * i]) * 16 + val(b[2 * i + 1])).collect()
}

type Pseudo<'a> = (Option<&'a str>, Option<&'a str>, Option<&'a str>, Option<&'a str>, Option<&'a str>);

fn check_pseudo(pseudo: &PseudoHeaders, expected: Pseudo) {
    let (a, m, p, sc, st) = expected;
    assert_eq!(pseudo.authority(), a.map(|s| s.as_bytes()));
    assert_eq!(pseudo.method(), m.map(|s| s.as_bytes()));
    assert_eq!(pseudo.path(), p.map(|s| s.as_bytes()));
    assert_eq!(pseudo.scheme(), sc.map(|s| s.as_bytes()));
    assert_eq!(pseudo.status(), st.map(|s| s.as_bytes()));
}

fn check_map(map: &Headers, expected: &[(&str, &str)]) {
    for (k, v) in expected {
        assert_eq!(map.get(k.as_bytes()).unwrap().as_slice(), v.as_bytes());
    }
}

fn check_table(hpack: &HpackDecoder, size: usize, expected: &[(&str, &str)]) {
    assert_eq!(hpack.table().curr_size(), size);
    for (cnt, (k, v)) in expected.iter().enumerate() {
        let name = match *k {
            ":authority" => Header::Authority,
            ":method" => Header::Method,
            ":path" => Header::Path,
            ":scheme" => Header::Scheme,
            ":status" => Header::Status,
            other => Header::Other(other.as_bytes().to_vec()),
        };
        match hpack.table().header(cnt) {
            Some((h, value)) if h == name && value.as_slice() == v.as_bytes() => {}
            _ => panic!("DynamicTable::header() failed!"),
        }
    }
}

fn get_parts(hpack: &mut HpackDecoder, inputs: &[&str]) -> Parts {
    for input in inputs {
        let text = hex(input);
        assert!(hpack.decode(text.as_slice()).is_ok());
    }
    match hpack.finish() {
        Ok(parts) => parts,
        Err(_) => panic!("HpackDecoder::finish() failed!"),
    }
}

fn case(hpack: &mut HpackDecoder, inputs: &[&str], pseudo: Option<Pseudo>, map: &[(&str, &str)], size: usize, table: &[(&str, &str)]) {
    let (p, m) = get_parts(hpack, inputs).into_parts();
    if let Some(expected) = pseudo {
        check_pseudo(&p, expected);
    }
    check_map(&m, map);
    check_table(hpack, size, table);
}

fn rfc7541_test_cases() {
    // C.2.1. Literal Header Field with Indexing
    case(
        &mut HpackDecoder::with_max_size(4096, MAX_HEADER_LIST_SIZE),
        &["400a637573746f6d2d6b65790d637573746f6d2d686561646572"],
        None,
        &[("custom-key", "custom-header")],
        55,
        &[("custom-key", "custom-header")],
    );
    // C.2.2. Literal Header Field without Indexing
    case(
        &mut HpackDecoder::with_max_size(4096, MAX_HEADER_LIST_SIZE),
        &["040c2f73616d706c652f70617468"],
        Some((None, None, Some("/sample/path"), None, None)),
        &[],
        0,
        &[],
    );
    // C.2.3. Literal Header Field Never Indexed
    case(
        &mut HpackDecoder::with_max_size(4096, MAX_HEADER_LIST_SIZE),
        &["100870617373776f726406736563726574"],
        None,
        &[("password", "secret")],
        0,
        &[],
    );
    // C.2.4. Indexed Header Field
    case(
        &mut HpackDecoder::with_max_size(4096, MAX_HEADER_LIST_SIZE),
        &["82"],
        Some((None, Some("GET"), None, None, None)),
        &[],
        0,
        &[],
    );
    // C.3. Request Examples without Huffman Coding
    {
        let mut hpack_decoder = HpackDecoder::with_max_size(4096, MAX_HEADER_LIST_SIZE);
        case(
            &mut hpack_decoder,
            &["828684410f7777772e6578616d706c652e636f6d"],
            Some((Some("www.example.com"), Some("GET"), Some("/"), Some("http"), None)),
            &[],
            57,
            &[(":authority", "www.example.com")],
        );
        case(
            &mut hpack_decoder,
            &["828684be58086e6f2d6361636865"],
            Some((Some("www.example.com"), Some("GET"), Some("/"), Some("http"), None)),
            &[("cache-control", "no-cache")],
            110,
            &[("cache-control", "no-cache"), (":authority", "www.example.com")],
        );
        case(
            &mut hpack_decoder,
            &["828785bf400a637573746f6d2d6b65790c637573746f6d2d76616c7565"],
            Some((Some("www.example.com"), Some("GET"), Some("/index.html"), Some("https"), None)),
            &[("custom-key", "custom-value")],
            164,
            &[("custom-key", "custom-value"), ("cache-control", "no-cache"), (":authority", "www.example.com")],
        );
    }
    // C.4. Request Examples with Huffman Coding
    {
        let mut hpack_decoder = HpackDecoder::with_max_size(4096, MAX_HEADER_LIST_SIZE);
        case(
            &mut hpack_decoder,
            &["828684418cf1e3c2e5f23a6ba0ab90f4ff"],
            Some((Some("www.example.com"), Some("GET"), Some("/"), Some("http"), None)),
            &[],
            57,
            &[(":authority", "www.example.com")],
        );
        case(
            &mut hpack_decoder,
            &["828684be5886a8eb10649cbf"],
            Some((Some("www.example.com"), Some("GET"), Some("/"), Some("http"), None)),
            &[("cache-control", "no-cache")],
            110,
            &[("cache-control", "no-cache"), (":authority", "www.example.com")],
        );
        case(
            &mut hpack_decoder,
            &["828785bf408825a849e95ba97d7f8925a849e95bb8e8b4bf"],
            Some((Some("www.example.com"), Some("GET"), Some("/index.html"), Some("https"), None)),
            &[("custom-key", "custom-value")],
            164,
            &[("custom-key", "custom-value"), ("cache-control", "no-cache"), (":authority", "www.example.com")],
        );
    }
    // C.5. Response Examples without Huffman Coding
    {
        let mut hpack_decoder = HpackDecoder::with_max_size(256, MAX_HEADER_LIST_SIZE);
        case(
            &mut hpack_decoder,
            &["4803333032580770726976617465611d4d6f6e2c203231204f637420323031332032303a31333a323120474d546e1768747470733a2f2f7777772e6578616d706c652e636f6d"],
            Some((None, None, None, None, Some("302"))),
            &[("location", "https://www.example.com"), ("date", "Mon, 21 Oct 2013 20:13:21 GMT"), ("cache-control", "private")],
            222,
            &[
                ("location", "https://www.example.com"),
                ("date", "Mon, 21 Oct 2013 20:13:21 GMT"),
                ("cache-control", "private"),
                (":status", "302"),
            ],
        );
        case(
            &mut hpack_decoder,
            &["4803333037c1c0bf"],
            Some((None, None, None, None, Some("307"))),
            &[("cache-control", "private"), ("date", "Mon, 21 Oct 2013 20:13:21 GMT"), ("location", "https://www.example.com")],
            222,
            &[
                (":status", "307"),
                ("location", "https://www.example.com"),
                ("date", "Mon, 21 Oct 2013 20:13:21 GMT"),
                ("cache-control", "private"),
            ],
        );
        case(
            &mut hpack_decoder,
            &["88c1611d4d6f6e2c203231204f637420323031332032303a31333a323220474d54c05a04677a69707738666f6f3d4153444a4b48514b425a584f5157454f50495541585157454f49553b206d61782d6167653d333630303b2076657273696f6e3d31"],
            Some((None, None, None, None, Some("200"))),
            &[
                ("cache-control", "private"),
                ("date", "Mon, 21 Oct 2013 20:13:22 GMT"),
                ("location", "https://www.example.com"),
                ("content-encoding", "gzip"),
                ("set-cookie", "foo=ASDJKHQKBZXOQWEOPIUAXQWEOIU; max-age=3600; version=1"),
            ],
            215,
            &[
                ("set-cookie", "foo=ASDJKHQKBZXOQWEOPIUAXQWEOIU; max-age=3600; version=1"),
                ("content-encoding", "gzip"),
                ("date", "Mon, 21 Oct 2013 20:13:22 GMT"),
            ],
        );
    }
    // C.6. Response Examples with Huffman Coding
    {
        let mut hpack_decoder = HpackDecoder::with_max_size(256, MAX_HEADER_LIST_SIZE);
        case(
            &mut hpack_decoder,
            &["488264025885aec3771a4b6196d07abe941054d444a8200595040b8166e082a62d1bff6e919d29ad171863c78f0b97c8e9ae82ae43d3"],
            Some((None, None, None, None, Some("302"))),
            &[("location", "https://www.example.com"), ("date", "Mon, 21 Oct 2013 20:13:21 GMT"), ("cache-control", "private")],
            222,
            &[
                ("location", "https://www.example.com"),
                ("date", "Mon, 21 Oct 2013 20:13:21 GMT"),
                ("cache-control", "private"),
                (":status", "302"),
            ],
        );
        case(
            &mut hpack_decoder,
            &["4883640effc1c0bf"],
            Some((None, None, None, None, Some("307"))),
            &[("cache-control", "private"), ("date", "Mon, 21 Oct 2013 20:13:21 GMT"), ("location", "https://www.example.com")],
            222,
            &[
                (":status", "307"),
                ("location", "https://www.example.com"),
                ("date", "Mon, 21 Oct 2013 20:13:21 GMT"),
                ("cache-control", "private"),
            ],
        );
        case(
            &mut hpack_decoder,
            &["88c16196d07abe941054d444a8200595040b8166e084a62d1bffc05a839bd9ab77ad94e7821dd7f2e6c7b335dfdfcd5b3960d5af27087f3672c1ab270fb5291f9587316065c003ed4ee5b1063d5007"],
            Some((None, None, None, None, Some("200"))),
            &[
                ("cache-control", "private"),
                ("date", "Mon, 21 Oct 2013 20:13:22 GMT"),
                ("location", "https://www.example.com"),
                ("content-encoding", "gzip"),
                ("set-cookie", "foo=ASDJKHQKBZXOQWEOPIUAXQWEOIU; max-age=3600; version=1"),
            ],
            215,
            &[
                ("set-cookie", "foo=ASDJKHQKBZXOQWEOPIUAXQWEOIU; max-age=3600; version=1"),
                ("content-encoding", "gzip"),
                ("date", "Mon, 21 Oct 2013 20:13:22 GMT"),
            ],
        );
    }
}

fn slices_test_cases() {
    case(
        &mut HpackDecoder::with_max_size(4096, MAX_HEADER_LIST_SIZE),
        &["04", "0c", "2f", "73", "61", "6d", "70", "6c", "65", "2f", "70", "61", "74", "68"],
        Some((None, None, Some("/sample/path"), None, None)),
        &[],
        0,
        &[],
    );
    case(
        &mut HpackDecoder::with_max_size(256, MAX_HEADER_LIST_SIZE),
        &[
            "488264025885aec3771a4b6196d07abe",
            "941054d444a8200595040b8166e082a6",
            "2d1bff6e919d29ad171863c78f0b97c8",
            "e9ae82ae43d3",
        ],
        Some((None, None, None, None, Some("302"))),
        &[("location", "https://www.example.com"), ("date", "Mon, 21 Oct 2013 20:13:21 GMT"), ("cache-control", "private")],
        222,
        &[
            ("location", "https://www.example.com"),
            ("date", "Mon, 21 Oct 2013 20:13:21 GMT"),
            ("cache-control", "private"),
            (":status", "302"),
        ],
    );
}

#[test]
fn ut_hpack_decoder() {
    rfc7541_test_cases();
    slices_test_cases();
}

#[test]
fn ut_decode_literal_non_utf8_header_value() {
    let mut decoder = HpackDecoder::with_max_size(1000, 2000);
    let buf: [u8; 73] = [
        0x0, 0x8D, 0x21, 0xEA, 0x49, 0x6A, 0x4A, 0xD2, 0x19, 0x15, 0x9D, 0x6, 0x49, 0x8F, 0x57, 0x39, 0x61, 0x74,
        0x74, 0x61, 0x63, 0x68, 0x6D, 0x65, 0x6E, 0x74, 0x3B, 0x66, 0x69, 0x6C, 0x65, 0x4E, 0x61, 0x6D, 0x65, 0x3D,
        0x54, 0x65, 0x73, 0x74, 0x5F, 0xE6, 0x96, 0xB0, 0xE5, 0xBB, 0x6F, 0x20, 0x4D, 0x69, 0x63, 0x72, 0x6F, 0x73,
        0x6F, 0x66, 0x74, 0x20, 0x57, 0x6F, 0x72, 0x64, 0x20, 0xE6, 0x96, 0x87, 0xE6, 0xA1, 0xA3, 0x2E, 0x64, 0x6F,
        0x63,
    ];
    let res = decoder.decode(&buf);
    assert!(res.is_ok());
}

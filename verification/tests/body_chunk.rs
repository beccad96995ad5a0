use ylong_http::body::sync_impl::Body;
use ylong_http::body::{Chunk, ChunkBody, ChunkBodyDecoder, ChunkExt, ChunkState, Chunks};
use ylong_http::error::ErrorKind;
use ylong_http::headers::Headers;

fn data_message() -> Vec<u8> {
    let mut vec = Vec::new();
    for i in 0..=10 {
        vec.extend_from_slice(&[i % 10; 100]);
    }
    vec
}

fn res_message() -> Vec<u8> {
    let mut res = b"400\r\n".to_vec();
    for i in 0..=9 {
        res.extend_from_slice(&[i % 10; 100]);
    }
    res.extend_from_slice(&[0; 24]);
    res.extend_from_slice(b"\r\n4c\r\n");
    res.extend_from_slice(&[0; 76]);
    res.extend_from_slice(b"\r\n0\r\n\r\n");
    res
}
fn res_trailer_message() -> Vec<u8> {
    let mut res = b"400\r\n".to_vec();
    for i in 0..=9 {
        res.extend_from_slice(&[i % 10; 100]);
    }
    res.extend_from_slice(&[0; 24]);
    res.extend_from_slice(b"\r\n4c\r\n");
    res.extend_from_slice(&[0; 76]);
    res.extend_from_slice(b"\r\n0\r\n");
    res.extend_from_slice(b"accept:text/html\r\n");
    res.extend_from_slice(b"\r\n");
    res
}
#[test]
fn ut_chunk_body_encode_trailer_0() {
    let mut headers = Headers::new();
    let _ = headers.insert(b"accept", b"text/html");
    let content = data_message();
    let mut task = ChunkBody::from_bytes(content.as_slice()).set_trailer(headers);
    let mut user_slice = [0_u8; 20];
    let mut output_vec = vec![];
    let mut size = user_slice.len();
    while size == user_slice.len() {
        size = task.data(user_slice.as_mut_slice()).unwrap();
        output_vec.extend_from_slice(&user_slice[..size]);
    }
    assert_eq!(output_vec, res_trailer_message());
}
#[test]
fn ut_chunk_body_encode_0() {
    let content = data_message();
    let mut task = ChunkBody::from_bytes(content.as_slice());
    let mut user_slice = [0_u8; 20];
    let mut output_vec = vec![];

    let mut size = user_slice.len();
    while size == user_slice.len() {
        size = task.data(user_slice.as_mut_slice()).unwrap();
        output_vec.extend_from_slice(&user_slice[..size]);
    }
    assert_eq!(output_vec, res_message());
}
#[test]
fn ut_chunk_body_decode_0() {
    let mut decoder = ChunkBodyDecoder::new().contains_trailer(true);
    let chunk_body_bytes = "\
        5\r\n\
        hello\r\n\
        C ; type = text ;end = !\r\n\
        hello world!\r\n\
        000; message = last\r\n\
        Trailer: value\r\n\
        another-trainer: another-value\r\n\
        \r\n\
        "
    .as_bytes();
    // 5
    let res = decoder.decode(&chunk_body_bytes[..1]);
    let mut chunks = Chunks::new();
    chunks.push(Chunk {
        id: 0,
        state: ChunkState::MetaSize,
        size: 0,
        extension: ChunkExt::new(),
        data: &[] as &[u8],
        trailer: None,
    });
    assert_eq!(res, Ok((chunks, &[] as &[u8],)));
    // 5\r
    let res = decoder.decode(&chunk_body_bytes[1..2]);
    let mut chunks = Chunks::new();
    chunks.push(Chunk {
        id: 0,
        state: ChunkState::MetaCrlf,
        size: 5,
        extension: ChunkExt::new(),
        data: &[] as &[u8],
        trailer: None,
    });
    assert_eq!(res, Ok((chunks, &[] as &[u8],)));
    // 5\r
    let res = decoder.decode(&chunk_body_bytes[2..2]);
    let mut chunks = Chunks::new();
    chunks.push(Chunk {
        id: 0,
        state: ChunkState::MetaCrlf,
        size: 5,
        extension: ChunkExt::new(),
        data: &[] as &[u8],
        trailer: None,
    });
    assert_eq!(res, Ok((chunks, &[] as &[u8],)));
    // 5\r\n
    let res = decoder.decode(&chunk_body_bytes[2..3]);
    let mut chunks = Chunks::new();
    chunks.push(Chunk {
        id: 0,
        state: ChunkState::Data,
        size: 5,
        extension: ChunkExt::new(),
        data: &[] as &[u8],
        trailer: None,
    });
    assert_eq!(res, Ok((chunks, &[] as &[u8],)));

    // 5\r\nhe
    let res = decoder.decode(&chunk_body_bytes[3..5]);
    let mut chunks = Chunks::new();
    chunks.push(Chunk {
        id: 0,
        state: ChunkState::Data,
        size: 5,
        extension: ChunkExt::new(),
        data: "he".as_bytes(),
        trailer: None,
    });
    assert_eq!(res, Ok((chunks, &[] as &[u8],)));

    // 5\r\nhello\r
    let res = decoder.decode(&chunk_body_bytes[5..9]);
    let mut chunks = Chunks::new();
    chunks.push(Chunk {
        id: 0,
        state: ChunkState::DataCrlf,
        size: 5,
        extension: ChunkExt::new(),
        data: "llo".as_bytes(),
        trailer: None,
    });
    assert_eq!(res, Ok((chunks, &[] as &[u8],)));

    // 5\r\nhello\r
    let res = decoder.decode(&chunk_body_bytes[9..9]);
    let mut chunks = Chunks::new();
    chunks.push(Chunk {
        id: 0,
        state: ChunkState::DataCrlf,
        size: 5,
        extension: ChunkExt::new(),
        data: &[] as &[u8],
        trailer: None,
    });
    assert_eq!(res, Ok((chunks, &[] as &[u8],)));

    // 5\r\nhello\r\n
    let res = decoder.decode(&chunk_body_bytes[9..10]);
    let mut chunks = Chunks::new();
    chunks.push(Chunk {
        id: 0,
        state: ChunkState::Finish,
        size: 5,
        extension: ChunkExt::new(),
        data: &[] as &[u8],
        trailer: None,
    });
    assert_eq!(res, Ok((chunks, &[] as &[u8],)));

    // 5\r\nhello\r\nC ;
    let res = decoder.decode(&chunk_body_bytes[10..13]);
    let mut chunks = Chunks::new();
    chunks.push(Chunk {
        id: 1,
        state: ChunkState::MetaExt,
        size: 12,
        extension: ChunkExt::new(),
        data: &[] as &[u8],
        trailer: None,
    });
    assert_eq!(res, Ok((chunks, &[] as &[u8],)));

    // 5\r\nhello\r\nC ; type = text ;
    let res = decoder.decode(&chunk_body_bytes[13..27]);
    let mut chunks = Chunks::new();
    chunks.push(Chunk {
        id: 1,
        state: ChunkState::MetaExt,
        size: 12,
        extension: ChunkExt::new(),
        data: &[] as &[u8],
        trailer: None,
    });
    assert_eq!(res, Ok((chunks, &[] as &[u8],)));

    // 5\r\nhello\r\nC ; type = text ;end = !\r\n
    let res = decoder.decode(&chunk_body_bytes[27..36]);
    let mut chunks = Chunks::new();
    chunks.push(Chunk {
        id: 1,
        state: ChunkState::Data,
        size: 12,
        extension: ChunkExt::new(),
        data: &[] as &[u8],
        trailer: None,
    });
    assert_eq!(res, Ok((chunks, &[] as &[u8],)));

    // 5\r\nhello\r\nC ; type = text ;end = !\r\nhello world!\r\n
    let res = decoder.decode(&chunk_body_bytes[36..50]);
    let mut chunks = Chunks::new();
    chunks.push(Chunk {
        id: 1,
        state: ChunkState::Finish,
        size: 12,
        extension: ChunkExt::new(),
        data: "hello world!".as_bytes(),
        trailer: None,
    });
    assert_eq!(res, Ok((chunks, &[] as &[u8],)));

    // 5\r\nhello\r\nC ; type = text ;end = !\r\nhello world!\r\n0
    let res = decoder.decode(&chunk_body_bytes[50..51]);
    let mut chunks = Chunks::new();
    chunks.push(Chunk {
        id: 2,
        state: ChunkState::MetaSize,
        size: 0,
        extension: ChunkExt::new(),
        data: &[] as &[u8],
        trailer: None,
    });
    assert_eq!(res, Ok((chunks, &[] as &[u8],)));

    // 5\r\nhello\r\nC ; type = text ;end = !\r\nhello world!\r\n000;
    let res = decoder.decode(&chunk_body_bytes[51..54]);
    let mut chunks = Chunks::new();
    chunks.push(Chunk {
        id: 2,
        state: ChunkState::MetaExt,
        size: 0,
        extension: ChunkExt::new(),
        data: &[] as &[u8],
        trailer: Some(&[] as &[u8]),
    });
    assert_eq!(res, Ok((chunks, &[] as &[u8],)));

    // 5\r\nhello\r\nC ; type = text ;end = !\r\nhello world!\r\n000; message =
    // last\r\n
    let res = decoder.decode(&chunk_body_bytes[54..71]);
    let mut chunks = Chunks::new();
    chunks.push(Chunk {
        id: 2,
        state: ChunkState::Data,
        size: 0,
        extension: ChunkExt::new(),
        data: &[] as &[u8],
        trailer: Some(&[] as &[u8]),
    });
    assert_eq!(res, Ok((chunks, &[] as &[u8])));
    // 5\r\nhello\r\nC ; type = text ;end = !\r\nhello world!\r\n000; message =
    // last\r\nTrailer: value\r\n
    let res = decoder.decode(&chunk_body_bytes[71..87]);
    let mut chunks = Chunks::new();
    chunks.push(Chunk {
        id: 3,
        state: ChunkState::DataCrlf,
        size: 0,
        extension: ChunkExt::new(),
        data: &[] as &[u8],
        trailer: Some("Trailer: value".as_bytes()),
    });
    assert_eq!(res, Ok((chunks, &[] as &[u8])));
    // 5\r\nhello\r\nC ; type = text ;end = !\r\nhello world!\r\n000;
    // message = last\r\nTrailer: value\r\n\another-trainer: another-value\r\n\
    let res = decoder.decode(&chunk_body_bytes[87..119]);
    let mut chunks = Chunks::new();
    chunks.push(Chunk {
        id: 4,
        state: ChunkState::DataCrlf,
        size: 0,
        extension: ChunkExt::new(),
        data: &[] as &[u8],
        trailer: Some("another-trainer: another-value".as_bytes()),
    });
    assert_eq!(res, Ok((chunks, &[] as &[u8])));
    // 5\r\nhello\r\nC ; type = text ;end = !\r\nhello world!\r\n000;
    // message = last\r\nTrailer: value\r\n\another-trainer: another-value\r\n\r\n\
    let res = decoder.decode(&chunk_body_bytes[119..121]);
    let mut chunks = Chunks::new();
    chunks.push(Chunk {
        id: 5,
        state: ChunkState::Finish,
        size: 0,
        extension: ChunkExt::new(),
        data: &[] as &[u8],
        trailer: Some(&[] as &[u8]),
    });
    assert_eq!(res, Ok((chunks, &[] as &[u8])));
}
#[test]
fn ut_chunk_body_decode_1() {
    let mut decoder = ChunkBodyDecoder::new();
    let chunk_body_bytes = "\
        5\r\n\
        hello\r\n\
        C ; type = text ;end = !\r\n\
        hello world!\r\n\
        000; message = last\r\n\
        \r\n\
        "
    .as_bytes();

    // 5
    let (chunks, remaining) = decoder.decode(chunk_body_bytes).unwrap();
    let mut iter = chunks.iter();
    let chunk = Chunk {
        id: 0,
        state: ChunkState::Finish,
        size: 5,
        extension: ChunkExt::new(),
        data: "hello".as_bytes(),
        trailer: None,
    };
    assert_eq!(iter.next(), Some(&chunk));
    let chunk = Chunk {
        id: 1,
        state: ChunkState::Finish,
        size: 12,
        extension: ChunkExt::new(),
        data: "hello world!".as_bytes(),
        trailer: None,
    };
    assert_eq!(iter.next(), Some(&chunk));
    let chunk = Chunk {
        id: 2,
        state: ChunkState::Finish,
        size: 0,
        extension: ChunkExt::new(),
        data: &[] as &[u8],
        trailer: None,
    };
    assert_eq!(iter.next(), Some(&chunk));
    assert_eq!(iter.next(), None);
    assert_eq!(remaining, "".as_bytes());
}
#[test]
fn ut_chunk_body_decode_2() {
    let mut decoder = ChunkBodyDecoder::new();
    let chunk_body_bytes = "\
        5\r\n\
        hello\r\n\
        C ; type = text ;end = !\r\n\
        hello world!\r\n\
        000; message = last\r\n\
        \r\n\
        "
    .as_bytes();

    // 5
    let (chunks, remaining) = decoder.decode(chunk_body_bytes).unwrap();
    let mut iter = chunks.into_iter();
    let chunk = Chunk {
        id: 0,
        state: ChunkState::Finish,
        size: 5,
        extension: ChunkExt::new(),
        data: "hello".as_bytes(),
        trailer: None,
    };
    assert_eq!(iter.next(), Some(chunk));
    let chunk = Chunk {
        id: 1,
        state: ChunkState::Finish,
        size: 12,
        extension: ChunkExt::new(),
        data: "hello world!".as_bytes(),
        trailer: None,
    };
    assert_eq!(iter.next(), Some(chunk));
    let chunk = Chunk {
        id: 2,
        state: ChunkState::Finish,
        size: 0,
        extension: ChunkExt::new(),
        data: &[] as &[u8],
        trailer: None,
    };
    assert_eq!(iter.next(), Some(chunk));
    assert_eq!(iter.next(), None);
    assert_eq!(remaining, "".as_bytes());
}
#[test]
fn ut_chunk_body_decode_3() {
    let chunk_body_bytes = "\
        5 ; type = text ;end = !\r\n\
        hello world!\r\n\
        000; message = last\r\n\
        \r\n\
        "
    .as_bytes();
    let mut decoder = ChunkBodyDecoder::new();

    // 5
    let res = decoder.decode(chunk_body_bytes);
    assert_eq!(res, Err(ErrorKind::InvalidInput.into()));
}
#[test]
fn ut_chunk_body_decode_4() {
    let chunk_body_bytes = "\
        C ; type = text ;end = !\r\r\n\
        hello world!\r\n\
        000; message = last\r\n\
        Trailer: value\r\n\
        another-trainer: another-value\r\n\
        \r\n\
        "
    .as_bytes();
    let mut decoder = ChunkBodyDecoder::new();

    // 5
    let res = decoder.decode(chunk_body_bytes);
    assert_eq!(res, Err(ErrorKind::InvalidInput.into()));
}
#[test]
fn ut_chunk_body_decode_5() {
    let chunk_body_bytes = " C ; type = text ;end = !\r\n\
        hello world!\r\n\
        000; message = last\r\n\
        Trailer: value\r\n\
        another-trainer: another-value\r\n\
        \r\n\
        "
    .as_bytes();
    let mut decoder = ChunkBodyDecoder::new();
    // 5
    let res = decoder.decode(chunk_body_bytes);
    assert_eq!(res, Err(ErrorKind::InvalidInput.into()));
}
#[test]
fn ut_chunk_body_decode_6() {
    let mut decoder = ChunkBodyDecoder::new();
    let chunk_body_bytes = "\
        5\r\n\
        hello\r\n\
        C ; type = text ;end = !\r\n\
        hello world!\r\n\
        000; message = last\r\n\
        \r\n\
        "
    .as_bytes();

    // 5
    let (chunks, _) = decoder.decode(chunk_body_bytes).unwrap();
    assert_eq!(chunks.iter().len(), 3);
    let chunk = chunks.iter().next().unwrap();
    assert_eq!(
        (
            chunk.id(),
            chunk.state(),
            chunk.size(),
            chunk.extension(),
            chunk.data()
        ),
        (
            0,
            &ChunkState::Finish,
            5,
            &ChunkExt::new(),
            "hello".as_bytes()
        )
    );
}
#[test]
fn ut_chunk_body_decode_7() {
    let mut decoder = ChunkBodyDecoder::new().contains_trailer(true);
    let buf = b"010\r\nAAAAAAAAAAAAAAAA\r\n0\r\ntrailer:value\r\n\r\n";
    let res = decoder.decode(&buf[0..23]); // 010\r\nAAAAAAAAAAAAAAAA\r\n
    let mut chunks = Chunks::new();
    chunks.push(Chunk {
        id: 0,
        state: ChunkState::Finish,
        size: 16,
        extension: ChunkExt::new(),
        data: "AAAAAAAAAAAAAAAA".as_bytes(),
        trailer: None,
    });
    assert_eq!(res, Ok((chunks, &[] as &[u8])));

    let res = decoder.decode(&buf[23..39]); // 0\r\ntrailer:value
    let mut chunks = Chunks::new();
    chunks.push(Chunk {
        id: 1,
        state: ChunkState::Data,
        size: 0,
        extension: ChunkExt::new(),
        data: &[] as &[u8],
        trailer: Some("trailer:value".as_bytes()),
    });
    assert_eq!(res, Ok((chunks, &[] as &[u8])));

    let res = decoder.decode(&buf[39..41]); //\r\n
    let mut chunks = Chunks::new();
    chunks.push(Chunk {
        id: 2,
        state: ChunkState::DataCrlf,
        size: 0,
        extension: ChunkExt::new(),
        data: &[] as &[u8],
        trailer: Some(&[] as &[u8]),
    });
    assert_eq!(res, Ok((chunks, &[] as &[u8])));

    let res = decoder.decode(&buf[41..]); //\r\n
    let mut chunks = Chunks::new();
    chunks.push(Chunk {
        id: 3,
        state: ChunkState::Finish,
        size: 0,
        extension: ChunkExt::new(),
        data: &[] as &[u8],
        trailer: Some(&[] as &[u8]),
    });
    assert_eq!(res, Ok((chunks, &[] as &[u8])));

    let trailer_headers = decoder.get_trailer().unwrap().unwrap();
    let value = trailer_headers.get(b"trailer");
    assert_eq!(value.unwrap().as_slice(), b"value");
}
#[test]
fn ut_chunk_body_decode_8() {
    let mut decoder = ChunkBodyDecoder::new().contains_trailer(true);
    let buf = b"010\r\nAAAAAAAAAAAAAAAA\r\n0\r\ntrailer:value\r\n\r\n";
    let res = decoder.decode(&buf[0..2]); // 01
    let mut chunks = Chunks::new();
    chunks.push(Chunk {
        id: 0,
        state: ChunkState::MetaSize,
        size: 0,
        extension: ChunkExt::new(),
        data: &[] as &[u8],
        trailer: None,
    });
    assert_eq!(res, Ok((chunks, &[] as &[u8])));

    let res = decoder.decode(&buf[2..23]); // 0\r\nAAAAAAAAAAAAAAAA\r\n
    let mut chunks = Chunks::new();
    chunks.push(Chunk {
        id: 0,
        state: ChunkState::Finish,
        size: 16,
        extension: ChunkExt::new(),
        data: "AAAAAAAAAAAAAAAA".as_bytes(),
        trailer: None,
    });
    assert_eq!(res, Ok((chunks, &[] as &[u8])));

    let res = decoder.decode(&buf[23..39]); // 0\r\ntrailer:value
    let mut chunks = Chunks::new();
    chunks.push(Chunk {
        id: 1,
        state: ChunkState::Data,
        size: 0,
        extension: ChunkExt::new(),
        data: &[] as &[u8],
        trailer: Some("trailer:value".as_bytes()),
    });
    assert_eq!(res, Ok((chunks, &[] as &[u8])));

    let res = decoder.decode(&buf[39..41]); //\r\n
    let mut chunks = Chunks::new();
    chunks.push(Chunk {
        id: 2,
        state: ChunkState::DataCrlf,
        size: 0,
        extension: ChunkExt::new(),
        data: &[] as &[u8],
        trailer: Some(&[] as &[u8]),
    });
    assert_eq!(res, Ok((chunks, &[] as &[u8])));

    let res = decoder.decode(&buf[41..]); //\r\n
    let mut chunks = Chunks::new();
    chunks.push(Chunk {
        id: 3,
        state: ChunkState::Finish,
        size: 0,
        extension: ChunkExt::new(),
        data: &[] as &[u8],
        trailer: Some(&[] as &[u8]),
    });
    assert_eq!(res, Ok((chunks, &[] as &[u8])));

    let trailer_headers = decoder.get_trailer().unwrap().unwrap();
    let value = trailer_headers.get(b"trailer");
    assert_eq!(value.unwrap().as_slice(), b"value");
}

fn encode_chunked(data: &[u8]) -> Vec<u8> {
    let mut body = ChunkBody::from_bytes(data);
    let mut out = vec![];
    let mut buf = [0u8; 37];
    loop {
        let n = body.data(&mut buf).unwrap();
        if n == 0 {
            break;
        }
        out.extend_from_slice(&buf[..n]);
    }
    out
}

fn read_back_chunked(data: &[u8]) -> (Vec<(usize, usize, Vec<u8>)>, Vec<u8>) {
    let wire = encode_chunked(data);
    let mut decoder = ChunkBodyDecoder::new();
    let (chunks, left) = decoder.decode(&wire).unwrap();
    let mut items = vec![];
    let mut it = chunks.into_iter();
    while let Some(c) = it.next() {
        assert_eq!(c.state, ChunkState::Finish);
        assert!(c.trailer.is_none());
        items.push((c.id, c.size, c.data.to_vec()));
    }
    (items, left.to_vec())
}

#[test]
fn chunk_body_reads_back() {
    let data: Vec<u8> = (0..2500u32).map(|i| (i % 251) as u8).collect();
    let (items, left) = read_back_chunked(&data);
    assert_eq!(items.len(), 4);
    assert_eq!(items[0], (0, 1024, data[..1024].to_vec()));
    assert_eq!(items[1], (1, 1024, data[1024..2048].to_vec()));
    assert_eq!(items[2], (2, 452, data[2048..].to_vec()));
    assert_eq!(items[3], (3, 0, vec![]));
    assert!(left.is_empty());
    let joined: Vec<u8> = items.iter().flat_map(|i| i.2.clone()).collect();
    assert_eq!(joined, data);
}

#[test]
fn chunk_body_reads_back_whole_chunks() {
    let data = vec![7u8; 2048];
    let (items, left) = read_back_chunked(&data);
    assert_eq!(items.len(), 3);
    assert_eq!(items[1], (1, 1024, vec![7u8; 1024]));
    assert_eq!(items[2], (2, 0, vec![]));
    assert!(left.is_empty());
    let (items, left) = read_back_chunked(b"");
    assert_eq!(items, vec![(0, 0, vec![])]);
    assert!(left.is_empty());
    let wire = encode_chunked(&vec![1u8; 1024]);
    assert_eq!(wire.len(), 1036);
    assert_eq!(&wire[..5], b"400\r\n");
    assert_eq!(&wire[1029..], b"\r\n0\r\n\r\n");
    assert_eq!(encode_chunked(b""), b"0\r\n\r\n".to_vec());
    let (items, left) = read_back_chunked(b"hello");
    assert_eq!(items, vec![(0, 5, b"hello".to_vec()), (1, 0, vec![])]);
    assert!(left.is_empty());
}

#[test]
fn chunk_body_with_trailer_reads_back() {
    let mut headers = Headers::new();
    let _ = headers.insert(b"accept", b"text/html");
    let _ = headers.insert(b"host", b"example.com");
    let mut body = ChunkBody::from_bytes(b"hello").set_trailer(headers);
    let mut wire = vec![];
    let mut buf = [0u8; 11];
    loop {
        let n = body.data(&mut buf).unwrap();
        if n == 0 {
            break;
        }
        wire.extend_from_slice(&buf[..n]);
    }
    let mut decoder = ChunkBodyDecoder::new().contains_trailer(true);
    let (chunks, left) = decoder.decode(&wire).unwrap();
    assert!(left.is_empty());
    let mut items = vec![];
    let mut it = chunks.into_iter();
    while let Some(c) = it.next() {
        items.push((c.id, c.state, c.data.to_vec(), c.trailer.map(|t| t.to_vec())));
    }
    assert_eq!(
        items,
        vec![
            (0, ChunkState::Finish, b"hello".to_vec(), None),
            (1, ChunkState::DataCrlf, vec![], Some(b"accept:text/html".to_vec())),
            (2, ChunkState::DataCrlf, vec![], Some(b"host:example.com".to_vec())),
            (3, ChunkState::Finish, vec![], Some(vec![])),
        ]
    );
    let trailer = decoder.get_trailer().unwrap().unwrap();
    assert_eq!(trailer.get(b"accept"), Some(&b"text/html".to_vec()));
    assert_eq!(trailer.get(b"host"), Some(&b"example.com".to_vec()));
}

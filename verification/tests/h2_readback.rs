use ylong_http::h2::{
    Data, Frame, FrameDecoder, FrameEncoder, FrameFlags, FrameKind, Goaway, Headers, Parts, Payload, Ping, Priority,
    PseudoHeaders, RstStream, Setting, Settings, WindowUpdate,
};

fn encode_all(frame: Frame) -> Vec<u8> {
    let mut encoder = FrameEncoder::new(16384, false);
    encoder.set_frame(frame).unwrap();
    let mut out = vec![];
    let mut buf = [0u8; 7];
    loop {
        let n = encoder.encode(&mut buf).unwrap();
        if n == 0 {
            break;
        }
        out.extend_from_slice(&buf[..n]);
    }
    out
}

fn read_back(frame: Frame) -> Frame {
    let bytes = encode_all(frame);
    let mut decoder = FrameDecoder::new();
    let frames = decoder.decode(&bytes).unwrap();
    assert_eq!(frames.len(), 1);
    match frames.into_iter().next().unwrap() {
        FrameKind::Complete(f) => f,
        FrameKind::Partial => panic!("frame not complete"),
    }
}

#[test]
fn data_frame_reads_back() {
    let f = read_back(Frame::new(3, FrameFlags::new(1), Payload::Data(Data::new(b"hello world".to_vec()))));
    assert_eq!(f.stream_id(), 3);
    assert_eq!(f.flags().bits(), 1);
    match f.payload() {
        Payload::Data(d) => assert_eq!(d.data().as_slice(), b"hello world"),
        _ => panic!("not data"),
    }
    let f = read_back(Frame::new(5, FrameFlags::new(0), Payload::Data(Data::new(vec![]))));
    match f.payload() {
        Payload::Data(d) => assert!(d.data().is_empty()),
        _ => panic!("not data"),
    }
}

#[test]
fn settings_frame_reads_back() {
    let list = vec![
        Setting::HeaderTableSize(4096),
        Setting::EnablePush(false),
        Setting::MaxConcurrentStreams(100),
        Setting::InitialWindowSize(65535),
        Setting::MaxFrameSize(16384),
        Setting::MaxHeaderListSize(8192),
    ];
    let f = read_back(Frame::new(0, FrameFlags::new(0), Payload::Settings(Settings::new(list.clone()))));
    assert_eq!(f.stream_id(), 0);
    match f.payload() {
        Payload::Settings(s) => assert_eq!(s.get_settings(), list.as_slice()),
        _ => panic!("not settings"),
    }
    let f = read_back(Frame::new(0, FrameFlags::new(1), Payload::Settings(Settings::new(vec![]))));
    assert_eq!(f.flags().bits(), 1);
    match f.payload() {
        Payload::Settings(s) => assert!(s.get_settings().is_empty()),
        _ => panic!("not settings"),
    }
}

#[test]
fn control_frames_read_back() {
    let f = read_back(Frame::new(0, FrameFlags::new(1), Payload::Ping(Ping::new([1, 2, 3, 4, 5, 6, 7, 8]))));
    match f.payload() {
        Payload::Ping(p) => assert_eq!(p.data(), [1, 2, 3, 4, 5, 6, 7, 8]),
        _ => panic!("not ping"),
    }
    assert_eq!(f.flags().bits(), 1);

    let f = read_back(Frame::new(7, FrameFlags::new(0), Payload::RstStream(RstStream::new(8))));
    assert_eq!(f.stream_id(), 7);
    match f.payload() {
        Payload::RstStream(r) => assert_eq!(r.error_code(), 8),
        _ => panic!("not rst_stream"),
    }

    let f = read_back(Frame::new(9, FrameFlags::new(0), Payload::WindowUpdate(WindowUpdate::new(0x7fff_ffff))));
    assert_eq!(f.stream_id(), 9);
    match f.payload() {
        Payload::WindowUpdate(w) => assert_eq!(w.get_increment(), 0x7fff_ffff),
        _ => panic!("not window_update"),
    }

    let f = read_back(Frame::new(0, FrameFlags::new(0), Payload::Goaway(Goaway::new(2, 0x1234_5678, b"bye".to_vec()))));
    match f.payload() {
        Payload::Goaway(g) => {
            assert_eq!(g.get_error_code(), 2);
            assert_eq!(g.get_last_stream_id(), 0x1234_5678);
            assert_eq!(g.get_debug_data(), b"bye");
        }
        _ => panic!("not goaway"),
    }

    let f = read_back(Frame::new(11, FrameFlags::new(0), Payload::Priority(Priority::new(true, 0x0102_0304, 200))));
    assert_eq!(f.stream_id(), 11);
    match f.payload() {
        Payload::Priority(p) => {
            assert!(p.get_exclusive());
            assert_eq!(p.get_stream_dependency(), 0x0102_0304);
            assert_eq!(p.get_weight(), 200);
        }
        _ => panic!("not priority"),
    }
}

#[test]
fn headers_frame_reads_back() {
    let mut pseudo = PseudoHeaders::new();
    pseudo.set_method(Some(b"GET".to_vec()));
    pseudo.set_scheme(Some(b"https".to_vec()));
    pseudo.set_path(Some(b"/index.html".to_vec()));
    pseudo.set_authority(Some(b"example.org".to_vec()));
    let mut lines = ylong_http::headers::Headers::new();
    lines.insert(b"accept", b"text/html").unwrap();
    lines.insert(b"x-trace", b"abc123").unwrap();
    let mut parts = Parts::new();
    parts.set_pseudo(pseudo);
    parts.set_header_lines(lines);
    let mut flags = FrameFlags::empty();
    flags.set_end_headers(true);
    flags.set_end_stream(true);
    let f = read_back(Frame::new(5, flags, Payload::Headers(Headers::new(parts))));
    assert_eq!(f.stream_id(), 5);
    assert_eq!(f.flags().bits(), 0x5);
    match f.payload() {
        Payload::Headers(h) => {
            let (pseudo, lines) = h.parts();
            assert_eq!(pseudo.method().unwrap(), b"GET");
            assert_eq!(pseudo.scheme().unwrap(), b"https");
            assert_eq!(pseudo.path().unwrap(), b"/index.html");
            assert_eq!(pseudo.authority().unwrap(), b"example.org");
            assert!(pseudo.status().is_none());
            assert_eq!(lines.len(), 2);
            assert_eq!(lines.get(b"accept").unwrap().as_slice(), b"text/html");
            assert_eq!(lines.get(b"x-trace").unwrap().as_slice(), b"abc123");
        }
        _ => panic!("not headers"),
    }
}

#[test]
fn long_headers_frame_reads_back_through_continuations() {
    let mut pseudo = PseudoHeaders::new();
    pseudo.set_method(Some(b"POST".to_vec()));
    pseudo.set_path(Some(b"/upload".to_vec()));
    let big = vec![b'a'; 40000];
    let mut lines = ylong_http::headers::Headers::new();
    lines.insert(b"x-big", &big).unwrap();
    lines.insert(b"x-small", b"tail").unwrap();
    let mut parts = Parts::new();
    parts.set_pseudo(pseudo);
    parts.set_header_lines(lines);
    let mut flags = FrameFlags::empty();
    flags.set_end_headers(true);
    flags.set_end_stream(true);
    let mut encoder = FrameEncoder::new(16384, false);
    encoder.set_frame(Frame::new(7, flags, Payload::Headers(Headers::new(parts)))).unwrap();
    let mut bytes = vec![];
    let mut buf = [0u8; 4096];
    loop {
        let n = encoder.encode(&mut buf).unwrap();
        if n == 0 {
            break;
        }
        bytes.extend_from_slice(&buf[..n]);
    }
    let mut decoder = FrameDecoder::new();
    let items = decoder.decode(&bytes).unwrap();
    assert_eq!(items.len(), 3);
    let mut it = items.into_iter();
    assert!(matches!(it.next().unwrap(), FrameKind::Partial));
    assert!(matches!(it.next().unwrap(), FrameKind::Partial));
    match it.next().unwrap() {
        FrameKind::Complete(f) => {
            assert_eq!(f.stream_id(), 7);
            assert_eq!(f.flags().bits(), 0x1);
            match f.payload() {
                Payload::Headers(h) => {
                    let (pseudo, lines) = h.parts();
                    assert_eq!(pseudo.method().unwrap(), b"POST");
                    assert_eq!(pseudo.path().unwrap(), b"/upload");
                    assert_eq!(lines.len(), 2);
                    assert_eq!(lines.get(b"x-big").unwrap().as_slice(), big.as_slice());
                    assert_eq!(lines.get(b"x-small").unwrap().as_slice(), b"tail");
                }
                _ => panic!("not headers"),
            }
        }
        FrameKind::Partial => panic!("frame not complete"),
    }
}

#[test]
fn long_data_frame_reads_back_in_pieces() {
    let data: Vec<u8> = (0..250u32).map(|i| i as u8).collect();
    let mut encoder = FrameEncoder::new(100, false);
    encoder.set_frame(Frame::new(3, FrameFlags::new(1), Payload::Data(Data::new(data.clone())))).unwrap();
    let mut bytes = vec![];
    let mut buf = [0u8; 10];
    loop {
        let n = encoder.encode(&mut buf).unwrap();
        if n == 0 {
            break;
        }
        bytes.extend_from_slice(&buf[..n]);
    }
    assert_eq!(bytes.len(), 250 + 27);
    let mut decoder = FrameDecoder::new();
    let frames = decoder.decode(&bytes).unwrap();
    assert_eq!(frames.len(), 3);
    let mut got = vec![];
    let mut flags = vec![];
    let mut it = frames.into_iter();
    while let Some(k) = it.next() {
        match k {
            FrameKind::Complete(f) => {
                flags.push(f.flags().bits());
                match f.payload() {
                    Payload::Data(d) => got.extend_from_slice(d.data().as_slice()),
                    _ => panic!("not data"),
                }
            }
            FrameKind::Partial => panic!("partial"),
        }
    }
    assert_eq!(got, data);
    assert_eq!(flags, vec![0, 0, 1]);
}

#[test]
fn priority_frame_split_across_calls_reads_back() {
    let bytes = encode_all(Frame::new(11, FrameFlags::new(0), Payload::Priority(Priority::new(true, 7, 42))));
    assert_eq!(bytes.len(), 14);
    let mut decoder = FrameDecoder::new();
    let first = decoder.decode(&bytes[..11]).unwrap();
    assert_eq!(first.len(), 0);
    let second = decoder.decode(&bytes[11..]).unwrap();
    assert_eq!(second.len(), 1);
    match second.into_iter().next().unwrap() {
        FrameKind::Complete(f) => match f.payload() {
            Payload::Priority(p) => {
                assert!(p.get_exclusive());
                assert_eq!(p.get_stream_dependency(), 7);
                assert_eq!(p.get_weight(), 42);
            }
            _ => panic!("not priority"),
        },
        FrameKind::Partial => panic!("partial"),
    }
}

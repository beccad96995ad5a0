use ylong_http::h2::decoder::{get_setting, FrameHeader};
use ylong_http::h2::{ErrorCode, FrameDecoder, FrameKind, H2Error, Payload, Setting};

fn hex(s: &str) -> Vec<u8> {
    let b = s.as_bytes();
    let val = |c: u8| -> u8 {
        match c {
            b'0'..=b'9' => c - b'0',
            b'a'..=b'f' => c - b'a' + 10,
            b'A'..=b'F' => c - b'A' + 10,
            _ => panic!("not a hex digit"),
        }
    };
    (0..b.len() / 2).map(|i| val(b[2 * i]) * 16 + val(b[2 * i + 1])).collect()
}

fn check_data(kind: &FrameKind, stream_id: u32, flags: u8, payload: &str) {
    match kind {
        FrameKind::Complete(frame) => {
            assert_eq!(frame.stream_id(), stream_id);
            assert_eq!(frame.flags().bits(), flags);
            match frame.payload() {
                Payload::Data(data) => assert_eq!(data.data().as_slice(), payload.as_bytes()),
                _ => panic!("Unrecognized frame type !"),
            }
        }
        FrameKind::Partial => panic!("Incorrect decode result !"),
    }
}

fn check_headers(kind: &FrameKind, stream_id: u32, flags: u8, pseudo_lines: &[(&str, &str)], lines: &[(&str, &str)]) {
    match kind {
        FrameKind::Complete(frame) => {
            assert_eq!(frame.stream_id(), stream_id);
            assert_eq!(frame.flags().bits(), flags);
            match frame.payload() {
                Payload::Headers(headers_frame) => {
                    let (pseudo, header) = headers_frame.parts();
                    assert_eq!(header.len(), lines.len(), "assert header length failed");
                    for (key, value) in lines.iter() {
                        assert_eq!(header.get(key.as_bytes()).unwrap().as_slice(), value.as_bytes());
                    }
                    for (key, value) in pseudo_lines.iter() {
                        let got = match *key {
                            ":method" => pseudo.method(),
                            ":scheme" => pseudo.scheme(),
                            ":authority" => pseudo.authority(),
                            ":path" => pseudo.path(),
                            ":status" => pseudo.status(),
                            _ => panic!("Unexpected pseudo header input !"),
                        };
                        assert_eq!(got.expect("pseudo header get failed !"), value.as_bytes());
                    }
                }
                _ => panic!("Unrecognized frame type !"),
            }
        }
        FrameKind::Partial => panic!("Incorrect decode result !"),
    }
}

fn decode_error(bytes: &str, header_list_size: usize, max_frame_size: u32, error: H2Error) {
    let mut decoder = FrameDecoder::new();
    decoder.set_max_header_list_size(header_list_size);
    decoder.set_max_frame_size(max_frame_size).expect("Illegal size of SETTINGS_MAX_FRAME_SIZE !");
    let frame_bytes = hex(bytes);
    let decoded_frames = decoder.decode(frame_bytes.as_slice());
    assert!(decoded_frames.is_err());
    assert_eq!(decoded_frames.err().expect("Get Error type failed !"), error);
}

#[test]
fn ut_frame_decoder_with_complete_data_frame() {
    let mut decoder = FrameDecoder::default();
    let frame_bytes = hex("00000b00010000000168656c6c6f20776f726c64");
    let decoded_frames = decoder.decode(frame_bytes.as_slice()).expect("decode frame bytes failed !");
    assert_eq!(decoded_frames.len(), 1);
    let mut frames_iter = decoded_frames.iter();
    check_data(frames_iter.next().expect("take next frame from iterator failed !"), 1, 1, "hello world");
}

#[test]
fn ut_frame_decoder_with_complete_padded_data_frame() {
    let mut decoder = FrameDecoder::default();
    let frame_bytes = hex("0000140008000000020648656C6C6F2C20776F726C6421486F77647921");
    let decoded_frames = decoder.decode(frame_bytes.as_slice()).expect("decode frame bytes failed !");
    assert_eq!(decoded_frames.len(), 1);
    let mut frames_iter = decoded_frames.iter();
    check_data(frames_iter.next().expect("take next frame from iterator failed !"), 2, 8, "Hello, world!");
}

#[test]
fn ut_frame_decoder_with_segmented_data_frame() {
    let mut decoder = FrameDecoder::default();
    let frame_bytes = hex("00000b00010000000168656c6c6f20776f726c640000140008000000020648656C6C6F2C20776F726C6421486F77647921");
    let frame_bytes = frame_bytes.as_slice();
    let decoded_frames = decoder.decode(&frame_bytes[..8]).unwrap();
    assert_eq!(decoded_frames.len(), 0);
    let decoded_frames = decoder.decode(&frame_bytes[8..12]).unwrap();
    assert_eq!(decoded_frames.len(), 0);
    let decoded_frames = decoder.decode(&frame_bytes[12..24]).unwrap();
    assert_eq!(decoded_frames.len(), 1);
    let mut frames_iter = decoded_frames.iter();
    check_data(frames_iter.next().expect("take next frame from iterator failed !"), 1, 1, "hello world");
    let decoded_frames = decoder.decode(&frame_bytes[24..]).unwrap();
    let mut frames_iter = decoded_frames.iter();
    check_data(frames_iter.next().expect("take next frame from iterator failed !"), 2, 8, "Hello, world!");
}

#[test]
fn ut_frame_decoder_with_complete_padded_priority_headers_frame() {
    let mut decoder = FrameDecoder::default();
    let frame_bytes = hex("000040012D000000011080000014098286418a089d5c0b8170dc640007048762c2a0f6d842ff6687089d5c0b8170ff5388352398ac74acb37f546869732069732070616464696E672E");
    let decoded_frames = decoder.decode(frame_bytes.as_slice()).expect("decode frame bytes failed !");
    assert_eq!(decoded_frames.len(), 1);
    let mut frames_iter = decoded_frames.iter();
    check_headers(
        frames_iter.next().expect("take next frame from iterator failed !"),
        1,
        45,
        &[(":method", "GET"), (":scheme", "http"), (":authority", "127.0.0.1:3000"), (":path", "/resource")],
        &[("host", "127.0.0.1"), ("accept", "image/jpeg")],
    );
}

#[test]
fn ut_frame_decoder_with_complete_response_headers_frame() {
    let mut decoder = FrameDecoder::default();
    let frame_bytes = hex("0000390105000000018b0f1385f3ebdfbf5f6496dc34fd2826d4d03b141004ca8015c0b9702053168dff6196dc34fd2826d4d03b141004ca806ee361b82654c5a37f");
    let decoded_frames = decoder.decode(frame_bytes.as_slice()).expect("decode frame bytes failed !");
    assert_eq!(decoded_frames.len(), 1);
    let mut frames_iter = decoded_frames.iter();
    check_headers(
        frames_iter.next().expect("take next frame from iterator failed !"),
        1,
        5,
        &[(":status", "304")],
        &[("etag", "xyzzy"), ("expires", "Sat, 25 Mar 2023 02:16:10 GMT"), ("date", "Sat, 25 Mar 2023 05:51:23 GMT")],
    );
}

#[test]
fn ut_frame_decoder_with_size_exceeded_headers_frame() {
    decode_error(
        "00002a0105000000018286418a089d5c0b8170dc640007048762c2a0f6d842ff6687089d5c0b8170ff5388352398ac74acb37f",
        60,
        2 << 13,
        H2Error::ConnectionError(ErrorCode::ConnectError),
    );
}

#[test]
fn ut_frame_decoder_with_series_request_frames() {
    let mut decoder = FrameDecoder::default();
    let frame_bytes = hex("00002e0100000000018286418a089d5c0b8170dc640007048762c2a0f6d842ff6687089d5c0b8170ff5388352398ac74acb37f0f0d817f0000040904000000010f0d817f0000090001000000017468697320626f6479");
    let decoded_frames = decoder.decode(frame_bytes.as_slice()).unwrap();
    assert_eq!(decoded_frames.len(), 3);
    let mut frames_iter = decoded_frames.iter();
    match frames_iter.next().expect("take next frame from iterator failed !") {
        FrameKind::Complete(_) => panic!("Incorrect decode result !"),
        FrameKind::Partial => {}
    }
    check_headers(
        frames_iter.next().expect("take next frame from iterator failed !"),
        1,
        0,
        &[(":method", "GET"), (":scheme", "http"), (":authority", "127.0.0.1:3000"), (":path", "/resource")],
        &[("host", "127.0.0.1"), ("accept", "image/jpeg"), ("content-length", "9, 9")],
    );
    check_data(frames_iter.next().expect("take next frame from iterator failed !"), 1, 1, "this body");
}

#[test]
fn ut_frame_decoder_with_headers_frame_in_another_stream() {
    decode_error(
        "00002e0100000000018286418a089d5c0b8170dc640007048762c2a0f6d842ff6687089d5c0b8170ff5388352398ac74acb37f0f0d817f00002e0104000000028286418a089d5c0b8170dc640007048762c2a0f6d842ff6687089d5c0b8170ff5388352398ac74acb37f0f0d817f0000040904000000010f0d817f0000090001000000017468697320626f6479",
        16 << 20,
        2 << 13,
        H2Error::ConnectionError(ErrorCode::ProtocolError),
    );
}

#[test]
fn ut_frame_decoder_with_continuation_frame_in_another_stream() {
    decode_error(
        "00002e0100000000018286418a089d5c0b8170dc640007048762c2a0f6d842ff6687089d5c0b8170ff5388352398ac74acb37f0f0d817f0000040904000000020f0d817f0000090001000000017468697320626f6479",
        16 << 20,
        2 << 13,
        H2Error::ConnectionError(ErrorCode::ProtocolError),
    );
}

#[test]
fn ut_frame_decoder_with_padded_end_stream_headers_frame() {
    let mut decoder = FrameDecoder::default();
    let frame_bytes = hex("000040012D000000011080000014098286418a089d5c0b8170dc640007048762c2a0f6d842ff6687089d5c0b8170ff5388352398ac74acb37f546869732069732070616464696E672E");
    let decoded_frames = decoder.decode(frame_bytes.as_slice()).unwrap();
    let frames_kind = decoded_frames.iter().next().unwrap();
    match frames_kind {
        FrameKind::Complete(frame) => {
            assert!(frame.flags().is_padded());
            assert!(frame.flags().is_end_stream());
            assert_eq!(frame.flags().bits(), 0x2D);
        }
        FrameKind::Partial => panic!("Unexpected FrameKind !"),
    }
}

#[test]
fn ut_decode_ping_payload() {
    let mut decoder = FrameDecoder::new();
    decoder.header = FrameHeader { payload_length: 8, frame_type: 0x6, flags: 0x0, stream_id: 0x0 };
    let ping_payload = &[b'p', b'i', b'n', b'g', b't', b'e', b's', b't'];
    let frame_kind = decoder.decode_ping_payload(ping_payload).unwrap();
    match frame_kind {
        FrameKind::Complete(frame) => match frame.payload() {
            Payload::Ping(ping) => {
                let data = ping.data();
                assert_eq!(data.len(), 8);
                assert_eq!(data[0], 112);
                assert_eq!(data[7], 116);
            }
            _ => panic!("Unexpected payload type!"),
        },
        FrameKind::Partial => panic!("Unexpected FrameKind!"),
    }
    decoder.header.payload_length = 7;
    let result = decoder.decode_ping_payload(ping_payload);
    assert!(matches!(result, Err(H2Error::ConnectionError(ErrorCode::FrameSizeError))));
    decoder.header.stream_id = 1;
    let result = decoder.decode_ping_payload(ping_payload);
    assert!(matches!(result, Err(H2Error::ConnectionError(ErrorCode::ProtocolError))));
}

#[test]
fn ut_decode_priority_payload() {
    let mut decoder = FrameDecoder::new();
    decoder.header = FrameHeader { payload_length: 5, frame_type: 0x2, flags: 0x0, stream_id: 0x1 };
    let priority_payload = &[0x80, 0x0, 0x0, 0x1, 0x20];
    let frame_kind = decoder.decode_priority_payload(priority_payload).unwrap();
    match frame_kind {
        FrameKind::Complete(frame) => match frame.payload() {
            Payload::Priority(priority) => {
                assert!(priority.get_exclusive());
                assert_eq!(priority.get_stream_dependency(), 1);
                assert_eq!(priority.get_weight(), 32);
            }
            _ => panic!("Unexpected payload type!"),
        },
        FrameKind::Partial => panic!("Unexpected FrameKind!"),
    }
    decoder.header.stream_id = 0;
    let result = decoder.decode_priority_payload(priority_payload);
    assert!(matches!(result, Err(H2Error::ConnectionError(ErrorCode::ProtocolError))));
}

#[test]
fn ut_decode_goaway_payload() {
    let mut decoder = FrameDecoder::new();
    decoder.header = FrameHeader { payload_length: 13, frame_type: 0x7, flags: 0x0, stream_id: 0x0 };
    let goaway_payload = &[0x0, 0x0, 0x0, 0x1, 0x0, 0x0, 0x0, 0x2, b'd', b'e', b'b', b'u', b'g'];
    let frame_kind = decoder.decode_goaway_payload(goaway_payload).unwrap();
    match frame_kind {
        FrameKind::Complete(frame) => match frame.payload() {
            Payload::Goaway(goaway) => {
                assert_eq!(goaway.get_last_stream_id(), 1);
                assert_eq!(goaway.get_error_code(), 2);
                assert_eq!(goaway.get_debug_data(), b"debug");
            }
            _ => panic!("Unexpected payload type!"),
        },
        FrameKind::Partial => panic!("Unexpected FrameKind!"),
    }
    decoder.header.stream_id = 1;
    let result = decoder.decode_goaway_payload(goaway_payload);
    assert!(matches!(result, Err(H2Error::ConnectionError(ErrorCode::ProtocolError))));
}

#[test]
fn ut_decode_window_update_payload() {
    let mut decoder = FrameDecoder::new();
    decoder.header = FrameHeader { payload_length: 4, frame_type: 0x8, flags: 0x0, stream_id: 0x1 };
    let window_update_payload = &[0x0, 0x0, 0x0, 0x1];
    let frame_kind = decoder.decode_window_update_payload(window_update_payload).unwrap();
    match frame_kind {
        FrameKind::Complete(frame) => match frame.payload() {
            Payload::WindowUpdate(_) => {}
            _ => panic!("Unexpected payload type!"),
        },
        FrameKind::Partial => panic!("Unexpected FrameKind!"),
    }
    decoder.header.payload_length = 5;
    let result = decoder.decode_window_update_payload(window_update_payload);
    assert!(matches!(result, Err(H2Error::ConnectionError(ErrorCode::FrameSizeError))));
}

#[test]
fn ut_decode_reset_payload() {
    let mut decoder = FrameDecoder::new();
    decoder.header = FrameHeader { payload_length: 4, frame_type: 0x3, flags: 0x0, stream_id: 0x1 };
    let reset_payload = &[0x0, 0x0, 0x0, 0x1];
    let frame_kind = decoder.decode_reset_payload(reset_payload).unwrap();
    match frame_kind {
        FrameKind::Complete(frame) => match frame.payload() {
            Payload::RstStream(reset_stream) => assert_eq!(reset_stream.error_code(), 1),
            _ => panic!("Unexpected payload type!"),
        },
        FrameKind::Partial => panic!("Unexpected FrameKind!"),
    }
    decoder.header.payload_length = 5;
    let result = decoder.decode_reset_payload(reset_payload);
    assert!(matches!(result, Err(H2Error::ConnectionError(ErrorCode::FrameSizeError))));
    decoder.header.stream_id = 0;
    let result = decoder.decode_reset_payload(reset_payload);
    assert!(matches!(result, Err(H2Error::ConnectionError(ErrorCode::ProtocolError))));
}

#[test]
fn ut_decode_settings_payload() {
    let mut decoder = FrameDecoder::new();
    decoder.header = FrameHeader { payload_length: 12, frame_type: 0x4, flags: 0x0, stream_id: 0x0 };
    let settings_payload = &[0x00, 0x01, 0x00, 0x00, 0x00, 0x80, 0x00, 0x02, 0x00, 0x00, 0x00, 0x01];
    let frame_kind = decoder.decode_settings_payload(settings_payload).unwrap();
    match frame_kind {
        FrameKind::Complete(frame) => match frame.payload() {
            Payload::Settings(settings) => {
                let settings_vec = settings.get_settings();
                assert_eq!(settings_vec.len(), 2);
                assert_eq!(settings_vec[0], Setting::HeaderTableSize(128));
                assert_eq!(settings_vec[1], Setting::EnablePush(true));
            }
            _ => panic!("Unexpected payload type!"),
        },
        FrameKind::Partial => panic!("Unexpected FrameKind!"),
    }
    decoder.header = FrameHeader { payload_length: 0, frame_type: 0x4, flags: 0x1, stream_id: 0x0 };
    let frame_kind = decoder.decode_settings_payload(&[]).unwrap();
    match frame_kind {
        FrameKind::Complete(frame) => match frame.payload() {
            Payload::Settings(settings) => assert_eq!(settings.get_settings().len(), 0),
            _ => panic!("Unexpected payload type!"),
        },
        FrameKind::Partial => panic!("Unexpected FrameKind!"),
    }
    decoder.header.payload_length = 5;
    let result = decoder.decode_settings_payload(settings_payload);
    assert!(matches!(result, Err(H2Error::ConnectionError(ErrorCode::FrameSizeError))));
    decoder.header.stream_id = 1;
    let result = decoder.decode_settings_payload(settings_payload);
    assert!(matches!(result, Err(H2Error::ConnectionError(ErrorCode::ProtocolError))));
}

#[test]
fn ut_decode_push_promise_payload() {
    let mut decoder = FrameDecoder::new();
    decoder.header = FrameHeader { payload_length: 10, frame_type: 0x5, flags: 0x88, stream_id: 0x1 };
    let push_promise_payload = &[0x0, 0x0, 0x0, 0x2, b'h', b'e', b'l', b'l', b'o', b'w'];
    let frame_kind = decoder.decode_push_promise_payload(push_promise_payload).unwrap();
    match frame_kind {
        FrameKind::Complete(frame) => match frame.payload() {
            Payload::PushPromise(_) => {}
            _ => panic!("Unexpected payload type!"),
        },
        FrameKind::Partial => {}
    }
    decoder.header.payload_length = 3;
    let result = decoder.decode_push_promise_payload(push_promise_payload);
    assert!(matches!(result, Err(H2Error::ConnectionError(ErrorCode::ProtocolError))));
    decoder.header.stream_id = 0;
    let result = decoder.decode_push_promise_payload(push_promise_payload);
    assert!(matches!(result, Err(H2Error::ConnectionError(ErrorCode::ProtocolError))));
}

#[test]
fn ut_get_setting() {
    match get_setting(1, 4096).unwrap() {
        Some(Setting::HeaderTableSize(size)) => assert_eq!(size, 4096),
        _ => panic!("Unexpected Setting!"),
    };
    match get_setting(2, 0).unwrap() {
        Some(Setting::EnablePush(push)) => assert!(!push),
        _ => panic!("Unexpected Setting!"),
    };
    match get_setting(3, 100).unwrap() {
        Some(Setting::MaxConcurrentStreams(streams)) => assert_eq!(streams, 100),
        _ => panic!("Unexpected Setting!"),
    };
    match get_setting(4, 20000).unwrap() {
        Some(Setting::InitialWindowSize(size)) => assert_eq!(size, 20000),
        _ => panic!("Unexpected Setting!"),
    };
    match get_setting(5, 16384).unwrap() {
        Some(Setting::MaxFrameSize(size)) => assert_eq!(size, 16384),
        _ => panic!("Unexpected Setting!"),
    };
    match get_setting(6, 8192).unwrap() {
        Some(Setting::MaxHeaderListSize(size)) => assert_eq!(size, 8192),
        _ => panic!("Unexpected Setting!"),
    };
    match get_setting(7, 1000).unwrap() {
        None => {}
        _ => panic!("Unexpected Setting!"),
    };
    let result = get_setting(2, 2);
    assert!(matches!(result, Err(H2Error::ConnectionError(ErrorCode::ProtocolError))));
    let result = get_setting(4, 2usize.pow(31) as u32);
    assert!(matches!(result, Err(H2Error::ConnectionError(ErrorCode::FlowControlError))));
}

use ylong_http::h2::encoder::FrameEncoderState;
use ylong_http::h2::{
    Data, Frame, FrameEncoder, FrameFlags, FrameType, Goaway, Headers, Parts, Payload, Ping, Priority, PseudoHeaders,
    RstStream, Setting, Settings, WindowUpdate,
};

fn request_parts() -> Parts {
    let mut pseudo = PseudoHeaders::new();
    pseudo.set_method(Some(b"GET".to_vec()));
    pseudo.set_scheme(Some(b"https".to_vec()));
    pseudo.set_path(Some(b"/code".to_vec()));
    pseudo.set_authority(Some(b"example.com".to_vec()));
    let mut parts = Parts::new();
    parts.set_pseudo(pseudo);
    parts
}

fn assert_encoded_data(encoder: &mut FrameEncoder, result: &mut [u8], buf: &mut [u8]) -> usize {
    let mut total = 0;
    loop {
        let size = encoder.encode(buf).unwrap();
        result[total..total + size].copy_from_slice(&buf[..size]);
        total += size;
        if size == 0 {
            break;
        }
    }
    total
}

fn encode_small_frame(encoder: &mut FrameEncoder, buf: &mut [u8], data_payload: Vec<u8>) {
    let data_frame = Frame::new(1, FrameFlags::new(1), Payload::Data(Data::new(data_payload)));
    encoder.set_frame(data_frame).unwrap();
    let mut result = [b'0'; 10 + 9];
    let total = assert_encoded_data(encoder, &mut result, buf);
    assert_eq!(total, 10 + 9);
    assert_eq!(result[4], 0x1);
    assert_eq!(encoder.state(), FrameEncoderState::DataComplete);
}

#[test]
fn ut_data_frame_encoding() {
    let mut encoder = FrameEncoder::new(4096, false);
    let data_payload = b"hhhhhhhhhhhhhhhhhhhhhhhhhhhhhhh".to_vec();
    let data_frame = Frame::new(131, FrameFlags::new(0), Payload::Data(Data::new(data_payload.clone())));
    encoder.set_frame(data_frame).unwrap();
    let mut first_buf = [0u8; 2];
    let mut second_buf = [0u8; 38];
    let first_encoded = encoder.encode(&mut first_buf).unwrap();
    let second_encoded = encoder.encode(&mut second_buf).unwrap();
    assert_eq!(first_encoded, 2);
    assert_eq!(second_encoded, 38);
    assert_eq!(first_buf[0], 0);
    assert_eq!(first_buf[1], 0);
    assert_eq!(second_buf[0], data_payload.len() as u8);
    assert_eq!(second_buf[6], 131);
    for &item in second_buf.iter().skip(7).take(30) {
        assert_eq!(item, 104);
    }
}

#[test]
fn ut_headers_frame_encoding() {
    let mut frame_encoder = FrameEncoder::new(4096, false);
    let mut frame_flag = FrameFlags::empty();
    frame_flag.set_end_headers(true);
    frame_flag.set_end_stream(true);
    let frame = Frame::new(1, frame_flag, Payload::Headers(Headers::new(request_parts())));
    frame_encoder.set_frame(frame).unwrap();
    let mut buf = vec![0; 50];
    let first_encoded = frame_encoder.encode(&mut buf).unwrap();
    assert_eq!(first_encoded, 22 + 9);
    assert_eq!(buf[0], 0);
    assert_eq!(buf[2], 22);
    assert_eq!(buf[3], 0x1);
    assert_eq!(buf[4], 5);
    assert_eq!(buf[8], 1);
    assert_eq!(frame_encoder.state(), FrameEncoderState::HeadersComplete);
}

#[test]
fn ut_settings_frame_encoding() {
    let mut encoder = FrameEncoder::new(4096, false);
    let settings_payload = vec![
        Setting::HeaderTableSize(4096),
        Setting::EnablePush(true),
        Setting::MaxConcurrentStreams(100),
        Setting::InitialWindowSize(65535),
        Setting::MaxFrameSize(16384),
        Setting::MaxHeaderListSize(8192),
    ];
    let settings = Settings::new(settings_payload.clone());
    let settings_frame = Frame::new(0, FrameFlags::new(0), Payload::Settings(settings));
    let mut first_buf = [0u8; 9];
    let mut second_buf = [0u8; 30];
    let mut third_buf = [0u8; 6];
    encoder.set_frame(settings_frame).unwrap();
    let first_encoded = encoder.encode(&mut first_buf).unwrap();
    assert_eq!(encoder.state(), FrameEncoderState::EncodingSettingsPayload);
    let second_encoded = encoder.encode(&mut second_buf).unwrap();
    let third_encoded = encoder.encode(&mut third_buf).unwrap();
    assert_eq!(encoder.state(), FrameEncoderState::DataComplete);
    assert_eq!(first_encoded, 9);
    assert_eq!(second_encoded, 30);
    assert_eq!(third_encoded, 6);
    let mut expected_encoded_settings = [0u8; 60];
    for (i, setting) in settings_payload.iter().enumerate() {
        let offset = i * 6;
        let (id, value) = match setting {
            Setting::HeaderTableSize(v) => (0x1, *v),
            Setting::EnablePush(v) => (0x2, *v as u32),
            Setting::MaxConcurrentStreams(v) => (0x3, *v),
            Setting::InitialWindowSize(v) => (0x4, *v),
            Setting::MaxFrameSize(v) => (0x5, *v),
            Setting::MaxHeaderListSize(v) => (0x6, *v),
        };
        expected_encoded_settings[offset] = (id >> 8) as u8;
        expected_encoded_settings[offset + 1] = (id & 0xFF) as u8;
        expected_encoded_settings[offset + 2] = (value >> 24) as u8;
        expected_encoded_settings[offset + 3] = ((value >> 16) & 0xFF) as u8;
        expected_encoded_settings[offset + 4] = ((value >> 8) & 0xFF) as u8;
        expected_encoded_settings[offset + 5] = (value & 0xFF) as u8;
    }
    let actual_encoded_settings = [&second_buf[..], &third_buf[..]].concat();
    for i in 0..35 {
        assert_eq!(expected_encoded_settings[i], actual_encoded_settings[i]);
    }
}

#[test]
fn ut_ping_frame_encoding() {
    let mut encoder = FrameEncoder::new(4096, false);
    let ping_payload = [1, 2, 3, 4, 5, 6, 7, 8];
    let ping_frame = Frame::new(0, FrameFlags::new(0), Payload::Ping(Ping { data: ping_payload }));
    encoder.set_frame(ping_frame).unwrap();
    let mut first_buf = [0u8; 9];
    let mut second_buf = [0u8; 8];
    let first_encoded = encoder.encode(&mut first_buf).unwrap();
    let second_encoded = encoder.encode(&mut second_buf).unwrap();
    assert_eq!(first_encoded, 9);
    assert_eq!(second_encoded, 8);
    assert_eq!(first_buf[0], 0);
    assert_eq!(first_buf[1], 0);
    assert_eq!(first_buf[2], 8);
    assert_eq!(first_buf[3], FrameType::Ping as u8);
    assert_eq!(first_buf[4], 0);
    assert_eq!(first_buf[5], 0);
    assert_eq!(first_buf[6], 0);
    assert_eq!(first_buf[7], 0);
    assert_eq!(first_buf[8], 0);
    for i in 0..8 {
        assert_eq!(second_buf[i], ping_payload[i]);
    }
}

#[test]
fn ut_continue_frame_encoding() {
    let mut encoder = FrameEncoder::new(4096, false);
    let mut frame_flag = FrameFlags::empty();
    frame_flag.set_end_headers(true);
    frame_flag.set_end_stream(false);
    let frame_1 = Frame::new(1, frame_flag.clone(), Payload::Headers(Headers::new(request_parts())));
    let data_payload = b"hhhhhhhhhhhhhhhhhhhhhhhhhhhhhhh".to_vec();
    let data_frame = Frame::new(1, FrameFlags::new(1), Payload::Data(Data::new(data_payload)));
    let frame_2 = Frame::new(1, frame_flag.clone(), Payload::Headers(Headers::new(request_parts())));
    encoder.set_frame(frame_1).unwrap();
    let mut first_buf = [0u8; 50];
    let first_encoding = encoder.encode(&mut first_buf).unwrap();
    encoder.set_frame(data_frame).unwrap();
    let mut second_buf = [0u8; 50];
    let second_encoding = encoder.encode(&mut second_buf).unwrap();
    encoder.set_frame(frame_2).unwrap();
    let mut third_buf = [0u8; 50];
    let third_encoding = encoder.encode(&mut third_buf).unwrap();
    assert_eq!(first_encoding, 31);
    assert_eq!(second_encoding, 40);
    assert_eq!(third_encoding, 13);
    assert_eq!(first_buf[2], 22);
    assert_eq!(second_buf[2], 31);
    assert_eq!(third_buf[2], 4);
}

#[test]
fn ut_rst_stream_frame_encoding() {
    let mut frame_encoder = FrameEncoder::new(4096, false);
    let error_code: u32 = 12345678;
    let rst_stream_payload = Payload::RstStream(RstStream::new(error_code));
    let frame = Frame::new(1, FrameFlags::empty(), rst_stream_payload);
    frame_encoder.set_frame(frame).unwrap();
    let mut buf = vec![0; 50];
    let first_encoded = frame_encoder.encode(&mut buf).unwrap();
    assert_eq!(first_encoded, 9 + 4);
    assert_eq!(buf[0], 0);
    assert_eq!(buf[2], 4);
    assert_eq!(buf[3], FrameType::RstStream as u8);
    assert_eq!(buf[4], 0);
    assert_eq!(buf[8], 1);
    assert_eq!(&buf[9..13], &error_code.to_be_bytes());
    assert_eq!(frame_encoder.state(), FrameEncoderState::DataComplete);
}

#[test]
fn ut_window_update_frame_encoding() {
    let mut frame_encoder = FrameEncoder::new(4096, false);
    let window_size_increment: u32 = 12345678;
    let window_update_payload = Payload::WindowUpdate(WindowUpdate::new(window_size_increment));
    let frame = Frame::new(0, FrameFlags::empty(), window_update_payload);
    frame_encoder.set_frame(frame).unwrap();
    let mut buf = vec![0; 50];
    let first_encoded = frame_encoder.encode(&mut buf).unwrap();
    assert_eq!(first_encoded, 9 + 4);
    assert_eq!(buf[0], 0);
    assert_eq!(buf[2], 4);
    assert_eq!(buf[3], FrameType::WindowUpdate as u8);
    assert_eq!(buf[4], 0);
    assert_eq!(buf[8], 0);
    assert_eq!(&buf[9..13], &window_size_increment.to_be_bytes());
    assert_eq!(frame_encoder.state(), FrameEncoderState::DataComplete);
}

#[test]
fn ut_priority_frame_encoding() {
    let mut encoder = FrameEncoder::new(4096, false);
    let stream_dependency: u32 = 0x7FFFFFFF;
    let priority_payload = Priority::new(true, stream_dependency, 15);
    let priority_frame = Frame::new(131, FrameFlags::new(0), Payload::Priority(priority_payload));
    encoder.set_frame(priority_frame).unwrap();
    let mut buf = [0u8; 14];
    let encoded = encoder.encode(&mut buf).unwrap();
    assert_eq!(encoded, 14);
    assert_eq!(buf[0], 0);
    assert_eq!(buf[1], 0);
    assert_eq!(buf[2], 5);
    assert_eq!(buf[3], FrameType::Priority as u8);
    assert_eq!(buf[4], 0);
    assert_eq!(buf[5], 0);
    assert_eq!(buf[6], 0);
    assert_eq!(buf[7], 0);
    assert_eq!(buf[8], 131);
    assert_eq!(buf[9], (0x80 | ((stream_dependency >> 24) & 0x7F)) as u8);
    assert_eq!(buf[10], ((stream_dependency >> 16) & 0xFF) as u8);
    assert_eq!(buf[11], ((stream_dependency >> 8) & 0xFF) as u8);
    assert_eq!(buf[12], (stream_dependency & 0xFF) as u8);
    assert_eq!(buf[13], 15);
}

#[test]
fn ut_goaway_frame_encoding() {
    let mut encoder = FrameEncoder::new(4096, false);
    let last_stream_id: u32 = 1;
    let error_code: u32 = 1;
    let debug_data = vec![1, 2, 3, 4, 5];
    let goaway_frame =
        Frame::new(131, FrameFlags::new(0), Payload::Goaway(Goaway::new(error_code, last_stream_id, debug_data.clone())));
    encoder.set_frame(goaway_frame).unwrap();
    let mut first_buf = [0u8; 9];
    let mut second_buf = [0u8; 13];
    let first_encoded = encoder.encode(&mut first_buf).unwrap();
    let second_encoded = encoder.encode(&mut second_buf).unwrap();
    assert_eq!(first_encoded, 9);
    assert_eq!(second_encoded, 13);
    let mut expected_encoded_goaway = [0u8; 13];
    expected_encoded_goaway[0..4].copy_from_slice(&last_stream_id.to_be_bytes());
    expected_encoded_goaway[4..8].copy_from_slice(&error_code.to_be_bytes());
    expected_encoded_goaway[8..13].copy_from_slice(&debug_data[..]);
    assert_eq!(first_buf[0..3], [0u8, 0, 13]);
    assert_eq!(first_buf[3], FrameType::Goaway as u8);
    assert_eq!(first_buf[4], 0);
    assert_eq!(second_buf[..], expected_encoded_goaway[..]);
}

#[test]
fn ut_update_max_frame_size() {
    let mut encoder = FrameEncoder::new(4096, false);
    encoder.update_max_frame_size(8192);
    assert_eq!(encoder.max_frame_size(), 8192);
}

#[test]
fn ut_update_setting() {
    let mut encoder = FrameEncoder::new(4096, false);
    let settings_payload = vec![Setting::MaxFrameSize(4096)];
    let settings = Settings::new(settings_payload);
    let settings_frame = Frame::new(0, FrameFlags::new(0), Payload::Settings(settings));
    encoder.set_frame(settings_frame).unwrap();
    let new_setting = Setting::MaxFrameSize(8192);
    encoder.update_setting(new_setting.clone());
    let frame = encoder.current_frame().expect("a frame is set");
    match frame.payload() {
        Payload::Settings(settings) => {
            let updated_settings = settings.get_settings();
            assert!(updated_settings.iter().any(|s| *s == new_setting));
        }
        _ => panic!("Unexpected payload type!"),
    }
}

#[test]
fn ut_encode_small_data_frame() {
    let mut encoder = FrameEncoder::new(100, false);
    let data_payload = vec![b'a'; 10];
    let mut buf = [0u8; 10];
    encode_small_frame(&mut encoder, &mut buf, data_payload.clone());
    let mut buf = [0u8; 50];
    encode_small_frame(&mut encoder, &mut buf, data_payload.clone());
    let mut buf = [0u8; 200];
    encode_small_frame(&mut encoder, &mut buf, data_payload);
}

#[test]
fn ut_encode_large_data_frame() {
    let mut encoder = FrameEncoder::new(100, false);
    let data_payload = vec![b'a'; 1024];
    let mut buf = [0u8; 10];
    let data_frame = Frame::new(1, FrameFlags::new(0), Payload::Data(Data::new(data_payload.clone())));
    let mut result = [b'0'; 1024 + 9 * 11];
    encoder.set_frame(data_frame).unwrap();
    let total = assert_encoded_data(&mut encoder, &mut result, &mut buf);
    assert_eq!(result[4 + 10 * (9 + 100)], 0x0);
    assert_eq!(total, 1024 + 9 * 11);
    for index in 0..=9 {
        assert_eq!(result[4 + index * (9 + 100)], 0x0);
    }
    assert_eq!(encoder.state(), FrameEncoderState::DataComplete);
    let data_frame = Frame::new(1, FrameFlags::new(1), Payload::Data(Data::new(data_payload)));
    let mut result = [b'0'; 1024 + 9 * 11];
    encoder.set_frame(data_frame).unwrap();
    let total = assert_encoded_data(&mut encoder, &mut result, &mut buf);
    assert_eq!(result[4 + 10 * (9 + 100)], 0x1);
    assert_eq!(total, 1024 + 9 * 11);
    for index in 0..=9 {
        assert_eq!(result[4 + index * (9 + 100)], 0x0);
    }
    assert_eq!(encoder.state(), FrameEncoderState::DataComplete);
}

#[test]
fn data_frame_split_into_consecutive_pieces() {
    let mut e = FrameEncoder::new(2, false);
    e.set_frame(Frame::new(1, FrameFlags::new(1), Payload::Data(Data::new(vec![1, 2, 3, 4])))).unwrap();
    let mut buf = [0u8; 64];
    assert_eq!(e.encode(&mut buf).unwrap(), 22);
    assert_eq!(&buf[..22], &[0, 0, 2, 0, 0, 0, 0, 0, 1, 1, 2, 0, 0, 2, 0, 1, 0, 0, 0, 1, 3, 4]);
    assert_eq!(e.encode(&mut buf).unwrap(), 0);
}

#[test]
fn header_table_size_update_starts_next_block() {
    let mut encoder = FrameEncoder::new(4096, false);
    encoder.update_header_table_size(256);
    let mut flags = FrameFlags::empty();
    flags.set_end_headers(true);
    encoder.set_frame(Frame::new(1, flags, Payload::Headers(Headers::new(request_parts())))).unwrap();
    let mut buf = [0u8; 64];
    let n = encoder.encode(&mut buf).unwrap();
    assert_eq!(buf[3], 0x1);
    assert_eq!(&buf[9..12], &[0x3f, 0xe1, 0x01]);
    assert_eq!(n, 9 + (buf[2] as usize));
    // The update is announced once.
    let mut flags = FrameFlags::empty();
    flags.set_end_headers(true);
    encoder.set_frame(Frame::new(3, flags, Payload::Headers(Headers::new(request_parts())))).unwrap();
    let n = encoder.encode(&mut buf).unwrap();
    assert!(n > 9);
    assert!(buf[9] >= 0x80 || buf[9] < 0x20 || buf[9] >= 0x40);
}

#[test]
fn push_promise_frame_is_accepted_and_writes_nothing() {
    let mut encoder = FrameEncoder::new(4096, false);
    let mut flags = FrameFlags::empty();
    flags.set_end_headers(true);
    let r = encoder.set_frame(Frame::new(1, flags, Payload::PushPromise(ylong_http::h2::PushPromise::new(2, request_parts()))));
    assert!(r.is_ok());
    assert!(encoder.current_frame().is_some());
    let mut buf = [0u8; 16];
    assert_eq!(encoder.encode(&mut buf).unwrap(), 0);
}

#[test]
fn new_headers_frame_drops_unsent_block() {
    let mut encoder = FrameEncoder::new(16384, false);
    let mut big = Parts::new();
    let mut pseudo = PseudoHeaders::new();
    pseudo.set_method(Some(b"GET".to_vec()));
    big.set_pseudo(pseudo);
    let mut lines = ylong_http::headers::Headers::new();
    lines.insert(b"x-big", &vec![b'a'; 40000]).unwrap();
    big.set_header_lines(lines);
    let mut flags = FrameFlags::empty();
    flags.set_end_headers(true);
    encoder.set_frame(Frame::new(1, flags.clone(), Payload::Headers(Headers::new(big)))).unwrap();
    let mut buf = vec![0u8; 100];
    assert_eq!(encoder.encode(&mut buf).unwrap(), 100);
    encoder.set_frame(Frame::new(3, flags, Payload::Headers(Headers::new(request_parts())))).unwrap();
    let mut out = vec![0u8; 4096];
    let n = encoder.encode(&mut out).unwrap();
    assert_eq!(out[3], 0x1);
    assert_eq!(out[4], 0x4);
    assert_eq!(out[8], 3);
    assert_eq!(n, 9 + (out[2] as usize) + ((out[1] as usize) << 8));
    assert_eq!(encoder.encode(&mut out).unwrap(), 0);
}

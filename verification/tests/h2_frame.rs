use ylong_http::h2::{
    Data, ErrorCode, FrameType, Goaway, Headers, Parts, Payload, Ping, Priority, PushPromise, RstStream, Setting,
    Settings, SettingsBuilder, WindowUpdate,
};

#[test]
fn ut_settings_builder() {
    let settings = SettingsBuilder::new()
        .header_table_size(4096)
        .enable_push(true)
        .max_frame_size(16384)
        .max_header_list_size(8192)
        .build();
    let mut setting_iter = settings.get_settings().iter();
    assert_eq!(setting_iter.next(), Some(&Setting::HeaderTableSize(4096)));
    assert_eq!(setting_iter.next(), Some(&Setting::EnablePush(true)));
    assert_eq!(setting_iter.next(), Some(&Setting::MaxFrameSize(16384)));
    assert_eq!(setting_iter.next(), Some(&Setting::MaxHeaderListSize(8192)));
    assert_eq!(setting_iter.next(), None);
}

#[test]
fn ut_ping() {
    let data = [1, 2, 3, 4, 5, 6, 7, 8];
    let ping = Ping::new(data);
    assert_eq!(ping.data(), data);
}

#[test]
fn ut_setting() {
    assert_eq!(Setting::HeaderTableSize(4096).setting_identifier(), 0x01);
    assert_eq!(Setting::EnablePush(true).setting_identifier(), 0x02);
    assert_eq!(Setting::MaxConcurrentStreams(100).setting_identifier(), 0x03);
    assert_eq!(Setting::InitialWindowSize(5000).setting_identifier(), 0x04);
    assert_eq!(Setting::MaxFrameSize(16384).setting_identifier(), 0x05);
    assert_eq!(Setting::MaxHeaderListSize(8192).setting_identifier(), 0x06);
}

#[test]
fn ut_settings() {
    let settings_list = vec![
        Setting::HeaderTableSize(4096),
        Setting::EnablePush(true),
        Setting::MaxFrameSize(16384),
        Setting::MaxHeaderListSize(8192),
    ];
    let settings = Settings::new(settings_list.clone());
    assert_eq!(settings.get_settings(), settings_list.as_slice());
    let encoded_len = settings.encoded_len();
    assert_eq!(encoded_len, settings_list.len() * 6);
}

#[test]
fn ut_payload() {
    let payload_headers = Payload::Headers(Headers::new(Parts::new()));
    assert_eq!(payload_headers.frame_type(), FrameType::Headers);
    assert!(payload_headers.as_headers().is_some());

    let payload_data = Payload::Data(Data::new(b"hh".to_vec()));
    assert_eq!(payload_data.frame_type(), FrameType::Data);
    assert!(payload_data.as_headers().is_none());

    let payload_priority = Payload::Priority(Priority::new(true, 1, 10));
    assert_eq!(payload_priority.frame_type(), FrameType::Priority);
    assert!(payload_priority.as_headers().is_none());

    let payload_rst_stream = Payload::RstStream(RstStream::new(20));
    assert_eq!(payload_rst_stream.frame_type(), FrameType::RstStream);
    assert!(payload_rst_stream.as_headers().is_none());

    let payload_ping = Payload::Ping(Ping::new([0; 8]));
    assert_eq!(payload_ping.frame_type(), FrameType::Ping);
    assert!(payload_ping.as_headers().is_none());

    let payload_goaway = Payload::Goaway(Goaway::new(30, 20, vec![0; 0]));
    assert_eq!(payload_goaway.frame_type(), FrameType::Goaway);
    assert!(payload_goaway.as_headers().is_none());

    let payload_window_update = Payload::WindowUpdate(WindowUpdate::new(1024));
    assert_eq!(payload_window_update.frame_type(), FrameType::WindowUpdate);
    assert!(payload_window_update.as_headers().is_none());

    let payload_push_promise = Payload::PushPromise(PushPromise::new(3, Parts::new()));
    assert_eq!(payload_push_promise.frame_type(), FrameType::PushPromise);
    assert!(payload_push_promise.as_headers().is_none());
}

#[test]
fn ut_test_error_code_try_from() {
    for i in 0x00..=0x0d {
        let error_code = ErrorCode::try_from(i);
        assert!(error_code.is_ok());
    }
    let invalid_error_code = ErrorCode::try_from(0x0e);
    assert!(invalid_error_code.is_err());
}

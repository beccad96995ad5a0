//! HTTP/2 frames: stream identifier, flags and a payload per frame type.
use vstd::prelude::*;
use crate::h2::error::{code_of, ErrorCode, H2Error, StreamId};
use crate::h2::parts::{Parts, PartsView};
use crate::headers;
use crate::pseudo::PseudoHeaders;

verus! {

/// END_STREAM flag: the sender will send no further frame on the stream.
pub const END_STREAM_MASK: u8 = 0x01;

/// Mask for the RST_STREAM flag.
pub const RST_STREAM_MASK: u8 = 0x03;

/// END_HEADERS flag: the frame ends a header block.
pub const END_HEADERS_MASK: u8 = 0x04;

/// PADDED flag: the payload is followed by padding.
pub const PADDED_MASK: u8 = 0x08;

/// PRIORITY flag of a HEADERS frame.
pub const HEADERS_PRIORITY_MASK: u8 = 0x20;

/// ACK flag of SETTINGS and PING frames.
pub const ACK_MASK: u8 = 0x1;

/// An HTTP/2 frame: stream identifier, flags and payload.
pub struct Frame {
    id: StreamId,
    flags: FrameFlags,
    payload: Payload,
}

/// The type of an HTTP/2 frame.
#[derive(PartialEq, Eq, Debug, Clone, Copy)]
pub enum FrameType {
    /// DATA (0x0)
    Data,
    /// HEADERS (0x1)
    Headers,
    /// PRIORITY (0x2)
    Priority,
    /// RST_STREAM (0x3)
    RstStream,
    /// SETTINGS (0x4)
    Settings,
    /// PUSH_PROMISE (0x5)
    PushPromise,
    /// PING (0x6)
    Ping,
    /// GOAWAY (0x7)
    Goaway,
    /// WINDOW_UPDATE (0x8)
    WindowUpdate,
    /// CONTINUATION (0x9)
    Continuation,
}

/// The payload of a frame, by frame type.
pub enum Payload {
    /// HEADERS frame payload.
    Headers(Headers),
    /// DATA frame payload.
    Data(Data),
    /// PRIORITY frame payload.
    Priority(Priority),
    /// RST_STREAM frame payload.
    RstStream(RstStream),
    /// PING frame payload.
    Ping(Ping),
    /// SETTINGS frame payload.
    Settings(Settings),
    /// GOAWAY frame payload.
    Goaway(Goaway),
    /// WINDOW_UPDATE frame payload.
    WindowUpdate(WindowUpdate),
    /// PUSH_PROMISE frame payload.
    PushPromise(PushPromise),
}

/// A parameter carried by a SETTINGS frame.
#[derive(Clone, Copy, PartialEq, Eq, Debug)]
pub enum Setting {
    /// SETTINGS_HEADER_TABLE_SIZE
    HeaderTableSize(u32),
    /// SETTINGS_ENABLE_PUSH
    EnablePush(bool),
    /// SETTINGS_MAX_CONCURRENT_STREAMS
    MaxConcurrentStreams(u32),
    /// SETTINGS_INITIAL_WINDOW_SIZE
    InitialWindowSize(u32),
    /// SETTINGS_MAX_FRAME_SIZE
    MaxFrameSize(u32),
    /// SETTINGS_MAX_HEADER_LIST_SIZE
    MaxHeaderListSize(u32),
}

/// The flags octet of a frame.
#[derive(Clone, Copy, PartialEq, Eq, Debug)]
pub struct FrameFlags(u8);

/// HEADERS frame payload: the decoded header block.
pub struct Headers {
    parts: Parts,
}

/// DATA frame payload, padding removed.
pub struct Data {
    data: Vec<u8>,
}

/// PRIORITY frame payload.
pub struct Priority {
    exclusive: bool,
    stream_dependency: u32,
    weight: u8,
}

/// RST_STREAM frame payload.
pub struct RstStream {
    error_code: u32,
}

/// PING frame payload.
pub struct Ping {
    /// The opaque data of the PING.
    pub data: [u8; 8],
}

/// SETTINGS frame payload.
pub struct Settings {
    settings: Vec<Setting>,
}

/// GOAWAY frame payload.
pub struct Goaway {
    error_code: u32,
    last_stream_id: StreamId,
    debug_data: Vec<u8>,
}

/// WINDOW_UPDATE frame payload.
pub struct WindowUpdate {
    window_size_increment: u32,
}

/// PUSH_PROMISE frame payload.
pub struct PushPromise {
    promised_stream_id: StreamId,
    parts: Parts,
}

/// Builder of a SETTINGS payload.
pub struct SettingsBuilder {
    settings: Vec<Setting>,
}

/// The identifier of a setting on the wire.
pub open spec fn setting_id(s: Setting) -> u16 {
    match s {
        Setting::HeaderTableSize(_) => 0x01,
        Setting::EnablePush(_) => 0x02,
        Setting::MaxConcurrentStreams(_) => 0x03,
        Setting::InitialWindowSize(_) => 0x04,
        Setting::MaxFrameSize(_) => 0x05,
        Setting::MaxHeaderListSize(_) => 0x06,
    }
}

/// The frame type of a payload.
pub open spec fn payload_type(p: Payload) -> FrameType {
    match p {
        Payload::Headers(_) => FrameType::Headers,
        Payload::Data(_) => FrameType::Data,
        Payload::Priority(_) => FrameType::Priority,
        Payload::Ping(_) => FrameType::Ping,
        Payload::RstStream(_) => FrameType::RstStream,
        Payload::Settings(_) => FrameType::Settings,
        Payload::Goaway(_) => FrameType::Goaway,
        Payload::WindowUpdate(_) => FrameType::WindowUpdate,
        Payload::PushPromise(_) => FrameType::PushPromise,
    }
}

/// The abstract value of a frame payload.
pub enum PayloadV {
    /// A HEADERS payload: its header block.
    Headers(PartsView),
    /// A DATA payload: its octets.
    Data(Seq<u8>),
    /// A PRIORITY payload: exclusive flag, stream dependency, weight.
    Priority(bool, u32, u8),
    /// A RST_STREAM payload: its error code.
    RstStream(u32),
    /// A PING payload: its opaque data.
    Ping(Seq<u8>),
    /// A SETTINGS payload: its settings in order.
    Settings(Seq<Setting>),
    /// A GOAWAY payload: error code, last stream identifier, debug data.
    Goaway(u32, StreamId, Seq<u8>),
    /// A WINDOW_UPDATE payload: its increment.
    WindowUpdate(u32),
    /// A PUSH_PROMISE payload: promised stream identifier and header block.
    PushPromise(StreamId, PartsView),
}

/// The abstract value of a payload.
pub open spec fn payload_view(p: Payload) -> PayloadV {
    match p {
        Payload::Headers(h) => PayloadV::Headers(h.block()),
        Payload::Data(d) => PayloadV::Data(d.bytes()),
        Payload::Priority(x) => PayloadV::Priority(x.excl(), x.dependency(), x.wt()),
        Payload::RstStream(x) => PayloadV::RstStream(x.code()),
        Payload::Ping(x) => PayloadV::Ping(x.data@),
        Payload::Settings(x) => PayloadV::Settings(x.list()),
        Payload::Goaway(x) => PayloadV::Goaway(x.code(), x.last_id(), x.debug()),
        Payload::WindowUpdate(x) => PayloadV::WindowUpdate(x.increment()),
        Payload::PushPromise(x) => PayloadV::PushPromise(x.promised(), x.block()),
    }
}

/// The abstract value of a frame: stream identifier, flags octet, payload.
pub type FrameV = (StreamId, u8, PayloadV);

/// The abstract value of a frame.
pub open spec fn frame_view(f: Frame) -> FrameV {
    (f.sid(), f.flag_bits(), payload_view(f.pay()))
}

impl Frame {
    /// The stream identifier.
    pub closed spec fn sid(&self) -> StreamId {
        self.id
    }

    /// The flags octet.
    pub closed spec fn flag_bits(&self) -> u8 {
        self.flags.0
    }

    /// The payload.
    pub closed spec fn pay(&self) -> Payload {
        self.payload
    }

    /// Returns the stream identifier of the frame.
    pub fn stream_id(&self) -> (r: StreamId)
        ensures
            r == self.sid(),
    {
        self.id
    }

    /// Creates a frame from a stream identifier, flags and payload.
    pub fn new(id: StreamId, flags: FrameFlags, payload: Payload) -> (r: Frame)
        ensures
            r.sid() == id,
            r.flag_bits() == flags.bits_of(),
            r.pay() == payload,
    {
        Frame { id, flags, payload }
    }

    /// Returns the flags of the frame.
    pub fn flags(&self) -> (r: &FrameFlags)
        ensures
            r.bits_of() == self.flag_bits(),
    {
        &self.flags
    }

    /// Returns the payload of the frame.
    pub fn payload(&self) -> (r: &Payload)
        ensures
            *r == self.pay(),
    {
        &self.payload
    }

    /// Returns the payload of the frame for modification.
    pub fn payload_mut(&mut self) -> (r: &mut Payload)
        ensures
            *r == old(self).pay(),
            final(self).sid() == old(self).sid(),
            final(self).flag_bits() == old(self).flag_bits(),
            final(self).pay() == *final(r),
    {
        &mut self.payload
    }
}

impl FrameFlags {
    /// The flags octet.
    pub closed spec fn bits_of(&self) -> u8 {
        self.0
    }

    /// Creates flags from an octet.
    pub fn new(flags: u8) -> (r: FrameFlags)
        ensures
            r.bits_of() == flags,
    {
        FrameFlags(flags)
    }

    /// Creates flags with none set.
    pub fn empty() -> (r: FrameFlags)
        ensures
            r.bits_of() == 0,
    {
        FrameFlags(0)
    }

    /// Whether END_STREAM is set.
    pub fn is_end_stream(&self) -> (r: bool)
        ensures
            r == (self.bits_of() & END_STREAM_MASK == END_STREAM_MASK),
    {
        self.0 & END_STREAM_MASK == END_STREAM_MASK
    }

    /// Whether END_HEADERS is set.
    pub fn is_end_headers(&self) -> (r: bool)
        ensures
            r == (self.bits_of() & END_HEADERS_MASK == END_HEADERS_MASK),
    {
        self.0 & END_HEADERS_MASK == END_HEADERS_MASK
    }

    /// Whether PADDED is set.
    pub fn is_padded(&self) -> (r: bool)
        ensures
            r == (self.bits_of() & PADDED_MASK == PADDED_MASK),
    {
        self.0 & PADDED_MASK == PADDED_MASK
    }

    /// Whether ACK is set.
    pub fn is_ack(&self) -> (r: bool)
        ensures
            r == (self.bits_of() & ACK_MASK == ACK_MASK),
    {
        self.0 & ACK_MASK == ACK_MASK
    }

    /// The flags octet.
    pub fn bits(&self) -> (r: u8)
        ensures
            r == self.bits_of(),
    {
        self.0
    }

    /// Sets or clears END_STREAM, leaving the other flags.
    pub fn set_end_stream(&mut self, end_stream: bool)
        ensures
            final(self).bits_of() == if end_stream {
                old(self).bits_of() | END_STREAM_MASK
            } else {
                old(self).bits_of() & !END_STREAM_MASK
            },
    {
        if end_stream {
            self.0 = self.0 | END_STREAM_MASK;
        } else {
            self.0 = self.0 & !END_STREAM_MASK;
        }
    }

    /// Sets or clears END_HEADERS, leaving the other flags.
    pub fn set_end_headers(&mut self, end_headers: bool)
        ensures
            final(self).bits_of() == if end_headers {
                old(self).bits_of() | END_HEADERS_MASK
            } else {
                old(self).bits_of() & !END_HEADERS_MASK
            },
    {
        if end_headers {
            self.0 = self.0 | END_HEADERS_MASK;
        } else {
            self.0 = self.0 & !END_HEADERS_MASK;
        }
    }

    /// Sets or clears PADDED, leaving the other flags.
    pub fn set_padded(&mut self, padded: bool)
        ensures
            final(self).bits_of() == if padded {
                old(self).bits_of() | PADDED_MASK
            } else {
                old(self).bits_of() & !PADDED_MASK
            },
    {
        if padded {
            self.0 = self.0 | PADDED_MASK;
        } else {
            self.0 = self.0 & !PADDED_MASK;
        }
    }
}

/// Setting a flag makes it read back as set, clearing it as cleared, and the
/// other flags keep their value.
pub proof fn lemma_flag_set_get(b: u8)
    ensures
        (b | END_STREAM_MASK) & END_STREAM_MASK == END_STREAM_MASK,
        (b & !END_STREAM_MASK) & END_STREAM_MASK != END_STREAM_MASK,
        (b | END_HEADERS_MASK) & END_HEADERS_MASK == END_HEADERS_MASK,
        (b & !END_HEADERS_MASK) & END_HEADERS_MASK != END_HEADERS_MASK,
        (b | PADDED_MASK) & PADDED_MASK == PADDED_MASK,
        (b & !PADDED_MASK) & PADDED_MASK != PADDED_MASK,
        ((b | END_STREAM_MASK) & END_HEADERS_MASK) == (b & END_HEADERS_MASK),
        ((b | END_STREAM_MASK) & PADDED_MASK) == (b & PADDED_MASK),
        ((b | END_HEADERS_MASK) & END_STREAM_MASK) == (b & END_STREAM_MASK),
        ((b | END_HEADERS_MASK) & PADDED_MASK) == (b & PADDED_MASK),
        ((b | PADDED_MASK) & END_STREAM_MASK) == (b & END_STREAM_MASK),
        ((b | PADDED_MASK) & END_HEADERS_MASK) == (b & END_HEADERS_MASK),
{
    assert((b | 0x01) & 0x01 == 0x01) by (bit_vector);
    assert((b & !0x01u8) & 0x01 != 0x01) by (bit_vector);
    assert((b | 0x04) & 0x04 == 0x04) by (bit_vector);
    assert((b & !0x04u8) & 0x04 != 0x04) by (bit_vector);
    assert((b | 0x08) & 0x08 == 0x08) by (bit_vector);
    assert((b & !0x08u8) & 0x08 != 0x08) by (bit_vector);
    assert(((b | 0x01) & 0x04) == (b & 0x04)) by (bit_vector);
    assert(((b | 0x01) & 0x08) == (b & 0x08)) by (bit_vector);
    assert(((b | 0x04) & 0x01) == (b & 0x01)) by (bit_vector);
    assert(((b | 0x04) & 0x08) == (b & 0x08)) by (bit_vector);
    assert(((b | 0x08) & 0x01) == (b & 0x01)) by (bit_vector);
    assert(((b | 0x08) & 0x04) == (b & 0x04)) by (bit_vector);
}

impl Payload {
    /// The HEADERS payload, if this is one.
    pub fn as_headers(&self) -> (r: Option<&Headers>)
        ensures
            r is Some <==> self is Headers,
            r matches Some(h) ==> *self == Payload::Headers(*h),
    {
        if let Payload::Headers(headers) = self {
            Some(headers)
        } else {
            None
        }
    }

    /// The frame type this payload belongs to.
    pub fn frame_type(&self) -> (r: FrameType)
        ensures
            r == payload_type(*self),
    {
        match self {
            Payload::Headers(_) => FrameType::Headers,
            Payload::Data(_) => FrameType::Data,
            Payload::Priority(_) => FrameType::Priority,
            Payload::Ping(_) => FrameType::Ping,
            Payload::RstStream(_) => FrameType::RstStream,
            Payload::Settings(_) => FrameType::Settings,
            Payload::Goaway(_) => FrameType::Goaway,
            Payload::WindowUpdate(_) => FrameType::WindowUpdate,
            Payload::PushPromise(_) => FrameType::PushPromise,
        }
    }
}

impl Headers {
    /// The header block.
    pub closed spec fn block(&self) -> PartsView {
        self.parts.view_parts()
    }

    /// Creates a HEADERS payload from a header block.
    pub fn new(parts: Parts) -> (r: Headers)
        ensures
            r.block() == parts.view_parts(),
    {
        Headers { parts }
    }

    /// Returns the pseudo headers and the field lines.
    pub fn parts(&self) -> (r: (&PseudoHeaders, &headers::Headers))
        ensures
            (r.0.fields(), r.1.lines()) == self.block(),
    {
        self.parts.parts()
    }

    /// Returns a copy of the header block.
    pub fn get_parts(&self) -> (r: Parts)
        ensures
            r.view_parts() == self.block(),
    {
        self.parts.copy()
    }
}

impl Data {
    /// The data octets.
    pub closed spec fn bytes(&self) -> Seq<u8> {
        self.data@
    }

    /// Creates a DATA payload.
    pub fn new(data: Vec<u8>) -> (r: Data)
        ensures
            r.bytes() == data@,
    {
        Data { data }
    }

    /// Returns the data octets.
    pub fn data(&self) -> (r: &Vec<u8>)
        ensures
            r@ == self.bytes(),
    {
        &self.data
    }

    /// Returns the number of data octets.
    pub fn size(&self) -> (r: usize)
        ensures
            r == self.bytes().len(),
    {
        self.data.len()
    }
}

impl Settings {
    /// The settings, in order.
    pub closed spec fn list(&self) -> Seq<Setting> {
        self.settings@
    }

    /// Creates a SETTINGS payload.
    pub fn new(settings: Vec<Setting>) -> (r: Settings)
        ensures
            r.list() == settings@,
    {
        Settings { settings }
    }

    /// Returns the settings.
    pub fn get_settings(&self) -> (r: &[Setting])
        ensures
            r@ == self.list(),
    {
        self.settings.as_slice()
    }

    /// Replaces the first setting with the same identifier, or appends the
    /// setting when there is none.
    pub fn update_setting(&mut self, setting: Setting)
        ensures
            match first_setting_with_id(old(self).list(), setting_id(setting)) {
                Some(i) => final(self).list() == old(self).list().update(i, setting),
                None => final(self).list() == old(self).list().push(setting),
            },
    {
        let setting_id = setting.setting_identifier();
        let mut i: usize = 0;
        while i < self.settings.len()
            invariant
                i <= self.settings@.len(),
                self.settings@ == old(self).settings@,
                setting_id == crate::h2::frame::setting_id(setting),
                first_setting_with_id(self.settings@, setting_id) == first_setting_from(self.settings@, setting_id, i as int),
            decreases self.settings@.len() - i,
        {
            if self.settings[i].setting_identifier() == setting_id {
                self.settings.set(i, setting);
                return;
            }
            i = i + 1;
        }
        self.settings.push(setting);
    }

    /// The length of the encoded payload: six octets per setting.
    pub fn encoded_len(&self) -> (r: usize)
        requires
            self.list().len() * 6 <= usize::MAX,
        ensures
            r == self.list().len() * 6,
    {
        let settings_count = self.settings.len();
        let setting_size: usize = 6;
        settings_count * setting_size
    }

    /// Returns a SETTINGS frame acknowledging the peer's settings.
    pub fn ack() -> (r: Frame)
        ensures
            r.sid() == 0,
            r.flag_bits() == 0x1,
            r.pay() matches Payload::Settings(s) && s.list().len() == 0,
    {
        Frame::new(0, FrameFlags::new(0x1), Payload::Settings(Settings::new(Vec::new())))
    }
}

/// First index from `i` on of a setting with identifier `id`.
pub open spec fn first_setting_from(s: Seq<Setting>, id: u16, i: int) -> Option<int>
    decreases s.len() - i,
{
    if i < 0 || i >= s.len() {
        None
    } else if setting_id(s[i]) == id {
        Some(i)
    } else {
        first_setting_from(s, id, i + 1)
    }
}

/// First index of a setting with identifier `id`.
pub open spec fn first_setting_with_id(s: Seq<Setting>, id: u16) -> Option<int> {
    first_setting_from(s, id, 0)
}

impl Setting {
    /// The identifier of this setting.
    pub fn setting_identifier(&self) -> (r: u16)
        ensures
            r == setting_id(*self),
    {
        match self {
            Setting::HeaderTableSize(_) => 0x01,
            Setting::EnablePush(_) => 0x02,
            Setting::MaxConcurrentStreams(_) => 0x03,
            Setting::InitialWindowSize(_) => 0x04,
            Setting::MaxFrameSize(_) => 0x05,
            Setting::MaxHeaderListSize(_) => 0x06,
        }
    }
}

impl SettingsBuilder {
    /// The settings collected so far.
    pub closed spec fn list(&self) -> Seq<Setting> {
        self.settings@
    }

    /// Creates a builder with no settings.
    pub fn new() -> (r: SettingsBuilder)
        ensures
            r.list() == Seq::<Setting>::empty(),
    {
        SettingsBuilder { settings: Vec::new() }
    }

    /// Adds SETTINGS_HEADER_TABLE_SIZE.
    pub fn header_table_size(self, size: u32) -> (r: SettingsBuilder)
        ensures
            r.list() == self.list().push(Setting::HeaderTableSize(size)),
    {
        let mut settings = self.settings;
        settings.push(Setting::HeaderTableSize(size));
        SettingsBuilder { settings }
    }

    /// Adds SETTINGS_ENABLE_PUSH.
    pub fn enable_push(self, is_enable: bool) -> (r: SettingsBuilder)
        ensures
            r.list() == self.list().push(Setting::EnablePush(is_enable)),
    {
        let mut settings = self.settings;
        settings.push(Setting::EnablePush(is_enable));
        SettingsBuilder { settings }
    }

    /// Adds SETTINGS_INITIAL_WINDOW_SIZE.
    pub fn initial_window_size(self, size: u32) -> (r: SettingsBuilder)
        ensures
            r.list() == self.list().push(Setting::InitialWindowSize(size)),
    {
        let mut settings = self.settings;
        settings.push(Setting::InitialWindowSize(size));
        SettingsBuilder { settings }
    }

    /// Adds SETTINGS_MAX_FRAME_SIZE.
    pub fn max_frame_size(self, size: u32) -> (r: SettingsBuilder)
        ensures
            r.list() == self.list().push(Setting::MaxFrameSize(size)),
    {
        let mut settings = self.settings;
        settings.push(Setting::MaxFrameSize(size));
        SettingsBuilder { settings }
    }

    /// Adds SETTINGS_MAX_HEADER_LIST_SIZE.
    pub fn max_header_list_size(self, size: u32) -> (r: SettingsBuilder)
        ensures
            r.list() == self.list().push(Setting::MaxHeaderListSize(size)),
    {
        let mut settings = self.settings;
        settings.push(Setting::MaxHeaderListSize(size));
        SettingsBuilder { settings }
    }

    /// Builds the SETTINGS payload.
    pub fn build(self) -> (r: Settings)
        ensures
            r.list() == self.list(),
    {
        Settings::new(self.settings)
    }
}

impl Goaway {
    /// The error code.
    pub closed spec fn code(&self) -> u32 {
        self.error_code
    }

    /// The last stream identifier.
    pub closed spec fn last_id(&self) -> StreamId {
        self.last_stream_id
    }

    /// The debug data.
    pub closed spec fn debug(&self) -> Seq<u8> {
        self.debug_data@
    }

    /// Creates a GOAWAY payload.
    pub fn new(error_code: u32, last_stream_id: StreamId, debug_data: Vec<u8>) -> (r: Goaway)
        ensures
            r.code() == error_code,
            r.last_id() == last_stream_id,
            r.debug() == debug_data@,
    {
        Goaway { error_code, last_stream_id, debug_data }
    }

    /// Returns the debug data.
    pub fn get_debug_data(&self) -> (r: &[u8])
        ensures
            r@ == self.debug(),
    {
        self.debug_data.as_slice()
    }

    /// Returns the last stream identifier processed by the sender.
    pub fn get_last_stream_id(&self) -> (r: StreamId)
        ensures
            r == self.last_id(),
    {
        self.last_stream_id
    }

    /// Returns the error code.
    pub fn get_error_code(&self) -> (r: u32)
        ensures
            r == self.code(),
    {
        self.error_code
    }

    /// Length of the encoded payload: stream identifier, error code and
    /// debug data.
    pub fn encoded_len(&self) -> (r: usize)
        requires
            self.debug().len() + 8 <= usize::MAX,
        ensures
            r == self.debug().len() + 8,
    {
        8 + self.debug_data.len()
    }
}

impl WindowUpdate {
    /// The window size increment.
    pub closed spec fn increment(&self) -> u32 {
        self.window_size_increment
    }

    /// Creates a WINDOW_UPDATE payload.
    pub fn new(window_size_increment: u32) -> (r: WindowUpdate)
        ensures
            r.increment() == window_size_increment,
    {
        WindowUpdate { window_size_increment }
    }

    /// Returns the window size increment.
    pub fn get_increment(&self) -> (r: u32)
        ensures
            r == self.increment(),
    {
        self.window_size_increment
    }

    /// Length of the encoded payload.
    pub fn encoded_len(&self) -> (r: usize)
        ensures
            r == 4,
    {
        4
    }
}

impl Priority {
    /// Whether the dependency is exclusive.
    pub closed spec fn excl(&self) -> bool {
        self.exclusive
    }

    /// The stream dependency.
    pub closed spec fn dependency(&self) -> u32 {
        self.stream_dependency
    }

    /// The weight.
    pub closed spec fn wt(&self) -> u8 {
        self.weight
    }

    /// Creates a PRIORITY payload.
    pub fn new(exclusive: bool, stream_dependency: u32, weight: u8) -> (r: Priority)
        ensures
            r.excl() == exclusive,
            r.dependency() == stream_dependency,
            r.wt() == weight,
    {
        Priority { exclusive, stream_dependency, weight }
    }

    /// Returns whether the dependency is exclusive.
    pub fn get_exclusive(&self) -> (r: bool)
        ensures
            r == self.excl(),
    {
        self.exclusive
    }

    /// Returns the stream dependency.
    pub fn get_stream_dependency(&self) -> (r: u32)
        ensures
            r == self.dependency(),
    {
        self.stream_dependency
    }

    /// Returns the weight.
    pub fn get_weight(&self) -> (r: u8)
        ensures
            r == self.wt(),
    {
        self.weight
    }
}

impl RstStream {
    /// The error code.
    pub closed spec fn code(&self) -> u32 {
        self.error_code
    }

    /// Creates a RST_STREAM payload.
    pub fn new(error_code: u32) -> (r: RstStream)
        ensures
            r.code() == error_code,
    {
        RstStream { error_code }
    }

    /// Returns the error code.
    pub fn error_code(&self) -> (r: u32)
        ensures
            r == self.code(),
    {
        self.error_code
    }

    /// The stream error this frame reports on stream `id`; a code that is
    /// not a known error code gives a connection protocol error.
    pub fn error(&self, id: u32) -> (r: Result<H2Error, H2Error>)
        ensures
            self.code() <= 0x0d <==> r is Ok,
            r matches Ok(H2Error::StreamError(sid, e)) ==> sid == id && code_of(e) == self.code(),
            r matches Ok(e) ==> e is StreamError,
            r matches Err(e) ==> e == H2Error::ConnectionError(ErrorCode::ProtocolError),
    {
        match ErrorCode::try_from(self.error_code) {
            Ok(code) => Ok(H2Error::StreamError(id, code)),
            Err(e) => Err(e),
        }
    }

    /// Whether the error code is NO_ERROR.
    pub fn is_no_error(&self) -> (r: bool)
        ensures
            r == (self.code() == 0),
    {
        self.error_code == 0
    }
}

impl Ping {
    /// Creates a PING payload.
    pub fn new(data: [u8; 8]) -> (r: Ping)
        ensures
            r.data == data,
    {
        Ping { data }
    }

    /// Returns the opaque data.
    pub fn data(&self) -> (r: [u8; 8])
        ensures
            r == self.data,
    {
        self.data
    }

    /// Returns a PING frame acknowledging `ping`.
    pub fn ack(ping: Ping) -> (r: Frame)
        ensures
            r.sid() == 0,
            r.flag_bits() == 0x1,
            r.pay() == Payload::Ping(ping),
    {
        Frame::new(0, FrameFlags::new(0x1), Payload::Ping(ping))
    }
}

impl PushPromise {
    /// The promised stream identifier.
    pub closed spec fn promised(&self) -> StreamId {
        self.promised_stream_id
    }

    /// The header block.
    pub closed spec fn block(&self) -> PartsView {
        self.parts.view_parts()
    }

    /// Creates a PUSH_PROMISE payload.
    pub fn new(promised_stream_id: StreamId, parts: Parts) -> (r: PushPromise)
        ensures
            r.promised() == promised_stream_id,
            r.block() == parts.view_parts(),
    {
        PushPromise { promised_stream_id, parts }
    }
}

} // verus!

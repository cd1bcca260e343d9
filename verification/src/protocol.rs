//! The Xiaozhi wire protocol: binary audio frames (versions 1, 2 and 3).

use vstd::prelude::*;
use crate::json::{lemma_members_of_empty, members, members_of, push_member, value_of, Json, JsonValue};

verus! {

/// Sample rate of the audio the client sends, in Hz.
pub const CLIENT_SAMPLE_RATE: u32 = 16_000;

/// Channel count of the audio the client sends.
pub const CLIENT_CHANNELS: u16 = 1;

/// Duration of one uplink Opus frame, in milliseconds.
pub const CLIENT_FRAME_DURATION_MS: u32 = 60;

/// Sample rate the server uses when its hello does not name one, in Hz.
pub const SERVER_SAMPLE_RATE_DEFAULT: u32 = 24_000;

/// Duration of one downlink Opus frame, in milliseconds.
pub const SERVER_FRAME_DURATION_MS_DEFAULT: u32 = 60;

/// Version of the binary audio framing negotiated in the hello handshake.
#[derive(Debug, Clone, Copy, PartialEq, Eq, Structural)]
pub enum BinaryProtocolVersion {
    V1,
    V2,
    V3,
}

/// The version that a version number names, if any.
pub open spec fn version_of_number(v: u8) -> Option<BinaryProtocolVersion> {
    if v == 1 {
        Some(BinaryProtocolVersion::V1)
    } else if v == 2 {
        Some(BinaryProtocolVersion::V2)
    } else if v == 3 {
        Some(BinaryProtocolVersion::V3)
    } else {
        None
    }
}

/// The number of a version.
pub open spec fn number_of_version(v: BinaryProtocolVersion) -> u8 {
    match v {
        BinaryProtocolVersion::V1 => 1,
        BinaryProtocolVersion::V2 => 2,
        BinaryProtocolVersion::V3 => 3,
    }
}

impl BinaryProtocolVersion {
    /// The version with number `v`; `None` for any number but 1, 2 and 3.
    pub fn from_u8(v: u8) -> (res: Option<BinaryProtocolVersion>)
        ensures
            res == version_of_number(v),
    {
        match v {
            1 => Some(BinaryProtocolVersion::V1),
            2 => Some(BinaryProtocolVersion::V2),
            3 => Some(BinaryProtocolVersion::V3),
            _ => None,
        }
    }

    /// The number of this version.
    pub fn as_u8(self) -> (res: u8)
        ensures
            res == number_of_version(self),
    {
        match self {
            BinaryProtocolVersion::V1 => 1,
            BinaryProtocolVersion::V2 => 2,
            BinaryProtocolVersion::V3 => 3,
        }
    }
}

/// Each version survives the trip to its number and back, and a number that
/// names a version is that version's number.
pub proof fn lemma_version_number_roundtrip(v: BinaryProtocolVersion, n: u8)
    ensures
        version_of_number(number_of_version(v)) == Some(v),
        version_of_number(n) == Some(v) ==> number_of_version(v) == n,
{
}

/// One frame of encoded audio with its timestamp.
#[derive(Debug, Clone)]
pub struct AudioFrame {
    pub timestamp: u32,
    pub payload: Vec<u8>,
}

/// The big-endian value of the two bytes `hi`, `lo`.
pub open spec fn be16(hi: u8, lo: u8) -> int {
    hi as int * 256 + lo as int
}

/// The big-endian value of the four bytes of `s` from index `i`.
pub open spec fn be32(s: Seq<u8>, i: int) -> int {
    s[i] as int * 16777216 + s[i + 1] as int * 65536 + s[i + 2] as int * 256 + s[i + 3] as int
}

/// The two big-endian bytes of `x` modulo 2^16.
pub open spec fn be16_bytes(x: int) -> Seq<u8> {
    seq![((x / 256) % 256) as u8, (x % 256) as u8]
}

/// The four big-endian bytes of `x` modulo 2^32.
pub open spec fn be32_bytes(x: int) -> Seq<u8> {
    seq![
        ((x / 16777216) % 256) as u8,
        ((x / 65536) % 256) as u8,
        ((x / 256) % 256) as u8,
        (x % 256) as u8,
    ]
}

/// What a received binary message decodes to under `version`, as a timestamp
/// and a payload; `None` where the message is malformed or not audio.
///
/// - V1: the whole message is the payload, the timestamp is 0.
/// - V2: a 16-byte header (version, type, reserved, timestamp, payload size,
///   big-endian); the type must be 0 and the size must fit in what follows.
/// - V3: a 4-byte header (type, reserved, payload size as 16 bits); the type
///   must be 0 and the size must fit in what follows; the timestamp is 0.
pub open spec fn decoded_frame(version: BinaryProtocolVersion, data: Seq<u8>) -> Option<(u32, Seq<u8>)> {
    match version {
        BinaryProtocolVersion::V1 => Some((0u32, data)),
        BinaryProtocolVersion::V2 => {
            if data.len() < 16 {
                None
            } else if be16(data[2], data[3]) != 0 {
                None
            } else if be32(data, 12) > data.len() - 16 {
                None
            } else {
                Some((be32(data, 8) as u32, data.subrange(16, 16 + be32(data, 12))))
            }
        },
        BinaryProtocolVersion::V3 => {
            if data.len() < 4 {
                None
            } else if data[0] != 0 {
                None
            } else if be16(data[2], data[3]) > data.len() - 4 {
                None
            } else {
                Some((0u32, data.subrange(4, 4 + be16(data[2], data[3]))))
            }
        },
    }
}

/// The bytes that a frame with `timestamp` and `payload` is sent as under
/// `version`. The size field holds the payload length modulo 2^32 (V2) or
/// 2^16 (V3).
pub open spec fn encoded_frame(version: BinaryProtocolVersion, timestamp: u32, payload: Seq<u8>) -> Seq<u8> {
    match version {
        BinaryProtocolVersion::V1 => payload,
        BinaryProtocolVersion::V2 => be16_bytes(2) + be16_bytes(0) + be32_bytes(0) + be32_bytes(
            timestamp as int,
        ) + be32_bytes(payload.len() as int % 0x1_0000_0000) + payload,
        BinaryProtocolVersion::V3 => seq![0u8, 0u8] + be16_bytes(payload.len() as int % 0x1_0000)
            + payload,
    }
}

fn read_be16(data: &[u8], i: usize) -> (r: u16)
    requires
        i + 2 <= data@.len(),
    ensures
        r as int == be16(data@[i as int], data@[i + 1]),
{
    data[i] as u16 * 256 + data[i + 1] as u16
}

fn read_be32(data: &[u8], i: usize) -> (r: u32)
    requires
        i + 4 <= data@.len(),
    ensures
        r as int == be32(data@, i as int),
{
    data[i] as u32 * 16777216 + data[i + 1] as u32 * 65536 + data[i + 2] as u32 * 256
        + data[i + 3] as u32
}

fn copy_range(data: &[u8], from: usize, to: usize) -> (out: Vec<u8>)
    requires
        from <= to <= data@.len(),
    ensures
        out@ == data@.subrange(from as int, to as int),
{
    let mut out: Vec<u8> = Vec::new();
    let mut i = from;
    while i < to
        invariant
            from <= i <= to <= data@.len(),
            out@ == data@.subrange(from as int, i as int),
        decreases to - i,
    {
        out.push(data[i]);
        i = i + 1;
    }
    out
}

/// Decodes a server-to-client binary audio message. The server sends V1 (raw
/// Opus) by the protocol, but V2 and V3 framing is accepted as well.
pub fn decode_audio_frame(version: BinaryProtocolVersion, data: &[u8]) -> (res: Option<AudioFrame>)
    ensures
        match decoded_frame(version, data@) {
            Some((ts, payload)) => res matches Some(f) && f.timestamp == ts && f.payload@ == payload,
            None => res is None,
        },
{
    match version {
        BinaryProtocolVersion::V1 => Some(AudioFrame { timestamp: 0, payload: copy_range(data, 0, data.len()) }),
        BinaryProtocolVersion::V2 => {
            if data.len() < 16 {
                return None;
            }
            let typ = read_be16(data, 2);
            if typ != 0 {
                return None;
            }
            let timestamp = read_be32(data, 8);
            let payload_size = read_be32(data, 12) as usize;
            if payload_size > data.len() - 16 {
                return None;
            }
            Some(AudioFrame { timestamp, payload: copy_range(data, 16, 16 + payload_size) })
        },
        BinaryProtocolVersion::V3 => {
            if data.len() < 4 {
                return None;
            }
            let typ = data[0];
            if typ != 0 {
                return None;
            }
            let payload_size = read_be16(data, 2) as usize;
            if payload_size > data.len() - 4 {
                return None;
            }
            Some(AudioFrame { timestamp: 0, payload: copy_range(data, 4, 4 + payload_size) })
        },
    }
}

fn push_be16(out: &mut Vec<u8>, x: u16)
    ensures
        final(out)@ == old(out)@ + be16_bytes(x as int),
{
    out.push((x / 256) as u8);
    out.push((x % 256) as u8);
}

fn push_be32(out: &mut Vec<u8>, x: u32)
    ensures
        final(out)@ == old(out)@ + be32_bytes(x as int),
{
    out.push((x / 16777216) as u8);
    out.push(((x / 65536) % 256) as u8);
    out.push(((x / 256) % 256) as u8);
    out.push((x % 256) as u8);
}

fn push_all(out: &mut Vec<u8>, src: &[u8])
    ensures
        final(out)@ == old(out)@ + src@,
{
    let mut i: usize = 0;
    while i < src.len()
        invariant
            i <= src@.len(),
            out@ == old(out)@ + src@.subrange(0, i as int),
        decreases src@.len() - i,
    {
        out.push(src[i]);
        i = i + 1;
    }
}

/// Encodes a client-to-server binary audio message.
pub fn encode_audio_frame(version: BinaryProtocolVersion, frame: &AudioFrame) -> (res: Vec<u8>)
    ensures
        res@ == encoded_frame(version, frame.timestamp, frame.payload@),
{
    let mut out: Vec<u8> = Vec::new();
    let len = frame.payload.len();
    match version {
        BinaryProtocolVersion::V1 => {},
        BinaryProtocolVersion::V2 => {
            push_be16(&mut out, 2);
            push_be16(&mut out, 0);
            push_be32(&mut out, 0);
            push_be32(&mut out, frame.timestamp);
            let size: u32 = (len as u64 % 0x1_0000_0000u64) as u32;
            push_be32(&mut out, size);
        },
        BinaryProtocolVersion::V3 => {
            out.push(0);
            out.push(0);
            let size: u16 = (len % 0x1_0000) as u16;
            push_be16(&mut out, size);
        },
    }
    let ghost header = out@;
    push_all(&mut out, frame.payload.as_slice());
    assert(out@ == header + frame.payload@);
    out
}

/// The hello message the client opens a session with.
pub open spec fn hello_document(version: u8) -> Json {
    Json::Object(
        seq![
            ("type"@, Json::Str("hello"@)),
            ("version"@, Json::UInt(version as u64)),
            ("features"@, Json::Object(seq![("mcp"@, Json::Bool(false)), ("aec"@, Json::Bool(false))])),
            ("transport"@, Json::Str("websocket"@)),
            ("audio_params"@, Json::Object(
                seq![
                    ("format"@, Json::Str("opus"@)),
                    ("sample_rate"@, Json::UInt(CLIENT_SAMPLE_RATE as u64)),
                    ("channels"@, Json::UInt(CLIENT_CHANNELS as u64)),
                    ("frame_duration"@, Json::UInt(CLIENT_FRAME_DURATION_MS as u64)),
                ],
            )),
        ],
    )
}

/// The hello announces the version it is given: its second member is
/// `version: v`, so hellos for different versions differ.
pub proof fn lemma_hello_announces_version(v: u8, w: u8)
    ensures
        members(hello_document(v)).len() == 5,
        members(hello_document(v))[0] == ("type"@, Json::Str("hello"@)),
        members(hello_document(v))[1] == ("version"@, Json::UInt(v as u64)),
        hello_document(v) == hello_document(w) <==> v == w,
{
    if hello_document(v) == hello_document(w) {
        assert(members(hello_document(v))[1] == members(hello_document(w))[1]);
    }
}

/// Whatever the version, the hello offers the WebSocket transport and 16 kHz
/// mono Opus in 60 ms frames, and turns MCP and echo cancellation off.
pub proof fn lemma_hello_describes_client(v: u8)
    ensures
        members(hello_document(v))[2] == ("features"@, Json::Object(
            seq![("mcp"@, Json::Bool(false)), ("aec"@, Json::Bool(false))],
        )),
        members(hello_document(v))[3] == ("transport"@, Json::Str("websocket"@)),
        members(hello_document(v))[4] == ("audio_params"@, Json::Object(
            seq![
                ("format"@, Json::Str("opus"@)),
                ("sample_rate"@, Json::UInt(16000u64)),
                ("channels"@, Json::UInt(1u64)),
                ("frame_duration"@, Json::UInt(60u64)),
            ],
        )),
{
}

/// The message that starts listening in `mode`.
pub open spec fn listen_start_document(session_id: Seq<char>, mode: Seq<char>) -> Json {
    Json::Object(
        seq![
            ("session_id"@, Json::Str(session_id)),
            ("type"@, Json::Str("listen"@)),
            ("state"@, Json::Str("start"@)),
            ("mode"@, Json::Str(mode)),
        ],
    )
}

/// The message that stops listening.
pub open spec fn listen_stop_document(session_id: Seq<char>) -> Json {
    Json::Object(
        seq![
            ("session_id"@, Json::Str(session_id)),
            ("type"@, Json::Str("listen"@)),
            ("state"@, Json::Str("stop"@)),
        ],
    )
}

/// The message that interrupts the server's reply.
pub open spec fn abort_document(session_id: Seq<char>, reason: Seq<char>) -> Json {
    Json::Object(
        seq![
            ("session_id"@, Json::Str(session_id)),
            ("type"@, Json::Str("abort"@)),
            ("reason"@, Json::Str(reason)),
        ],
    )
}

fn str_value(s: &str) -> (res: JsonValue)
    ensures
        value_of(res) == Json::Str(s@),
{
    JsonValue::Str(s.to_owned())
}

/// The client hello announcing binary protocol `version` and the uplink audio
/// parameters.
pub fn hello(version: u8) -> (res: JsonValue)
    ensures
        value_of(res) == hello_document(version),
{
    proof {
        lemma_members_of_empty();
    }
    let mut features: Vec<(String, JsonValue)> = Vec::new();
    push_member(&mut features, "mcp", JsonValue::Bool(false));
    push_member(&mut features, "aec", JsonValue::Bool(false));
    let mut params: Vec<(String, JsonValue)> = Vec::new();
    push_member(&mut params, "format", str_value("opus"));
    push_member(&mut params, "sample_rate", JsonValue::UInt(CLIENT_SAMPLE_RATE as u64));
    push_member(&mut params, "channels", JsonValue::UInt(CLIENT_CHANNELS as u64));
    push_member(&mut params, "frame_duration", JsonValue::UInt(CLIENT_FRAME_DURATION_MS as u64));
    let ghost features_doc = members_of(features@);
    let ghost params_doc = members_of(params@);
    let mut fields: Vec<(String, JsonValue)> = Vec::new();
    push_member(&mut fields, "type", str_value("hello"));
    push_member(&mut fields, "version", JsonValue::UInt(version as u64));
    push_member(&mut fields, "features", JsonValue::Object(features));
    push_member(&mut fields, "transport", str_value("websocket"));
    push_member(&mut fields, "audio_params", JsonValue::Object(params));
    assert(features_doc =~= members(members(hello_document(version))[2].1));
    assert(params_doc =~= members(members(hello_document(version))[4].1));
    assert(members_of(fields@) =~= members(hello_document(version)));
    JsonValue::Object(fields)
}

/// The message that starts listening in `mode` within session `session_id`.
pub fn listen_start(session_id: &str, mode: &str) -> (res: JsonValue)
    ensures
        value_of(res) == listen_start_document(session_id@, mode@),
{
    proof {
        lemma_members_of_empty();
    }
    let mut fields: Vec<(String, JsonValue)> = Vec::new();
    push_member(&mut fields, "session_id", str_value(session_id));
    push_member(&mut fields, "type", str_value("listen"));
    push_member(&mut fields, "state", str_value("start"));
    push_member(&mut fields, "mode", str_value(mode));
    assert(members_of(fields@) =~= members(listen_start_document(session_id@, mode@)));
    JsonValue::Object(fields)
}

/// The message that stops listening within session `session_id`.
pub fn listen_stop(session_id: &str) -> (res: JsonValue)
    ensures
        value_of(res) == listen_stop_document(session_id@),
{
    proof {
        lemma_members_of_empty();
    }
    let mut fields: Vec<(String, JsonValue)> = Vec::new();
    push_member(&mut fields, "session_id", str_value(session_id));
    push_member(&mut fields, "type", str_value("listen"));
    push_member(&mut fields, "state", str_value("stop"));
    assert(members_of(fields@) =~= members(listen_stop_document(session_id@)));
    JsonValue::Object(fields)
}

/// The message that interrupts the reply in session `session_id`, giving
/// `reason`.
pub fn abort(session_id: &str, reason: &str) -> (res: JsonValue)
    ensures
        value_of(res) == abort_document(session_id@, reason@),
{
    proof {
        lemma_members_of_empty();
    }
    let mut fields: Vec<(String, JsonValue)> = Vec::new();
    push_member(&mut fields, "session_id", str_value(session_id));
    push_member(&mut fields, "type", str_value("abort"));
    push_member(&mut fields, "reason", str_value(reason));
    assert(members_of(fields@) =~= members(abort_document(session_id@, reason@)));
    JsonValue::Object(fields)
}

/// The version to speak for a negotiated version number: V3 for a number
/// that names no version.
pub open spec fn version_or_default(v: u8) -> BinaryProtocolVersion {
    match version_of_number(v) {
        Some(x) => x,
        None => BinaryProtocolVersion::V3,
    }
}

/// The version to speak for a negotiated version number: V3 for a number that
/// names no version.
pub fn negotiated_version(v: u8) -> (res: BinaryProtocolVersion)
    ensures
        res == version_or_default(v),
{
    match BinaryProtocolVersion::from_u8(v) {
        Some(x) => x,
        None => BinaryProtocolVersion::V3,
    }
}

/// Version numbers 1, 2 and 3 negotiate V1, V2 and V3; every other number
/// negotiates V3. In particular each version's own number negotiates it.
pub proof fn lemma_negotiated_version(n: u8, x: BinaryProtocolVersion)
    ensures
        n == 1 ==> version_or_default(n) == BinaryProtocolVersion::V1,
        n == 2 ==> version_or_default(n) == BinaryProtocolVersion::V2,
        n == 3 ==> version_or_default(n) == BinaryProtocolVersion::V3,
        (n == 0 || n > 3) ==> version_or_default(n) == BinaryProtocolVersion::V3,
        version_or_default(number_of_version(x)) == x,
        version_of_number(n) == Some(x) ==> version_or_default(n) == x,
{
}

/// Frames encoded uplink audio: frame `k` of the stream (counting from 0,
/// modulo 2^32) carries the timestamp `k * 60` ms modulo 2^32.
pub struct UplinkFramer {
    pub version: BinaryProtocolVersion,
    /// The number of the next frame.
    pub next_index: u32,
}

impl UplinkFramer {
    /// A framer for `version` whose first frame is number 0.
    pub fn new(version: BinaryProtocolVersion) -> (f: UplinkFramer)
        ensures
            f.version == version,
            f.next_index == 0,
    {
        UplinkFramer { version, next_index: 0 }
    }

    /// The message for the next frame's Opus `payload`.
    pub fn frame(&mut self, payload: Vec<u8>) -> (msg: Vec<u8>)
        ensures
            msg@ == encoded_frame(
                old(self).version,
                ((old(self).next_index as int * CLIENT_FRAME_DURATION_MS as int) % 0x1_0000_0000) as u32,
                payload@,
            ),
            final(self).version == old(self).version,
            final(self).next_index as int == (old(self).next_index as int + 1) % 0x1_0000_0000,
    {
        let timestamp = ((self.next_index as u64 * CLIENT_FRAME_DURATION_MS as u64) % 0x1_0000_0000u64) as u32;
        let frame = AudioFrame { timestamp, payload };
        let msg = encode_audio_frame(self.version, &frame);
        self.next_index = ((self.next_index as u64 + 1) % 0x1_0000_0000u64) as u32;
        msg
    }
}

/// A JSON message from the server: its session, its type, and all its other
/// members.
#[derive(Debug)]
pub struct IncomingJson {
    pub session_id: Option<String>,
    pub typ: String,
    /// The members other than `session_id` and `type`, as an object.
    pub extra: JsonValue,
}

/// The characters of an optional string.
pub open spec fn opt_text(o: Option<&str>) -> Option<Seq<char>> {
    match o {
        Some(s) => Some(s@),
        None => None,
    }
}

/// The string under `key` among the members of `v`, if there is a string there.
pub open spec fn member_text(v: JsonValue, key: Seq<char>) -> Option<Seq<char>> {
    match v.member(key) {
        Some(x) => x.text(),
        None => None,
    }
}

impl IncomingJson {
    fn extra_text(&self, key: &str) -> (res: Option<&str>)
        ensures
            opt_text(res) == member_text(self.extra, key@),
    {
        match self.extra.get(key) {
            Some(v) => v.as_str(),
            None => None,
        }
    }

    /// The `state` member, if it is a string.
    pub fn state(&self) -> (res: Option<&str>)
        ensures
            opt_text(res) == member_text(self.extra, "state"@),
    {
        self.extra_text("state")
    }

    /// The `text` member, if it is a string.
    pub fn text(&self) -> (res: Option<&str>)
        ensures
            opt_text(res) == member_text(self.extra, "text"@),
    {
        self.extra_text("text")
    }

    /// The `emotion` member, if it is a string.
    pub fn emotion(&self) -> (res: Option<&str>)
        ensures
            opt_text(res) == member_text(self.extra, "emotion"@),
    {
        self.extra_text("emotion")
    }

    /// The `transport` member, if it is a string.
    pub fn transport(&self) -> (res: Option<&str>)
        ensures
            opt_text(res) == member_text(self.extra, "transport"@),
    {
        self.extra_text("transport")
    }

    /// A copy of the `audio_params` member, if there is one.
    pub fn audio_params(&self) -> (res: Option<JsonValue>)
        ensures
            match self.extra.member("audio_params"@) {
                Some(v) => res matches Some(r) && value_of(r) == value_of(v),
                None => res is None,
            },
    {
        match self.extra.get("audio_params") {
            Some(v) => Some(v.copy()),
            None => None,
        }
    }
}

/// The sample rate that the server's hello announces in
/// `audio_params.sample_rate` (its low 32 bits), or the default rate when it
/// names none.
pub open spec fn announced_rate(hello: IncomingJson) -> u32 {
    match hello.extra.member("audio_params"@) {
        Some(p) => match p.member("sample_rate"@) {
            Some(JsonValue::UInt(n)) => n as u32,
            _ => SERVER_SAMPLE_RATE_DEFAULT,
        },
        None => SERVER_SAMPLE_RATE_DEFAULT,
    }
}

/// The sample rate of the server's audio, as its hello announces it.
pub fn server_sample_rate(hello: &IncomingJson) -> (rate: u32)
    ensures
        rate == announced_rate(*hello),
{
    match hello.extra.get("audio_params") {
        Some(p) => match p.get("sample_rate") {
            Some(v) => match v.as_u64() {
                Some(n) => #[verifier::truncate] (n as u32),
                None => SERVER_SAMPLE_RATE_DEFAULT,
            },
            None => SERVER_SAMPLE_RATE_DEFAULT,
        },
        None => SERVER_SAMPLE_RATE_DEFAULT,
    }
}

/// The message is the server's hello.
pub fn is_server_hello(msg: &IncomingJson) -> (res: bool)
    ensures
        res == (msg.typ@ == "hello"@),
{
    crate::json::text_eq(msg.typ.as_str(), "hello")
}

/// The session id that the server's hello assigns (empty when it names none).
pub fn session_of(hello: &IncomingJson) -> (sid: String)
    ensures
        sid@ == (match hello.session_id {
            Some(s) => s@,
            None => Seq::<char>::empty(),
        }),
{
    match &hello.session_id {
        Some(s) => s.clone(),
        None => String::new(),
    }
}

/// The audio parameters that a hello message announces.
#[derive(Debug, Clone)]
pub struct AudioParams {
    pub format: String,
    pub sample_rate: u32,
    pub channels: u8,
    pub frame_duration: u32,
}

/// The timestamp that survives encoding under `version`: only V2 carries one.
pub open spec fn carried_timestamp(version: BinaryProtocolVersion, timestamp: u32) -> u32 {
    match version {
        BinaryProtocolVersion::V2 => timestamp,
        _ => 0,
    }
}

proof fn lemma_be16_of_bytes(x: int)
    requires
        0 <= x < 0x1_0000,
    ensures
        be16(be16_bytes(x)[0], be16_bytes(x)[1]) == x,
{
    assert(x == (x / 256) * 256 + x % 256) by (nonlinear_arith);
    assert(0 <= x / 256 < 256) by (nonlinear_arith)
        requires 0 <= x < 0x1_0000;
}

proof fn lemma_be32_of_bytes(x: int)
    requires
        0 <= x < 0x1_0000_0000,
    ensures
        be32(be32_bytes(x), 0) == x,
{
    let a = x / 16777216;
    let r1 = x % 16777216;
    let b = r1 / 65536;
    let r2 = r1 % 65536;
    let c = r2 / 256;
    let d = r2 % 256;
    assert(x == a * 16777216 + r1 && 0 <= r1 < 16777216 && 0 <= a < 256) by (nonlinear_arith)
        requires 0 <= x < 0x1_0000_0000, a == x / 16777216, r1 == x % 16777216;
    assert(r1 == b * 65536 + r2 && 0 <= r2 < 65536 && 0 <= b < 256) by (nonlinear_arith)
        requires 0 <= r1 < 16777216, b == r1 / 65536, r2 == r1 % 65536;
    assert(r2 == c * 256 + d && 0 <= d < 256 && 0 <= c < 256) by (nonlinear_arith)
        requires 0 <= r2 < 65536, c == r2 / 256, d == r2 % 256;
    assert((x / 65536) % 256 == b) by (nonlinear_arith)
        requires x == a * 16777216 + b * 65536 + r2, 0 <= r2 < 65536, 0 <= b < 256, 0 <= a;
    assert((x / 256) % 256 == c) by (nonlinear_arith)
        requires x == a * 16777216 + b * 65536 + c * 256 + d, 0 <= d < 256, 0 <= c < 256, 0 <= b < 256, 0 <= a;
    assert(x % 256 == d) by (nonlinear_arith)
        requires x == a * 16777216 + b * 65536 + c * 256 + d, 0 <= d < 256, 0 <= c < 256, 0 <= b < 256, 0 <= a;
}

/// Decoding what was encoded gives back the payload, and the timestamp where
/// the version carries one, provided the payload length fits the size field
/// of the version (2^16 bytes for V3, 2^32 bytes for V2).
pub proof fn lemma_frame_roundtrip(version: BinaryProtocolVersion, timestamp: u32, payload: Seq<u8>)
    requires
        version is V3 ==> payload.len() < 0x1_0000,
        version is V2 ==> payload.len() < 0x1_0000_0000,
    ensures
        decoded_frame(version, encoded_frame(version, timestamp, payload)) == Some(
            (carried_timestamp(version, timestamp), payload),
        ),
{
    let data = encoded_frame(version, timestamp, payload);
    match version {
        BinaryProtocolVersion::V1 => {},
        BinaryProtocolVersion::V2 => {
            let n = payload.len() as int;
            assert(n % 0x1_0000_0000 == n);
            lemma_be16_of_bytes(0);
            lemma_be32_of_bytes(timestamp as int);
            lemma_be32_of_bytes(n);
            let header = be16_bytes(2) + be16_bytes(0) + be32_bytes(0) + be32_bytes(timestamp as int)
                + be32_bytes(n);
            assert(header.len() == 16);
            assert(data == header + payload);
            assert(data[2] == be16_bytes(0)[0] && data[3] == be16_bytes(0)[1]);
            assert(data.subrange(8, 12) =~= be32_bytes(timestamp as int));
            assert(data.subrange(12, 16) =~= be32_bytes(n));
            assert(be32(data, 8) == be32(be32_bytes(timestamp as int), 0));
            assert(be32(data, 12) == be32(be32_bytes(n), 0));
            assert(data.subrange(16, 16 + n) =~= payload);
        },
        BinaryProtocolVersion::V3 => {
            let n = payload.len() as int;
            assert(n % 0x1_0000 == n);
            lemma_be16_of_bytes(n);
            let header = seq![0u8, 0u8] + be16_bytes(n);
            assert(data == header + payload);
            assert(data[2] == be16_bytes(n)[0] && data[3] == be16_bytes(n)[1]);
            assert(data.subrange(4, 4 + n) =~= payload);
        },
    }
}

/// Every frame that decodes is sent again, unchanged, by encoding it: decoding
/// the encoding of a decoded frame gives the same timestamp and payload.
pub proof fn lemma_decoded_frame_reencodes(version: BinaryProtocolVersion, data: Seq<u8>)
    requires
        decoded_frame(version, data) is Some,
    ensures
        ({
            let (ts, payload) = decoded_frame(version, data).unwrap();
            decoded_frame(version, encoded_frame(version, ts, payload)) == Some((ts, payload))
        }),
{
    let (ts, payload) = decoded_frame(version, data).unwrap();
    match version {
        BinaryProtocolVersion::V3 => {
            assert(be16(data[2], data[3]) < 0x1_0000);
        },
        BinaryProtocolVersion::V2 => {
            assert(be32(data, 12) < 0x1_0000_0000);
        },
        BinaryProtocolVersion::V1 => {},
    }
    lemma_frame_roundtrip(version, ts, payload);
}

} // verus!

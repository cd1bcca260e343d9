use xiaozhi_client_rs::json::JsonValue;
use xiaozhi_client_rs::protocol::{
    abort, decode_audio_frame, encode_audio_frame, hello, is_server_hello, listen_start, listen_stop,
    negotiated_version, server_sample_rate, session_of, AudioFrame, BinaryProtocolVersion, IncomingJson,
    UplinkFramer, CLIENT_SAMPLE_RATE, SERVER_SAMPLE_RATE_DEFAULT,
};

fn s(x: &str) -> String {
    x.to_string()
}

fn obj(members: Vec<(&str, JsonValue)>) -> JsonValue {
    JsonValue::Object(members.into_iter().map(|(k, v)| (k.to_string(), v)).collect())
}

fn text(x: &str) -> JsonValue {
    JsonValue::Str(x.to_string())
}

#[test]
fn v3_roundtrip() {
    let frame = AudioFrame {
        timestamp: 0,
        payload: vec![1, 2, 3, 4],
    };
    let enc = encode_audio_frame(BinaryProtocolVersion::V3, &frame);
    let dec = decode_audio_frame(BinaryProtocolVersion::V3, &enc).unwrap();
    assert_eq!(dec.payload, frame.payload);
}

#[test]
fn v1_raw() {
    let frame = AudioFrame {
        timestamp: 0,
        payload: vec![9, 9],
    };
    let enc = encode_audio_frame(BinaryProtocolVersion::V1, &frame);
    assert_eq!(enc, vec![9, 9]);
}

#[test]
fn v3_header_holds_big_endian_length() {
    let frame = AudioFrame { timestamp: 77, payload: vec![5u8; 300] };
    let enc = encode_audio_frame(BinaryProtocolVersion::V3, &frame);
    assert_eq!(&enc[..4], &[0, 0, 1, 44]);
    assert_eq!(enc.len(), 304);
}

#[test]
fn v2_header_and_roundtrip_keep_timestamp() {
    let frame = AudioFrame { timestamp: 0x01020304, payload: vec![7, 8, 9] };
    let enc = encode_audio_frame(BinaryProtocolVersion::V2, &frame);
    assert_eq!(
        enc,
        vec![0, 2, 0, 0, 0, 0, 0, 0, 1, 2, 3, 4, 0, 0, 0, 3, 7, 8, 9]
    );
    let dec = decode_audio_frame(BinaryProtocolVersion::V2, &enc).unwrap();
    assert_eq!(dec.timestamp, 0x01020304);
    assert_eq!(dec.payload, vec![7, 8, 9]);
}

#[test]
fn v2_rejects_short_nonaudio_and_oversized() {
    assert!(decode_audio_frame(BinaryProtocolVersion::V2, &[0u8; 15]).is_none());
    let mut typed = vec![0u8; 16];
    typed[3] = 1;
    assert!(decode_audio_frame(BinaryProtocolVersion::V2, &typed).is_none());
    let mut oversized = vec![0u8; 17];
    oversized[15] = 2;
    assert!(decode_audio_frame(BinaryProtocolVersion::V2, &oversized).is_none());
}

#[test]
fn v3_rejects_short_nonaudio_and_oversized_and_ignores_trailing() {
    assert!(decode_audio_frame(BinaryProtocolVersion::V3, &[0, 0, 0]).is_none());
    assert!(decode_audio_frame(BinaryProtocolVersion::V3, &[1, 0, 0, 0]).is_none());
    assert!(decode_audio_frame(BinaryProtocolVersion::V3, &[0, 0, 0, 2, 9]).is_none());
    let dec = decode_audio_frame(BinaryProtocolVersion::V3, &[0, 5, 0, 1, 9, 10, 11]).unwrap();
    assert_eq!(dec.payload, vec![9]);
    assert_eq!(dec.timestamp, 0);
}

#[test]
fn v1_decode_is_whole_message() {
    let dec = decode_audio_frame(BinaryProtocolVersion::V1, &[3, 1, 4]).unwrap();
    assert_eq!(dec.payload, vec![3, 1, 4]);
    assert_eq!(dec.timestamp, 0);
}

#[test]
fn version_numbers() {
    assert_eq!(BinaryProtocolVersion::from_u8(1), Some(BinaryProtocolVersion::V1));
    assert_eq!(BinaryProtocolVersion::from_u8(3), Some(BinaryProtocolVersion::V3));
    assert_eq!(BinaryProtocolVersion::from_u8(0), None);
    assert_eq!(BinaryProtocolVersion::from_u8(4), None);
    assert_eq!(BinaryProtocolVersion::V2.as_u8(), 2);
    for v in [BinaryProtocolVersion::V1, BinaryProtocolVersion::V2, BinaryProtocolVersion::V3] {
        assert_eq!(BinaryProtocolVersion::from_u8(v.as_u8()), Some(v));
    }
    assert_eq!(negotiated_version(9), BinaryProtocolVersion::V3);
    assert_eq!(negotiated_version(2), BinaryProtocolVersion::V2);
}

#[test]
fn hello_message_content() {
    let expected = obj(vec![
        ("type", text("hello")),
        ("version", JsonValue::UInt(3)),
        ("features", obj(vec![("mcp", JsonValue::Bool(false)), ("aec", JsonValue::Bool(false))])),
        ("transport", text("websocket")),
        (
            "audio_params",
            obj(vec![
                ("format", text("opus")),
                ("sample_rate", JsonValue::UInt(CLIENT_SAMPLE_RATE as u64)),
                ("channels", JsonValue::UInt(1)),
                ("frame_duration", JsonValue::UInt(60)),
            ]),
        ),
    ]);
    assert_eq!(hello(3), expected);
}

#[test]
fn listen_and_abort_messages() {
    assert_eq!(
        listen_start("abc", "auto"),
        obj(vec![
            ("session_id", text("abc")),
            ("type", text("listen")),
            ("state", text("start")),
            ("mode", text("auto")),
        ])
    );
    assert_eq!(
        listen_stop("abc"),
        obj(vec![("session_id", text("abc")), ("type", text("listen")), ("state", text("stop"))])
    );
    assert_eq!(
        abort("abc", "manual"),
        obj(vec![("session_id", text("abc")), ("type", text("abort")), ("reason", text("manual"))])
    );
}

fn incoming(sid: Option<&str>, typ: &str, extra: Vec<(&str, JsonValue)>) -> IncomingJson {
    IncomingJson { session_id: sid.map(s), typ: s(typ), extra: obj(extra) }
}

#[test]
fn incoming_accessors() {
    let msg = incoming(
        Some("x"),
        "tts",
        vec![
            ("state", text("start")),
            ("text", text("hi")),
            ("emotion", JsonValue::UInt(1)),
            ("transport", text("websocket")),
        ],
    );
    assert_eq!(msg.state(), Some("start"));
    assert_eq!(msg.text(), Some("hi"));
    assert_eq!(msg.emotion(), None);
    assert_eq!(msg.transport(), Some("websocket"));
    assert!(msg.audio_params().is_none());
}

#[test]
fn server_hello_rate_and_session() {
    let hello_msg = incoming(
        Some("sess-1"),
        "hello",
        vec![("audio_params", obj(vec![("sample_rate", JsonValue::UInt(16000))]))],
    );
    assert!(is_server_hello(&hello_msg));
    assert_eq!(server_sample_rate(&hello_msg), 16000);
    assert_eq!(session_of(&hello_msg), "sess-1");
    assert_eq!(
        hello_msg.audio_params(),
        Some(obj(vec![("sample_rate", JsonValue::UInt(16000))]))
    );
    let bare = incoming(None, "hello", vec![]);
    assert_eq!(server_sample_rate(&bare), SERVER_SAMPLE_RATE_DEFAULT);
    assert_eq!(session_of(&bare), "");
    let odd = incoming(None, "hello", vec![("audio_params", obj(vec![("sample_rate", text("fast"))]))]);
    assert_eq!(server_sample_rate(&odd), SERVER_SAMPLE_RATE_DEFAULT);
    let wide = incoming(None, "hello", vec![("audio_params", obj(vec![("sample_rate", JsonValue::UInt(0x1_0000_0005))]))]);
    assert_eq!(server_sample_rate(&wide), 5);
    assert!(!is_server_hello(&incoming(None, "stt", vec![])));
}

#[test]
fn uplink_frames_count_sixty_ms() {
    let mut framer = UplinkFramer::new(BinaryProtocolVersion::V2);
    let first = framer.frame(vec![1]);
    let second = framer.frame(vec![2]);
    assert_eq!(&first[8..12], &[0, 0, 0, 0]);
    assert_eq!(&second[8..12], &[0, 0, 0, 60]);
    assert_eq!(framer.next_index, 2);
    let mut wrap = UplinkFramer { version: BinaryProtocolVersion::V2, next_index: u32::MAX };
    let last = wrap.frame(vec![]);
    assert_eq!(&last[8..12], &(u32::MAX.wrapping_mul(60)).to_be_bytes());
    assert_eq!(wrap.next_index, 0);
}

#[test]
fn decoded_frames_reencode_to_equal_frames() {
    let data = vec![0u8, 9, 0, 2, 4, 5, 6, 7];
    let dec = decode_audio_frame(BinaryProtocolVersion::V3, &data).unwrap();
    let again = encode_audio_frame(BinaryProtocolVersion::V3, &dec);
    assert_eq!(again, vec![0, 0, 0, 2, 4, 5]);
    let back = decode_audio_frame(BinaryProtocolVersion::V3, &again).unwrap();
    assert_eq!(back.payload, dec.payload);
    assert_eq!(back.timestamp, dec.timestamp);
}

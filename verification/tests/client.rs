use xiaozhi_client_rs::client::forward_mic_frame;
use xiaozhi_client_rs::client::{
    ws_request_headers, ClientAction, ClientEvent, ClientRuntime, Notice, ResolveError, Session, State,
    WsPlan,
};
use xiaozhi_client_rs::config::{Config, Identity, ServerConfig, StoredConfig};
use xiaozhi_client_rs::json::JsonValue;
use xiaozhi_client_rs::ota::{OtaResponse, WebsocketConfig, WsConnectInfo};
use xiaozhi_client_rs::protocol::{abort, listen_start, listen_stop, BinaryProtocolVersion, IncomingJson};

fn msg(sid: Option<&str>, typ: &str, extra: Vec<(&str, &str)>) -> IncomingJson {
    IncomingJson {
        session_id: sid.map(|x| x.to_string()),
        typ: typ.to_string(),
        extra: JsonValue::Object(
            extra
                .into_iter()
                .map(|(k, v)| (k.to_string(), JsonValue::Str(v.to_string())))
                .collect(),
        ),
    }
}

fn sent(a: &ClientAction) -> Option<(&JsonValue, bool)> {
    match a {
        ClientAction::Send { message, stop_on_failure } => Some((message, *stop_on_failure)),
        _ => None,
    }
}

#[test]
fn enter_from_idle_starts_listening() {
    let mut s = Session::new("sid".to_string(), BinaryProtocolVersion::V3);
    let actions = s.on_enter();
    assert_eq!(s.state, State::Listening);
    assert!(s.listening);
    assert_eq!(actions.len(), 3);
    assert_eq!(sent(&actions[0]), Some((&listen_start("sid", "auto"), true)));
    assert!(matches!(actions[1], ClientAction::SetListening(true)));
    assert!(matches!(actions[2], ClientAction::Notify(Notice::Listening)));
}

#[test]
fn enter_twice_returns_to_idle() {
    let mut s = Session::new("sid".to_string(), BinaryProtocolVersion::V3);
    s.on_enter();
    let actions = s.on_enter();
    assert_eq!(s.state, State::Idle);
    assert!(!s.listening);
    assert!(matches!(actions[0], ClientAction::SetListening(false)));
    assert_eq!(sent(&actions[1]), Some((&listen_stop("sid"), false)));
    assert!(matches!(actions[2], ClientAction::Notify(Notice::Processing)));
}

#[test]
fn enter_while_speaking_interrupts() {
    let mut s = Session::new("sid".to_string(), BinaryProtocolVersion::V3);
    s.on_server_message(&msg(Some("sid"), "tts", vec![("state", "start")]));
    assert_eq!(s.state, State::Speaking);
    assert!(!s.listening);
    let actions = s.on_enter();
    assert_eq!(s.state, State::Listening);
    assert!(s.listening);
    assert!(matches!(actions[0], ClientAction::FlushOutput));
    assert_eq!(sent(&actions[1]), Some((&abort("sid", "manual"), false)));
    assert_eq!(sent(&actions[2]), Some((&listen_start("sid", "auto"), false)));
    assert!(matches!(actions[3], ClientAction::SetListening(true)));
    assert!(matches!(actions[4], ClientAction::Notify(Notice::Interrupted)));
}

#[test]
fn stt_shows_transcript_and_closes_microphone() {
    let mut s = Session::new("sid".to_string(), BinaryProtocolVersion::V3);
    s.on_enter();
    let actions = s.on_server_message(&msg(None, "stt", vec![("text", "你好")]));
    assert_eq!(s.state, State::Listening);
    assert!(!s.listening);
    match &actions[0] {
        ClientAction::Notify(Notice::Transcript(t)) => assert_eq!(t, "你好"),
        other => panic!("unexpected {:?}", other),
    }
    assert!(matches!(actions[1], ClientAction::SetListening(false)));
}

#[test]
fn llm_reply_shown_only_with_text() {
    let mut s = Session::new("sid".to_string(), BinaryProtocolVersion::V3);
    let actions = s.on_server_message(&msg(None, "llm", vec![("emotion", "happy"), ("text", "hi")]));
    match &actions[0] {
        ClientAction::Notify(Notice::Reply { emotion, text }) => {
            assert_eq!(emotion, "happy");
            assert_eq!(text, "hi");
        },
        other => panic!("unexpected {:?}", other),
    }
    assert!(s.on_server_message(&msg(None, "llm", vec![("text", "")])).is_empty());
    assert!(s.on_server_message(&msg(None, "llm", vec![])).is_empty());
}

#[test]
fn tts_stop_flushes_and_goes_idle() {
    let mut s = Session::new("sid".to_string(), BinaryProtocolVersion::V3);
    s.on_server_message(&msg(Some("sid"), "tts", vec![("state", "start")]));
    let actions = s.on_server_message(&msg(Some("sid"), "tts", vec![("state", "stop")]));
    assert_eq!(s.state, State::Idle);
    assert!(matches!(actions[0], ClientAction::FlushOutput));
    assert!(matches!(actions[1], ClientAction::Notify(Notice::Ready)));
}

#[test]
fn tts_sentence_and_unknown_state() {
    let mut s = Session::new("sid".to_string(), BinaryProtocolVersion::V3);
    let actions = s.on_server_message(&msg(None, "tts", vec![("state", "sentence_start"), ("text", "one")]));
    assert!(matches!(&actions[0], ClientAction::Notify(Notice::Sentence(t)) if t == "one"));
    let actions = s.on_server_message(&msg(None, "tts", vec![("state", "pause")]));
    assert!(matches!(&actions[0], ClientAction::Notify(Notice::UnknownTtsState(Some(t))) if t == "pause"));
    let actions = s.on_server_message(&msg(None, "tts", vec![]));
    assert!(matches!(&actions[0], ClientAction::Notify(Notice::UnknownTtsState(None))));
    assert_eq!(s.state, State::Idle);
}

#[test]
fn other_session_and_other_types() {
    let mut s = Session::new("sid".to_string(), BinaryProtocolVersion::V3);
    s.on_enter();
    let actions = s.on_server_message(&msg(Some("other"), "tts", vec![("state", "start")]));
    assert!(actions.is_empty());
    assert_eq!(s.state, State::Listening);
    assert!(s.listening);
    assert!(s.on_server_message(&msg(None, "hello", vec![])).is_empty());
    let actions = s.on_server_message(&msg(None, "goodbye", vec![]));
    assert!(matches!(actions[0], ClientAction::Notify(Notice::Goodbye)));
    let actions = s.on_server_message(&msg(None, "mcp", vec![]));
    assert!(matches!(&actions[0], ClientAction::Notify(Notice::Ignored(t)) if t == "mcp"));
}

#[test]
fn events_of_the_connection() {
    let mut s = Session::new("sid".to_string(), BinaryProtocolVersion::V3);
    let actions = s.on_event(ClientEvent::ServerBinary(vec![0, 0, 0, 2, 7, 8]));
    assert!(matches!(&actions[0], ClientAction::PlayAudio(p) if *p == vec![7, 8]));
    assert!(s.on_event(ClientEvent::ServerBinary(vec![1, 0, 0, 0])).is_empty());
    let actions = s.on_event(ClientEvent::ServerPing(vec![1]));
    assert!(matches!(&actions[0], ClientAction::SendPong(p) if *p == vec![1]));
    let actions = s.on_event(ClientEvent::ServerClose);
    assert!(matches!(actions[0], ClientAction::Notify(Notice::ServerClosed)));
    assert!(matches!(actions[1], ClientAction::Stop));
    assert!(matches!(s.on_event(ClientEvent::Interrupt)[0], ClientAction::Stop));
    assert!(matches!(s.on_event(ClientEvent::InputClosed)[0], ClientAction::Stop));
    let actions = s.on_event(ClientEvent::MicFrame(vec![4]));
    assert!(matches!(&actions[0], ClientAction::SendAudio(p) if *p == vec![4]));
    let actions = s.on_event(ClientEvent::ServerText(None));
    assert!(matches!(actions[0], ClientAction::Notify(Notice::InvalidJson)));
    let actions = s.on_event(ClientEvent::ServerError);
    assert!(matches!(actions[0], ClientAction::Notify(Notice::ReceiveFailed)));
    assert!(s.on_event(ClientEvent::ServerOther).is_empty());
    let actions = s.on_event(ClientEvent::Enter);
    assert_eq!(s.state, State::Listening);
    assert_eq!(actions.len(), 3);
}

fn identity() -> Identity {
    Identity {
        client_id: "cid".to_string(),
        device_id: "aa:bb:cc:dd:ee:ff".to_string(),
        board_name: "rust-cli".to_string(),
    }
}

fn headers_of(v: Vec<(String, String)>) -> Vec<(String, String)> {
    v
}

#[test]
fn ws_headers_with_bearer_and_raw_token() {
    let mut info = WsConnectInfo { url: "ws://h/ws".to_string(), token: Some("abc".to_string()), version: 3 };
    let h = headers_of(ws_request_headers(&info, &identity()));
    let expected = vec![
        ("User-Agent".to_string(), "Xiaozhi/rust-cli/0.1.0 (Rust/Linux)".to_string()),
        ("Device-Id".to_string(), "aa:bb:cc:dd:ee:ff".to_string()),
        ("Client-Id".to_string(), "cid".to_string()),
        ("Protocol-Version".to_string(), "3".to_string()),
        ("Authorization".to_string(), "Bearer abc".to_string()),
    ];
    assert_eq!(h, expected);
    info.token = Some("Basic xyz".to_string());
    info.version = 120;
    let h = ws_request_headers(&info, &identity());
    assert_eq!(h[3].1, "120");
    assert_eq!(h[4].1, "Basic xyz");
    info.token = None;
    assert_eq!(ws_request_headers(&info, &identity()).len(), 4);
}

fn config(ws_url: Option<&str>, ota_url: Option<&str>) -> Config {
    Config {
        stored: StoredConfig {
            identity: identity(),
            server: ServerConfig {
                ota_url: ota_url.map(|x| x.to_string()),
                ws_url: ws_url.map(|x| x.to_string()),
                token: Some("t".to_string()),
            },
        },
        config_path: "/tmp/c.toml".to_string(),
        language: "zh-CN".to_string(),
        protocol_version: 3,
    }
}

#[test]
fn plan_prefers_configured_websocket() {
    let rt = ClientRuntime::new(2, "zh-CN".to_string(), identity(), config(Some("ws://x"), Some("http://o")));
    match rt.plan_ws(&None, None) {
        Ok(WsPlan::Direct(info)) => {
            assert_eq!(info.url, "ws://x");
            assert_eq!(info.token.as_deref(), Some("t"));
            assert_eq!(info.version, 2);
        },
        other => panic!("unexpected {:?}", other),
    }
    let rt = ClientRuntime::new(2, "zh-CN".to_string(), identity(), config(None, Some("http://o")));
    assert!(matches!(rt.plan_ws(&Some("http://cli".to_string()), None), Ok(WsPlan::FetchOta(u)) if u == "http://cli"));
    assert!(matches!(rt.plan_ws(&None, Some("http://env".to_string())), Ok(WsPlan::FetchOta(u)) if u == "http://o"));
    let rt = ClientRuntime::new(2, "zh-CN".to_string(), identity(), config(None, None));
    assert!(matches!(rt.plan_ws(&None, Some("http://env".to_string())), Ok(WsPlan::FetchOta(u)) if u == "http://env"));
    assert!(matches!(rt.plan_ws(&None, None), Err(ResolveError::NoOtaUrl)));
}

#[test]
fn ws_from_ota_uses_fallback_version() {
    let rt = ClientRuntime::new(1, "zh-CN".to_string(), identity(), config(None, None));
    let ota = OtaResponse {
        firmware: None,
        websocket: Some(WebsocketConfig { url: "ws://o/ws".to_string(), token: None, version: None }),
        mqtt: None,
        activation: None,
        server_time: None,
    };
    let info = rt.ws_from_ota(&ota).unwrap();
    assert_eq!(info.url, "ws://o/ws");
    assert_eq!(info.version, 1);
    assert!(info.token.is_none());
    let empty = OtaResponse { firmware: None, websocket: None, mqtt: None, activation: None, server_time: None };
    assert!(matches!(rt.ws_from_ota(&empty), Err(ResolveError::MissingWebsocket)));
}

#[test]
fn microphone_frames_pass_only_while_listening() {
    assert_eq!(forward_mic_frame(true, vec![1, 2]), Some(vec![1, 2]));
    assert_eq!(forward_mic_frame(false, vec![1, 2]), None);
}

use xiaozhi_client_rs::config::{config_file_text, settle_stored_config, Config, Identity, LoadedConfig, SaveMode, ServerConfig, StoredConfig};
use xiaozhi_client_rs::json::JsonValue;
use xiaozhi_client_rs::ota::{activation_ignored, check_ota_response, ota_request_headers, status_is_success, OtaError, OtaResponse, WebsocketConfig};
use xiaozhi_client_rs::text::decimal_u8;

fn identity(cid: &str) -> Identity {
    Identity { client_id: cid.to_string(), device_id: "d".to_string(), board_name: "rust-cli".to_string() }
}

#[test]
fn identity_from_uuids_formats() {
    let a = [0x12, 0x34, 0x56, 0x78, 0x9a, 0xbc, 0x4d, 0xef, 0x80, 0x01, 0x02, 0x03, 0x04, 0x05, 0x06, 0xff];
    let b = [0xde, 0xad, 0xbe, 0xef, 0x00, 0x0a, 0, 0, 0, 0, 0, 0, 0, 0, 0, 0];
    let id = Identity::from_uuids(a, b);
    assert_eq!(id.client_id, "12345678-9abc-4def-8001-0203040506ff");
    assert_eq!(id.device_id, "de:ad:be:ef:00:0a");
    assert_eq!(id.board_name, "rust-cli");
    assert_eq!(id.user_agent(), "Xiaozhi/rust-cli/0.1.0 (Rust/Linux)");
}

#[test]
fn generated_identities_have_the_stated_shape() {
    let id = Identity::generate();
    assert_eq!(id.client_id.len(), 36);
    assert_eq!(&id.client_id[14..15], "4");
    assert_eq!(id.device_id.len(), 17);
    assert_eq!(id.device_id.matches(':').count(), 5);
    assert_eq!(id.board_name, "rust-cli");
    assert_ne!(Identity::generate().client_id, id.client_id);
}

fn loaded(cid: Option<&str>, ota: Option<&str>) -> LoadedConfig {
    LoadedConfig {
        identity: cid.map(identity),
        server: ServerConfig { ota_url: ota.map(|x| x.to_string()), ws_url: Some("ws".to_string()), token: None },
    }
}

fn stored(cid: &str, ota: Option<&str>) -> StoredConfig {
    StoredConfig {
        identity: identity(cid),
        server: ServerConfig { ota_url: ota.map(|x| x.to_string()), ws_url: Some("ws".to_string()), token: None },
    }
}

#[test]
fn settle_keeps_complete_config() {
    let (cfg, save) = settle_stored_config(Some(loaded(Some("c1"), Some("http://a"))), &Some("http://b".to_string()), identity("fresh"));
    assert_eq!(save, SaveMode::Skip);
    assert_eq!(cfg.identity.client_id, "c1");
    assert_eq!(cfg.server.ota_url.as_deref(), Some("http://a"));
    assert_eq!(cfg.server.ws_url.as_deref(), Some("ws"));
}

#[test]
fn settle_fills_missing_parts() {
    let (cfg, save) = settle_stored_config(Some(loaded(Some(""), None)), &Some("http://b".to_string()), identity("fresh"));
    assert_eq!(save, SaveMode::BestEffort);
    assert_eq!(cfg.identity.client_id, "fresh");
    assert_eq!(cfg.server.ota_url.as_deref(), Some("http://b"));
    let (cfg, save) = settle_stored_config(None, &None, identity("fresh"));
    assert_eq!(save, SaveMode::Required);
    assert_eq!(cfg.identity.client_id, "fresh");
    assert!(cfg.server.ota_url.is_none() && cfg.server.ws_url.is_none() && cfg.server.token.is_none());
    let d = ServerConfig::default();
    assert!(d.ota_url.is_none() && d.ws_url.is_none() && d.token.is_none());
}

#[test]
fn config_queries_and_overrides() {
    let mut c = Config { stored: stored("c1", None), config_path: "p".to_string(), language: "zh-CN".to_string(), protocol_version: 3 };
    assert_eq!(c.effective_ota_url(&None, Some("http://env".to_string())).as_deref(), Some("http://env"));
    assert_eq!(c.effective_ota_url(&Some("http://cli".to_string()), Some("http://env".to_string())).as_deref(), Some("http://cli"));
    assert_eq!(c.effective_ota_url(&None, None), None);
    assert_eq!(c.ws_url().as_deref(), Some("ws"));
    assert_eq!(c.token(), None);
    assert_eq!(c.identity().client_id, "c1");
    c.apply_overrides(None, Some("tok".to_string()));
    assert_eq!(c.ws_url().as_deref(), Some("ws"));
    assert_eq!(c.token().as_deref(), Some("tok"));
    c.apply_overrides(Some("ws2".to_string()), None);
    assert_eq!(c.ws_url().as_deref(), Some("ws2"));
    assert_eq!(c.token().as_deref(), Some("tok"));
    assert_eq!(config_file_text("a = 1\n"), "# xiaozhi-client-rs config\n\na = 1\n");
}

#[test]
fn ota_checks_and_headers() {
    let ws = WebsocketConfig { url: "ws://x".to_string(), token: Some("t".to_string()), version: Some(2) };
    let ok = OtaResponse { firmware: None, websocket: Some(ws), mqtt: Some(JsonValue::Null), activation: Some(JsonValue::Null), server_time: None };
    assert!(check_ota_response(&ok).is_ok());
    assert!(activation_ignored(&ok));
    let info = ok.resolve_ws(3).unwrap();
    assert_eq!(info.version, 2);
    assert_eq!(info.token.as_deref(), Some("t"));
    let mqtt_only = OtaResponse { firmware: None, websocket: None, mqtt: Some(JsonValue::Null), activation: None, server_time: None };
    assert!(matches!(check_ota_response(&mqtt_only), Err(OtaError::MqttOnly)));
    assert!(!activation_ignored(&mqtt_only));
    assert!(mqtt_only.resolve_ws(3).is_none());
    assert!(status_is_success(200) && status_is_success(204) && !status_is_success(301) && !status_is_success(199));
    let h = ota_request_headers(&identity("c1"), "en-US");
    assert_eq!(h.len(), 5);
    assert_eq!(h[0], ("User-Agent".to_string(), "Xiaozhi/rust-cli/0.1.0 (Rust/Linux)".to_string()));
    assert_eq!(h[2], ("Client-Id".to_string(), "c1".to_string()));
    assert_eq!(h[3], ("Accept-Language".to_string(), "en-US".to_string()));
    assert_eq!(h[4], ("Content-Type".to_string(), "application/json".to_string()));
}

#[test]
fn decimal_numerals() {
    assert_eq!(decimal_u8(0), "0");
    assert_eq!(decimal_u8(7), "7");
    assert_eq!(decimal_u8(42), "42");
    assert_eq!(decimal_u8(200), "200");
    assert_eq!(decimal_u8(255), "255");
}

#[test]
fn settle_adds_missing_identity_and_saves_it() {
    let (cfg, save) = settle_stored_config(Some(loaded(None, Some("http://a"))), &None, identity("fresh"));
    assert_eq!(save, SaveMode::BestEffort);
    assert_eq!(cfg.identity.client_id, "fresh");
    assert_eq!(cfg.server.ota_url.as_deref(), Some("http://a"));
    let again = LoadedConfig { identity: Some(cfg.identity.clone()), server: cfg.server.clone() };
    let (cfg2, save2) = settle_stored_config(Some(again), &None, identity("other"));
    assert_eq!(save2, SaveMode::Skip);
    assert_eq!(cfg2.identity.client_id, "fresh");
}

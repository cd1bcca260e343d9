//! The OTA exchange: the request headers, the checks on the response, and the
//! WebSocket connection it points to.

use vstd::prelude::*;
use crate::config::{opt_view, user_agent_text, Identity};
use crate::json::JsonValue;

verus! {

/// Firmware information of an OTA response.
#[derive(Debug)]
pub struct Firmware {
    pub version: Option<String>,
    pub force: Option<u8>,
}

/// The WebSocket settings of an OTA response.
#[derive(Debug)]
pub struct WebsocketConfig {
    pub url: String,
    pub token: Option<String>,
    pub version: Option<u8>,
}

/// The server time of an OTA response.
#[derive(Debug)]
pub struct ServerTime {
    pub timestamp: u64,
    pub timezone_offset: Option<i32>,
}

/// An OTA response.
#[derive(Debug)]
pub struct OtaResponse {
    pub firmware: Option<Firmware>,
    pub websocket: Option<WebsocketConfig>,
    pub mqtt: Option<JsonValue>,
    pub activation: Option<JsonValue>,
    pub server_time: Option<ServerTime>,
}

/// Where and how to open the WebSocket.
#[derive(Debug, Clone)]
pub struct WsConnectInfo {
    pub url: String,
    pub token: Option<String>,
    pub version: u8,
}

impl OtaResponse {
    /// The WebSocket connection the response points to, if it names one; the
    /// binary protocol version is the response's, else `fallback_version`.
    pub fn resolve_ws(&self, fallback_version: u8) -> (res: Option<WsConnectInfo>)
        ensures
            match self.websocket {
                Some(ws) => res matches Some(info) && info.url@ == ws.url@ && opt_view(info.token) == opt_view(
                    ws.token,
                ) && info.version == (match ws.version {
                    Some(v) => v,
                    None => fallback_version,
                }),
                None => res is None,
            },
    {
        match &self.websocket {
            Some(ws) => {
                let version = match ws.version {
                    Some(v) => v,
                    None => fallback_version,
                };
                let token = match &ws.token {
                    Some(t) => Some(t.clone()),
                    None => None,
                };
                Some(WsConnectInfo { url: ws.url.clone(), token, version })
            },
            None => None,
        }
    }
}

/// Why an OTA exchange failed.
#[derive(Debug)]
pub enum OtaError {
    /// The server offers MQTT only; this client speaks WebSocket only.
    MqttOnly,
}

/// A status code of success (2xx).
pub fn status_is_success(status: u16) -> (ok: bool)
    ensures
        ok == (200 <= status <= 299),
{
    200 <= status && status <= 299
}

/// Checks an OTA response: one that offers MQTT but no WebSocket is refused.
pub fn check_ota_response(resp: &OtaResponse) -> (res: Result<(), OtaError>)
    ensures
        res is Err <==> (resp.mqtt is Some && resp.websocket is None),
        res matches Err(e) ==> e is MqttOnly,
{
    if resp.mqtt.is_some() && resp.websocket.is_none() {
        Err(OtaError::MqttOnly)
    } else {
        Ok(())
    }
}

/// The response asks for activation, which this client does not support and
/// ignores.
pub fn activation_ignored(resp: &OtaResponse) -> (res: bool)
    ensures
        res == resp.activation is Some,
{
    resp.activation.is_some()
}

/// The header list of a request, as (name, value) views.
pub open spec fn header_views(h: Seq<(String, String)>) -> Seq<(Seq<char>, Seq<char>)> {
    h.map_values(|p: (String, String)| (p.0@, p.1@))
}

pub fn push_header(headers: &mut Vec<(String, String)>, name: &str, value: String)
    ensures
        header_views(final(headers)@) == header_views(old(headers)@).push((name@, value@)),
{
    headers.push((name.to_owned(), value));
    assert(header_views(headers@) =~= header_views(old(headers)@).push((name@, value@)));
}

/// The headers of the OTA request, in order.
pub open spec fn ota_headers(id: Identity, language: Seq<char>) -> Seq<(Seq<char>, Seq<char>)> {
    seq![
        ("User-Agent"@, user_agent_text(id.board_name@)),
        ("Device-Id"@, id.device_id@),
        ("Client-Id"@, id.client_id@),
        ("Accept-Language"@, language),
        ("Content-Type"@, "application/json"@),
    ]
}

/// The headers of the OTA request: the identity, the language and the
/// content type.
pub fn ota_request_headers(identity: &Identity, language: &str) -> (headers: Vec<(String, String)>)
    ensures
        header_views(headers@) == ota_headers(*identity, language@),
{
    let mut headers: Vec<(String, String)> = Vec::new();
    assert(header_views(headers@) =~= Seq::<(Seq<char>, Seq<char>)>::empty());
    push_header(&mut headers, "User-Agent", identity.user_agent());
    push_header(&mut headers, "Device-Id", identity.device_id.clone());
    push_header(&mut headers, "Client-Id", identity.client_id.clone());
    push_header(&mut headers, "Accept-Language", language.to_owned());
    push_header(&mut headers, "Content-Type", "application/json".to_owned());
    assert(header_views(headers@) =~= ota_headers(*identity, language@));
    headers
}

} // verus!

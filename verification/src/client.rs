//! The client session: what the client does on each event of a connected
//! session (a key press, a server message, an audio frame), as a state
//! machine that returns the actions to perform.

use vstd::prelude::*;
use crate::config::{first_of, opt_view, user_agent_text, Config, Identity};
use crate::json::{text_eq, value_of, Json, JsonValue};
use crate::ota::{header_views, push_header, OtaResponse, WsConnectInfo};
use crate::text::{contains_char, decimal, decimal_u8};
use crate::protocol::{
    abort, abort_document, decode_audio_frame, decoded_frame, encoded_frame, lemma_frame_roundtrip, listen_start,
    listen_start_document,
    listen_stop, listen_stop_document, member_text, opt_text, BinaryProtocolVersion, IncomingJson,
};

verus! {

/// The `Authorization` value for a token: the token itself when it holds a
/// space (it names its scheme), else a bearer token.
pub open spec fn authorization(token: Seq<char>) -> Seq<char> {
    if token.contains(' ') {
        token
    } else {
        "Bearer "@ + token
    }
}

/// The headers of the WebSocket request, in order.
pub open spec fn ws_headers(info: WsConnectInfo, id: Identity) -> Seq<(Seq<char>, Seq<char>)> {
    let base = seq![
        ("User-Agent"@, user_agent_text(id.board_name@)),
        ("Device-Id"@, id.device_id@),
        ("Client-Id"@, id.client_id@),
        ("Protocol-Version"@, decimal(info.version as nat)),
    ];
    match info.token {
        Some(t) => base.push(("Authorization"@, authorization(t@))),
        None => base,
    }
}

/// The headers of the WebSocket request: the identity, the binary protocol
/// version and, with a token, the authorization.
pub fn ws_request_headers(info: &WsConnectInfo, identity: &Identity) -> (headers: Vec<(String, String)>)
    ensures
        header_views(headers@) == ws_headers(*info, *identity),
{
    let mut headers: Vec<(String, String)> = Vec::new();
    assert(header_views(headers@) =~= Seq::<(Seq<char>, Seq<char>)>::empty());
    push_header(&mut headers, "User-Agent", identity.user_agent());
    push_header(&mut headers, "Device-Id", identity.device_id.clone());
    push_header(&mut headers, "Client-Id", identity.client_id.clone());
    push_header(&mut headers, "Protocol-Version", decimal_u8(info.version));
    let ghost base = header_views(headers@);
    assert(base =~= seq![
        ("User-Agent"@, user_agent_text(identity.board_name@)),
        ("Device-Id"@, identity.device_id@),
        ("Client-Id"@, identity.client_id@),
        ("Protocol-Version"@, decimal(info.version as nat)),
    ]);
    if let Some(token) = &info.token {
        let auth = if contains_char(token.as_str(), ' ') {
            token.clone()
        } else {
            let mut a = "Bearer ".to_owned();
            a.append(token.as_str());
            a
        };
        push_header(&mut headers, "Authorization", auth);
    }
    headers
}

/// Why the WebSocket endpoint could not be settled.
#[derive(Debug)]
pub enum ResolveError {
    /// No OTA URL on the command line, in the configuration or in the
    /// environment.
    NoOtaUrl,
    /// The OTA response names no WebSocket.
    MissingWebsocket,
}

/// How the client finds its WebSocket endpoint.
#[derive(Debug)]
pub enum WsPlan {
    /// Connect here, skipping the OTA exchange.
    Direct(WsConnectInfo),
    /// Ask the OTA endpoint at this URL first.
    FetchOta(String),
}

/// What a running client is made of.
pub struct ClientRuntime {
    pub protocol_version: u8,
    pub language: String,
    pub identity: Identity,
    pub config: Config,
}

impl ClientRuntime {
    pub fn new(protocol_version: u8, language: String, identity: Identity, config: Config) -> (r: ClientRuntime)
        ensures
            r.protocol_version == protocol_version,
            r.language == language,
            r.identity == identity,
            r.config == config,
    {
        ClientRuntime { protocol_version, language, identity, config }
    }

    /// How to reach the WebSocket: a configured WebSocket URL is used as is
    /// (with the configured token and this runtime's protocol version);
    /// otherwise the OTA URL in effect is asked first, and without one there
    /// is nothing to connect to.
    pub fn plan_ws(&self, cli_ota_url: &Option<String>, env_ota_url: Option<String>) -> (res: Result<
        WsPlan,
        ResolveError,
    >)
        ensures
            match self.config.stored.server.ws_url {
                Some(url) => res matches Ok(WsPlan::Direct(info)) && info.url@ == url@ && opt_view(info.token)
                    == opt_view(self.config.stored.server.token) && info.version == self.protocol_version,
                None => match first_of(
                    opt_view(*cli_ota_url),
                    opt_view(self.config.stored.server.ota_url),
                    opt_view(env_ota_url),
                ) {
                    Some(u) => res matches Ok(WsPlan::FetchOta(v)) && v@ == u,
                    None => res matches Err(ResolveError::NoOtaUrl),
                },
            },
    {
        if let Some(url) = self.config.ws_url() {
            return Ok(WsPlan::Direct(WsConnectInfo { url, token: self.config.token(), version: self.protocol_version }));
        }
        match self.config.effective_ota_url(cli_ota_url, env_ota_url) {
            Some(u) => Ok(WsPlan::FetchOta(u)),
            None => Err(ResolveError::NoOtaUrl),
        }
    }

    /// The WebSocket endpoint an OTA response points to, with this runtime's
    /// protocol version where the response names none.
    pub fn ws_from_ota(&self, ota: &OtaResponse) -> (res: Result<WsConnectInfo, ResolveError>)
        ensures
            match ota.websocket {
                Some(ws) => res matches Ok(info) && info.url@ == ws.url@ && opt_view(info.token) == opt_view(
                    ws.token,
                ) && info.version == (match ws.version {
                    Some(v) => v,
                    None => self.protocol_version,
                }),
                None => res matches Err(ResolveError::MissingWebsocket),
            },
    {
        match ota.resolve_ws(self.protocol_version) {
            Some(info) => Ok(info),
            None => Err(ResolveError::MissingWebsocket),
        }
    }
}

/// Where the conversation stands.
#[derive(Debug, Clone, Copy, PartialEq, Eq, Structural)]
pub enum State {
    /// Waiting for the user.
    Idle,
    /// The microphone is open and the server is listening.
    Listening,
    /// The server's spoken reply is playing.
    Speaking,
}

/// Something the client tells the user.
#[derive(Debug)]
pub enum Notice {
    /// Listening started; the user may speak.
    Listening,
    /// Listening stopped by hand; the server is working on a reply.
    Processing,
    /// The reply was interrupted and listening started again.
    Interrupted,
    /// What the server heard.
    Transcript(String),
    /// A reply of the language model, with its emotion.
    Reply { emotion: String, text: String },
    /// A sentence that the server is about to speak.
    Sentence(String),
    /// The reply ended; the user may speak again.
    Ready,
    /// A `tts` message with an unknown state.
    UnknownTtsState(Option<String>),
    /// The server said goodbye.
    Goodbye,
    /// A message of a type the client does not handle.
    Ignored(String),
    /// A text message that is not valid JSON.
    InvalidJson,
    /// The server closed the connection.
    ServerClosed,
    /// Receiving from the server failed.
    ReceiveFailed,
}

/// Something the client does.
#[derive(Debug)]
pub enum ClientAction {
    /// Send a JSON message; when sending fails and `stop_on_failure` holds,
    /// the session ends there.
    Send { message: JsonValue, stop_on_failure: bool },
    /// Send an uplink audio message; the session ends if that fails.
    SendAudio(Vec<u8>),
    /// Answer a ping.
    SendPong(Vec<u8>),
    /// Open (true) or close (false) the microphone uplink.
    SetListening(bool),
    /// Drop the audio that is waiting to be played.
    FlushOutput,
    /// Play a received Opus packet.
    PlayAudio(Vec<u8>),
    /// Tell the user something.
    Notify(Notice),
    /// End the session.
    Stop,
}

/// Something that happens while the session runs.
#[derive(Debug)]
pub enum ClientEvent {
    /// The user asked to quit.
    Interrupt,
    /// The user pressed Enter.
    Enter,
    /// The user's input ended.
    InputClosed,
    /// The microphone produced an uplink audio message.
    MicFrame(Vec<u8>),
    /// The microphone stopped.
    MicClosed,
    /// A text message from the server, parsed (`None`: not valid JSON).
    ServerText(Option<IncomingJson>),
    /// A binary message from the server.
    ServerBinary(Vec<u8>),
    /// A ping from the server.
    ServerPing(Vec<u8>),
    /// The server closed the connection.
    ServerClose,
    /// Another kind of frame from the server.
    ServerOther,
    /// Receiving from the server failed.
    ServerError,
    /// The connection ended.
    ServerEnd,
}

/// What a notice says.
pub enum NoticeView {
    Listening,
    Processing,
    Interrupted,
    Transcript(Seq<char>),
    Reply(Seq<char>, Seq<char>),
    Sentence(Seq<char>),
    Ready,
    UnknownTtsState(Option<Seq<char>>),
    Goodbye,
    Ignored(Seq<char>),
    InvalidJson,
    ServerClosed,
    ReceiveFailed,
}

/// What an action does.
pub enum Effect {
    Send(Json, bool),
    SendAudio(Seq<u8>),
    SendPong(Seq<u8>),
    SetListening(bool),
    FlushOutput,
    PlayAudio(Seq<u8>),
    Notify(NoticeView),
    Stop,
}

pub open spec fn notice_view(n: Notice) -> NoticeView {
    match n {
        Notice::Listening => NoticeView::Listening,
        Notice::Processing => NoticeView::Processing,
        Notice::Interrupted => NoticeView::Interrupted,
        Notice::Transcript(t) => NoticeView::Transcript(t@),
        Notice::Reply { emotion, text } => NoticeView::Reply(emotion@, text@),
        Notice::Sentence(t) => NoticeView::Sentence(t@),
        Notice::Ready => NoticeView::Ready,
        Notice::UnknownTtsState(s) => NoticeView::UnknownTtsState(
            match s {
                Some(x) => Some(x@),
                None => None,
            },
        ),
        Notice::Goodbye => NoticeView::Goodbye,
        Notice::Ignored(t) => NoticeView::Ignored(t@),
        Notice::InvalidJson => NoticeView::InvalidJson,
        Notice::ServerClosed => NoticeView::ServerClosed,
        Notice::ReceiveFailed => NoticeView::ReceiveFailed,
    }
}

pub open spec fn effect_of(a: ClientAction) -> Effect {
    match a {
        ClientAction::Send { message, stop_on_failure } => Effect::Send(value_of(message), stop_on_failure),
        ClientAction::SendAudio(b) => Effect::SendAudio(b@),
        ClientAction::SendPong(b) => Effect::SendPong(b@),
        ClientAction::SetListening(b) => Effect::SetListening(b),
        ClientAction::FlushOutput => Effect::FlushOutput,
        ClientAction::PlayAudio(b) => Effect::PlayAudio(b@),
        ClientAction::Notify(n) => Effect::Notify(notice_view(n)),
        ClientAction::Stop => Effect::Stop,
    }
}

/// What a list of actions does, in order.
pub open spec fn effects_of(actions: Seq<ClientAction>) -> Seq<Effect> {
    actions.map_values(|a: ClientAction| effect_of(a))
}

/// The state, microphone flag and effects after the user presses Enter in
/// `state` within session `sid`.
pub open spec fn enter_outcome(state: State, sid: Seq<char>) -> (State, bool, Seq<Effect>) {
    match state {
        State::Idle => (
            State::Listening,
            true,
            seq![
                Effect::Send(listen_start_document(sid, "auto"@), true),
                Effect::SetListening(true),
                Effect::Notify(NoticeView::Listening),
            ],
        ),
        State::Listening => (
            State::Idle,
            false,
            seq![
                Effect::SetListening(false),
                Effect::Send(listen_stop_document(sid), false),
                Effect::Notify(NoticeView::Processing),
            ],
        ),
        State::Speaking => (
            State::Listening,
            true,
            seq![
                Effect::FlushOutput,
                Effect::Send(abort_document(sid, "manual"@), false),
                Effect::Send(listen_start_document(sid, "auto"@), false),
                Effect::SetListening(true),
                Effect::Notify(NoticeView::Interrupted),
            ],
        ),
    }
}

/// The message belongs to session `sid` (a message that names no session
/// belongs to every session).
pub open spec fn for_session(msg: IncomingJson, sid: Seq<char>) -> bool {
    match msg.session_id {
        Some(s) => s@ == sid,
        None => true,
    }
}

/// A string or, for none, the empty string.
pub open spec fn text_or_empty(t: Option<Seq<char>>) -> Seq<char> {
    match t {
        Some(s) => s,
        None => Seq::empty(),
    }
}

/// The state, microphone flag and effects after a server JSON message.
pub open spec fn message_outcome(state: State, listening: bool, sid: Seq<char>, msg: IncomingJson) -> (
    State,
    bool,
    Seq<Effect>,
) {
    let typ = msg.typ@;
    let text = member_text(msg.extra, "text"@);
    if !for_session(msg, sid) {
        (state, listening, Seq::empty())
    } else if typ == "stt"@ {
        (
            state,
            false,
            seq![
                Effect::Notify(NoticeView::Transcript(text_or_empty(text))),
                Effect::SetListening(false),
            ],
        )
    } else if typ == "llm"@ {
        if text_or_empty(text).len() > 0 {
            (
                state,
                listening,
                seq![
                    Effect::Notify(
                        NoticeView::Reply(
                            text_or_empty(member_text(msg.extra, "emotion"@)),
                            text_or_empty(text),
                        ),
                    ),
                ],
            )
        } else {
            (state, listening, Seq::empty())
        }
    } else if typ == "tts"@ {
        let tts_state = member_text(msg.extra, "state"@);
        if tts_state == Some("start"@) {
            (State::Speaking, false, seq![Effect::SetListening(false)])
        } else if tts_state == Some("sentence_start"@) {
            if text_or_empty(text).len() > 0 {
                (state, listening, seq![Effect::Notify(NoticeView::Sentence(text_or_empty(text)))])
            } else {
                (state, listening, Seq::empty())
            }
        } else if tts_state == Some("stop"@) {
            (State::Idle, listening, seq![Effect::FlushOutput, Effect::Notify(NoticeView::Ready)])
        } else {
            (state, listening, seq![Effect::Notify(NoticeView::UnknownTtsState(tts_state))])
        }
    } else if typ == "hello"@ {
        (state, listening, Seq::empty())
    } else if typ == "goodbye"@ {
        (state, listening, seq![Effect::Notify(NoticeView::Goodbye)])
    } else {
        (state, listening, seq![Effect::Notify(NoticeView::Ignored(typ))])
    }
}

/// The state, microphone flag and effects after any event.
pub open spec fn event_outcome(
    state: State,
    listening: bool,
    sid: Seq<char>,
    version: BinaryProtocolVersion,
    event: ClientEvent,
) -> (State, bool, Seq<Effect>) {
    match event {
        ClientEvent::Interrupt => (state, listening, seq![Effect::Stop]),
        ClientEvent::Enter => enter_outcome(state, sid),
        ClientEvent::InputClosed => (state, listening, seq![Effect::Stop]),
        ClientEvent::MicFrame(b) => (state, listening, seq![Effect::SendAudio(b@)]),
        ClientEvent::MicClosed => (state, listening, seq![Effect::Stop]),
        ClientEvent::ServerText(Some(msg)) => message_outcome(state, listening, sid, msg),
        ClientEvent::ServerText(None) => (state, listening, seq![Effect::Notify(NoticeView::InvalidJson)]),
        ClientEvent::ServerBinary(b) => match decoded_frame(version, b@) {
            Some((_, payload)) => (state, listening, seq![Effect::PlayAudio(payload)]),
            None => (state, listening, Seq::empty()),
        },
        ClientEvent::ServerPing(p) => (state, listening, seq![Effect::SendPong(p@)]),
        ClientEvent::ServerClose => (
            state,
            listening,
            seq![Effect::Notify(NoticeView::ServerClosed), Effect::Stop],
        ),
        ClientEvent::ServerOther => (state, listening, Seq::empty()),
        ClientEvent::ServerError => (
            state,
            listening,
            seq![Effect::Notify(NoticeView::ReceiveFailed), Effect::Stop],
        ),
        ClientEvent::ServerEnd => (state, listening, seq![Effect::Stop]),
    }
}

/// When the connection closes, fails or ends, the session stops: the last
/// effect is `Stop`, and the end of the stream does nothing else.
pub proof fn lemma_connection_end_stops(
    state: State,
    listening: bool,
    sid: Seq<char>,
    version: BinaryProtocolVersion,
    event: ClientEvent,
)
    requires
        event is ServerClose || event is ServerError || event is ServerEnd,
    ensures
        ({
            let effects = event_outcome(state, listening, sid, version, event).2;
            &&& effects.len() > 0
            &&& effects.last() == Effect::Stop
            &&& event is ServerEnd ==> effects == seq![Effect::Stop]
        }),
{
}

/// Audio and pings pass through the session unchanged and change no state: a
/// microphone message is sent as it is, a ping is answered by a pong with its
/// bytes, a server frame encoded for the negotiated version plays its
/// payload, and other server frames do nothing.
pub proof fn lemma_traffic_passes_through(
    state: State,
    listening: bool,
    sid: Seq<char>,
    version: BinaryProtocolVersion,
    event: ClientEvent,
    timestamp: u32,
    payload: Seq<u8>,
)
    requires
        version is V3 ==> payload.len() < 0x1_0000,
        version is V2 ==> payload.len() < 0x1_0000_0000,
    ensures
        event matches ClientEvent::MicFrame(b) ==> event_outcome(state, listening, sid, version, event)
            == (state, listening, seq![Effect::SendAudio(b@)]),
        event matches ClientEvent::ServerPing(p) ==> event_outcome(state, listening, sid, version, event)
            == (state, listening, seq![Effect::SendPong(p@)]),
        event matches ClientEvent::ServerBinary(b) && b@ == encoded_frame(version, timestamp, payload)
            ==> event_outcome(state, listening, sid, version, event) == (
            state,
            listening,
            seq![Effect::PlayAudio(payload)],
        ),
        event is ServerOther ==> event_outcome(state, listening, sid, version, event) == (
            state,
            listening,
            Seq::<Effect>::empty(),
        ),
{
    lemma_frame_roundtrip(version, timestamp, payload);
}

/// The user's quit and the end of the user's input or of the microphone stop
/// the session too.
pub proof fn lemma_local_end_stops(
    state: State,
    listening: bool,
    sid: Seq<char>,
    version: BinaryProtocolVersion,
    event: ClientEvent,
)
    requires
        event is Interrupt || event is InputClosed || event is MicClosed,
    ensures
        event_outcome(state, listening, sid, version, event).2 == seq![Effect::Stop],
        event_outcome(state, listening, sid, version, event).0 == state,
        event_outcome(state, listening, sid, version, event).1 == listening,
{
}

/// While the reply plays the microphone stays closed: every event keeps
/// "Speaking implies not listening" true.
pub proof fn lemma_speaking_never_listening(
    state: State,
    listening: bool,
    sid: Seq<char>,
    version: BinaryProtocolVersion,
    event: ClientEvent,
)
    requires
        state is Speaking ==> !listening,
    ensures
        event_outcome(state, listening, sid, version, event).0 is Speaking ==> !event_outcome(
            state,
            listening,
            sid,
            version,
            event,
        ).1,
{
}

/// After Enter the microphone is open exactly when the session listens, and
/// the reply is never playing.
pub proof fn lemma_enter_opens_microphone_iff_listening(state: State, sid: Seq<char>)
    ensures
        enter_outcome(state, sid).1 <==> enter_outcome(state, sid).0 is Listening,
        !(enter_outcome(state, sid).0 is Speaking),
{
}

/// Pressing Enter twice from idle starts and then stops listening: the session
/// is idle again with the microphone closed, having sent a listen start and
/// then a listen stop for the session.
pub proof fn lemma_enter_twice_from_idle(sid: Seq<char>)
    ensures
        ({
            let first = enter_outcome(State::Idle, sid);
            let second = enter_outcome(first.0, sid);
            &&& second.0 == State::Idle
            &&& !second.1
            &&& first.2[0] == Effect::Send(listen_start_document(sid, "auto"@), true)
            &&& second.2[1] == Effect::Send(listen_stop_document(sid), false)
        }),
{
}

/// A message of another session changes nothing and does nothing.
pub proof fn lemma_other_session_ignored(state: State, listening: bool, sid: Seq<char>, msg: IncomingJson)
    requires
        !for_session(msg, sid),
    ensures
        message_outcome(state, listening, sid, msg) == (state, listening, Seq::<Effect>::empty()),
{
}

/// The end of a spoken reply always drops the queued audio and leaves the
/// session idle, whatever state it was in.
pub proof fn lemma_tts_stop_ends_reply(state: State, listening: bool, sid: Seq<char>, msg: IncomingJson)
    requires
        for_session(msg, sid),
        msg.typ@ == "tts"@,
        member_text(msg.extra, "state"@) == Some("stop"@),
    ensures
        message_outcome(state, listening, sid, msg).0 == State::Idle,
        message_outcome(state, listening, sid, msg).2 == seq![Effect::FlushOutput, Effect::Notify(NoticeView::Ready)],
{
    reveal_strlit("tts");
    reveal_strlit("stt");
    reveal_strlit("llm");
    reveal_strlit("stop");
    reveal_strlit("start");
    reveal_strlit("sentence_start");
    assert("tts"@ != "stt"@ && "tts"@ != "llm"@) by {
        assert("tts"@[0] != "stt"@[0] && "tts"@[0] != "llm"@[0]);
    }
    assert("stop"@ != "start"@ && "stop"@ != "sentence_start"@) by {
        assert("stop"@[2] != "start"@[2]);
        assert("stop"@.len() != "sentence_start"@.len());
    }
}

/// The microphone opens only together with a listen start: an event that
/// turns the microphone flag on is an Enter press whose effects send a
/// listen start for the session before they open the microphone.
pub proof fn lemma_microphone_opens_only_after_listen_start(
    state: State,
    listening: bool,
    sid: Seq<char>,
    version: BinaryProtocolVersion,
    event: ClientEvent,
)
    requires
        !listening,
        event_outcome(state, listening, sid, version, event).1,
    ensures
        event is Enter,
        ({
            let effects = event_outcome(state, listening, sid, version, event).2;
            exists|j: int, k: int, b: bool|
                0 <= j < k < effects.len() && effects[j] == Effect::Send(listen_start_document(sid, "auto"@), b)
                    && effects[k] == Effect::SetListening(true)
        }),
{
    reveal_strlit("start");
    reveal_strlit("tts");
    reveal_strlit("stt");
    reveal_strlit("llm");
    let effects = event_outcome(state, listening, sid, version, event).2;
    match event {
        ClientEvent::Enter => {
            match state {
                State::Idle => {
                    assert(effects[0] == Effect::Send(listen_start_document(sid, "auto"@), true));
                    assert(effects[1] == Effect::SetListening(true));
                },
                State::Speaking => {
                    assert(effects[2] == Effect::Send(listen_start_document(sid, "auto"@), false));
                    assert(effects[3] == Effect::SetListening(true));
                },
                State::Listening => {},
            }
        },
        _ => {},
    }
}

/// The microphone closes on a listen stop (Enter while listening), on the
/// server's transcript, and when the spoken reply starts.
pub proof fn lemma_microphone_closes(
    state: State,
    listening: bool,
    sid: Seq<char>,
    version: BinaryProtocolVersion,
    msg: IncomingJson,
)
    ensures
        !enter_outcome(State::Listening, sid).1,
        for_session(msg, sid) && msg.typ@ == "stt"@ ==> !message_outcome(state, listening, sid, msg).1,
        for_session(msg, sid) && msg.typ@ == "tts"@ && member_text(msg.extra, "state"@) == Some("start"@)
            ==> !message_outcome(state, listening, sid, msg).1,
{
    reveal_strlit("tts");
    reveal_strlit("stt");
    reveal_strlit("llm");
    assert("tts"@ != "stt"@ && "tts"@ != "llm"@) by {
        assert("tts"@[0] != "stt"@[0] && "tts"@[0] != "llm"@[0]);
    }
}

/// Whether a microphone frame goes to the server: only while the microphone
/// is open; otherwise it is dropped.
pub fn forward_mic_frame(listening: bool, frame: Vec<u8>) -> (res: Option<Vec<u8>>)
    ensures
        match res {
            Some(f) => listening && f@ == frame@,
            None => !listening,
        },
{
    if listening {
        Some(frame)
    } else {
        None
    }
}

/// A connected session.
pub struct Session {
    pub state: State,
    /// Whether microphone audio is forwarded to the server.
    pub listening: bool,
    pub session_id: String,
    pub version: BinaryProtocolVersion,
}

fn push_action(actions: &mut Vec<ClientAction>, a: ClientAction)
    ensures
        effects_of(final(actions)@) == effects_of(old(actions)@).push(effect_of(a)),
{
    actions.push(a);
    assert(effects_of(actions@) =~= effects_of(old(actions)@).push(effect_of(a)));
}

impl Session {
    /// A session that is idle, with the microphone closed.
    pub fn new(session_id: String, version: BinaryProtocolVersion) -> (s: Session)
        ensures
            s.state == State::Idle,
            !s.listening,
            s.session_id@ == session_id@,
            s.version == version,
    {
        Session { state: State::Idle, listening: false, session_id, version }
    }

    /// The user pressed Enter: start listening, stop listening, or interrupt
    /// the reply and listen again.
    pub fn on_enter(&mut self) -> (actions: Vec<ClientAction>)
        ensures
            (final(self).state, final(self).listening, effects_of(actions@)) == enter_outcome(
                old(self).state,
                old(self).session_id@,
            ),
            final(self).session_id@ == old(self).session_id@,
            final(self).version == old(self).version,
    {
        let mut actions: Vec<ClientAction> = Vec::new();
        assert(effects_of(actions@) =~= Seq::<Effect>::empty());
        match self.state {
            State::Idle => {
                let msg = listen_start(self.session_id.as_str(), "auto");
                push_action(&mut actions, ClientAction::Send { message: msg, stop_on_failure: true });
                push_action(&mut actions, ClientAction::SetListening(true));
                push_action(&mut actions, ClientAction::Notify(Notice::Listening));
                self.listening = true;
                self.state = State::Listening;
            },
            State::Listening => {
                push_action(&mut actions, ClientAction::SetListening(false));
                self.listening = false;
                let msg = listen_stop(self.session_id.as_str());
                push_action(&mut actions, ClientAction::Send { message: msg, stop_on_failure: false });
                push_action(&mut actions, ClientAction::Notify(Notice::Processing));
                self.state = State::Idle;
            },
            State::Speaking => {
                push_action(&mut actions, ClientAction::FlushOutput);
                let msg = abort(self.session_id.as_str(), "manual");
                push_action(&mut actions, ClientAction::Send { message: msg, stop_on_failure: false });
                let msg = listen_start(self.session_id.as_str(), "auto");
                push_action(&mut actions, ClientAction::Send { message: msg, stop_on_failure: false });
                push_action(&mut actions, ClientAction::SetListening(true));
                self.listening = true;
                push_action(&mut actions, ClientAction::Notify(Notice::Interrupted));
                self.state = State::Listening;
            },
        }
        assert(effects_of(actions@) =~= enter_outcome(old(self).state, old(self).session_id@).2);
        actions
    }

    /// A JSON message from the server: show what it says and follow the
    /// reply's progress. Messages of other sessions are ignored.
    pub fn on_server_message(&mut self, msg: &IncomingJson) -> (actions: Vec<ClientAction>)
        ensures
            (final(self).state, final(self).listening, effects_of(actions@)) == message_outcome(
                old(self).state,
                old(self).listening,
                old(self).session_id@,
                *msg,
            ),
            final(self).session_id@ == old(self).session_id@,
            final(self).version == old(self).version,
    {
        let mut actions: Vec<ClientAction> = Vec::new();
        assert(effects_of(actions@) =~= Seq::<Effect>::empty());
        let ghost outcome = message_outcome(self.state, self.listening, self.session_id@, *msg);
        proof {
            reveal_strlit("");
        }
        if let Some(sid) = &msg.session_id {
            if !text_eq(sid.as_str(), self.session_id.as_str()) {
                return actions;
            }
        }
        assert(for_session(*msg, self.session_id@));
        let typ = msg.typ.as_str();
        if text_eq(typ, "stt") {
            let t = match msg.text() {
                Some(t) => t,
                None => "",
            };
            assert(msg.typ@ == "stt"@);
            assert(t@ == text_or_empty(member_text(msg.extra, "text"@)));
            push_action(&mut actions, ClientAction::Notify(Notice::Transcript(t.to_owned())));
            push_action(&mut actions, ClientAction::SetListening(false));
            self.listening = false;
        } else if text_eq(typ, "llm") {
            let emotion = match msg.emotion() {
                Some(e) => e,
                None => "",
            };
            let t = match msg.text() {
                Some(t) => t,
                None => "",
            };
            assert(t@ == text_or_empty(member_text(msg.extra, "text"@)));
            assert(emotion@ == text_or_empty(member_text(msg.extra, "emotion"@)));
            if t.unicode_len() > 0 {
                push_action(
                    &mut actions,
                    ClientAction::Notify(Notice::Reply { emotion: emotion.to_owned(), text: t.to_owned() }),
                );
            }
        } else if text_eq(typ, "tts") {
            match msg.state() {
                Some(st) => {
                    if text_eq(st, "start") {
                        push_action(&mut actions, ClientAction::SetListening(false));
                        self.listening = false;
                        self.state = State::Speaking;
                    } else if text_eq(st, "sentence_start") {
                        if let Some(t) = msg.text() {
                            if t.unicode_len() > 0 {
                                push_action(&mut actions, ClientAction::Notify(Notice::Sentence(t.to_owned())));
                            }
                        }
                    } else if text_eq(st, "stop") {
                        push_action(&mut actions, ClientAction::FlushOutput);
                        self.state = State::Idle;
                        push_action(&mut actions, ClientAction::Notify(Notice::Ready));
                    } else {
                        push_action(
                            &mut actions,
                            ClientAction::Notify(Notice::UnknownTtsState(Some(st.to_owned()))),
                        );
                    }
                },
                None => {
                    push_action(&mut actions, ClientAction::Notify(Notice::UnknownTtsState(None)));
                },
            }
        } else if text_eq(typ, "hello") {
        } else if text_eq(typ, "goodbye") {
            push_action(&mut actions, ClientAction::Notify(Notice::Goodbye));
        } else {
            push_action(&mut actions, ClientAction::Notify(Notice::Ignored(typ.to_owned())));
        }
        assert(effects_of(actions@) =~= outcome.2);
        actions
    }

    /// Any event of the running session.
    pub fn on_event(&mut self, event: ClientEvent) -> (actions: Vec<ClientAction>)
        ensures
            (final(self).state, final(self).listening, effects_of(actions@)) == event_outcome(
                old(self).state,
                old(self).listening,
                old(self).session_id@,
                old(self).version,
                event,
            ),
            final(self).session_id@ == old(self).session_id@,
            final(self).version == old(self).version,
    {
        let mut actions: Vec<ClientAction> = Vec::new();
        assert(effects_of(actions@) =~= Seq::<Effect>::empty());
        let ghost outcome = event_outcome(self.state, self.listening, self.session_id@, self.version, event);
        match event {
            ClientEvent::Interrupt => push_action(&mut actions, ClientAction::Stop),
            ClientEvent::Enter => {
                return self.on_enter();
            },
            ClientEvent::InputClosed => push_action(&mut actions, ClientAction::Stop),
            ClientEvent::MicFrame(b) => push_action(&mut actions, ClientAction::SendAudio(b)),
            ClientEvent::MicClosed => push_action(&mut actions, ClientAction::Stop),
            ClientEvent::ServerText(Some(msg)) => {
                return self.on_server_message(&msg);
            },
            ClientEvent::ServerText(None) => push_action(&mut actions, ClientAction::Notify(Notice::InvalidJson)),
            ClientEvent::ServerBinary(b) => {
                if let Some(f) = decode_audio_frame(self.version, b.as_slice()) {
                    push_action(&mut actions, ClientAction::PlayAudio(f.payload));
                }
            },
            ClientEvent::ServerPing(p) => push_action(&mut actions, ClientAction::SendPong(p)),
            ClientEvent::ServerClose => {
                push_action(&mut actions, ClientAction::Notify(Notice::ServerClosed));
                push_action(&mut actions, ClientAction::Stop);
            },
            ClientEvent::ServerOther => {},
            ClientEvent::ServerError => {
                push_action(&mut actions, ClientAction::Notify(Notice::ReceiveFailed));
                push_action(&mut actions, ClientAction::Stop);
            },
            ClientEvent::ServerEnd => push_action(&mut actions, ClientAction::Stop),
        }
        assert(effects_of(actions@) =~= outcome.2);
        actions
    }
}

} // verus!

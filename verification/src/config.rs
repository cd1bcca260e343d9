//! The client's identity and configuration: the stored file's contents, the
//! rules that fill and merge them, and the identity's text forms.

use vstd::prelude::*;
use crate::text::{hex_byte, hex_bytes, push_hex_byte};

verus! {

/// The canonical text of a UUID: its bytes in lowercase hexadecimal, grouped
/// 4-2-2-2-6 bytes with hyphens between the groups.
pub open spec fn uuid_hyphenated(b: Seq<u8>) -> Seq<char> {
    hex_bytes(b.subrange(0, 4)) + seq!['-'] + hex_bytes(b.subrange(4, 6)) + seq!['-'] + hex_bytes(
        b.subrange(6, 8),
    ) + seq!['-'] + hex_bytes(b.subrange(8, 10)) + seq!['-'] + hex_bytes(b.subrange(10, 16))
}

/// The bytes of a version-4 (random) UUID: the version nibble is 4 and the
/// variant bits are 10.
pub open spec fn is_v4_uuid(b: Seq<u8>) -> bool {
    &&& b.len() == 16
    &&& b[6] as int / 16 == 4
    &&& b[8] as int / 64 == 2
}

proof fn lemma_hex_bytes_len(b: Seq<u8>)
    ensures
        hex_bytes(b).len() == 2 * b.len(),
    decreases b.len(),
{
    if b.len() > 0 {
        lemma_hex_bytes_len(b.drop_last());
    }
}

proof fn lemma_uuid_text_len(b: Seq<u8>)
    requires
        b.len() == 16,
    ensures
        uuid_hyphenated(b).len() == 36,
{
    lemma_hex_bytes_len(b.subrange(0, 4));
    lemma_hex_bytes_len(b.subrange(4, 6));
    lemma_hex_bytes_len(b.subrange(6, 8));
    lemma_hex_bytes_len(b.subrange(8, 10));
    lemma_hex_bytes_len(b.subrange(10, 16));
}

/// Calls `uuid::Uuid::new_v4` and hands out its 16 bytes. Its contract claims
/// what uuid's source shows of `new_v4`: the version nibble (byte 6, high
/// half) is 4 and the variant bits (byte 8, top two) are 10; the other bits
/// come from a random source, so nothing more is stated.
#[verifier::external_body]
fn random_uuid_bytes() -> (b: [u8; 16])
    ensures
        is_v4_uuid(b@),
{
    uuid::Uuid::new_v4().into_bytes()
}

/// Calls `uuid::Uuid::from_bytes(b).to_string()`. Its contract claims what
/// uuid documents for the `Display` form of a UUID: the hyphenated form in
/// lowercase hexadecimal.
#[verifier::external_body]
fn uuid_text(b: [u8; 16]) -> (s: String)
    ensures
        s@ == uuid_hyphenated(b@),
{
    uuid::Uuid::from_bytes(b).to_string()
}

/// A pseudo MAC address: the six bytes in lowercase hexadecimal, joined by
/// colons.
pub open spec fn mac_text(b: Seq<u8>) -> Seq<char> {
    hex_byte(b[0]) + seq![':'] + hex_byte(b[1]) + seq![':'] + hex_byte(b[2]) + seq![':'] + hex_byte(b[3])
        + seq![':'] + hex_byte(b[4]) + seq![':'] + hex_byte(b[5])
}

/// The board name this client reports.
pub open spec fn board() -> Seq<char> {
    "rust-cli"@
}

/// The stable identity of this client, generated on first run.
#[derive(Debug, Clone)]
pub struct Identity {
    pub client_id: String,
    pub device_id: String,
    pub board_name: String,
}

/// The `User-Agent` value for a board name.
pub open spec fn user_agent_text(board_name: Seq<char>) -> Seq<char> {
    "Xiaozhi/"@ + board_name + "/0.1.0 (Rust/Linux)"@
}

impl Identity {
    /// The identity made from two UUIDs: the first one's text is the client
    /// id, the first six bytes of the second form the device id (a pseudo
    /// MAC address), and the board is "rust-cli".
    pub fn from_uuids(client: [u8; 16], device: [u8; 16]) -> (id: Identity)
        ensures
            id.client_id@ == uuid_hyphenated(client@),
            id.device_id@ == mac_text(device@),
            id.board_name@ == board(),
    {
        let client_id = uuid_text(client);
        let mut mac = String::new();
        push_hex_byte(&mut mac, device[0]);
        mac.append(":");
        push_hex_byte(&mut mac, device[1]);
        mac.append(":");
        push_hex_byte(&mut mac, device[2]);
        mac.append(":");
        push_hex_byte(&mut mac, device[3]);
        mac.append(":");
        push_hex_byte(&mut mac, device[4]);
        mac.append(":");
        push_hex_byte(&mut mac, device[5]);
        proof {
            reveal_strlit(":");
            assert(mac@ =~= mac_text(device@));
        }
        Identity { client_id, device_id: mac, board_name: "rust-cli".to_owned() }
    }

    /// A fresh identity from two random UUIDs.
    pub fn generate() -> (id: Identity)
        ensures
            exists|a: Seq<u8>, b: Seq<u8>|
                is_v4_uuid(a) && is_v4_uuid(b) && id.client_id@ == uuid_hyphenated(a) && id.device_id@
                    == mac_text(b),
            id.client_id@.len() == 36,
            id.board_name@ == board(),
    {
        let client = random_uuid_bytes();
        let device = random_uuid_bytes();
        let id = Identity::from_uuids(client, device);
        proof {
            lemma_uuid_text_len(client@);
        }
        assert(is_v4_uuid(client@) && is_v4_uuid(device@) && id.client_id@ == uuid_hyphenated(client@)
            && id.device_id@ == mac_text(device@));
        id
    }

    /// The `User-Agent` this client sends.
    pub fn user_agent(&self) -> (ua: String)
        ensures
            ua@ == user_agent_text(self.board_name@),
    {
        let mut s = "Xiaozhi/".to_owned();
        s.append(self.board_name.as_str());
        s.append("/0.1.0 (Rust/Linux)");
        s
    }
}

/// The characters of an optional string.
pub open spec fn opt_view(o: Option<String>) -> Option<Seq<char>> {
    match o {
        Some(s) => Some(s@),
        None => None,
    }
}

fn copy_opt(o: &Option<String>) -> (res: Option<String>)
    ensures
        opt_view(res) == opt_view(*o),
{
    match o {
        Some(s) => Some(s.clone()),
        None => None,
    }
}

/// The server settings of the configuration file.
#[derive(Debug, Clone)]
pub struct ServerConfig {
    pub ota_url: Option<String>,
    pub ws_url: Option<String>,
    pub token: Option<String>,
}

impl Default for ServerConfig {
    fn default() -> (c: ServerConfig)
        ensures
            c.ota_url is None,
            c.ws_url is None,
            c.token is None,
    {
        ServerConfig { ota_url: None, ws_url: None, token: None }
    }
}

/// The configuration file: `[identity]` and `[server]`.
#[derive(Debug, Clone)]
pub struct StoredConfig {
    pub identity: Identity,
    pub server: ServerConfig,
}

/// When the configuration file is to be written.
#[derive(Debug, Clone, Copy, PartialEq, Eq, Structural)]
pub enum SaveMode {
    /// The file needs no change.
    Skip,
    /// Write it, and carry on if that fails.
    BestEffort,
    /// Write it; failing to is an error.
    Required,
}

/// The configuration as read from the file, before it is settled: the
/// `[identity]` table may be missing.
#[derive(Debug, Clone)]
pub struct LoadedConfig {
    pub identity: Option<Identity>,
    pub server: ServerConfig,
}

/// The identity is to be replaced: the file has none, or its client id is
/// empty.
pub open spec fn needs_identity(identity: Option<Identity>) -> bool {
    match identity {
        Some(id) => id.client_id@.len() == 0,
        None => true,
    }
}

/// Settles the stored configuration at start-up, so that the identity made on
/// the first run persists. A configuration read from the file keeps its
/// identity unless it has none or its client id is empty (then `fresh`
/// replaces it), and takes `cli_ota_url` only when it has no OTA URL; it is
/// written back, best effort, when either happened. Without a file, a new
/// configuration is made of `fresh` and `cli_ota_url`, and must be written.
pub fn settle_stored_config(existing: Option<LoadedConfig>, cli_ota_url: &Option<String>, fresh: Identity) -> (res: (
    StoredConfig,
    SaveMode,
))
    ensures
        match existing {
            Some(old) => {
                let regenerate = needs_identity(old.identity);
                let adopt_url = old.server.ota_url is None;
                &&& res.0.identity == settled_identity(existing, fresh)
                &&& opt_view(res.0.server.ota_url) == (if adopt_url {
                    opt_view(*cli_ota_url)
                } else {
                    opt_view(old.server.ota_url)
                })
                &&& res.0.server.ws_url == old.server.ws_url
                &&& res.0.server.token == old.server.token
                &&& res.1 == (if regenerate || adopt_url { SaveMode::BestEffort } else { SaveMode::Skip })
            },
            None => {
                &&& res.0.identity == settled_identity(existing, fresh)
                &&& opt_view(res.0.server.ota_url) == opt_view(*cli_ota_url)
                &&& res.0.server.ws_url is None
                &&& res.0.server.token is None
                &&& res.1 == SaveMode::Required
            },
        },
{
    match existing {
        Some(loaded) => {
            let mut save = SaveMode::Skip;
            let identity = match loaded.identity {
                Some(id) => {
                    if id.client_id.unicode_len() == 0 {
                        save = SaveMode::BestEffort;
                        fresh
                    } else {
                        id
                    }
                },
                None => {
                    save = SaveMode::BestEffort;
                    fresh
                },
            };
            let mut cfg = StoredConfig { identity, server: loaded.server };
            if cfg.server.ota_url.is_none() {
                cfg.server.ota_url = copy_opt(cli_ota_url);
                save = SaveMode::BestEffort;
            }
            (cfg, save)
        },
        None => {
            let cfg = StoredConfig {
                identity: fresh,
                server: ServerConfig { ota_url: copy_opt(cli_ota_url), ws_url: None, token: None },
            };
            (cfg, SaveMode::Required)
        },
    }
}

/// The identity a start-up settles on.
pub open spec fn settled_identity(existing: Option<LoadedConfig>, fresh: Identity) -> Identity {
    match existing {
        Some(old) => if needs_identity(old.identity) {
            fresh
        } else {
            old.identity.unwrap()
        },
        None => fresh,
    }
}

/// The identity persists: once a start-up has settled on an identity (from
/// the file, or a freshly generated one with a client id) and it is stored,
/// every later start-up keeps it, whatever it is offered as fresh.
pub proof fn lemma_identity_persists(
    first: Option<LoadedConfig>,
    fresh: Identity,
    server: ServerConfig,
    later_fresh: Identity,
)
    requires
        fresh.client_id@.len() > 0,
    ensures
        settled_identity(
            Some(LoadedConfig { identity: Some(settled_identity(first, fresh)), server }),
            later_fresh,
        ) == settled_identity(first, fresh),
{
}

/// The text of the configuration file for the serialized settings `body`.
pub fn config_file_text(body: &str) -> (text: String)
    ensures
        text@ == "# xiaozhi-client-rs config\n\n"@ + body@,
{
    let mut out = "# xiaozhi-client-rs config\n\n".to_owned();
    out.append(body);
    out
}

/// The configuration in effect while the client runs.
#[derive(Debug, Clone)]
pub struct Config {
    pub stored: StoredConfig,
    pub config_path: String,
    pub language: String,
    pub protocol_version: u8,
}

/// The first of the options that holds a value.
pub open spec fn first_of(a: Option<Seq<char>>, b: Option<Seq<char>>, c: Option<Seq<char>>) -> Option<Seq<char>> {
    if a is Some {
        a
    } else if b is Some {
        b
    } else {
        c
    }
}

impl Config {
    /// The client's identity.
    pub fn identity(&self) -> (id: &Identity)
        ensures
            *id == self.stored.identity,
    {
        &self.stored.identity
    }

    /// The OTA URL to use: the command line's, else the stored one, else the
    /// one from the environment (`env_ota_url`, read from `XIAOZHI_OTA_URL`).
    pub fn effective_ota_url(&self, cli_ota: &Option<String>, env_ota_url: Option<String>) -> (url: Option<String>)
        ensures
            opt_view(url) == first_of(opt_view(*cli_ota), opt_view(self.stored.server.ota_url), opt_view(env_ota_url)),
    {
        if cli_ota.is_some() {
            copy_opt(cli_ota)
        } else if self.stored.server.ota_url.is_some() {
            copy_opt(&self.stored.server.ota_url)
        } else {
            env_ota_url
        }
    }

    /// The stored WebSocket URL, if any.
    pub fn ws_url(&self) -> (url: Option<String>)
        ensures
            opt_view(url) == opt_view(self.stored.server.ws_url),
    {
        copy_opt(&self.stored.server.ws_url)
    }

    /// The stored token, if any.
    pub fn token(&self) -> (token: Option<String>)
        ensures
            opt_view(token) == opt_view(self.stored.server.token),
    {
        copy_opt(&self.stored.server.token)
    }

    /// Puts the WebSocket URL and the token given on the command line in
    /// place of the stored ones; an absent one leaves the stored one.
    pub fn apply_overrides(&mut self, ws_url: Option<String>, token: Option<String>)
        ensures
            opt_view(final(self).stored.server.ws_url) == (if ws_url is Some {
                opt_view(ws_url)
            } else {
                opt_view(old(self).stored.server.ws_url)
            }),
            opt_view(final(self).stored.server.token) == (if token is Some {
                opt_view(token)
            } else {
                opt_view(old(self).stored.server.token)
            }),
            final(self).stored.identity == old(self).stored.identity,
            final(self).stored.server.ota_url == old(self).stored.server.ota_url,
            final(self).config_path == old(self).config_path,
            final(self).language == old(self).language,
            final(self).protocol_version == old(self).protocol_version,
    {
        if ws_url.is_some() {
            self.stored.server.ws_url = ws_url;
        }
        if token.is_some() {
            self.stored.server.token = token;
        }
    }
}

} // verus!

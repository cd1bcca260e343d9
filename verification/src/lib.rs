//! Core logic of a command-line client for the Xiaozhi voice-assistant
//! WebSocket protocol: binary audio framing, control messages, the session
//! state machine, configuration rules and PCM sample handling.

pub mod audio;
pub mod client;
pub mod config;
pub mod json;
pub mod ota;
pub mod protocol;
pub mod text;

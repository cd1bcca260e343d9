# xiaozhi_client_rs

A command-line client for the Xiaozhi voice-assistant WebSocket protocol,
with its protocol and session logic verified in Verus.

- `src/` — the verified library:
  - `protocol.rs`: binary audio framing (V1/V2/V3), control messages,
    server messages, uplink frame numbering;
  - `json.rs`: the JSON document model the messages are built from;
  - `client.rs`: the session state machine (keyboard, server and
    microphone events to actions), connection planning, request headers;
  - `config.rs`, `ota.rs`: identity, configuration rules, OTA checks;
  - `audio/`: sample formats, stream configuration choice, device name
    matching, PCM conversion, downmixing, framing and the playback buffer;
  - `text.rs`: hexadecimal and decimal text, character search.
- `app/` — the program around it: command line, files, HTTP, WebSocket,
  audio devices, the Opus codec and the floating-point resampler.
- `tests/` — tests of the library.

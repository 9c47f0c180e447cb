# picoredsp

The piCoreDSP controller keeps CamillaDSP in step with the audio stream that
a player writes into the ALSA loopback (or hands to the ioplug plugin): it
adapts the active CamillaDSP config to the stream's rate, format and channel
count, starts and stops CamillaDSP as streams come and go, and backs off or
latches when CamillaDSP refuses a config.

## Layout

- `src/` — the library, verified with Verus:
  - `core_logic/` — wave formats, retry/backoff state, config fingerprints,
    log levels, the config adaptation (`adaptation.rs`), lexical path
    normalisation and the aloop controller state machine
    (`state_machine.rs`);
  - `controller.rs` — the ioplug controller loop as a state machine from
    outcome to next action;
  - `backend/` — stream events from snapshots, the aloop backend, and the
    ioplug plugin session (START, READY or error, STOP);
  - `camilladsp/` — the CamillaDSP WebSocket protocol (requests, reply
    envelopes, states and stop reasons), the ALSA loopback controls and the
    bounded stderr tail of a spawned CamillaDSP;
  - `camilla/` — the schema-light config document, the capture transport
    contract, and the 4.x/5.x protocol adapters' decoding;
  - `benchmark/` — parsing of `/proc` and `aplay` text, plan validation and
    the report's verdicts;
  - `args.rs`, `yaml.rs`, `json.rs`, `text.rs`, `config_view.rs` — the
    command line, document trees and text helpers.
- `tests/` — tests of the library on concrete values.
- `app/` — the unverified surroundings: files, YAML/JSON text via serde,
  the WebSocket connections, ALSA, processes and pipes, and the loops that
  perform what the verified state machines decide.

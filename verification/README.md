# vibe_easytier_service

The privileged backend of Vibe EasyTier: a Windows service that keeps one
EasyTier private network connected, owns the encrypted profile store, and
answers the desktop client over a local named pipe.

The library in `src/` is verified with Verus; public functions state their
behaviour in `requires`/`ensures`, and the library's laws are public proof
functions (`law_*`).  Where the host, the core process, the codec or the
pipe transport answers, the contracts fix what was handed to it (the
controller's `host_calls`, the runner reports, `ServeTrace`, the ghost
result of `IpcClient::call`) and what is done for each possible answer; the
answer itself is the host's.

| Module | Contents |
| --- | --- |
| `supervisor` | recovery state machine: backoff with jitter, health and no-peer restarts |
| `service` | options, the controller (durable state, intents, RPC handling, log tail), core process policy |
| `profile`, `config` | network profiles, the 41 core flags, TOML import and rendering |
| `state`, `crypto` | the persisted state, its validation and encrypted envelope |
| `protocol`, `ipc` | RPC messages, frames, the pipe client |
| `telemetry` | reading `easytier-cli` JSON into peers, routes and traffic |
| `bandwidth` | iperf3 arguments, report reading, listener supervision |
| `network` | network availability tracking |
| `desktop` | what the desktop shows: flag forms, snapshots, localized messages |
| `text` | text and number helpers with their specifications |

`app/` is the Windows service host around the library: argument handling,
files, processes, DPAPI, the named pipe and the service control manager.
`tests/` exercises the library with the outside crates linked.

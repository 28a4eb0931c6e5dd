# Squelch

Tactical voice communication for gaming squads: a duo (or squad) hears each
other on an always-on open mic, squad leaders talk to each other on a
push-to-talk leader net, Matrix carries the WebRTC signaling.

The library (`src/`) holds the logic, verified with Verus:

| Module | What it holds |
|--------|---------------|
| `squad` | squad model: members, duos, leader detection and transfer |
| `room` | the room's squad roster (lobby-first): create, join, leave, assign, remove, lead, disband, lobby |
| `ui` | the screens and what the user's input does to them |
| `backend` | the session state machine driven by UI commands and Matrix outcomes |
| `signaling` | `io.squelch.*` to-device events: reading incoming ones, writing outgoing ones |
| `json` | the `serde_json` calls the signaling is read and written with |
| `audio` | routing microphone samples into Opus-sized frames for the duo channel and the PTT-gated leader net |
| `ptt` | the shared push-to-talk flag |
| `peer`, `mesh` | WebRTC peer connections (str0m) and the mesh of them |
| `hotkey` | choosing the global PTT hotkey |
| `config` | the persisted configuration |
| `text` | trimming, searching and joining text |

`app/` is the program around it: the egui window, the Tokio task that drives
the Matrix client, the cpal/Opus audio streams, the UDP run loop of each peer
connection, the global hotkey and the TOML configuration file.

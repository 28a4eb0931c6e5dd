//! Squelch: the squad model, lobby and room rules, signaling messages, the
//! backend session state machine, audio frame routing and WebRTC peer
//! bookkeeping of a voice app for gaming squads.
pub mod audio;
pub mod backend;
pub mod config;
pub mod hotkey;
pub mod json;
pub mod mesh;
pub mod peer;
pub mod ptt;
pub mod room;
pub mod signaling;
pub mod squad;
pub mod text;
pub mod ui;

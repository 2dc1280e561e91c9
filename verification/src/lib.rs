//! TextSpill: system-wide voice-to-text.

pub mod audio;
pub mod clipboard;
pub mod command;
pub mod config;
pub mod deepgram;
pub mod delivery;
pub mod failure;
pub mod host;
pub mod input;
pub mod ipc;
pub mod json;
pub mod live;
pub mod notify;
pub mod number;
pub mod paths;
pub mod state;
pub mod stream;
pub mod text;
pub mod transcription;
pub mod wav;
pub mod web;

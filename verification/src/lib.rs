//! Clipboard sync between paired computers: pairing, identities, the session
//! protocol and the rules by which a clipboard is read, sent and expired.

pub mod bytes;
pub mod text;
pub mod codec;
pub mod crypto;
pub mod clip_files;
pub mod clip_text;
pub mod clip_image;
pub mod clock;
pub mod identity;
pub mod tls;
pub mod protocol;
pub mod sync;
pub mod clip_tools;
pub mod clipboard;
pub mod clip_read;
pub mod clip_commands;
pub mod config;
pub mod connections;
pub mod daemon;
pub mod ui;
pub mod pairing;
pub mod discovery;
pub mod targets;
pub mod update;
pub mod updating;
pub mod doctor;
pub mod service;
pub mod cli;

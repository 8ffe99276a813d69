//! Peer-to-peer media playback synchronisation: wire formats, friend codes,
//! event reconciliation and player synchronisation decisions.
pub mod bytes;
pub mod messages;
pub mod protocols;
pub mod utils;
pub mod players;
pub mod events;
pub mod base62;
pub mod communication;
pub mod net;
pub mod network;
pub mod strings;
pub mod config;
pub mod traits;
pub mod logging;
pub mod state;
pub mod cmdui;
pub mod webui;

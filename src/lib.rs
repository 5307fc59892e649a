//! Playout engine of a 24/7 broadcast channel: which schedule entry is
//! authoritative, which clip is due, when the encoder must be restarted,
//! how the distribution relays are supervised, and the encoder's argument
//! lists.
pub mod text;
pub mod numbers;
pub mod cursor;
pub mod schedule;
pub mod controller;
pub mod settings;
pub mod distribution;
pub mod command;
pub mod stream;
pub mod engine;
pub mod status;
pub mod config;
pub mod api;
pub mod metadata;
pub mod peers;

//! Secure session layer of a remote-access system: credential and session
//! management, authenticated encryption of frames, the connection state
//! machine and the wire envelope that carries application payloads.

pub mod auth;
pub mod capture;
pub mod certificates;
pub mod client;
pub mod connection;
pub mod encryption;
pub mod host;
pub mod messages;
pub mod network;
pub mod protocol;
pub mod security;
pub mod text;
pub mod ui;

//! Session hub and binary-protocol dispatcher of a local desktop agent.
//!
//! The crate holds the wire codec, the dispatcher that answers decoded
//! requests, the registry of connected clients with its broadcast sweep, the
//! per-connection state machine and the bridge that turns hotkey presses into
//! broadcasts and recorder commands.

pub mod connection;
pub mod hotkey;
pub mod message;
pub mod messages;
pub mod paddle_ocr_service;
pub mod text;
pub mod websocket;
pub mod wire;


//! Realtime message transport core of a desktop chat client: the message
//! codec, the fan-out of received messages to local subscribers, the way out
//! through the write half, the receive loop's decisions and the connection
//! manager's state machine.

pub mod api;
pub mod broadcast;
pub mod buffer;
pub mod codec;
pub mod handshake;
pub mod message;
pub mod sending;
pub mod text;
pub mod websocket;

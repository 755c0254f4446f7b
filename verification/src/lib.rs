//! The network layer of a game client: the connection handshake, the reliable
//! datagram transport and the binary command codec.

pub mod addr;
pub mod client;
pub mod cmd;
pub mod codes;
pub mod connect;
pub mod control;
pub mod error;
pub mod flags;
pub mod message;
pub mod qsocket;
pub mod quant;
pub mod reserved;
pub mod server_info;
pub mod sound;
pub mod text;
pub mod updates;
pub mod wire;

pub mod connection_core;
pub mod error;
pub mod frame;
pub mod handshake;
pub mod header;
pub mod hpack;
pub mod settings;
pub mod stream;

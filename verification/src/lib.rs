//! Verified core of a small publish/subscribe relay.

pub mod broker;
pub mod broker_laws;
pub mod broker_state;
pub mod channel;
pub mod cli;
pub mod client;
pub mod client_laws;
pub mod codec;
pub mod codec_laws;
pub mod command_laws;
pub mod connection;
pub mod connection_laws;
pub mod decoding_laws;
pub mod message;
pub mod message_laws;
pub mod names;
pub mod protocol;
pub mod protocol_laws;
pub mod reaction_laws;
pub mod relay_laws;
pub mod server;
pub mod server_laws;
pub mod text;
pub mod wire;

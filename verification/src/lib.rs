//! Decoder for the matchmaking datagrams of an arcade cabinet network.

pub mod devices;
pub mod ecb;
pub mod frame;
pub mod proto;
pub mod recruit;
pub mod text;
pub mod time;
pub mod wire;

//! A RADIUS protocol core: binary packet and attribute codecs, a
//! dictionary-typed value system, authenticator computation and
//! verification, and the decision logic of the client and server
//! transport loops.

pub mod client;
pub mod dictionary;
pub mod error;
pub mod hash;
pub mod host;
pub mod radius_packet;
pub mod server;
pub mod tools;
pub mod value;

//! Message layer of a mutual remote-attestation and key-establishment
//! protocol: wire types for the five protocol messages, the canonical
//! byte-string each authentication tag covers, tag computation and
//! verification, and the flat byte encoding used for transport.

pub mod codec;
pub mod mac;
pub mod msg;
pub mod sp_vkey;
pub mod types;
pub mod wire;

pub use types::RaError;

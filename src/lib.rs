//! Host-side bridge between external TLS clients and an attested enclave.
//!
//! The library holds the logic of the bridge: the wire format of the messages
//! exchanged with the enclave, the typed request/response pairs of every
//! enclave operation, the native-attestation handshake, the multiplexing of
//! client sessions and the principal registry that gates decrypted data.
//! Everything that performs I/O drives the state machines defined here.

pub mod attestation;
pub mod baja;
pub mod bridge;
pub mod enclave;
pub mod exchange;
pub mod message;
pub mod proxy;
pub mod registry;
pub mod sessions;
pub mod text;
pub mod wire;

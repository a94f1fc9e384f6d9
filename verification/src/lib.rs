//! Cryptographic core of a challenge--response device-authentication
//! handshake: a CTR-mode keystream, a keyed hash built by iterated block
//! encryption, an offset-encryption helper, and the protocol operations
//! composed from them. The single-block cipher is a collaborator supplied
//! through the [`cipher::AesContext`] trait.

pub mod cert;
pub mod cipher;
pub mod laws;
pub mod model;

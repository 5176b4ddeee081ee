//! A store-and-forward relay for sealed payloads.
//!
//! Payloads that arrive at a source are sealed independently for every
//! registered recipient: a one-time symmetric key encrypts the payload, the
//! recipient's RSA public key wraps that key, and the two are tied together in
//! a bundle. The paired side unwraps the key, opens the bundle and hands the
//! payload on. An item leaves its source only once it has been confirmed.

pub mod bundle;
pub mod config;
pub mod decrypt;
pub mod encrypt;
pub mod error;
pub mod rsa_keys;
pub mod sources;
pub mod symmetric_cipher;
pub mod text;

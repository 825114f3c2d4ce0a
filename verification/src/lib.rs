//! Versioned passphrase secrets, authenticated encryption of data and text under
//! such secrets, storage of the secret in the OS credential store, and the
//! decisions that keep a user's cloud configuration and its secret in step.

pub mod aead;
pub mod base64_codec;
pub mod cloud_config;
pub mod encryption;
pub mod error;
pub mod kdf;
pub mod random;
pub mod secret;
pub mod secure_storage;
pub mod text;

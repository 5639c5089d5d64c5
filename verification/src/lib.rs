//! Core of a client-side-validated contract protocol: owned and global
//! contract state in revealed (plaintext) and concealed (commitment-only)
//! form, deterministic concealment, schema-driven validation of disclosed
//! state, and a bounded bytecode program container with entry-point
//! dispatch.

pub mod attachment;
pub mod fungible;
pub mod media;
pub mod misuse;
pub mod script;
pub mod state;
pub mod wire;

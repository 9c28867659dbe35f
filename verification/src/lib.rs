//! Reads one secret from a HashiCorp Vault key-value engine and hands it out
//! as flat string pairs.
//!
//! The crate holds the rules of that exchange: which URL is read for a KV1 or
//! a KV2 engine, which answers are accepted, and how the JSON envelope is
//! unwrapped. The HTTP round trip itself belongs to the caller.

pub mod address;
pub mod error;
pub mod json;
pub mod response;
pub mod secret;
pub mod segments;
pub mod source;
pub mod version;

pub use error::VaultError;
pub use json::Json;
pub use secret::Secret;
pub use source::{ReadRequest, Reply, VaultSource};
pub use version::KvVersion;

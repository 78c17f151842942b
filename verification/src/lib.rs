//! Searchable-encryption policy for database columns: the configuration
//! model, the marshalling of encryption results into wire envelopes, the
//! orchestration of single and bulk requests, and the contract of the
//! foreign-call boundary.

pub mod assoc;
pub mod boundary;
pub mod config_document;
pub mod context;
pub mod encrypt_config;
pub mod envelope;
pub mod error;
pub mod hexfmt;
pub mod json;
pub mod orchestrator;
pub mod plaintext_target;
pub mod sequence;
pub mod text;
pub mod wire;

pub use envelope::{
    format_index_term_binary, format_index_term_ore, format_index_term_ore_array,
    format_index_term_ore_bytes, to_eql_encrypted, Encrypted, SteVecEntry,
};
pub use error::Error;

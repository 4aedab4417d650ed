//! The Azure Relay Hybrid Connections client: errors, SAS tokens, the
//! connection-string builder and the protocol vocabulary.

pub mod error;
pub mod token_provider;
pub mod connection_string;
pub mod protocol;
pub mod stream;
pub mod listener;
pub mod aad;
pub mod timespan;
pub mod client;

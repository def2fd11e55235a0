//! Provider failures, shared with the multi-source catalogue.
pub use crate::providers::ProviderError;

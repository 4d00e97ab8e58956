//! Catsu: a unified client for text-embedding providers.
//!
//! The library holds the client's decisions: which providers a set of
//! credentials enables, how a model string names a provider and a model, how
//! a request is routed, what the wire body of a request is, how a provider's
//! answer is put in order, and when a failed call is tried again. The code that
//! talks to the network lives outside the library and hands plain values in.

pub mod catalog;
pub mod client;
pub mod errors;
pub mod http;
pub mod json;
pub mod keys;
pub mod models;
pub mod order;
pub mod providers;

pub use catalog::{find_model_by_name, get_model, list_catalog_providers, list_models};
pub use client::Client;
pub use errors::ClientError;
pub use http::HttpConfig;
pub use models::{EmbedRequest, InputType, ModelInfo, PreparedCall, ResponseSummary};
pub use providers::{EmbeddingProvider, ProviderKind, VercelProvider};

//! Errors reported by the client.

use vstd::prelude::*;

verus! {

/// Everything that can go wrong while preparing or performing an embedding call.
#[derive(Debug)]
pub enum ClientError {
    /// The transport failed (connection, timeout, TLS).
    Http(String),
    /// A body could not be written or read as JSON.
    Json(String),
    /// The provider answered with an error status.
    Api { status: u16, message: String },
    /// No API key was found for a provider.
    MissingApiKey { provider: String },
    /// The requested provider is not configured on this client.
    ProviderNotFound { provider: String },
    /// The caller's input cannot be used.
    InvalidInput(String),
}

} // verus!

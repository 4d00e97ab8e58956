//! Requests and catalog entries.

use vstd::prelude::*;

verus! {

/// Hint about what the embedded text is used for.
#[derive(Debug, Clone, Copy, PartialEq, Eq, Structural)]
pub enum InputType {
    Query,
    Document,
}

/// One embedding request, as handed to a provider.
#[derive(Debug)]
pub struct EmbedRequest {
    pub model: String,
    pub inputs: Vec<String>,
    pub input_type: Option<InputType>,
    pub dimensions: Option<u32>,
    pub api_key: Option<String>,
}

/// A model of the built-in catalog.
#[derive(Debug)]
pub struct ModelInfo {
    pub name: String,
    pub provider: String,
    pub dimensions: u32,
}

/// The mathematical value of a catalog entry: name, provider, dimensions.
pub struct ModelSpec {
    pub name: Seq<char>,
    pub provider: Seq<char>,
    pub dimensions: u32,
}

impl View for ModelInfo {
    type V = ModelSpec;

    open spec fn view(&self) -> ModelSpec {
        ModelSpec { name: self.name@, provider: self.provider@, dimensions: self.dimensions }
    }
}

/// What the library decides about a provider's answer: the order in which its
/// vectors are returned, and the figures reported with them. The vectors
/// themselves are carried by the transport.
#[derive(Debug)]
pub struct ResponseSummary {
    /// `order[k]` is the position, in the provider's answer, of the `k`-th vector returned.
    pub order: Vec<usize>,
    pub model: String,
    pub provider: String,
    pub dimensions: usize,
    pub input_count: usize,
    pub input_type: Option<InputType>,
    pub tokens: u64,
}

/// A ready-to-send call: where it goes, its `Authorization` header, and its JSON body.
#[derive(Debug)]
pub struct PreparedCall {
    pub url: String,
    pub authorization: String,
    pub body: String,
}

} // verus!

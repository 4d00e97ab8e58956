//! Embedding providers: the services the client knows, and what they are called.

pub mod vercel;

use vstd::prelude::*;

pub use vercel::VercelProvider;

verus! {

/// Trait for embedding providers.
///
/// A provider has a fixed name under which the client registers it; the
/// network half of a provider (sending a request and reading the answer)
/// lives with the transport, outside this library.
pub trait EmbeddingProvider {
    /// Get the provider name.
    fn name(&self) -> &'static str;
}

/// The providers the client can register.
#[derive(Debug, Clone, Copy, PartialEq, Eq, Hash, Structural)]
pub enum ProviderKind {
    OpenAI,
    VoyageAI,
    Cohere,
    Jina,
    Mistral,
    Gemini,
    Together,
    Mixedbread,
    Nomic,
    DeepInfra,
    OpenRouter,
    Vercel,
    Cloudflare,
}

/// Every provider, in registration order.
pub open spec fn all_kinds() -> Seq<ProviderKind> {
    seq![
        ProviderKind::OpenAI,
        ProviderKind::VoyageAI,
        ProviderKind::Cohere,
        ProviderKind::Jina,
        ProviderKind::Mistral,
        ProviderKind::Gemini,
        ProviderKind::Together,
        ProviderKind::Mixedbread,
        ProviderKind::Nomic,
        ProviderKind::DeepInfra,
        ProviderKind::OpenRouter,
        ProviderKind::Vercel,
        ProviderKind::Cloudflare,
    ]
}

/// The name a provider is registered and addressed by.
pub open spec fn kind_name(kind: ProviderKind) -> Seq<char> {
    match kind {
        ProviderKind::OpenAI => "openai"@,
        ProviderKind::VoyageAI => "voyageai"@,
        ProviderKind::Cohere => "cohere"@,
        ProviderKind::Jina => "jina"@,
        ProviderKind::Mistral => "mistral"@,
        ProviderKind::Gemini => "gemini"@,
        ProviderKind::Together => "together"@,
        ProviderKind::Mixedbread => "mixedbread"@,
        ProviderKind::Nomic => "nomic"@,
        ProviderKind::DeepInfra => "deepinfra"@,
        ProviderKind::OpenRouter => "openrouter"@,
        ProviderKind::Vercel => "vercel"@,
        ProviderKind::Cloudflare => "cloudflare"@,
    }
}

/// The environment variable that holds a provider's API key (for Gemini the
/// first of two; for Cloudflare the API token).
pub open spec fn key_variable(kind: ProviderKind) -> Seq<char> {
    match kind {
        ProviderKind::OpenAI => "OPENAI_API_KEY"@,
        ProviderKind::VoyageAI => "VOYAGE_API_KEY"@,
        ProviderKind::Cohere => "COHERE_API_KEY"@,
        ProviderKind::Jina => "JINA_API_KEY"@,
        ProviderKind::Mistral => "MISTRAL_API_KEY"@,
        ProviderKind::Gemini => "GOOGLE_API_KEY"@,
        ProviderKind::Together => "TOGETHER_API_KEY"@,
        ProviderKind::Mixedbread => "MIXEDBREAD_API_KEY"@,
        ProviderKind::Nomic => "NOMIC_API_KEY"@,
        ProviderKind::DeepInfra => "DEEPINFRA_API_KEY"@,
        ProviderKind::OpenRouter => "OPENROUTER_API_KEY"@,
        ProviderKind::Vercel => "AI_GATEWAY_API_KEY"@,
        ProviderKind::Cloudflare => "CLOUDFLARE_API_TOKEN"@,
    }
}

/// The second variable Gemini reads its key from.
pub open spec fn gemini_fallback_variable() -> Seq<char> {
    "GEMINI_API_KEY"@
}

/// The variable that holds Cloudflare's account id.
pub open spec fn cloudflare_account_variable() -> Seq<char> {
    "CLOUDFLARE_ACCOUNT_ID"@
}

/// The key under which explicit credentials carry Cloudflare's account id.
pub open spec fn cloudflare_account_key() -> Seq<char> {
    "cloudflare_account_id"@
}

impl ProviderKind {
    /// Every provider, in registration order.
    pub fn all() -> (kinds: Vec<ProviderKind>)
        ensures
            kinds@ == all_kinds(),
    {
        let v = vec![
            ProviderKind::OpenAI,
            ProviderKind::VoyageAI,
            ProviderKind::Cohere,
            ProviderKind::Jina,
            ProviderKind::Mistral,
            ProviderKind::Gemini,
            ProviderKind::Together,
            ProviderKind::Mixedbread,
            ProviderKind::Nomic,
            ProviderKind::DeepInfra,
            ProviderKind::OpenRouter,
            ProviderKind::Vercel,
            ProviderKind::Cloudflare,
        ];
        assert(v@ =~= all_kinds());
        v
    }

    /// The name the provider is registered under.
    pub fn name(&self) -> (name: &'static str)
        ensures
            name@ == kind_name(*self),
    {
        match self {
            ProviderKind::OpenAI => "openai",
            ProviderKind::VoyageAI => "voyageai",
            ProviderKind::Cohere => "cohere",
            ProviderKind::Jina => "jina",
            ProviderKind::Mistral => "mistral",
            ProviderKind::Gemini => "gemini",
            ProviderKind::Together => "together",
            ProviderKind::Mixedbread => "mixedbread",
            ProviderKind::Nomic => "nomic",
            ProviderKind::DeepInfra => "deepinfra",
            ProviderKind::OpenRouter => "openrouter",
            ProviderKind::Vercel => "vercel",
            ProviderKind::Cloudflare => "cloudflare",
        }
    }

    /// The environment variable holding the provider's key.
    pub fn key_variable(&self) -> (var: &'static str)
        ensures
            var@ == key_variable(*self),
    {
        match self {
            ProviderKind::OpenAI => "OPENAI_API_KEY",
            ProviderKind::VoyageAI => "VOYAGE_API_KEY",
            ProviderKind::Cohere => "COHERE_API_KEY",
            ProviderKind::Jina => "JINA_API_KEY",
            ProviderKind::Mistral => "MISTRAL_API_KEY",
            ProviderKind::Gemini => "GOOGLE_API_KEY",
            ProviderKind::Together => "TOGETHER_API_KEY",
            ProviderKind::Mixedbread => "MIXEDBREAD_API_KEY",
            ProviderKind::Nomic => "NOMIC_API_KEY",
            ProviderKind::DeepInfra => "DEEPINFRA_API_KEY",
            ProviderKind::OpenRouter => "OPENROUTER_API_KEY",
            ProviderKind::Vercel => "AI_GATEWAY_API_KEY",
            ProviderKind::Cloudflare => "CLOUDFLARE_API_TOKEN",
        }
    }
}

/// Different providers go by different names.
pub proof fn lemma_kind_names_distinct(a: ProviderKind, b: ProviderKind)
    ensures
        kind_name(a) == kind_name(b) ==> a == b,
{
    reveal_strlit("openai");
    reveal_strlit("voyageai");
    reveal_strlit("cohere");
    reveal_strlit("jina");
    reveal_strlit("mistral");
    reveal_strlit("gemini");
    reveal_strlit("together");
    reveal_strlit("mixedbread");
    reveal_strlit("nomic");
    reveal_strlit("deepinfra");
    reveal_strlit("openrouter");
    reveal_strlit("vercel");
    reveal_strlit("cloudflare");
    if kind_name(a) == kind_name(b) && a != b {
        assert(kind_name(a)[0] == kind_name(b)[0]);
        assert(kind_name(a).len() == kind_name(b).len());
        assert(kind_name(a)[1] == kind_name(b)[1]);
        assert(kind_name(a)[2] == kind_name(b)[2]);
    }
}

/// No provider name holds a colon, so `name:model` always splits after the name.
pub proof fn lemma_kind_name_has_no_colon(kind: ProviderKind)
    ensures
        !kind_name(kind).contains(':'),
{
    reveal_strlit("openai");
    reveal_strlit("voyageai");
    reveal_strlit("cohere");
    reveal_strlit("jina");
    reveal_strlit("mistral");
    reveal_strlit("gemini");
    reveal_strlit("together");
    reveal_strlit("mixedbread");
    reveal_strlit("nomic");
    reveal_strlit("deepinfra");
    reveal_strlit("openrouter");
    reveal_strlit("vercel");
    reveal_strlit("cloudflare");
    let name = kind_name(kind);
    assert forall|i: int| 0 <= i < name.len() implies name[i] != ':' by {}
}

} // verus!

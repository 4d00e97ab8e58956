//! Main catsu client: which providers are available, and where a request goes.

use vstd::prelude::*;

use crate::catalog::{catalog_spec, find_model_by_name, first_named, list_models as catalog_list_models, model_views, models_of};
use crate::errors::ClientError;
use crate::http::{default_http_config, HttpConfig};
use crate::keys::{find_value, lookup, pairs_view};
use crate::models::{EmbedRequest, InputType, ModelInfo};
use crate::providers::{
    all_kinds, cloudflare_account_key, cloudflare_account_variable, gemini_fallback_variable,
    key_variable, kind_name, ProviderKind,
};

verus! {

/// The credentials a provider is registered with.
#[derive(Debug)]
pub struct Credentials {
    pub api_key: String,
    /// Only Cloudflare has one.
    pub account_id: Option<String>,
}

pub struct CredentialsSpec {
    pub api_key: Seq<char>,
    pub account_id: Option<Seq<char>>,
}

impl View for Credentials {
    type V = CredentialsSpec;

    open spec fn view(&self) -> CredentialsSpec {
        CredentialsSpec {
            api_key: self.api_key@,
            account_id: match self.account_id {
                Some(a) => Some(a@),
                None => None,
            },
        }
    }
}

/// A provider registered on a client.
#[derive(Debug)]
pub struct ProviderEntry {
    pub kind: ProviderKind,
    pub credentials: Credentials,
}

pub struct EntrySpec {
    pub kind: ProviderKind,
    pub credentials: CredentialsSpec,
}

impl View for ProviderEntry {
    type V = EntrySpec;

    open spec fn view(&self) -> EntrySpec {
        EntrySpec { kind: self.kind, credentials: self.credentials@ }
    }
}

/// The credentials explicit keys give a provider: the key under the provider's name;
/// Cloudflare also needs `cloudflare_account_id`.
pub open spec fn key_credentials(keys: Seq<(Seq<char>, Seq<char>)>, kind: ProviderKind) -> Option<CredentialsSpec> {
    match lookup(keys, kind_name(kind)) {
        Some(k) => if kind == ProviderKind::Cloudflare {
            match lookup(keys, cloudflare_account_key()) {
                Some(a) => Some(CredentialsSpec { api_key: k, account_id: Some(a) }),
                None => None,
            }
        } else {
            Some(CredentialsSpec { api_key: k, account_id: None })
        },
        None => None,
    }
}

/// The credentials the environment gives a provider: its key variable; Gemini falls back
/// to `GEMINI_API_KEY`; Cloudflare also needs `CLOUDFLARE_ACCOUNT_ID`.
pub open spec fn env_credentials(env: Seq<(Seq<char>, Seq<char>)>, kind: ProviderKind) -> Option<CredentialsSpec> {
    let key = if kind == ProviderKind::Gemini {
        match lookup(env, key_variable(kind)) {
            Some(k) => Some(k),
            None => lookup(env, gemini_fallback_variable()),
        }
    } else {
        lookup(env, key_variable(kind))
    };
    match key {
        Some(k) => if kind == ProviderKind::Cloudflare {
            match lookup(env, cloudflare_account_variable()) {
                Some(a) => Some(CredentialsSpec { api_key: k, account_id: Some(a) }),
                None => None,
            }
        } else {
            Some(CredentialsSpec { api_key: k, account_id: None })
        },
        None => None,
    }
}

/// Per provider, in registration order, the credentials explicit keys give it.
pub open spec fn keyed_credentials(keys: Seq<(Seq<char>, Seq<char>)>) -> Seq<Option<CredentialsSpec>> {
    all_kinds().map_values(|k: ProviderKind| key_credentials(keys, k))
}

/// Per provider, in registration order, the credentials the environment gives it.
pub open spec fn environment_credentials(env: Seq<(Seq<char>, Seq<char>)>) -> Seq<Option<CredentialsSpec>> {
    all_kinds().map_values(|k: ProviderKind| env_credentials(env, k))
}

/// The providers registered, in order, when `kinds[i]` has credentials `creds[i]`:
/// those that have some.
pub open spec fn registry(kinds: Seq<ProviderKind>, creds: Seq<Option<CredentialsSpec>>) -> Seq<EntrySpec>
    decreases kinds.len(),
{
    if kinds.len() == 0 || creds.len() == 0 {
        seq![]
    } else {
        let rest = registry(kinds.drop_last(), creds.drop_last());
        match creds.last() {
            Some(c) => rest.push(EntrySpec { kind: kinds.last(), credentials: c }),
            None => rest,
        }
    }
}

/// The credentials a registry holds for a provider.
pub open spec fn registered(reg: Seq<EntrySpec>, kind: ProviderKind) -> Option<CredentialsSpec>
    decreases reg.len(),
{
    if reg.len() == 0 {
        None
    } else if reg.last().kind == kind {
        Some(reg.last().credentials)
    } else {
        registered(reg.drop_last(), kind)
    }
}

/// The first provider of a registry that goes by `name`.
pub open spec fn find_entry(reg: Seq<EntrySpec>, name: Seq<char>) -> Option<ProviderKind>
    decreases reg.len(),
{
    if reg.len() == 0 {
        None
    } else if kind_name(reg[0].kind) == name {
        Some(reg[0].kind)
    } else {
        find_entry(reg.drop_first(), name)
    }
}

/// A model string cut at its first colon into provider and model; `None` without colon.
pub open spec fn split_model(s: Seq<char>) -> Option<(Seq<char>, Seq<char>)>
    decreases s.len(),
{
    if s.len() == 0 {
        None
    } else if s[0] == ':' {
        Some((Seq::<char>::empty(), s.drop_first()))
    } else {
        match split_model(s.drop_first()) {
            Some((p, m)) => Some((seq![s[0]] + p, m)),
            None => None,
        }
    }
}

/// Provider and model named by a model string: `provider:model`, or a bare model name
/// whose provider the catalog knows.
pub open spec fn model_route(model: Seq<char>) -> Option<(Seq<char>, Seq<char>)> {
    match split_model(model) {
        Some(pm) => Some(pm),
        None => match first_named(catalog_spec(), model) {
            Some(info) => Some((info.provider, model)),
            None => None,
        },
    }
}

/// Provider and model when the provider is named explicitly: a `provider:` prefix on the
/// model is dropped.
pub open spec fn explicit_route(provider: Seq<char>, model: Seq<char>) -> (Seq<char>, Seq<char>) {
    match split_model(model) {
        Some((_, m)) => (provider, m),
        None => (provider, model),
    }
}

/// The message for a bare model name the catalog does not know.
pub open spec fn unknown_model_message(model: Seq<char>) -> Seq<char> {
    "Model '"@ + model + "' not found in catalog. Use 'provider:model' format (e.g., 'openai:text-embedding-3-small') or check available models with list_models()"@
}

/// Main catsu client for generating embeddings.
pub struct Client {
    providers: Vec<ProviderEntry>,
    config: HttpConfig,
}

impl View for Client {
    type V = Seq<EntrySpec>;

    /// The registered providers, in registration order.
    closed spec fn view(&self) -> Seq<EntrySpec> {
        self.providers@.map_values(|e: ProviderEntry| e@)
    }
}

fn credentials_from_keys(keys: &Vec<(String, String)>, kind: ProviderKind) -> (c: Option<Credentials>)
    ensures
        match c {
            Some(c) => key_credentials(pairs_view(keys@), kind) == Some(c@),
            None => key_credentials(pairs_view(keys@), kind) is None,
        },
{
    match find_value(keys, kind.name()) {
        Some(k) => match kind {
            ProviderKind::Cloudflare => match find_value(keys, "cloudflare_account_id") {
                Some(a) => Some(Credentials { api_key: k, account_id: Some(a) }),
                None => None,
            },
            _ => Some(Credentials { api_key: k, account_id: None }),
        },
        None => None,
    }
}

fn credentials_from_env(env: &Vec<(String, String)>, kind: ProviderKind) -> (c: Option<Credentials>)
    ensures
        match c {
            Some(c) => env_credentials(pairs_view(env@), kind) == Some(c@),
            None => env_credentials(pairs_view(env@), kind) is None,
        },
{
    let key = match kind {
        ProviderKind::Gemini => match find_value(env, kind.key_variable()) {
            Some(k) => Some(k),
            None => find_value(env, "GEMINI_API_KEY"),
        },
        _ => find_value(env, kind.key_variable()),
    };
    match key {
        Some(k) => match kind {
            ProviderKind::Cloudflare => match find_value(env, "CLOUDFLARE_ACCOUNT_ID") {
                Some(a) => Some(Credentials { api_key: k, account_id: Some(a) }),
                None => None,
            },
            _ => Some(Credentials { api_key: k, account_id: None }),
        },
        None => None,
    }
}

/// No provider occurs twice.
pub open spec fn distinct_kinds(reg: Seq<EntrySpec>) -> bool {
    forall|i: int, j: int| 0 <= i < j < reg.len() ==> reg[i].kind != reg[j].kind
}

proof fn lemma_registry_ordered(creds: Seq<Option<CredentialsSpec>>, n: int)
    requires
        creds.len() == all_kinds().len(),
        0 <= n <= all_kinds().len(),
    ensures
        forall|i: int| 0 <= i < registry(all_kinds().take(n), creds.take(n)).len()
            ==> kind_index(#[trigger] registry(all_kinds().take(n), creds.take(n))[i].kind) < n,
        forall|i: int, j: int| 0 <= i < j < registry(all_kinds().take(n), creds.take(n)).len()
            ==> kind_index(registry(all_kinds().take(n), creds.take(n))[i].kind)
                < kind_index(registry(all_kinds().take(n), creds.take(n))[j].kind),
    decreases n,
{
    if n > 0 {
        lemma_registry_ordered(creds, n - 1);
        lemma_registry_step(all_kinds(), creds, n - 1);
        assert(kind_index(all_kinds()[n - 1]) == n - 1);
    }
}

proof fn lemma_registry_distinct(creds: Seq<Option<CredentialsSpec>>)
    requires
        creds.len() == all_kinds().len(),
    ensures
        distinct_kinds(registry(all_kinds(), creds)),
{
    lemma_registry_ordered(creds, 13);
    assert(all_kinds().take(13) =~= all_kinds());
    assert(creds.take(13) =~= creds);
}

proof fn lemma_registry_step(kinds: Seq<ProviderKind>, creds: Seq<Option<CredentialsSpec>>, i: int)
    requires
        kinds.len() == creds.len(),
        0 <= i < kinds.len(),
    ensures
        registry(kinds.take(i + 1), creds.take(i + 1)) == match creds[i] {
            Some(c) => registry(kinds.take(i), creds.take(i)).push(EntrySpec { kind: kinds[i], credentials: c }),
            None => registry(kinds.take(i), creds.take(i)),
        },
{
    assert(kinds.take(i + 1).drop_last() =~= kinds.take(i));
    assert(creds.take(i + 1).drop_last() =~= creds.take(i));
}

impl Client {
    /// A client never holds the same provider twice.
    #[verifier::type_invariant]
    spec fn providers_distinct(self) -> bool {
        forall|i: int, j: int|
            0 <= i < j < self.providers@.len() ==> self.providers@[i].kind != self.providers@[j].kind
    }

    /// The HTTP settings the client was made with.
    pub closed spec fn http_config(&self) -> HttpConfig {
        self.config
    }

    /// Create a new catsu client with default configuration, registering every provider
    /// whose key the environment's variables (given as name/value pairs) hold.
    pub fn new(env: Vec<(String, String)>) -> (res: Result<Self, ClientError>)
        ensures
            res matches Ok(c) && c@ == registry(all_kinds(), environment_credentials(pairs_view(env@)))
                && c.http_config() == default_http_config(),
    {
        Self::with_config(HttpConfig::default(), env)
    }

    /// Create a new catsu client with custom HTTP configuration, registering every provider
    /// whose key the environment's variables (given as name/value pairs) hold.
    pub fn with_config(config: HttpConfig, env: Vec<(String, String)>) -> (res: Result<Self, ClientError>)
        ensures
            res matches Ok(c) && c@ == registry(all_kinds(), environment_credentials(pairs_view(env@)))
                && c.http_config() == config,
    {
        let kinds = ProviderKind::all();
        let ghost creds = environment_credentials(pairs_view(env@));
        let mut providers: Vec<ProviderEntry> = Vec::new();
        let n = kinds.len();
        for i in 0..n
            invariant
                n == kinds@.len(),
                kinds@ == all_kinds(),
                creds == environment_credentials(pairs_view(env@)),
                creds.len() == n,
                providers@.map_values(|e: ProviderEntry| e@) == registry(all_kinds().take(i as int), creds.take(i as int)),
        {
            proof {
                lemma_registry_step(all_kinds(), creds, i as int);
            }
            let ghost before = providers@;
            match credentials_from_env(&env, kinds[i]) {
                Some(c) => {
                    providers.push(ProviderEntry { kind: kinds[i], credentials: c });
                    assert(providers@.map_values(|e: ProviderEntry| e@) =~= before.map_values(|e: ProviderEntry| e@).push(providers@[before.len() as int]@));
                },
                None => {},
            }
        }
        assert(all_kinds().take(n as int) =~= all_kinds());
        assert(creds.take(n as int) =~= creds);
        proof {
            lemma_registry_distinct(creds);
            assert forall|a: int, b: int| 0 <= a < b < providers@.len()
                implies providers@[a].kind != providers@[b].kind by {
                assert(providers@.map_values(|e: ProviderEntry| e@)[a].kind == providers@[a].kind);
                assert(providers@.map_values(|e: ProviderEntry| e@)[b].kind == providers@[b].kind);
            }
        }
        Ok(Client { providers, config })
    }

    /// Create a new catsu client with explicit API keys, given as provider name / key
    /// pairs. For Cloudflare, provide both "cloudflare" (API token) and
    /// "cloudflare_account_id".
    pub fn with_api_keys(api_keys: Vec<(String, String)>) -> (res: Result<Self, ClientError>)
        ensures
            res matches Ok(c) && c@ == registry(all_kinds(), keyed_credentials(pairs_view(api_keys@)))
                && c.http_config() == default_http_config(),
    {
        Self::with_api_keys_and_config(api_keys, HttpConfig::default())
    }

    /// Create a new catsu client with explicit API keys and custom HTTP configuration.
    pub fn with_api_keys_and_config(api_keys: Vec<(String, String)>, config: HttpConfig) -> (res: Result<Self, ClientError>)
        ensures
            res matches Ok(c) && c@ == registry(all_kinds(), keyed_credentials(pairs_view(api_keys@)))
                && c.http_config() == config,
    {
        let kinds = ProviderKind::all();
        let ghost creds = keyed_credentials(pairs_view(api_keys@));
        let mut providers: Vec<ProviderEntry> = Vec::new();
        let n = kinds.len();
        for i in 0..n
            invariant
                n == kinds@.len(),
                kinds@ == all_kinds(),
                creds == keyed_credentials(pairs_view(api_keys@)),
                creds.len() == n,
                providers@.map_values(|e: ProviderEntry| e@) == registry(all_kinds().take(i as int), creds.take(i as int)),
        {
            proof {
                lemma_registry_step(all_kinds(), creds, i as int);
            }
            let ghost before = providers@;
            match credentials_from_keys(&api_keys, kinds[i]) {
                Some(c) => {
                    providers.push(ProviderEntry { kind: kinds[i], credentials: c });
                    assert(providers@.map_values(|e: ProviderEntry| e@) =~= before.map_values(|e: ProviderEntry| e@).push(providers@[before.len() as int]@));
                },
                None => {},
            }
        }
        assert(all_kinds().take(n as int) =~= all_kinds());
        assert(creds.take(n as int) =~= creds);
        proof {
            lemma_registry_distinct(creds);
            assert forall|a: int, b: int| 0 <= a < b < providers@.len()
                implies providers@[a].kind != providers@[b].kind by {
                assert(providers@.map_values(|e: ProviderEntry| e@)[a].kind == providers@[a].kind);
                assert(providers@.map_values(|e: ProviderEntry| e@)[b].kind == providers@[b].kind);
            }
        }
        Ok(Client { providers, config })
    }
}

proof fn lemma_split_at(s: Seq<char>, i: int)
    requires
        0 <= i < s.len(),
        s[i] == ':',
        forall|k: int| 0 <= k < i ==> s[k] != ':',
    ensures
        split_model(s) == Some((s.take(i), s.skip(i + 1))),
    decreases i,
{
    if i > 0 {
        lemma_split_at(s.drop_first(), i - 1);
        assert(seq![s[0]] + s.drop_first().take(i - 1) =~= s.take(i));
        assert(s.drop_first().skip(i) =~= s.skip(i + 1));
    } else {
        assert(s.take(0) =~= Seq::<char>::empty());
        assert(s.drop_first() =~= s.skip(1));
    }
}

proof fn lemma_split_none(s: Seq<char>)
    requires
        forall|k: int| 0 <= k < s.len() ==> s[k] != ':',
    ensures
        split_model(s) is None,
    decreases s.len(),
{
    if s.len() > 0 {
        lemma_split_none(s.drop_first());
    }
}

/// Cuts `s` at its first colon.
fn split_at_colon(s: &str) -> (res: Option<(String, String)>)
    ensures
        match res {
            Some((p, m)) => split_model(s@) == Some((p@, m@)),
            None => split_model(s@) is None,
        },
{
    let len = s.unicode_len();
    let mut i: usize = 0;
    while i < len
        invariant
            len == s@.len(),
            i <= len,
            forall|k: int| 0 <= k < i ==> s@[k] != ':',
        decreases len - i,
    {
        if s.get_char(i) == ':' {
            proof {
                lemma_split_at(s@, i as int);
            }
            let provider = String::from_str(s.substring_char(0, i));
            let model = String::from_str(s.substring_char(i + 1, len));
            assert(s@.subrange(0, i as int) =~= s@.take(i as int));
            assert(s@.subrange(i + 1, len as int) =~= s@.skip(i + 1));
            return Some((provider, model));
        }
        i = i + 1;
    }
    proof {
        lemma_split_none(s@);
    }
    None
}

impl Client {
    /// The HTTP settings of the client.
    pub fn config(&self) -> (config: &HttpConfig)
        ensures
            *config == self.http_config(),
    {
        &self.config
    }

    /// The registered providers, in registration order.
    pub fn entries(&self) -> (entries: &Vec<ProviderEntry>)
        ensures
            entries@.map_values(|e: ProviderEntry| e@) == self@,
            distinct_kinds(self@),
    {
        proof {
            use_type_invariant(self);
            assert forall|a: int, b: int| 0 <= a < b < self@.len() implies self@[a].kind != self@[b].kind by {
                assert(self@[a] == self.providers@[a]@);
                assert(self@[b] == self.providers@[b]@);
            }
        }
        &self.providers
    }

    /// List available providers, in registration order.
    pub fn list_providers(&self) -> (names: Vec<&'static str>)
        ensures
            names@.map_values(|s: &str| s@) == self@.map_values(|e: EntrySpec| kind_name(e.kind)),
            names@.map_values(|s: &str| s@).no_duplicates(),
    {
        proof {
            use_type_invariant(self);
            let listed = self@.map_values(|e: EntrySpec| kind_name(e.kind));
            assert forall|a: int, b: int| 0 <= a < listed.len() && 0 <= b < listed.len() && a != b
                implies listed[a] != listed[b] by {
                assert(self@[a] == self.providers@[a]@);
                assert(self@[b] == self.providers@[b]@);
                crate::providers::lemma_kind_names_distinct(self@[a].kind, self@[b].kind);
            }
        }
        let mut names: Vec<&'static str> = Vec::new();
        let n = self.providers.len();
        for i in 0..n
            invariant
                n == self.providers@.len(),
                names@.map_values(|s: &str| s@) == self@.map_values(|e: EntrySpec| kind_name(e.kind)).take(i as int),
        {
            let name = self.providers[i].kind.name();
            assert(self@[i as int] == self.providers@[i as int]@);
            let ghost before = names@;
            names.push(name);
            assert(names@.map_values(|s: &str| s@) =~= before.map_values(|s: &str| s@).push(name@));
            assert(self@.map_values(|e: EntrySpec| kind_name(e.kind)).take(i + 1) =~= self@.map_values(|e: EntrySpec| kind_name(e.kind)).take(i as int).push(kind_name(self@[i as int].kind)));
            assert(names@.map_values(|s: &str| s@) =~= self@.map_values(|e: EntrySpec| kind_name(e.kind)).take(i + 1));
        }
        assert(self@.map_values(|e: EntrySpec| kind_name(e.kind)).take(n as int) =~= self@.map_values(|e: EntrySpec| kind_name(e.kind)));
        names
    }

    /// The first registered provider that goes by `name`.
    fn find_kind(&self, name: &str) -> (kind: Option<ProviderKind>)
        ensures
            kind == find_entry(self@, name@),
    {
        let wanted = String::from_str(name);
        let n = self.providers.len();
        assert(self@.skip(0) =~= self@);
        for i in 0..n
            invariant
                n == self.providers@.len(),
                n == self@.len(),
                wanted@ == name@,
                find_entry(self@, name@) == find_entry(self@.skip(i as int), name@),
        {
            assert(self@.skip(i as int)[0] == self@[i as int]);
            assert(self@.skip(i as int).drop_first() =~= self@.skip(i + 1));
            let kind = self.providers[i].kind;
            if String::from_str(kind.name()) == wanted {
                return Some(kind);
            }
        }
        assert(self@.skip(n as int) =~= Seq::<EntrySpec>::empty());
        None
    }

    /// Check if a provider is available.
    pub fn has_provider(&self, provider: &str) -> (available: bool)
        ensures
            available == find_entry(self@, provider@) is Some,
    {
        self.find_kind(provider).is_some()
    }

    /// List available models, optionally filtered by provider.
    pub fn list_models(&self, provider: Option<&str>) -> (models: Vec<ModelInfo>)
        ensures
            model_views(models@) == models_of(catalog_spec(), match provider {
                Some(p) => Some(p@),
                None => None,
            }),
    {
        catalog_list_models(provider)
    }

    /// Parse model string into provider and model name.
    ///
    /// Supports formats:
    /// - "provider:model" (e.g., "openai:text-embedding-3-small")
    /// - "model" (auto-detects provider from catalog)
    pub fn parse_model_string(&self, model: &str) -> (res: Result<(String, String), ClientError>)
        ensures
            match res {
                Ok((p, m)) => model_route(model@) == Some((p@, m@)),
                Err(e) => model_route(model@) is None
                    && (e matches ClientError::InvalidInput(msg) && msg@ == unknown_model_message(model@)),
            },
    {
        match split_at_colon(model) {
            Some((provider, model_name)) => Ok((provider, model_name)),
            None => match find_model_by_name(model) {
                Some(info) => Ok((info.provider, String::from_str(model))),
                None => {
                    let mut msg = String::from_str("Model '");
                    msg.append(model);
                    msg.append("' not found in catalog. Use 'provider:model' format (e.g., 'openai:text-embedding-3-small') or check available models with list_models()");
                    Err(ClientError::InvalidInput(msg))
                },
            },
        }
    }

    /// Decides where an embedding request goes and what it says: the provider (named
    /// explicitly, else taken from the model string) must be registered; the request
    /// carries the model name without any `provider:` prefix and the caller's inputs,
    /// input type, dimensions and key override unchanged.
    pub fn prepare_request(
        &self,
        model: &str,
        inputs: Vec<String>,
        input_type: Option<InputType>,
        dimensions: Option<u32>,
        provider: Option<&str>,
        api_key: Option<String>,
    ) -> (res: Result<(ProviderKind, EmbedRequest), ClientError>)
        ensures
            match (match provider {
                Some(p) => Some(explicit_route(p@, model@)),
                None => model_route(model@),
            }) {
                None => res matches Err(ClientError::InvalidInput(msg)) && msg@ == unknown_model_message(model@),
                Some((pn, mn)) => match find_entry(self@, pn) {
                    None => res matches Err(ClientError::ProviderNotFound { provider: name }) && name@ == pn,
                    Some(kind) => res matches Ok((k, req)) && k == kind && req.model@ == mn
                        && req.inputs@ == inputs@ && req.input_type == input_type
                        && req.dimensions == dimensions && req.api_key == api_key,
                },
            },
            provider matches Some(p) ==> (res matches Ok((k, req)) ==> kind_name(k) == p@),
            provider matches Some(p) ==> (res matches Ok((k, req)) ==> (!model@.contains(':') ==> req.model@ == model@)),
            provider matches Some(p) ==> (res matches Err(e) ==> (e matches ClientError::ProviderNotFound { provider: name } && name@ == p@)),
    {
        proof {
            match provider {
                Some(p) => {
                    law_explicit_route_keeps_provider(p@, model@);
                    lemma_find_entry_registered(self@, p@);
                },
                None => {},
            }
        }
        let (provider_name, model_name) = match provider {
            Some(p) => {
                let model_name = match split_at_colon(model) {
                    Some((_, m)) => m,
                    None => String::from_str(model),
                };
                (String::from_str(p), model_name)
            },
            None => self.parse_model_string(model)?,
        };
        match self.find_kind(provider_name.as_str()) {
            Some(kind) => Ok((kind, EmbedRequest { model: model_name, inputs, input_type, dimensions, api_key })),
            None => Err(ClientError::ProviderNotFound { provider: provider_name }),
        }
    }
}

/// Where a provider stands among the registration order.
pub open spec fn kind_index(kind: ProviderKind) -> int {
    match kind {
        ProviderKind::OpenAI => 0,
        ProviderKind::VoyageAI => 1,
        ProviderKind::Cohere => 2,
        ProviderKind::Jina => 3,
        ProviderKind::Mistral => 4,
        ProviderKind::Gemini => 5,
        ProviderKind::Together => 6,
        ProviderKind::Mixedbread => 7,
        ProviderKind::Nomic => 8,
        ProviderKind::DeepInfra => 9,
        ProviderKind::OpenRouter => 10,
        ProviderKind::Vercel => 11,
        ProviderKind::Cloudflare => 12,
    }
}

proof fn lemma_registered_prefix(creds: Seq<Option<CredentialsSpec>>, n: int, kind: ProviderKind)
    requires
        creds.len() == all_kinds().len(),
        0 <= n <= all_kinds().len(),
    ensures
        registered(registry(all_kinds().take(n), creds.take(n)), kind)
            == if kind_index(kind) < n { creds[kind_index(kind)] } else { None },
    decreases n,
{
    assert(all_kinds()[kind_index(kind)] == kind);
    if n > 0 {
        lemma_registered_prefix(creds, n - 1, kind);
        assert(all_kinds().take(n).drop_last() =~= all_kinds().take(n - 1));
        assert(creds.take(n).drop_last() =~= creds.take(n - 1));
        let k = all_kinds()[n - 1];
        assert(kind_index(k) == n - 1);
        let rest = registry(all_kinds().take(n - 1), creds.take(n - 1));
        match creds[n - 1] {
            Some(c) => {
                assert(registry(all_kinds().take(n), creds.take(n)) == rest.push(EntrySpec { kind: k, credentials: c }));
                assert(rest.push(EntrySpec { kind: k, credentials: c }).drop_last() =~= rest);
            },
            None => {},
        }
    }
}

/// Each provider is registered exactly with the credentials given for it, and a provider
/// given none is not registered.
pub proof fn law_registered_credentials(creds: Seq<Option<CredentialsSpec>>, kind: ProviderKind)
    requires
        creds.len() == all_kinds().len(),
    ensures
        registered(registry(all_kinds(), creds), kind) == creds[kind_index(kind)],
{
    lemma_registered_prefix(creds, all_kinds().len() as int, kind);
    assert(all_kinds().take(13) =~= all_kinds());
    assert(creds.take(13) =~= creds);
}

/// A client made from explicit keys holds a provider exactly when the keys name it (for
/// Cloudflare, with an account id too), and holds it with those credentials.
pub proof fn law_keys_register_providers(keys: Seq<(Seq<char>, Seq<char>)>, kind: ProviderKind)
    ensures
        registered(registry(all_kinds(), keyed_credentials(keys)), kind) == key_credentials(keys, kind),
{
    law_registered_credentials(keyed_credentials(keys), kind);
    assert(all_kinds()[kind_index(kind)] == kind);
}

/// A client made from the environment holds a provider exactly when the environment has
/// its key (for Gemini either variable; for Cloudflare token and account id), and holds it
/// with those credentials.
pub proof fn law_environment_registers_providers(env: Seq<(Seq<char>, Seq<char>)>, kind: ProviderKind)
    ensures
        registered(registry(all_kinds(), environment_credentials(env)), kind) == env_credentials(env, kind),
{
    law_registered_credentials(environment_credentials(env), kind);
    assert(all_kinds()[kind_index(kind)] == kind);
}

proof fn lemma_find_entry_registered(reg: Seq<EntrySpec>, name: Seq<char>)
    ensures
        match find_entry(reg, name) {
            Some(k) => kind_name(k) == name && registered(reg, k) is Some,
            None => forall|k: ProviderKind| kind_name(k) == name ==> registered(reg, k) is None,
        },
    decreases reg.len(),
{
    if reg.len() > 0 {
        lemma_find_entry_registered(reg.drop_first(), name);
        lemma_registered_front(reg);
        assert forall|k: ProviderKind| kind_name(k) == name implies
            (registered(reg, k) is Some <==> (reg[0].kind == k || registered(reg.drop_first(), k) is Some)) by {
            lemma_registered_front_kind(reg, k);
        }
        if kind_name(reg[0].kind) != name {
            assert forall|k: ProviderKind| kind_name(k) == name implies reg[0].kind != k by {}
        }
    }
}

proof fn lemma_registered_front(reg: Seq<EntrySpec>)
    requires
        reg.len() > 0,
    ensures
        registered(reg, reg[0].kind) is Some,
    decreases reg.len(),
{
    if reg.len() > 1 && reg.last().kind != reg[0].kind {
        lemma_registered_front(reg.drop_last());
    }
}

proof fn lemma_registered_front_kind(reg: Seq<EntrySpec>, k: ProviderKind)
    requires
        reg.len() > 0,
    ensures
        registered(reg, k) is Some <==> (reg[0].kind == k || registered(reg.drop_first(), k) is Some),
    decreases reg.len(),
{
    if reg.len() == 1 {
        assert(reg.drop_first() =~= Seq::<EntrySpec>::empty());
    } else {
        lemma_registered_front_kind(reg.drop_last(), k);
        assert(reg.drop_last().drop_first() =~= reg.drop_first().drop_last());
        assert(reg.drop_first().last() == reg.last());
        if reg[0].kind == k {
            lemma_registered_front(reg);
        }
    }
}

/// A client offers a provider name exactly when it holds the provider of that name.
pub proof fn law_available_iff_registered(reg: Seq<EntrySpec>, kind: ProviderKind)
    ensures
        find_entry(reg, kind_name(kind)) is Some <==> registered(reg, kind) is Some,
        find_entry(reg, kind_name(kind)) is Some ==> find_entry(reg, kind_name(kind)) == Some(kind),
{
    lemma_find_entry_registered(reg, kind_name(kind));
    match find_entry(reg, kind_name(kind)) {
        Some(k) => {
            crate::providers::lemma_kind_names_distinct(k, kind);
        },
        None => {},
    }
}

/// A client lists a name among its providers exactly when it offers that provider.
pub proof fn law_listed_iff_available(reg: Seq<EntrySpec>, name: Seq<char>)
    ensures
        reg.map_values(|e: EntrySpec| kind_name(e.kind)).contains(name) <==> find_entry(reg, name) is Some,
    decreases reg.len(),
{
    let names = reg.map_values(|e: EntrySpec| kind_name(e.kind));
    if reg.len() == 0 {
        assert(!names.contains(name));
    } else {
        law_listed_iff_available(reg.drop_first(), name);
        let rest = reg.drop_first().map_values(|e: EntrySpec| kind_name(e.kind));
        assert(names =~= seq![kind_name(reg[0].kind)] + rest);
        if rest.contains(name) {
            let w = choose|w: int| 0 <= w < rest.len() && rest[w] == name;
            assert(names[w + 1] == name);
        }
        if kind_name(reg[0].kind) == name {
            assert(names[0] == name);
        }
        if names.contains(name) && kind_name(reg[0].kind) != name {
            let w = choose|w: int| 0 <= w < names.len() && names[w] == name;
            assert(w > 0);
            assert(rest[w - 1] == name);
        }
    }
}

/// A model string `provider:model` whose provider part has no colon names that provider
/// and that model, whatever the catalog says.
pub proof fn law_prefixed_model_route(provider: Seq<char>, model: Seq<char>)
    requires
        !provider.contains(':'),
    ensures
        model_route(provider + seq![':'] + model) == Some((provider, model)),
        split_model(provider + seq![':'] + model) == Some((provider, model)),
{
    let s = provider + seq![':'] + model;
    let i = provider.len() as int;
    assert forall|k: int| 0 <= k < i implies s[k] != ':' by {
        assert(s[k] == provider[k]);
    }
    lemma_split_at(s, i);
    assert(s.take(i) =~= provider);
    assert(s.skip(i + 1) =~= model);
}

/// With the provider named explicitly, a `provider:` prefix on the model is dropped and
/// the explicit provider is used.
pub proof fn law_explicit_provider_overrides(provider: Seq<char>, prefix: Seq<char>, model: Seq<char>)
    requires
        !prefix.contains(':'),
    ensures
        explicit_route(provider, prefix + seq![':'] + model) == (provider, model),
{
    law_prefixed_model_route(prefix, model);
}

/// A model string without colon is looked up in the catalog: it names the provider of its
/// first catalog entry, and nothing when the catalog does not know it.
pub proof fn law_bare_model_route(model: Seq<char>)
    requires
        !model.contains(':'),
    ensures
        model_route(model) == match first_named(catalog_spec(), model) {
            Some(info) => Some((info.provider, model)),
            None => None::<(Seq<char>, Seq<char>)>,
        },
{
    assert forall|k: int| 0 <= k < model.len() implies model[k] != ':' by {
        if model[k] == ':' {
            assert(model.contains(':'));
        }
    }
    lemma_split_none(model);
}

/// On a client made from explicit keys, a request for `name:model` whose provider was
/// given a key goes to that provider, with that model; one whose provider was given no
/// key is refused as not found.
pub proof fn law_keyed_request_routes(keys: Seq<(Seq<char>, Seq<char>)>, kind: ProviderKind, model: Seq<char>)
    ensures
        model_route(kind_name(kind) + seq![':'] + model) == Some((kind_name(kind), model)),
        key_credentials(keys, kind) is Some
            ==> find_entry(registry(all_kinds(), keyed_credentials(keys)), kind_name(kind)) == Some(kind),
        key_credentials(keys, kind) is None
            ==> find_entry(registry(all_kinds(), keyed_credentials(keys)), kind_name(kind)) is None,
{
    crate::providers::lemma_kind_name_has_no_colon(kind);
    law_prefixed_model_route(kind_name(kind), model);
    law_keys_register_providers(keys, kind);
    law_available_iff_registered(registry(all_kinds(), keyed_credentials(keys)), kind);
}

/// With an explicit provider, that provider is the one used, whatever the model string and
/// whatever the catalog says; a model string without colon is passed on unchanged.
pub proof fn law_explicit_route_keeps_provider(provider: Seq<char>, model: Seq<char>)
    ensures
        explicit_route(provider, model).0 == provider,
        !model.contains(':') ==> explicit_route(provider, model) == (provider, model),
{
    if !model.contains(':') {
        assert forall|k: int| 0 <= k < model.len() implies model[k] != ':' by {
            if model[k] == ':' {
                assert(model.contains(':'));
            }
        }
        lemma_split_none(model);
    }
}

/// The key names explicit keys are read under, one per provider: its documented name
/// ("openai", "voyageai", ..., "vercel"); Cloudflare needs "cloudflare" and
/// "cloudflare_account_id". A provider is registered with the key given under its name,
/// and not registered when none is.
pub proof fn law_key_names(keys: Seq<(Seq<char>, Seq<char>)>, key: Seq<char>, account: Seq<char>)
    ensures
        lookup(keys, "openai"@) == Some(key) ==> registered(registry(all_kinds(), keyed_credentials(keys)), ProviderKind::OpenAI) == Some((CredentialsSpec { api_key: key, account_id: None })),
        lookup(keys, "openai"@) is None ==> registered(registry(all_kinds(), keyed_credentials(keys)), ProviderKind::OpenAI) is None,
        lookup(keys, "voyageai"@) == Some(key) ==> registered(registry(all_kinds(), keyed_credentials(keys)), ProviderKind::VoyageAI) == Some((CredentialsSpec { api_key: key, account_id: None })),
        lookup(keys, "voyageai"@) is None ==> registered(registry(all_kinds(), keyed_credentials(keys)), ProviderKind::VoyageAI) is None,
        lookup(keys, "cohere"@) == Some(key) ==> registered(registry(all_kinds(), keyed_credentials(keys)), ProviderKind::Cohere) == Some((CredentialsSpec { api_key: key, account_id: None })),
        lookup(keys, "cohere"@) is None ==> registered(registry(all_kinds(), keyed_credentials(keys)), ProviderKind::Cohere) is None,
        lookup(keys, "jina"@) == Some(key) ==> registered(registry(all_kinds(), keyed_credentials(keys)), ProviderKind::Jina) == Some((CredentialsSpec { api_key: key, account_id: None })),
        lookup(keys, "jina"@) is None ==> registered(registry(all_kinds(), keyed_credentials(keys)), ProviderKind::Jina) is None,
        lookup(keys, "mistral"@) == Some(key) ==> registered(registry(all_kinds(), keyed_credentials(keys)), ProviderKind::Mistral) == Some((CredentialsSpec { api_key: key, account_id: None })),
        lookup(keys, "mistral"@) is None ==> registered(registry(all_kinds(), keyed_credentials(keys)), ProviderKind::Mistral) is None,
        lookup(keys, "gemini"@) == Some(key) ==> registered(registry(all_kinds(), keyed_credentials(keys)), ProviderKind::Gemini) == Some((CredentialsSpec { api_key: key, account_id: None })),
        lookup(keys, "gemini"@) is None ==> registered(registry(all_kinds(), keyed_credentials(keys)), ProviderKind::Gemini) is None,
        lookup(keys, "together"@) == Some(key) ==> registered(registry(all_kinds(), keyed_credentials(keys)), ProviderKind::Together) == Some((CredentialsSpec { api_key: key, account_id: None })),
        lookup(keys, "together"@) is None ==> registered(registry(all_kinds(), keyed_credentials(keys)), ProviderKind::Together) is None,
        lookup(keys, "mixedbread"@) == Some(key) ==> registered(registry(all_kinds(), keyed_credentials(keys)), ProviderKind::Mixedbread) == Some((CredentialsSpec { api_key: key, account_id: None })),
        lookup(keys, "mixedbread"@) is None ==> registered(registry(all_kinds(), keyed_credentials(keys)), ProviderKind::Mixedbread) is None,
        lookup(keys, "nomic"@) == Some(key) ==> registered(registry(all_kinds(), keyed_credentials(keys)), ProviderKind::Nomic) == Some((CredentialsSpec { api_key: key, account_id: None })),
        lookup(keys, "nomic"@) is None ==> registered(registry(all_kinds(), keyed_credentials(keys)), ProviderKind::Nomic) is None,
        lookup(keys, "deepinfra"@) == Some(key) ==> registered(registry(all_kinds(), keyed_credentials(keys)), ProviderKind::DeepInfra) == Some((CredentialsSpec { api_key: key, account_id: None })),
        lookup(keys, "deepinfra"@) is None ==> registered(registry(all_kinds(), keyed_credentials(keys)), ProviderKind::DeepInfra) is None,
        lookup(keys, "openrouter"@) == Some(key) ==> registered(registry(all_kinds(), keyed_credentials(keys)), ProviderKind::OpenRouter) == Some((CredentialsSpec { api_key: key, account_id: None })),
        lookup(keys, "openrouter"@) is None ==> registered(registry(all_kinds(), keyed_credentials(keys)), ProviderKind::OpenRouter) is None,
        lookup(keys, "vercel"@) == Some(key) ==> registered(registry(all_kinds(), keyed_credentials(keys)), ProviderKind::Vercel) == Some((CredentialsSpec { api_key: key, account_id: None })),
        lookup(keys, "vercel"@) is None ==> registered(registry(all_kinds(), keyed_credentials(keys)), ProviderKind::Vercel) is None,
        lookup(keys, "cloudflare"@) == Some(key) && lookup(keys, "cloudflare_account_id"@) == Some(account) ==> registered(registry(all_kinds(), keyed_credentials(keys)), ProviderKind::Cloudflare) == Some((CredentialsSpec { api_key: key, account_id: Some(account) })),
        lookup(keys, "cloudflare"@) is None || lookup(keys, "cloudflare_account_id"@) is None ==> registered(registry(all_kinds(), keyed_credentials(keys)), ProviderKind::Cloudflare) is None,
{
    law_keys_register_providers(keys, ProviderKind::OpenAI);
    law_keys_register_providers(keys, ProviderKind::VoyageAI);
    law_keys_register_providers(keys, ProviderKind::Cohere);
    law_keys_register_providers(keys, ProviderKind::Jina);
    law_keys_register_providers(keys, ProviderKind::Mistral);
    law_keys_register_providers(keys, ProviderKind::Gemini);
    law_keys_register_providers(keys, ProviderKind::Together);
    law_keys_register_providers(keys, ProviderKind::Mixedbread);
    law_keys_register_providers(keys, ProviderKind::Nomic);
    law_keys_register_providers(keys, ProviderKind::DeepInfra);
    law_keys_register_providers(keys, ProviderKind::OpenRouter);
    law_keys_register_providers(keys, ProviderKind::Vercel);
    law_keys_register_providers(keys, ProviderKind::Cloudflare);
}

/// The documented environment variables, one per provider: OPENAI_API_KEY,
/// VOYAGE_API_KEY, COHERE_API_KEY, JINA_API_KEY, MISTRAL_API_KEY, GOOGLE_API_KEY (else
/// GEMINI_API_KEY), TOGETHER_API_KEY, MIXEDBREAD_API_KEY, NOMIC_API_KEY,
/// DEEPINFRA_API_KEY, OPENROUTER_API_KEY, AI_GATEWAY_API_KEY, and CLOUDFLARE_API_TOKEN with
/// CLOUDFLARE_ACCOUNT_ID. A provider is registered with the value of its variable, and not
/// registered when the variable is absent.
pub proof fn law_environment_variable_names(env: Seq<(Seq<char>, Seq<char>)>, key: Seq<char>, account: Seq<char>)
    ensures
        lookup(env, "OPENAI_API_KEY"@) == Some(key) ==> registered(registry(all_kinds(), environment_credentials(env)), ProviderKind::OpenAI) == Some((CredentialsSpec { api_key: key, account_id: None })),
        lookup(env, "OPENAI_API_KEY"@) is None ==> registered(registry(all_kinds(), environment_credentials(env)), ProviderKind::OpenAI) is None,
        lookup(env, "VOYAGE_API_KEY"@) == Some(key) ==> registered(registry(all_kinds(), environment_credentials(env)), ProviderKind::VoyageAI) == Some((CredentialsSpec { api_key: key, account_id: None })),
        lookup(env, "VOYAGE_API_KEY"@) is None ==> registered(registry(all_kinds(), environment_credentials(env)), ProviderKind::VoyageAI) is None,
        lookup(env, "COHERE_API_KEY"@) == Some(key) ==> registered(registry(all_kinds(), environment_credentials(env)), ProviderKind::Cohere) == Some((CredentialsSpec { api_key: key, account_id: None })),
        lookup(env, "COHERE_API_KEY"@) is None ==> registered(registry(all_kinds(), environment_credentials(env)), ProviderKind::Cohere) is None,
        lookup(env, "JINA_API_KEY"@) == Some(key) ==> registered(registry(all_kinds(), environment_credentials(env)), ProviderKind::Jina) == Some((CredentialsSpec { api_key: key, account_id: None })),
        lookup(env, "JINA_API_KEY"@) is None ==> registered(registry(all_kinds(), environment_credentials(env)), ProviderKind::Jina) is None,
        lookup(env, "MISTRAL_API_KEY"@) == Some(key) ==> registered(registry(all_kinds(), environment_credentials(env)), ProviderKind::Mistral) == Some((CredentialsSpec { api_key: key, account_id: None })),
        lookup(env, "MISTRAL_API_KEY"@) is None ==> registered(registry(all_kinds(), environment_credentials(env)), ProviderKind::Mistral) is None,
        lookup(env, "GOOGLE_API_KEY"@) == Some(key) ==> registered(registry(all_kinds(), environment_credentials(env)), ProviderKind::Gemini) == Some((CredentialsSpec { api_key: key, account_id: None })),
        lookup(env, "GOOGLE_API_KEY"@) is None && lookup(env, "GEMINI_API_KEY"@) == Some(key) ==> registered(registry(all_kinds(), environment_credentials(env)), ProviderKind::Gemini) == Some((CredentialsSpec { api_key: key, account_id: None })),
        lookup(env, "GOOGLE_API_KEY"@) is None && lookup(env, "GEMINI_API_KEY"@) is None ==> registered(registry(all_kinds(), environment_credentials(env)), ProviderKind::Gemini) is None,
        lookup(env, "TOGETHER_API_KEY"@) == Some(key) ==> registered(registry(all_kinds(), environment_credentials(env)), ProviderKind::Together) == Some((CredentialsSpec { api_key: key, account_id: None })),
        lookup(env, "TOGETHER_API_KEY"@) is None ==> registered(registry(all_kinds(), environment_credentials(env)), ProviderKind::Together) is None,
        lookup(env, "MIXEDBREAD_API_KEY"@) == Some(key) ==> registered(registry(all_kinds(), environment_credentials(env)), ProviderKind::Mixedbread) == Some((CredentialsSpec { api_key: key, account_id: None })),
        lookup(env, "MIXEDBREAD_API_KEY"@) is None ==> registered(registry(all_kinds(), environment_credentials(env)), ProviderKind::Mixedbread) is None,
        lookup(env, "NOMIC_API_KEY"@) == Some(key) ==> registered(registry(all_kinds(), environment_credentials(env)), ProviderKind::Nomic) == Some((CredentialsSpec { api_key: key, account_id: None })),
        lookup(env, "NOMIC_API_KEY"@) is None ==> registered(registry(all_kinds(), environment_credentials(env)), ProviderKind::Nomic) is None,
        lookup(env, "DEEPINFRA_API_KEY"@) == Some(key) ==> registered(registry(all_kinds(), environment_credentials(env)), ProviderKind::DeepInfra) == Some((CredentialsSpec { api_key: key, account_id: None })),
        lookup(env, "DEEPINFRA_API_KEY"@) is None ==> registered(registry(all_kinds(), environment_credentials(env)), ProviderKind::DeepInfra) is None,
        lookup(env, "OPENROUTER_API_KEY"@) == Some(key) ==> registered(registry(all_kinds(), environment_credentials(env)), ProviderKind::OpenRouter) == Some((CredentialsSpec { api_key: key, account_id: None })),
        lookup(env, "OPENROUTER_API_KEY"@) is None ==> registered(registry(all_kinds(), environment_credentials(env)), ProviderKind::OpenRouter) is None,
        lookup(env, "AI_GATEWAY_API_KEY"@) == Some(key) ==> registered(registry(all_kinds(), environment_credentials(env)), ProviderKind::Vercel) == Some((CredentialsSpec { api_key: key, account_id: None })),
        lookup(env, "AI_GATEWAY_API_KEY"@) is None ==> registered(registry(all_kinds(), environment_credentials(env)), ProviderKind::Vercel) is None,
        lookup(env, "CLOUDFLARE_API_TOKEN"@) == Some(key) && lookup(env, "CLOUDFLARE_ACCOUNT_ID"@) == Some(account) ==> registered(registry(all_kinds(), environment_credentials(env)), ProviderKind::Cloudflare) == Some((CredentialsSpec { api_key: key, account_id: Some(account) })),
        lookup(env, "CLOUDFLARE_API_TOKEN"@) is None || lookup(env, "CLOUDFLARE_ACCOUNT_ID"@) is None ==> registered(registry(all_kinds(), environment_credentials(env)), ProviderKind::Cloudflare) is None,
{
    law_environment_registers_providers(env, ProviderKind::OpenAI);
    law_environment_registers_providers(env, ProviderKind::VoyageAI);
    law_environment_registers_providers(env, ProviderKind::Cohere);
    law_environment_registers_providers(env, ProviderKind::Jina);
    law_environment_registers_providers(env, ProviderKind::Mistral);
    law_environment_registers_providers(env, ProviderKind::Gemini);
    law_environment_registers_providers(env, ProviderKind::Together);
    law_environment_registers_providers(env, ProviderKind::Mixedbread);
    law_environment_registers_providers(env, ProviderKind::Nomic);
    law_environment_registers_providers(env, ProviderKind::DeepInfra);
    law_environment_registers_providers(env, ProviderKind::OpenRouter);
    law_environment_registers_providers(env, ProviderKind::Vercel);
    law_environment_registers_providers(env, ProviderKind::Cloudflare);
}

} // verus!

//! Vercel AI Gateway embeddings provider.

use vstd::prelude::*;

use crate::errors::ClientError;
use crate::json::{decimal, decimal_string, json_error, json_string_literal, quote_json_string};
use crate::keys::{find_value, lookup, pairs_view};
use crate::models::{EmbedRequest, PreparedCall, ResponseSummary};
use crate::order::{is_stable_order, stable_order};
use crate::providers::EmbeddingProvider;

verus! {

/// The gateway's embeddings endpoint.
pub open spec fn vercel_api_url() -> Seq<char> {
    "https://ai-gateway.vercel.sh/v1/embeddings"@
}

/// Vercel AI Gateway embeddings provider.
#[derive(Debug)]
pub struct VercelProvider {
    api_key: String,
    base_url: String,
}

/// JSON texts joined by commas.
pub open spec fn join_commas(items: Seq<Seq<char>>) -> Seq<char>
    decreases items.len(),
{
    if items.len() == 0 {
        seq![]
    } else if items.len() == 1 {
        items[0]
    } else {
        join_commas(items.drop_last()) + ","@ + items.last()
    }
}

/// One item alone is written as it is.
pub proof fn law_join_single(x: Seq<char>)
    ensures
        join_commas(seq![x]) == x,
{
}

/// Adding an item after a non-empty list adds exactly one comma and the item.
pub proof fn law_join_push(items: Seq<Seq<char>>, x: Seq<char>)
    requires
        items.len() > 0,
    ensures
        join_commas(items.push(x)) == join_commas(items) + seq![','] + x,
{
    reveal_strlit(",");
    assert(","@ =~= seq![',']);
    assert(items.push(x).drop_last() =~= items);
}

/// Two non-empty lists joined are the two joins with exactly one comma between them:
/// a comma stands between every two neighbouring items, and nowhere else.
pub proof fn law_join_concat(a: Seq<Seq<char>>, b: Seq<Seq<char>>)
    requires
        a.len() > 0,
        b.len() > 0,
    ensures
        join_commas(a + b) == join_commas(a) + seq![','] + join_commas(b),
    decreases b.len(),
{
    if b.len() == 1 {
        assert(a + b =~= a.push(b[0]));
        law_join_push(a, b[0]);
        assert(join_commas(b) == b[0]);
    } else {
        law_join_concat(a, b.drop_last());
        assert(a + b =~= (a + b.drop_last()).push(b.last()));
        law_join_push(a + b.drop_last(), b.last());
        law_join_push(b.drop_last(), b.last());
        assert(b.drop_last().push(b.last()) =~= b);
        assert(join_commas(a) + seq![','] + join_commas(b.drop_last()) + seq![','] + b.last()
            =~= join_commas(a) + seq![','] + (join_commas(b.drop_last()) + seq![','] + b.last()));
    }
}

/// The request body, from the JSON texts of the model and of the inputs: an object with
/// `model`, `input` and, only when dimensions are asked for, `dimensions`.
pub open spec fn embedding_body(
    model_json: Seq<char>,
    inputs_json: Seq<Seq<char>>,
    dimensions: Option<u32>,
) -> Seq<char> {
    "{\"model\":"@ + model_json + ",\"input\":["@ + join_commas(inputs_json) + "]"@ + match dimensions {
        Some(d) => ",\"dimensions\":"@ + decimal(d as nat),
        None => Seq::<char>::empty(),
    } + "}"@
}

/// The JSON texts of a list of strings.
pub open spec fn quoted_all(inputs: Seq<String>) -> Seq<Seq<char>> {
    inputs.map_values(|s: String| json_string_literal(s@))
}

/// The body sent for a request.
pub open spec fn request_body(request: EmbedRequest) -> Seq<char> {
    embedding_body(json_string_literal(request.model@), quoted_all(request.inputs@), request.dimensions)
}

/// The key a request is sent with: its own, when it carries one, else the provider's.
pub open spec fn effective_key(request: EmbedRequest, provider_key: Seq<char>) -> Seq<char> {
    match request.api_key {
        Some(k) => k@,
        None => provider_key,
    }
}

/// A key carried by the request is used in place of the provider's; without one, the
/// provider's key is used.
pub proof fn law_request_key_wins(request: EmbedRequest, provider_key: Seq<char>)
    ensures
        request.api_key matches Some(k) ==> effective_key(request, provider_key) == k@,
        request.api_key is None ==> effective_key(request, provider_key) == provider_key,
{
}

/// Lays out the request body from the JSON texts of the model and the inputs.
pub fn assemble_request_body(model_json: &str, inputs_json: &Vec<String>, dimensions: Option<u32>) -> (body: String)
    ensures
        body@ == embedding_body(model_json@, inputs_json@.map_values(|s: String| s@), dimensions),
{
    let ghost items = inputs_json@.map_values(|s: String| s@);
    let mut body = String::from_str("{\"model\":");
    body.append(model_json);
    body.append(",\"input\":[");
    let ghost head = body@;
    let n = inputs_json.len();
    for i in 0..n
        invariant
            n == inputs_json@.len(),
            items == inputs_json@.map_values(|s: String| s@),
            body@ == head + join_commas(items.take(i as int)),
    {
        if i > 0 {
            body.append(",");
        }
        body.append(inputs_json[i].as_str());
        proof {
            assert(items.take(i + 1).drop_last() =~= items.take(i as int));
            if i == 0 {
                assert(items.take(1) =~= seq![items[0]]);
                assert(join_commas(items.take(0)) =~= Seq::<char>::empty());
                assert(body@ =~= head + join_commas(items.take(1)));
            } else {
                assert(body@ =~= head + join_commas(items.take(i + 1)));
            }
        }
    }
    assert(items.take(n as int) =~= items);
    body.append("]");
    match dimensions {
        Some(d) => {
            body.append(",\"dimensions\":");
            let digits = decimal_string(d);
            body.append(digits.as_str());
        },
        None => {},
    }
    body.append("}");
    assert(body@ =~= embedding_body(model_json@, items, dimensions));
    body
}

/// Writes the JSON body of a request, quoting the model and every input as JSON strings.
pub fn encode_request(request: &EmbedRequest) -> (res: Result<String, ClientError>)
    ensures
        res matches Ok(body) && body@ == request_body(*request),
{
    let model_json = match quote_json_string(request.model.as_str()) {
        Ok(q) => q,
        Err(e) => return Err(json_error(e)),
    };
    let mut inputs_json: Vec<String> = Vec::new();
    let n = request.inputs.len();
    for i in 0..n
        invariant
            n == request.inputs@.len(),
            inputs_json@.map_values(|s: String| s@) == quoted_all(request.inputs@.take(i as int)),
    {
        let text = request.inputs[i].as_str();
        let q = match quote_json_string(text) {
            Ok(q) => q,
            Err(e) => return Err(json_error(e)),
        };
        assert(q@ == json_string_literal(request.inputs@[i as int]@));
        let ghost before = inputs_json@;
        inputs_json.push(q);
        assert(inputs_json@.map_values(|s: String| s@) =~= before.map_values(|s: String| s@).push(q@));
        assert(inputs_json@.map_values(|s: String| s@) =~= quoted_all(request.inputs@.take(i + 1)));
    }
    assert(request.inputs@.take(n as int) =~= request.inputs@);
    Ok(assemble_request_body(model_json.as_str(), &inputs_json, request.dimensions))
}

impl VercelProvider {
    /// Create a new Vercel AI Gateway provider with the given API key.
    pub fn new(api_key: String) -> (provider: Self)
        ensures
            provider.api_key() == api_key@,
            provider.base_url() == vercel_api_url(),
    {
        VercelProvider { api_key, base_url: String::from_str("https://ai-gateway.vercel.sh/v1/embeddings") }
    }

    /// Create a new Vercel AI Gateway provider from the environment's variables, given as
    /// name/value pairs; fails when `AI_GATEWAY_API_KEY` is not among them.
    pub fn from_env(env: &Vec<(String, String)>) -> (res: Result<Self, ClientError>)
        ensures
            match lookup(pairs_view(env@), "AI_GATEWAY_API_KEY"@) {
                Some(k) => res matches Ok(p) && p.api_key() == k && p.base_url() == vercel_api_url(),
                None => res matches Err(ClientError::MissingApiKey { provider }) && provider@ == "vercel"@,
            },
    {
        match find_value(env, "AI_GATEWAY_API_KEY") {
            Some(k) => Ok(VercelProvider::new(k)),
            None => Err(ClientError::MissingApiKey { provider: String::from_str("vercel") }),
        }
    }

    /// Create a provider that posts to a custom base URL.
    pub fn with_base_url(api_key: String, base_url: String) -> (provider: Self)
        ensures
            provider.api_key() == api_key@,
            provider.base_url() == base_url@,
    {
        VercelProvider { api_key, base_url }
    }

    /// The provider's own API key.
    pub closed spec fn api_key(&self) -> Seq<char> {
        self.api_key@
    }

    /// Where the provider posts its requests.
    pub closed spec fn base_url(&self) -> Seq<char> {
        self.base_url@
    }

    /// The endpoint the provider posts to.
    pub fn url(&self) -> (url: &String)
        ensures
            url@ == self.base_url(),
    {
        &self.base_url
    }

    /// Everything needed to send `request`: the endpoint, the `Authorization` header
    /// (`Bearer` and the request's own key, else the provider's), and the JSON body.
    pub fn prepare_call(&self, request: &EmbedRequest) -> (res: Result<PreparedCall, ClientError>)
        ensures
            res matches Ok(call) && call.url@ == self.base_url()
                && call.authorization@ == "Bearer "@ + effective_key(*request, self.api_key())
                && call.body@ == request_body(*request),
    {
        let body = encode_request(request)?;
        let mut authorization = String::from_str("Bearer ");
        match &request.api_key {
            Some(k) => authorization.append(k.as_str()),
            None => authorization.append(self.api_key.as_str()),
        }
        Ok(PreparedCall { url: self.base_url.clone(), authorization, body })
    }

    /// The error for an answer with the given status: none for 200; otherwise an API
    /// error carrying the message the gateway put in its error object, when the body
    /// held one, else the whole body.
    pub fn response_error(status: u16, error_message: Option<String>, body: String) -> (err: Option<ClientError>)
        ensures
            status == 200 ==> err is None,
            status != 200 ==> (err matches Some(ClientError::Api { status: s, message })
                && s == status
                && message@ == match error_message {
                    Some(m) => m@,
                    None => body@,
                }),
    {
        if status == 200 {
            None
        } else {
            match error_message {
                Some(m) => Some(ClientError::Api { status, message: m }),
                None => Some(ClientError::Api { status, message: body }),
            }
        }
    }

    /// Puts the gateway's answer in order. `items` lists, for each vector of the answer in
    /// the order received, its `index` and its length. The vectors are returned sorted by
    /// index (equal indices keep their order); the dimensions are the length of the first
    /// vector returned, or 0 when there is none.
    pub fn summarize_response(
        &self,
        request: &EmbedRequest,
        items: &Vec<(usize, usize)>,
        model: String,
        total_tokens: u64,
    ) -> (summary: ResponseSummary)
        ensures
            is_stable_order(items@.map_values(|it: (usize, usize)| it.0), summary.order@),
            summary.dimensions == if items@.len() == 0 { 0 } else { items@[summary.order@[0] as int].1 },
            summary.model@ == model@,
            summary.provider@ == "vercel"@,
            summary.input_count == request.inputs@.len(),
            summary.input_type == request.input_type,
            summary.tokens == total_tokens,
    {
        let mut keys: Vec<usize> = Vec::new();
        let n = items.len();
        for i in 0..n
            invariant
                n == items@.len(),
                keys@ == items@.map_values(|it: (usize, usize)| it.0).take(i as int),
        {
            keys.push(items[i].0);
            assert(keys@ =~= items@.map_values(|it: (usize, usize)| it.0).take(i + 1));
        }
        assert(keys@ =~= items@.map_values(|it: (usize, usize)| it.0));
        let order = stable_order(&keys);
        let dimensions = if n == 0 { 0 } else { items[order[0]].1 };
        ResponseSummary {
            order,
            model,
            provider: String::from_str("vercel"),
            dimensions,
            input_count: request.inputs.len(),
            input_type: request.input_type,
            tokens: total_tokens,
        }
    }
}

impl EmbeddingProvider for VercelProvider {
    fn name(&self) -> (name: &'static str)
        ensures
            name@ == "vercel"@,
    {
        "vercel"
    }
}

} // verus!

use catsu::client::Client;
use catsu::errors::ClientError;
use catsu::http::HttpConfig;
use catsu::models::InputType;
use catsu::providers::ProviderKind;

fn pairs(items: &[(&str, &str)]) -> Vec<(String, String)> {
    items.iter().map(|(k, v)| (k.to_string(), v.to_string())).collect()
}

#[test]
fn test_parse_model_string() {
    let client = Client::with_api_keys(Vec::new()).unwrap();

    // With provider prefix
    let (provider, model) = client
        .parse_model_string("openai:text-embedding-3-small")
        .unwrap();
    assert_eq!(provider, "openai");
    assert_eq!(model, "text-embedding-3-small");

    // Without provider prefix - should auto-detect from catalog
    let (provider, model) = client.parse_model_string("text-embedding-3-small").unwrap();
    assert_eq!(provider, "openai");
    assert_eq!(model, "text-embedding-3-small");

    // VoyageAI model without prefix - should auto-detect
    let (provider, model) = client.parse_model_string("voyage-3-large").unwrap();
    assert_eq!(provider, "voyageai");
    assert_eq!(model, "voyage-3-large");

    // Unknown model without prefix - should error
    let result = client.parse_model_string("non-existent-model-xyz");
    assert!(result.is_err());
}

#[test]
fn parse_splits_at_first_colon_only() {
    let client = Client::with_api_keys(Vec::new()).unwrap();
    let (provider, model) = client.parse_model_string("cloudflare:@cf/baai:bge").unwrap();
    assert_eq!(provider, "cloudflare");
    assert_eq!(model, "@cf/baai:bge");
    let (provider, model) = client.parse_model_string(":m").unwrap();
    assert_eq!(provider, "");
    assert_eq!(model, "m");
}

#[test]
fn parse_unknown_model_message() {
    let client = Client::with_api_keys(Vec::new()).unwrap();
    match client.parse_model_string("non-existent-model-xyz") {
        Err(ClientError::InvalidInput(msg)) => assert_eq!(
            msg,
            "Model 'non-existent-model-xyz' not found in catalog. Use 'provider:model' format (e.g., 'openai:text-embedding-3-small') or check available models with list_models()"
        ),
        other => panic!("unexpected: {other:?}"),
    }
}

#[test]
fn keys_register_only_named_providers() {
    let client = Client::with_api_keys(pairs(&[
        ("vercel", "v-key"),
        ("openai", "o-key"),
        ("cloudflare", "cf-token"),
        ("unknown", "x"),
    ]))
    .unwrap();
    assert!(client.has_provider("openai"));
    assert!(client.has_provider("vercel"));
    assert!(!client.has_provider("cloudflare"));
    assert!(!client.has_provider("unknown"));
    assert!(!client.has_provider("cohere"));
    assert_eq!(client.list_providers(), vec!["openai", "vercel"]);
}

#[test]
fn cloudflare_needs_account_id() {
    let client = Client::with_api_keys(pairs(&[
        ("cloudflare", "cf-token"),
        ("cloudflare_account_id", "acct"),
    ]))
    .unwrap();
    assert!(client.has_provider("cloudflare"));
    let entry = &client.entries()[0];
    assert_eq!(entry.kind, ProviderKind::Cloudflare);
    assert_eq!(entry.credentials.api_key, "cf-token");
    assert_eq!(entry.credentials.account_id.as_deref(), Some("acct"));
}

#[test]
fn later_key_wins() {
    let client = Client::with_api_keys(pairs(&[("jina", "first"), ("jina", "second")])).unwrap();
    assert_eq!(client.entries().len(), 1);
    assert_eq!(client.entries()[0].credentials.api_key, "second");
}

#[test]
fn environment_registers_providers() {
    let env = pairs(&[
        ("PATH", "/usr/bin"),
        ("GEMINI_API_KEY", "g2"),
        ("AI_GATEWAY_API_KEY", "gw"),
        ("CLOUDFLARE_ACCOUNT_ID", "acct"),
    ]);
    let client = Client::new(env).unwrap();
    assert_eq!(client.list_providers(), vec!["gemini", "vercel"]);
    assert_eq!(client.entries()[0].credentials.api_key, "g2");

    let env = pairs(&[("GOOGLE_API_KEY", "g1"), ("GEMINI_API_KEY", "g2")]);
    let client = Client::new(env).unwrap();
    assert_eq!(client.entries()[0].credentials.api_key, "g1");
    assert_eq!(client.config().max_retries, 3);
}

#[test]
fn custom_config_is_kept() {
    let config = HttpConfig { timeout_secs: 5, max_retries: 0, initial_backoff_ms: 10, max_backoff_ms: 20 };
    let client = Client::with_api_keys_and_config(Vec::new(), config).unwrap();
    assert_eq!(client.config().timeout_secs, 5);
    assert_eq!(client.config().max_retries, 0);
    let client = Client::with_config(config, pairs(&[("OPENAI_API_KEY", "k")])).unwrap();
    assert!(client.has_provider("openai"));
    assert_eq!(client.config().max_backoff_ms, 20);
}

#[test]
fn prepare_request_routes_by_model_string() {
    let client = Client::with_api_keys(pairs(&[("openai", "o-key")])).unwrap();
    let (kind, request) = client
        .prepare_request(
            "openai:text-embedding-3-small",
            vec!["hello".to_string()],
            Some(InputType::Document),
            Some(256),
            None,
            Some("override".to_string()),
        )
        .unwrap();
    assert_eq!(kind, ProviderKind::OpenAI);
    assert_eq!(request.model, "text-embedding-3-small");
    assert_eq!(request.inputs, vec!["hello".to_string()]);
    assert_eq!(request.input_type, Some(InputType::Document));
    assert_eq!(request.dimensions, Some(256));
    assert_eq!(request.api_key.as_deref(), Some("override"));

    // bare model name found in the catalog
    let (kind, request) = client
        .prepare_request("text-embedding-3-large", vec![], None, None, None, None)
        .unwrap();
    assert_eq!(kind, ProviderKind::OpenAI);
    assert_eq!(request.model, "text-embedding-3-large");
}

#[test]
fn prepare_request_explicit_provider() {
    let client = Client::with_api_keys(pairs(&[("vercel", "v-key")])).unwrap();
    let (kind, request) = client
        .prepare_request("openai:text-embedding-3-small", vec![], None, None, Some("vercel"), None)
        .unwrap();
    assert_eq!(kind, ProviderKind::Vercel);
    assert_eq!(request.model, "text-embedding-3-small");

    let (_, request) = client
        .prepare_request("openai/text-embedding-3-small", vec![], None, None, Some("vercel"), None)
        .unwrap();
    assert_eq!(request.model, "openai/text-embedding-3-small");
}

#[test]
fn prepare_request_errors() {
    let client = Client::with_api_keys(pairs(&[("vercel", "v-key")])).unwrap();
    match client.prepare_request("openai:text-embedding-3-small", vec![], None, None, None, None) {
        Err(ClientError::ProviderNotFound { provider }) => assert_eq!(provider, "openai"),
        other => panic!("unexpected: {other:?}"),
    }
    match client.prepare_request("mystery-model", vec![], None, None, None, None) {
        Err(ClientError::InvalidInput(msg)) => assert!(msg.starts_with("Model 'mystery-model' not found")),
        other => panic!("unexpected: {other:?}"),
    }
    match client.prepare_request("m", vec![], None, None, Some("nope"), None) {
        Err(ClientError::ProviderNotFound { provider }) => assert_eq!(provider, "nope"),
        other => panic!("unexpected: {other:?}"),
    }
}

#[test]
fn client_list_models_filters() {
    let client = Client::with_api_keys(Vec::new()).unwrap();
    let voyage = client.list_models(Some("voyageai"));
    assert_eq!(voyage.len(), 4);
    assert!(voyage.iter().all(|m| m.provider == "voyageai"));
    assert_eq!(voyage[0].name, "voyage-3-large");
    assert!(client.list_models(Some("nobody")).is_empty());
    assert_eq!(client.list_models(None).len(), 15);
}

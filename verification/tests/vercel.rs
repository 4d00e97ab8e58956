use catsu::errors::ClientError;
use catsu::models::{EmbedRequest, InputType};
use catsu::providers::vercel::{assemble_request_body, encode_request, VercelProvider};
use catsu::providers::EmbeddingProvider;

#[test]
fn test_name() {
    let provider = VercelProvider::new("test-key".to_string());
    assert_eq!(provider.name(), "vercel");
}

#[test]
fn test_from_env_missing_key() {
    let env = vec![("PATH".to_string(), "/usr/bin".to_string())];
    let result = VercelProvider::from_env(&env);
    assert!(matches!(
        result,
        Err(ClientError::MissingApiKey { provider }) if provider == "vercel"
    ));
}

#[test]
fn from_env_reads_gateway_key() {
    let env = vec![("AI_GATEWAY_API_KEY".to_string(), "gw".to_string())];
    let provider = VercelProvider::from_env(&env).unwrap();
    assert_eq!(provider.url(), "https://ai-gateway.vercel.sh/v1/embeddings");
    let call = provider.prepare_call(&request(None, None)).unwrap();
    assert_eq!(call.authorization, "Bearer gw");
}

fn request(dimensions: Option<u32>, api_key: Option<&str>) -> EmbedRequest {
    EmbedRequest {
        model: "openai/text-embedding-3-small".to_string(),
        inputs: vec!["hello".to_string(), "world".to_string()],
        input_type: Some(InputType::Query),
        dimensions,
        api_key: api_key.map(|k| k.to_string()),
    }
}

#[test]
fn body_matches_gateway_format() {
    let body = encode_request(&request(Some(3), None)).unwrap();
    assert_eq!(
        body,
        r#"{"model":"openai/text-embedding-3-small","input":["hello","world"],"dimensions":3}"#
    );
    let body = encode_request(&request(None, None)).unwrap();
    assert_eq!(body, r#"{"model":"openai/text-embedding-3-small","input":["hello","world"]}"#);
}

#[test]
fn body_escapes_strings() {
    let req = EmbedRequest {
        model: "m".to_string(),
        inputs: vec!["say \"hi\"\n".to_string(), "back\\slash".to_string()],
        input_type: None,
        dimensions: Some(4294967295),
        api_key: None,
    };
    let body = encode_request(&req).unwrap();
    assert_eq!(body, r#"{"model":"m","input":["say \"hi\"\n","back\\slash"],"dimensions":4294967295}"#);
    let parsed: serde_json::Value = serde_json::from_str(&body).unwrap();
    assert_eq!(parsed["input"][0], "say \"hi\"\n");
}

#[test]
fn body_of_empty_input_list() {
    let body = assemble_request_body("\"m\"", &Vec::new(), Some(0));
    assert_eq!(body, r#"{"model":"m","input":[],"dimensions":0}"#);
}

#[test]
fn request_key_overrides_provider_key() {
    let provider = VercelProvider::with_base_url("test-key".to_string(), "http://127.0.0.1:9/v1".to_string());
    let call = provider.prepare_call(&request(None, Some("per-request"))).unwrap();
    assert_eq!(call.authorization, "Bearer per-request");
    assert_eq!(call.url, "http://127.0.0.1:9/v1");
    let call = provider.prepare_call(&request(None, None)).unwrap();
    assert_eq!(call.authorization, "Bearer test-key");
}

#[test]
fn answer_is_put_in_index_order() {
    // The gateway answered index 1 first, then index 0, each vector of length 3.
    let provider = VercelProvider::new("test-key".to_string());
    let req = request(Some(3), None);
    let summary = provider.summarize_response(
        &req,
        &vec![(1, 3), (0, 3)],
        "openai/text-embedding-3-small".to_string(),
        8,
    );
    assert_eq!(summary.order, vec![1, 0]);
    assert_eq!(summary.provider, "vercel");
    assert_eq!(summary.model, "openai/text-embedding-3-small");
    assert_eq!(summary.input_count, 2);
    assert_eq!(summary.dimensions, 3);
    assert_eq!(summary.tokens, 8);
    assert_eq!(summary.input_type, Some(InputType::Query));
}

#[test]
fn answer_order_is_stable_and_dimensions_come_from_first() {
    let provider = VercelProvider::new("k".to_string());
    let req = request(None, None);
    let summary = provider.summarize_response(&req, &vec![(2, 5), (0, 7), (2, 9), (1, 4)], "m".to_string(), 0);
    assert_eq!(summary.order, vec![1, 3, 0, 2]);
    assert_eq!(summary.dimensions, 7);
    let summary = provider.summarize_response(&req, &Vec::new(), "m".to_string(), 0);
    assert!(summary.order.is_empty());
    assert_eq!(summary.dimensions, 0);
}

#[test]
fn error_answers() {
    let body = r#"{"error":{"message":"Invalid API key","type":"invalid_request_error"}}"#.to_string();
    match VercelProvider::response_error(401, Some("Invalid API key".to_string()), body.clone()) {
        Some(ClientError::Api { status, message }) => {
            assert_eq!(status, 401);
            assert_eq!(message, "Invalid API key");
        }
        other => panic!("unexpected: {other:?}"),
    }
    match VercelProvider::response_error(502, None, "bad gateway".to_string()) {
        Some(ClientError::Api { status, message }) => {
            assert_eq!(status, 502);
            assert_eq!(message, "bad gateway");
        }
        other => panic!("unexpected: {other:?}"),
    }
    assert!(VercelProvider::response_error(200, None, body).is_none());
}

#[test]
fn body_escapes_control_characters() {
    let req = EmbedRequest {
        model: "é/m".to_string(),
        inputs: vec!["\u{1}\u{1f}\t\r\u{8}\u{c}/".to_string()],
        input_type: None,
        dimensions: None,
        api_key: None,
    };
    let body = encode_request(&req).unwrap();
    assert_eq!(body, "{\"model\":\"é/m\",\"input\":[\"\\u0001\\u001f\\t\\r\\b\\f/\"]}");
}

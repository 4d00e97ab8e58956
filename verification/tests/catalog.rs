use catsu::catalog::{catalog, find_model_by_name, get_model, list_catalog_providers, list_models};

#[test]
fn find_by_name() {
    let m = find_model_by_name("voyage-3.5").unwrap();
    assert_eq!(m.provider, "voyageai");
    assert_eq!(m.dimensions, 1024);
    assert!(find_model_by_name("voyage").is_none());
    assert!(find_model_by_name("").is_none());
}

#[test]
fn get_by_provider_and_name() {
    let m = get_model("openai", "text-embedding-3-large").unwrap();
    assert_eq!(m.dimensions, 3072);
    assert!(get_model("cohere", "text-embedding-3-large").is_none());
}

#[test]
fn listing() {
    assert_eq!(list_models(None).len(), catalog().len());
    let openai: Vec<String> = list_models(Some("openai")).into_iter().map(|m| m.name).collect();
    assert_eq!(openai, vec!["text-embedding-3-small", "text-embedding-3-large", "text-embedding-ada-002"]);
    assert_eq!(
        list_catalog_providers(),
        vec!["openai", "voyageai", "cohere", "jina", "mistral", "gemini", "mixedbread", "nomic"]
    );
}

//! The built-in model catalog.

use vstd::prelude::*;

use crate::models::{ModelInfo, ModelSpec};

verus! {

/// The catalog's entries, in order.
pub open spec fn catalog_spec() -> Seq<ModelSpec> {
    seq![
        ModelSpec { name: "text-embedding-3-small"@, provider: "openai"@, dimensions: 1536 },
        ModelSpec { name: "text-embedding-3-large"@, provider: "openai"@, dimensions: 3072 },
        ModelSpec { name: "text-embedding-ada-002"@, provider: "openai"@, dimensions: 1536 },
        ModelSpec { name: "voyage-3-large"@, provider: "voyageai"@, dimensions: 1024 },
        ModelSpec { name: "voyage-3.5"@, provider: "voyageai"@, dimensions: 1024 },
        ModelSpec { name: "voyage-3.5-lite"@, provider: "voyageai"@, dimensions: 1024 },
        ModelSpec { name: "voyage-code-3"@, provider: "voyageai"@, dimensions: 1024 },
        ModelSpec { name: "embed-v4.0"@, provider: "cohere"@, dimensions: 1536 },
        ModelSpec { name: "embed-english-v3.0"@, provider: "cohere"@, dimensions: 1024 },
        ModelSpec { name: "embed-multilingual-v3.0"@, provider: "cohere"@, dimensions: 1024 },
        ModelSpec { name: "jina-embeddings-v3"@, provider: "jina"@, dimensions: 1024 },
        ModelSpec { name: "mistral-embed"@, provider: "mistral"@, dimensions: 1024 },
        ModelSpec { name: "gemini-embedding-001"@, provider: "gemini"@, dimensions: 3072 },
        ModelSpec { name: "mxbai-embed-large-v1"@, provider: "mixedbread"@, dimensions: 1024 },
        ModelSpec { name: "nomic-embed-text-v1.5"@, provider: "nomic"@, dimensions: 768 },
    ]
}

/// The views of a vector of models.
pub open spec fn model_views(v: Seq<ModelInfo>) -> Seq<ModelSpec> {
    v.map_values(|m: ModelInfo| m@)
}

/// The entries of `cat` that belong to `provider`, or all of them for `None`, in order.
pub open spec fn models_of(cat: Seq<ModelSpec>, provider: Option<Seq<char>>) -> Seq<ModelSpec>
    decreases cat.len(),
{
    if cat.len() == 0 {
        seq![]
    } else {
        let rest = models_of(cat.drop_last(), provider);
        match provider {
            Some(p) => if cat.last().provider == p { rest.push(cat.last()) } else { rest },
            None => rest.push(cat.last()),
        }
    }
}

/// The providers named in `cat`, each once, in order of first appearance.
pub open spec fn providers_of(cat: Seq<ModelSpec>) -> Seq<Seq<char>>
    decreases cat.len(),
{
    if cat.len() == 0 {
        seq![]
    } else {
        let rest = providers_of(cat.drop_last());
        if rest.contains(cat.last().provider) { rest } else { rest.push(cat.last().provider) }
    }
}

fn entry(name: &str, provider: &str, dimensions: u32) -> (m: ModelInfo)
    ensures
        m@ == (ModelSpec { name: name@, provider: provider@, dimensions }),
{
    ModelInfo { name: String::from_str(name), provider: String::from_str(provider), dimensions }
}

/// All models of the catalog.
pub fn catalog() -> (models: Vec<ModelInfo>)
    ensures
        model_views(models@) == catalog_spec(),
{
    let mut v: Vec<ModelInfo> = Vec::new();
    v.push(entry("text-embedding-3-small", "openai", 1536));
    v.push(entry("text-embedding-3-large", "openai", 3072));
    v.push(entry("text-embedding-ada-002", "openai", 1536));
    v.push(entry("voyage-3-large", "voyageai", 1024));
    v.push(entry("voyage-3.5", "voyageai", 1024));
    v.push(entry("voyage-3.5-lite", "voyageai", 1024));
    v.push(entry("voyage-code-3", "voyageai", 1024));
    v.push(entry("embed-v4.0", "cohere", 1536));
    v.push(entry("embed-english-v3.0", "cohere", 1024));
    v.push(entry("embed-multilingual-v3.0", "cohere", 1024));
    v.push(entry("jina-embeddings-v3", "jina", 1024));
    v.push(entry("mistral-embed", "mistral", 1024));
    v.push(entry("gemini-embedding-001", "gemini", 3072));
    v.push(entry("mxbai-embed-large-v1", "mixedbread", 1024));
    v.push(entry("nomic-embed-text-v1.5", "nomic", 768));
    assert(model_views(v@) =~= catalog_spec());
    v
}

impl ModelInfo {
    /// A copy of this entry.
    pub fn duplicate(&self) -> (m: ModelInfo)
        ensures
            m@ == self@,
    {
        ModelInfo { name: self.name.clone(), provider: self.provider.clone(), dimensions: self.dimensions }
    }
}

/// The first entry of `cat` with the given name.
pub open spec fn first_named(cat: Seq<ModelSpec>, name: Seq<char>) -> Option<ModelSpec>
    decreases cat.len(),
{
    if cat.len() == 0 {
        None
    } else if cat[0].name == name {
        Some(cat[0])
    } else {
        first_named(cat.drop_first(), name)
    }
}

/// Find the first catalog model with the given name, whatever its provider.
pub fn find_model_by_name(name: &str) -> (found: Option<ModelInfo>)
    ensures
        match found {
            Some(m) => first_named(catalog_spec(), name@) == Some(m@),
            None => first_named(catalog_spec(), name@) is None,
        },
{
    let mut cat = catalog();
    let wanted = String::from_str(name);
    let n = cat.len();
    assert(catalog_spec().skip(0) =~= catalog_spec());
    for i in 0..n
        invariant
            n == cat@.len(),
            wanted@ == name@,
            model_views(cat@) == catalog_spec(),
            first_named(catalog_spec(), name@) == first_named(catalog_spec().skip(i as int), name@),
    {
        assert(catalog_spec()[i as int] == cat@[i as int]@);
        assert(catalog_spec().skip(i as int)[0] == catalog_spec()[i as int]);
        assert(catalog_spec().skip(i as int).drop_first() =~= catalog_spec().skip(i + 1));
        if cat[i].name == wanted {
            let m = cat.remove(i);
            return Some(m);
        }
    }
    assert(catalog_spec().skip(n as int) =~= Seq::<ModelSpec>::empty());
    None
}

/// Find the catalog model with the given provider and name.
pub fn get_model(provider: &str, name: &str) -> (found: Option<ModelInfo>)
    ensures
        match found {
            Some(m) => exists|i: int|
                0 <= i < catalog_spec().len() && catalog_spec()[i].name == name@
                    && catalog_spec()[i].provider == provider@
                    && m@ == catalog_spec()[i]
                    && forall|k: int| 0 <= k < i ==> !(catalog_spec()[k].name == name@
                        && catalog_spec()[k].provider == provider@),
            None => forall|i: int| 0 <= i < catalog_spec().len() ==>
                !(catalog_spec()[i].name == name@ && catalog_spec()[i].provider == provider@),
        },
{
    let mut cat = catalog();
    let wanted_name = String::from_str(name);
    let wanted_provider = String::from_str(provider);
    let n = cat.len();
    for i in 0..n
        invariant
            n == cat@.len(),
            wanted_name@ == name@,
            wanted_provider@ == provider@,
            model_views(cat@) == catalog_spec(),
            forall|k: int| 0 <= k < i ==> !(catalog_spec()[k].name == name@
                && catalog_spec()[k].provider == provider@),
    {
        assert(catalog_spec()[i as int] == cat@[i as int]@);
        if cat[i].name == wanted_name && cat[i].provider == wanted_provider {
            let m = cat.remove(i);
            return Some(m);
        }
    }
    None
}

/// List the catalog models, all of them or those of one provider.
pub fn list_models(provider: Option<&str>) -> (models: Vec<ModelInfo>)
    ensures
        model_views(models@) == models_of(catalog_spec(), match provider {
            Some(p) => Some(p@),
            None => None,
        }),
{
    let cat = catalog();
    let wanted: Option<String> = match provider {
        Some(p) => Some(String::from_str(p)),
        None => None,
    };
    let ghost filter: Option<Seq<char>> = match provider {
        Some(p) => Some(p@),
        None => None,
    };
    let mut out: Vec<ModelInfo> = Vec::new();
    let n = cat.len();
    for i in 0..n
        invariant
            n == cat@.len(),
            model_views(cat@) == catalog_spec(),
            filter == match wanted {
                Some(w) => Some(w@),
                None => None::<Seq<char>>,
            },
            model_views(out@) == models_of(catalog_spec().take(i as int), filter),
    {
        let ghost prefix = catalog_spec().take(i as int + 1);
        assert(prefix.drop_last() =~= catalog_spec().take(i as int));
        assert(prefix.last() == cat@[i as int]@);
        let keep = match &wanted {
            Some(w) => cat[i].provider == *w,
            None => true,
        };
        if keep {
            out.push(cat[i].duplicate());
            assert(model_views(out@) =~= model_views(out@.drop_last()).push(cat@[i as int]@));
        }
    }
    assert(catalog_spec().take(n as int) =~= catalog_spec());
    out
}

/// List the providers that have models in the catalog, each once.
pub fn list_catalog_providers() -> (providers: Vec<String>)
    ensures
        providers@.map_values(|s: String| s@) == providers_of(catalog_spec()),
{
    let cat = catalog();
    let mut out: Vec<String> = Vec::new();
    let n = cat.len();
    for i in 0..n
        invariant
            n == cat@.len(),
            model_views(cat@) == catalog_spec(),
            out@.map_values(|s: String| s@) == providers_of(catalog_spec().take(i as int)),
    {
        let ghost prefix = catalog_spec().take(i as int + 1);
        assert(prefix.drop_last() =~= catalog_spec().take(i as int));
        assert(prefix.last() == cat@[i as int]@);
        let ghost seen = out@.map_values(|s: String| s@);
        let mut j: usize = 0;
        let mut present = false;
        while j < out.len()
            invariant
                j <= out@.len(),
                i < n,
                n == cat@.len(),
                seen == out@.map_values(|s: String| s@),
                present <==> exists|k: int| 0 <= k < j && seen[k] == cat@[i as int].provider@,
            decreases out@.len() - j,
        {
            assert(seen[j as int] == out@[j as int]@);
            if out[j] == cat[i].provider {
                present = true;
            }
            j = j + 1;
        }
        assert(present <==> seen.contains(cat@[i as int].provider@));
        if !present {
            out.push(cat[i].provider.clone());
            assert(out@.map_values(|s: String| s@) =~= seen.push(cat@[i as int].provider@));
        }
    }
    assert(catalog_spec().take(n as int) =~= catalog_spec());
    out
}

/// Listing the models of a provider gives only that provider's models, and all of them.
pub proof fn law_models_of_provider(cat: Seq<ModelSpec>, provider: Seq<char>)
    ensures
        forall|i: int| 0 <= i < models_of(cat, Some(provider)).len()
            ==> #[trigger] models_of(cat, Some(provider))[i].provider == provider,
        forall|j: int| 0 <= j < cat.len() && cat[j].provider == provider
            ==> models_of(cat, Some(provider)).contains(#[trigger] cat[j]),
    decreases cat.len(),
{
    if cat.len() > 0 {
        law_models_of_provider(cat.drop_last(), provider);
        let rest = models_of(cat.drop_last(), Some(provider));
        let all = models_of(cat, Some(provider));
        assert forall|j: int| 0 <= j < cat.len() && cat[j].provider == provider
            implies all.contains(#[trigger] cat[j]) by {
            if j < cat.len() - 1 {
                assert(cat.drop_last()[j] == cat[j]);
                assert(rest.contains(cat[j]));
                let w = choose|w: int| 0 <= w < rest.len() && rest[w] == cat[j];
                if cat.last().provider == provider {
                    assert(all[w] == cat[j]);
                }
            } else {
                assert(all[all.len() - 1] == cat[j]);
            }
        }
    }
}

/// Listing without a provider gives the whole catalog, in order.
pub proof fn law_all_models(cat: Seq<ModelSpec>)
    ensures
        models_of(cat, None) == cat,
    decreases cat.len(),
{
    if cat.len() > 0 {
        law_all_models(cat.drop_last());
        assert(cat.drop_last().push(cat.last()) =~= cat);
    }
}

/// A name is found exactly when the catalog has an entry of that name, and what is found
/// is such an entry.
pub proof fn law_found_by_name(cat: Seq<ModelSpec>, name: Seq<char>)
    ensures
        first_named(cat, name) is None <==> forall|i: int| 0 <= i < cat.len() ==> #[trigger] cat[i].name != name,
        first_named(cat, name) matches Some(m) ==> m.name == name && cat.contains(m),
    decreases cat.len(),
{
    if cat.len() > 0 {
        law_found_by_name(cat.drop_first(), name);
        assert forall|i: int| 0 < i < cat.len() implies #[trigger] cat[i] == cat.drop_first()[i - 1] by {}
        if cat[0].name != name {
            if first_named(cat, name) is Some {
                let m = first_named(cat, name)->Some_0;
                let w = choose|w: int| 0 <= w < cat.drop_first().len() && cat.drop_first()[w] == m;
                assert(cat[w + 1] == m);
            }
            if first_named(cat, name) is None {
                assert forall|i: int| 0 <= i < cat.len() implies #[trigger] cat[i].name != name by {
                    if i > 0 {
                        assert(cat.drop_first()[i - 1].name != name);
                    }
                }
            }
        } else {
            assert(cat.contains(cat[0]));
        }
    }
}

/// The catalog's provider list names every provider that has a model, and each only once.
pub proof fn law_catalog_providers(cat: Seq<ModelSpec>)
    ensures
        providers_of(cat).no_duplicates(),
        forall|j: int| 0 <= j < cat.len() ==> providers_of(cat).contains(#[trigger] cat[j].provider),
        forall|i: int| 0 <= i < providers_of(cat).len()
            ==> exists|j: int| 0 <= j < cat.len() && cat[j].provider == #[trigger] providers_of(cat)[i],
    decreases cat.len(),
{
    if cat.len() > 0 {
        law_catalog_providers(cat.drop_last());
        let rest = providers_of(cat.drop_last());
        let all = providers_of(cat);
        assert forall|j: int| 0 <= j < cat.len() implies all.contains(#[trigger] cat[j].provider) by {
            if j < cat.len() - 1 {
                assert(cat.drop_last()[j] == cat[j]);
                assert(rest.contains(cat.drop_last()[j].provider));
                if !rest.contains(cat.last().provider) {
                    let w = choose|w: int| 0 <= w < rest.len() && rest[w] == cat[j].provider;
                    assert(all[w] == cat[j].provider);
                }
            } else if !rest.contains(cat.last().provider) {
                assert(all[all.len() - 1] == cat[j].provider);
            }
        }
        assert forall|i: int| 0 <= i < all.len()
            implies exists|j: int| 0 <= j < cat.len() && cat[j].provider == #[trigger] all[i] by {
            if i < rest.len() {
                assert(all[i] == rest[i]);
                let j = choose|j: int| 0 <= j < cat.drop_last().len() && cat.drop_last()[j].provider == rest[i];
                assert(cat[j].provider == all[i]);
            } else {
                assert(cat[cat.len() - 1].provider == all[i]);
            }
        }
    }
}

} // verus!

use ck_embed::error::RegistryError;
use ck_embed::project::ProjectConfig;
use ck_embed::registry::{ModelConfig, ModelRegistry};
use ck_embed::rerank_registry::{RerankModelConfig, RerankModelRegistry};

fn config(name: &str, dimensions: usize) -> ModelConfig {
    ModelConfig {
        name: name.to_string(),
        provider: "fastembed".to_string(),
        dimensions,
        max_tokens: 512,
        description: String::new(),
    }
}

#[test]
fn resolve_alias_gives_its_config() {
    let registry = ModelRegistry::default();
    let (alias, config) = registry.resolve(Some("bge-small")).unwrap();
    assert_eq!(alias, "bge-small");
    assert_eq!(config.name, "BAAI/bge-small-en-v1.5");
    assert_eq!(config.dimensions, 384);
    assert_eq!(config.max_tokens, 512);
}

#[test]
fn resolve_full_identifier_falls_back_to_scan() {
    let registry = ModelRegistry::default();
    let (alias, config) = registry.resolve(Some("BAAI/bge-small-en-v1.5")).unwrap();
    assert_eq!(alias, "bge-small");
    assert_eq!(config.dimensions, 384);
    let (alias, config) = registry.resolve(Some("mixedbread-ai/mxbai-embed-xsmall-v1")).unwrap();
    assert_eq!(alias, "mxbai-xsmall");
    assert_eq!(config.provider, "mixedbread");
    assert_eq!(config.max_tokens, 4096);
}

#[test]
fn resolve_every_alias_of_default_catalog() {
    let registry = ModelRegistry::default();
    for (alias, entry) in &registry.models {
        let (got, config) = registry.resolve(Some(alias)).unwrap();
        assert_eq!(&got, alias);
        assert_eq!(config.name, entry.name);
        assert_eq!(config.dimensions, entry.dimensions);
        assert_eq!(config.max_tokens, entry.max_tokens);
        assert_eq!(config.description, entry.description);
    }
}

#[test]
fn resolve_none_gives_default() {
    let registry = ModelRegistry::default();
    let (alias, config) = registry.resolve(None).unwrap();
    assert_eq!(alias, "bge-small");
    assert_eq!(config.name, registry.get_default_model().unwrap().name);
    assert_eq!(config.dimensions, 384);
}

#[test]
fn resolve_unknown_lists_every_alias() {
    let registry = ModelRegistry::default();
    let err = registry.resolve(Some("no-such-model")).unwrap_err();
    let message = err.message();
    assert!(message.contains("no-such-model"));
    for alias in registry.aliases() {
        assert!(message.contains(&alias));
    }
    assert_eq!(
        message,
        "Unknown model 'no-such-model'. Available models: bge-small, jina-code, minilm, mxbai-xsmall, nomic-v1.5"
    );
    match err {
        RegistryError::UnknownModel { requested, available } => {
            assert_eq!(requested, "no-such-model");
            assert_eq!(available.len(), 5);
        }
        _ => panic!("wrong error"),
    }
}

#[test]
fn resolve_is_case_sensitive() {
    let registry = ModelRegistry::default();
    assert!(registry.resolve(Some("BGE-SMALL")).is_err());
}

#[test]
fn alias_wins_over_identifier() {
    let registry = ModelRegistry {
        models: vec![
            ("first".to_string(), config("second", 384)),
            ("second".to_string(), config("other", 768)),
        ],
        default_model: "first".to_string(),
    };
    let (alias, config) = registry.resolve(Some("second")).unwrap();
    assert_eq!(alias, "second");
    assert_eq!(config.dimensions, 768);
}

#[test]
fn missing_default_is_an_error() {
    let registry = ModelRegistry {
        models: vec![("only".to_string(), config("m", 384))],
        default_model: "gone".to_string(),
    };
    let err = registry.resolve(None).unwrap_err();
    assert!(matches!(err, RegistryError::NoDefaultModel));
    assert_eq!(err.message(), "No default model configured in registry");
    assert!(registry.get_default_model().is_none());
}

#[test]
fn empty_registry_lists_no_alias() {
    let registry = ModelRegistry { models: vec![], default_model: "x".to_string() };
    assert!(registry.aliases().is_empty());
    let err = registry.resolve(Some("x")).unwrap_err();
    assert_eq!(err.message(), "Unknown model 'x'. Available models: ");
}

#[test]
fn aliases_are_sorted() {
    let registry = ModelRegistry::default();
    assert_eq!(
        registry.aliases(),
        vec!["bge-small", "jina-code", "minilm", "mxbai-xsmall", "nomic-v1.5"]
    );
}

#[test]
fn get_model_by_alias_only() {
    let registry = ModelRegistry::default();
    assert_eq!(registry.get_model("nomic-v1.5").unwrap().dimensions, 768);
    assert!(registry.get_model("nomic-embed-text-v1.5").is_none());
}

#[test]
fn default_catalog_contents() {
    let registry = ModelRegistry::default();
    assert_eq!(registry.models.len(), 5);
    assert_eq!(registry.default_model, "bge-small");
    let jina = registry.get_model("jina-code").unwrap();
    assert_eq!(jina.name, "jina-embeddings-v2-base-code");
    assert_eq!(jina.max_tokens, 8192);
    let minilm = registry.get_model("minilm").unwrap();
    assert_eq!(minilm.max_tokens, 256);
}

#[test]
fn rerank_resolve_default_and_alias() {
    let registry = RerankModelRegistry::default();
    let (alias, config) = registry.resolve(None).unwrap();
    assert_eq!(alias, "jina");
    assert_eq!(config.name, "jina-reranker-v1-turbo-en");
    let (alias, config) = registry.resolve(Some("mxbai")).unwrap();
    assert_eq!(alias, "mxbai");
    assert_eq!(config.provider, "mixedbread");
    let (alias, _) = registry.resolve(Some("BAAI/bge-reranker-base")).unwrap();
    assert_eq!(alias, "bge");
}

#[test]
fn rerank_unknown_and_missing_default() {
    let registry = RerankModelRegistry::default();
    let err = registry.resolve(Some("nope")).unwrap_err();
    assert_eq!(
        err.message(),
        "Unknown rerank model 'nope'. Available models: bge, jina, mxbai"
    );
    assert_eq!(registry.aliases(), vec!["bge", "jina", "mxbai"]);
    let broken = RerankModelRegistry {
        models: vec![(
            "a".to_string(),
            RerankModelConfig {
                name: "n".to_string(),
                provider: "p".to_string(),
                description: "d".to_string(),
            },
        )],
        default_model: "b".to_string(),
    };
    let err = broken.resolve(None).unwrap_err();
    assert!(matches!(err, RegistryError::NoDefaultRerankModel));
    assert_eq!(err.message(), "No default reranking model configured");
}

#[test]
fn config_copy_keeps_fields() {
    let c = config("m", 384);
    let d = c.cloned();
    assert_eq!(d.name, "m");
    assert_eq!(d.dimensions, 384);
}

#[test]
fn project_config_defaults() {
    let p = ProjectConfig::default();
    assert_eq!(p.model, "bge-small");
    assert_eq!(p.chunk_size, 512);
    assert_eq!(p.chunk_overlap, 128);
    assert_eq!(p.index_backend, "hnsw");
}

use pocket_harness::env_file::EnvVars;
use pocket_harness::provider_catalog::{
    catalog_path, format_models, format_providers, human_number, resolve_catalog_path,
    CatalogError, ModelDefinition, ProviderCatalog, ProviderDefinition,
};
use pocket_harness::telegram::provider_selection;
use pocket_harness::config::AppConfig;
use pocket_harness::strmap::StrMap;

fn model(context: Option<u64>, input: Option<&str>, output: Option<&str>) -> ModelDefinition {
    ModelDefinition {
        display_name: String::new(),
        provider_model_id: String::new(),
        context_window: context,
        max_output_tokens: None,
        input_usd_per_1m: input.map(str::to_string),
        output_usd_per_1m: output.map(str::to_string),
        cached_input_usd_per_1m: None,
        capabilities: Vec::new(),
        notes: String::new(),
    }
}

fn provider(name: &str, default_model: &str, custom: bool, models: StrMap<ModelDefinition>) -> ProviderDefinition {
    ProviderDefinition {
        display_name: name.to_string(),
        api_format: "openai_compatible".to_string(),
        base_url: "https://example.test/v1".to_string(),
        token_env: "KEY".to_string(),
        default_model: default_model.to_string(),
        allow_custom_models: custom,
        docs: Vec::new(),
        models,
    }
}

fn catalog() -> ProviderCatalog {
    let mut openai = StrMap::new();
    openai.insert("gpt-5.5".to_string(), model(Some(1_000_000), Some("5.00"), Some("15.00")));
    openai.insert("gpt-mini".to_string(), model(Some(128_000), None, Some("1.00")));
    let mut router = StrMap::new();
    router.insert("b-model".to_string(), model(None, None, None));
    router.insert("a-model".to_string(), model(Some(512), None, None));
    let mut catalog = ProviderCatalog::default();
    catalog.providers.insert("openai".to_string(), provider("OpenAI", "gpt-5.5", false, openai));
    catalog.providers.insert("openrouter".to_string(), provider("OpenRouter", " ", true, router));
    catalog
}

#[test]
fn model_formatter_includes_context_and_price() {
    let models = format_models(&catalog(), "openai").unwrap();
    assert!(models.contains("gpt-5.5"));
    assert!(models.contains("1M context"));
    assert!(models.contains("$5.00/1M in"));
    assert_eq!(
        models,
        "OpenAI models:\n- gpt-5.5 (1M context; $5.00/1M in, $15.00/1M out)\n- gpt-mini (128K context; pricing in provider docs)"
    );
}

#[test]
fn providers_are_listed_and_looked_up() {
    let c = catalog();
    assert_eq!(format_providers(&c), "openai - OpenAI\nopenrouter - OpenRouter");
    assert_eq!(c.default_model_for("openai").unwrap(), "gpt-5.5");
    assert_eq!(c.default_model_for("openrouter").unwrap(), "a-model");
    assert_eq!(
        c.provider("nope").unwrap_err().message(),
        "unknown provider `nope`"
    );
    assert_eq!(
        c.model("openai", "x").unwrap_err().message(),
        "unknown model `x` for provider `openai`"
    );
    assert!(c.model_or_custom("openrouter", "custom").unwrap().is_none());
    assert!(c.model_or_custom("openai", "custom").is_err());
    assert_eq!(human_number(512), "512 context");
    assert_eq!(human_number(2_500_000), "2M context");
}

#[test]
fn catalog_path_resolves_beside_the_config() {
    let mut env = EnvVars::new();
    env.set("HOME".to_string(), "/home/pocket".to_string());
    assert_eq!(resolve_catalog_path("/c/pocket.yaml", "providers.yaml", &env), "/c/providers.yaml");
    assert_eq!(resolve_catalog_path("/c/pocket.yaml", "/etc/p.yaml", &env), "/etc/p.yaml");
    assert_eq!(resolve_catalog_path("/c/pocket.yaml", "~/p.yaml", &env), "/home/pocket/p.yaml");
    assert_eq!(catalog_path("/c/pocket.yaml", &AppConfig::default(), &env), "/c/providers.yaml");
}

#[test]
fn provider_selection_writes_provider_base_url_and_default_model() {
    let catalog = catalog();
    let (edits, reply) = provider_selection(&catalog, "openai").unwrap();
    assert_eq!(
        edits,
        vec![
            ("llm_router.provider".to_string(), "openai".to_string()),
            ("llm_router.base_url".to_string(), "https://example.test/v1".to_string()),
            ("llm_router.model".to_string(), "gpt-5.5".to_string()),
        ]
    );
    assert_eq!(reply, "Provider set to openai. Default model set to gpt-5.5.");
    let (edits, _) = provider_selection(&catalog, "openrouter").unwrap();
    assert_eq!(edits[2].1, "a-model");
    assert!(matches!(
        provider_selection(&catalog, "nope"),
        Err(CatalogError::UnknownProvider(p)) if p == "nope"
    ));
}

use pocket_harness::config::AppConfig;
use pocket_harness::env_file::EnvVars;
use pocket_harness::llm_router::{
    extract_anthropic_text, extract_gemini_text, extract_openai_text, model_id, non_empty_text,
    plan_llm_call, provider_error, read_answer, ApiFormat,
};
use pocket_harness::provider_catalog::{ModelDefinition, ProviderCatalog, ProviderDefinition};
use pocket_harness::strmap::StrMap;

fn model(provider_model_id: &str) -> ModelDefinition {
    ModelDefinition {
        display_name: "Model".to_string(),
        provider_model_id: provider_model_id.to_string(),
        context_window: Some(1_000_000),
        max_output_tokens: None,
        input_usd_per_1m: Some("5.00".to_string()),
        output_usd_per_1m: Some("15.00".to_string()),
        cached_input_usd_per_1m: None,
        capabilities: Vec::new(),
        notes: String::new(),
    }
}

fn catalog_with(api_format: &str) -> ProviderCatalog {
    let mut models = StrMap::new();
    models.insert("gpt-5.5".to_string(), model(" gpt-5.5-2026 "));
    let provider = ProviderDefinition {
        display_name: "OpenAI".to_string(),
        api_format: api_format.to_string(),
        base_url: "https://api.openai.com/v1/".to_string(),
        token_env: "OPENAI_API_KEY".to_string(),
        default_model: "gpt-5.5".to_string(),
        allow_custom_models: false,
        docs: Vec::new(),
        models,
    };
    let mut catalog = ProviderCatalog::default();
    catalog.providers.insert("openai".to_string(), provider);
    catalog
}

#[test]
fn extracts_gemini_text_parts() {
    let value = r#"{"candidates":[{"content":{"parts":[{"text":"hello"},{"text":" world"}]}}]}"#;
    assert_eq!(extract_gemini_text(value).unwrap(), "hello world");
}

#[test]
fn extracts_openai_compatible_text() {
    let value = r#"{"choices":[{"message":{"content":"hello"}}]}"#;
    assert_eq!(extract_openai_text(value).unwrap(), "hello");
}

#[test]
fn extracts_anthropic_text() {
    let value = r#"{"content":[{"type":"text","text":"hello"},{"type":"text","text":" world"}]}"#;
    assert_eq!(extract_anthropic_text(value).unwrap(), "hello world");
}

#[test]
fn missing_or_empty_answers_are_reported() {
    assert_eq!(
        extract_openai_text("{}").unwrap_err().message(),
        "OpenAI-compatible response did not include choices[0].message.content"
    );
    assert_eq!(
        extract_gemini_text("not json").unwrap_err().message(),
        "Gemini response did not include candidates[0].content.parts"
    );
    let blank = r#"{"content":[{"type":"image","text":"x"},{"type":"text","text":"  "}]}"#;
    assert_eq!(
        extract_anthropic_text(blank).unwrap_err().message(),
        "Anthropic response did not include text"
    );
    assert_eq!(non_empty_text("  hi  ", "X").unwrap(), "hi");
}

#[test]
fn provider_errors_are_read_from_the_body() {
    assert_eq!(provider_error(r#"{"error":{"message":"bad key"}}"#), "bad key");
    assert_eq!(provider_error(r#"{"error":"quota"}"#), "quota");
    assert_eq!(provider_error("Service Unavailable"), "Service Unavailable");
    assert_eq!(provider_error(r#"{"other":1}"#), "unknown provider error");
    assert_eq!(
        read_answer(ApiFormat::OpenAiCompatible, false, "401 Unauthorized", r#"{"error":{"message":"bad key"}}"#)
            .unwrap_err()
            .message(),
        "provider returned HTTP 401 Unauthorized: bad key"
    );
}

#[test]
fn calls_are_planned_from_config_and_catalog() {
    let mut env = EnvVars::new();
    let mut config = AppConfig::default();
    config.llm_router.provider = "openai".to_string();
    config.llm_router.model = " gpt-5.5 ".to_string();
    let catalog = catalog_with("openai_compatible");

    assert_eq!(
        plan_llm_call(&config, &catalog, &env).unwrap_err().message(),
        "llm_router.enabled is false"
    );
    config.llm_router.enabled = true;
    assert_eq!(
        plan_llm_call(&config, &catalog, &env).unwrap_err().message(),
        "llm_router.api_key is empty"
    );
    env.set("OPENAI_API_KEY".to_string(), "sk-test".to_string());
    let call = plan_llm_call(&config, &catalog, &env).unwrap();
    assert_eq!(call.format, ApiFormat::OpenAiCompatible);
    assert_eq!(call.url, "https://api.openai.com/v1/chat/completions");
    assert_eq!(call.model, "gpt-5.5-2026");
    assert_eq!(
        call.headers,
        vec![("authorization".to_string(), "Bearer sk-test".to_string())]
    );
    assert_eq!(model_id(&config, &catalog).unwrap(), "gpt-5.5-2026");

    config.llm_router.model = "unknown".to_string();
    assert_eq!(
        plan_llm_call(&config, &catalog, &env).unwrap_err().message(),
        "unknown model `unknown` for provider `openai`"
    );

    let gemini = catalog_with("google_gemini");
    config.llm_router.model = "gpt-5.5".to_string();
    let call = plan_llm_call(&config, &gemini, &env).unwrap();
    assert_eq!(
        call.url,
        "https://api.openai.com/v1/models/gpt-5.5-2026:generateContent"
    );
    let odd = catalog_with("smoke_signals");
    assert_eq!(
        plan_llm_call(&config, &odd, &env).unwrap_err().message(),
        "unsupported provider api_format `smoke_signals`"
    );
}

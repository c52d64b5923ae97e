use pocket_harness::config::{AppConfig, TelegramConfig};
use pocket_harness::env_file::EnvVars;
use pocket_harness::llm_router::plan_llm_call;
use pocket_harness::provider_catalog::{
    format_models, ModelDefinition, ProviderCatalog, ProviderDefinition,
};
use pocket_harness::strmap::StrMap;
use pocket_harness::telegram::{
    ai_settings, allowed, gateway_token, help_text, next_offset, plan_chat, provider_settings,
    status_text, telegram_url, truncate_message, ChatAction, GatewayError, TelegramChat,
    TelegramMessage, TelegramUser,
};

fn message(kind: &str, chat: i64, from: Option<i64>) -> TelegramMessage {
    TelegramMessage {
        chat: TelegramChat { id: chat, kind: kind.to_string() },
        from: from.map(|id| TelegramUser { id }),
        text: Some("hi".to_string()),
    }
}

#[test]
fn plain_text_and_slash_commands_are_planned() {
    let config = AppConfig::default();
    let env = EnvVars::new();
    match plan_chat("  hello  ", &config, &env) {
        ChatAction::Prompt(p) => assert_eq!(p, "hello"),
        other => panic!("unexpected {other:?}"),
    }
    match plan_chat("/run  do it ", &config, &env) {
        ChatAction::Prompt(p) => assert_eq!(p, "do it"),
        other => panic!("unexpected {other:?}"),
    }
    match plan_chat("/run", &config, &env) {
        ChatAction::Reply(r) => assert_eq!(r, "Usage: /run <prompt>"),
        other => panic!("unexpected {other:?}"),
    }
    match plan_chat("/provider anthropic", &config, &env) {
        ChatAction::SetProvider(p) => assert_eq!(p, "anthropic"),
        other => panic!("unexpected {other:?}"),
    }
    match plan_chat("/Model@pocket_bot opus-4-7 extra", &config, &env) {
        ChatAction::SetModel(m) => assert_eq!(m, "opus-4-7"),
        other => panic!("unexpected {other:?}"),
    }
    match plan_chat("/use openai", &config, &env) {
        ChatAction::Reply(r) => assert_eq!(r, "Usage: /use <provider_id> <model_id>"),
        other => panic!("unexpected {other:?}"),
    }
    match plan_chat("/use openai gpt-5.5", &config, &env) {
        ChatAction::SetProviderModel(p, m) => {
            assert_eq!(p, "openai");
            assert_eq!(m, "gpt-5.5");
        }
        other => panic!("unexpected {other:?}"),
    }
    match plan_chat("/token sk-test-secret", &config, &env) {
        ChatAction::SetToken(t) => assert_eq!(t, "sk-test-secret"),
        other => panic!("unexpected {other:?}"),
    }
    match plan_chat("/ai ON", &config, &env) {
        ChatAction::SetAi(on, args) => {
            assert!(on);
            assert_eq!(args, "ON");
        }
        other => panic!("unexpected {other:?}"),
    }
    match plan_chat("/ai maybe", &config, &env) {
        ChatAction::Reply(r) => assert_eq!(r, "Usage: /ai on|off"),
        other => panic!("unexpected {other:?}"),
    }
    match plan_chat("/models", &config, &env) {
        ChatAction::Models(p) => assert_eq!(p, config.llm_router.provider),
        other => panic!("unexpected {other:?}"),
    }
    assert!(matches!(plan_chat("/check", &config, &env), ChatAction::Check));
    assert!(matches!(plan_chat("/providers", &config, &env), ChatAction::Providers));
    match plan_chat("/nope", &config, &env) {
        ChatAction::Reply(r) => {
            assert!(r.starts_with("Unknown command `/nope`.\n\n"));
            assert!(r.ends_with(&help_text()));
        }
        other => panic!("unexpected {other:?}"),
    }
    match plan_chat("   ", &config, &env) {
        ChatAction::Reply(r) => assert_eq!(r, help_text()),
        other => panic!("unexpected {other:?}"),
    }
}

#[test]
fn help_lists_the_commands() {
    let help = help_text();
    assert!(help.starts_with("Pocket Harness commands:\n/status\n"));
    assert!(help.ends_with("\n\nPlain text messages run on the main thread."));
}

#[test]
fn status_reports_routing_and_key_state() {
    let mut env = EnvVars::new();
    let mut config = AppConfig::default();
    config.llm_router.api_key = "$OPENAI_API_KEY".to_string();
    let status = status_text(&config, &env);
    assert!(status.starts_with("Connector: echo\nAI routing: disabled\n"));
    assert!(status.ends_with("\nAPI key: missing"));
    env.set("OPENAI_API_KEY".to_string(), "sk-x".to_string());
    assert!(status_text(&config, &env).ends_with("\nAPI key: configured"));
    assert!(!status_text(&config, &env).contains("sk-x"));
}

#[test]
fn chats_are_allowed_by_lists_and_kind() {
    let mut config = TelegramConfig::default();
    assert!(allowed(&config, &message("private", 1, Some(2))));
    assert!(!allowed(&config, &message("group", 1, Some(2))));
    config.allow_group_chats = true;
    assert!(allowed(&config, &message("group", 1, Some(2))));
    config.allowed_users = vec![7];
    assert!(!allowed(&config, &message("private", 1, Some(2))));
    assert!(!allowed(&config, &message("private", 1, None)));
    assert!(allowed(&config, &message("private", 1, Some(7))));
    config.allowed_chats = vec![5];
    assert!(!allowed(&config, &message("private", 1, Some(7))));
    assert!(allowed(&config, &message("private", 5, Some(7))));
}

#[test]
fn replies_and_urls() {
    assert_eq!(
        telegram_url("123:abc", "getUpdates"),
        "https://api.telegram.org/bot123:abc/getUpdates"
    );
    let short = "x".repeat(3900);
    assert_eq!(truncate_message(&short), short);
    let long = "é".repeat(4000);
    let cut = truncate_message(&long);
    assert_eq!(cut.chars().count(), 3903);
    assert!(cut.ends_with("..."));
    assert_eq!(next_offset(41), 42);
}

#[test]
fn gateway_needs_telegram_enabled_and_a_token() {
    let mut env = EnvVars::new();
    let mut telegram = TelegramConfig::default();
    assert_eq!(gateway_token(&telegram, &env), Err(GatewayError::Disabled));
    telegram.enabled = true;
    assert_eq!(gateway_token(&telegram, &env), Err(GatewayError::EmptyToken));
    assert_eq!(
        GatewayError::EmptyToken.message(),
        "mobile.telegram.bot_token is empty"
    );
    env.set("TELEGRAM_BOT_TOKEN".to_string(), "123:abc".to_string());
    assert_eq!(gateway_token(&telegram, &env), Ok("123:abc".to_string()));
}

#[test]
fn command_settings() {
    assert_eq!(
        provider_settings("anthropic", "https://api.anthropic.com/v1", "opus"),
        vec![
            ("llm_router.provider".to_string(), "anthropic".to_string()),
            ("llm_router.base_url".to_string(), "https://api.anthropic.com/v1".to_string()),
            ("llm_router.model".to_string(), "opus".to_string()),
        ]
    );
    assert_eq!(
        ai_settings(false),
        vec![
            ("llm_router.enabled".to_string(), "false".to_string()),
            ("features.llm_router.enabled".to_string(), "false".to_string()),
        ]
    );
}

fn openai_catalog() -> ProviderCatalog {
    let mut models = StrMap::new();
    models.insert(
        "gpt-5.5".to_string(),
        ModelDefinition {
            display_name: "GPT-5.5".to_string(),
            provider_model_id: "gpt-5.5".to_string(),
            context_window: Some(1_050_000),
            max_output_tokens: Some(128_000),
            input_usd_per_1m: Some("5.00".to_string()),
            output_usd_per_1m: Some("30.00".to_string()),
            cached_input_usd_per_1m: None,
            capabilities: Vec::new(),
            notes: String::new(),
        },
    );
    let provider = ProviderDefinition {
        display_name: "OpenAI".to_string(),
        api_format: "openai_compatible".to_string(),
        base_url: "https://api.openai.com/v1".to_string(),
        token_env: "OPENAI_API_KEY".to_string(),
        default_model: "gpt-5.5".to_string(),
        allow_custom_models: true,
        docs: Vec::new(),
        models,
    };
    let mut catalog = ProviderCatalog::default();
    catalog.providers.insert("openai".to_string(), provider);
    catalog
}

#[test]
fn telegram_command_lists_models_from_catalog() {
    let config = AppConfig::default();
    let env = EnvVars::new();
    let catalog = openai_catalog();
    let reply = match plan_chat("/models openai", &config, &env) {
        ChatAction::Models(provider) => format_models(&catalog, &provider).unwrap(),
        other => panic!("unexpected {other:?}"),
    };
    assert!(reply.contains("gpt-5.5"));
    assert!(reply.contains("$5.00/1M in"));
}

#[test]
fn telegram_plain_text_uses_llm_router_when_enabled() {
    let mut config = AppConfig::default();
    config.llm_router.enabled = true;
    config.llm_router.provider = "openai".to_string();
    config.llm_router.model = "gpt-5.5".to_string();
    config.llm_router.api_key = "".to_string();
    let env = EnvVars::new();
    let catalog = openai_catalog();
    let message = match plan_chat("hello", &config, &env) {
        ChatAction::Prompt(prompt) => {
            assert_eq!(prompt, "hello");
            plan_llm_call(&config, &catalog, &env).unwrap_err().message()
        }
        other => panic!("unexpected {other:?}"),
    };
    assert!(message.contains("llm_router.api_key is empty"));
    assert!(!message.contains("echo thread="));
}

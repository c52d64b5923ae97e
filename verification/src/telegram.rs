//! The Telegram gateway's decisions: who may use it, what a message asks for, the replies
//! it sends, and the settings a command changes.
use crate::config::{expand, expand_string, AppConfig, TelegramConfig};
use crate::connector::ConnectorResponse;
use crate::env_file::EnvVars;
use crate::jobs::{word_end, words, words_of};
use crate::provider_catalog::{CatalogError, ProviderCatalog, ProviderDefinition};
use crate::strmap::lookup;
use crate::text::{
    cat, chars_of, copy_str, find, has_prefix, is_blank, is_blank_str, is_whitespace, join,
    join_strings, lower_str, str_eq, string_of_range, to_lower, trim, trim_str, views,
};
use vstd::prelude::*;

verus! {

/// A Telegram chat.
#[derive(Debug)]
pub struct TelegramChat {
    pub id: i64,
    pub kind: String,
}

/// The sender of a Telegram message.
#[derive(Debug)]
pub struct TelegramUser {
    pub id: i64,
}

/// A Telegram message as the gateway reads it.
#[derive(Debug)]
pub struct TelegramMessage {
    pub chat: TelegramChat,
    pub from: Option<TelegramUser>,
    pub text: Option<String>,
}

/// One Telegram update.
#[derive(Debug)]
pub struct TelegramUpdate {
    pub update_id: i64,
    pub message: Option<TelegramMessage>,
}

/// Whether a message may control the gateway: its sender is allowed (or any sender is), its
/// chat is allowed (or any chat is), and it is a private chat unless group chats are allowed.
pub open spec fn message_allowed(config: TelegramConfig, message: TelegramMessage) -> bool {
    let user_allowed = config.allowed_users@.len() == 0 || (match message.from {
        Some(u) => config.allowed_users@.contains(u.id),
        None => false,
    });
    let chat_allowed = config.allowed_chats@.len() == 0 || config.allowed_chats@.contains(
        message.chat.id,
    );
    let kind_allowed = message.chat.kind@ == "private"@ || config.allow_group_chats;
    user_allowed && chat_allowed && kind_allowed
}

/// Whether a list of identifiers holds one.
fn contains_id(ids: &Vec<i64>, id: i64) -> (b: bool)
    ensures
        b == ids@.contains(id),
{
    let mut i: usize = 0;
    while i < ids.len()
        invariant
            i <= ids.len(),
            forall|j: int| 0 <= j < i ==> ids@[j] != id,
        decreases ids.len() - i,
    {
        if ids[i] == id {
            assert(ids@[i as int] == id);
            return true;
        }
        i = i + 1;
    }
    false
}

/// Whether a message may control the gateway.
pub fn allowed(config: &TelegramConfig, message: &TelegramMessage) -> (b: bool)
    ensures
        b == message_allowed(*config, *message),
{
    let user_allowed = config.allowed_users.len() == 0 || match &message.from {
        Some(u) => contains_id(&config.allowed_users, u.id),
        None => false,
    };
    let chat_allowed = config.allowed_chats.len() == 0 || contains_id(
        &config.allowed_chats,
        message.chat.id,
    );
    let kind_allowed = str_eq(message.chat.kind.as_str(), "private") || config.allow_group_chats;
    user_allowed && chat_allowed && kind_allowed
}

/// The lines of the help reply.
pub open spec fn help_lines() -> Seq<Seq<char>> {
    seq![
        "Pocket Harness commands:"@,
        "/status"@,
        "/providers"@,
        "/models [provider]"@,
        "/provider <provider>"@,
        "/use <provider> <model>"@,
        "/model <model>"@,
        "/token <provider_api_key>"@,
        "/ai on|off"@,
        "/check"@,
        "/run <prompt>"@,
        ""@,
        "Plain text messages run on the main thread."@,
    ]
}

/// The help reply.
pub open spec fn help() -> Seq<char> {
    join(help_lines(), "\n"@)
}

/// The help reply: the commands, one per line, and how plain text is handled.
pub fn help_text() -> (r: String)
    ensures
        r@ == help(),
{
    let lines = vec![
        copy_str("Pocket Harness commands:"),
        copy_str("/status"),
        copy_str("/providers"),
        copy_str("/models [provider]"),
        copy_str("/provider <provider>"),
        copy_str("/use <provider> <model>"),
        copy_str("/model <model>"),
        copy_str("/token <provider_api_key>"),
        copy_str("/ai on|off"),
        copy_str("/check"),
        copy_str("/run <prompt>"),
        copy_str(""),
        copy_str("Plain text messages run on the main thread."),
    ];
    assert(views(lines@) =~= help_lines());
    join_strings(&lines, "\n")
}

/// The status reply: the default connector, whether AI routing is on, the provider, the
/// model (or `(not set)`), the base URL, and whether an API key is configured.
pub open spec fn status_reply(c: AppConfig, env: Seq<(Seq<char>, String)>) -> Seq<char> {
    "Connector: "@ + c.connectors.default@ + "\nAI routing: "@ + (if c.llm_router.enabled {
        "enabled"@
    } else {
        "disabled"@
    }) + "\nProvider: "@ + c.llm_router.provider@ + "\nModel: "@ + (if is_blank(
        c.llm_router.model@,
    ) {
        "(not set)"@
    } else {
        c.llm_router.model@
    }) + "\nBase URL: "@ + c.llm_router.base_url@ + "\nAPI key: "@ + (if is_blank(
        expand(c.llm_router.api_key@, env),
    ) {
        "missing"@
    } else {
        "configured"@
    })
}

/// The status reply for a configuration.
pub fn status_text(config: &AppConfig, env: &EnvVars) -> (r: String)
    ensures
        r@ == status_reply(*config, env@),
{
    let key = expand_string(config.llm_router.api_key.as_str(), env);
    let mut r = cat("Connector: ", config.connectors.default.as_str());
    r.append("\nAI routing: ");
    r.append(if config.llm_router.enabled { "enabled" } else { "disabled" });
    r.append("\nProvider: ");
    r.append(config.llm_router.provider.as_str());
    r.append("\nModel: ");
    if is_blank_str(config.llm_router.model.as_str()) {
        r.append("(not set)");
    } else {
        r.append(config.llm_router.model.as_str());
    }
    r.append("\nBase URL: ");
    r.append(config.llm_router.base_url.as_str());
    r.append("\nAPI key: ");
    r.append(if is_blank_str(key.as_str()) { "missing" } else { "configured" });
    r
}

/// The Bot API address of a method.
pub open spec fn bot_url(token: Seq<char>, method: Seq<char>) -> Seq<char> {
    "https://api.telegram.org/bot"@ + token + "/"@ + method
}

/// The Bot API address of a method.
pub fn telegram_url(token: &str, method: &str) -> (r: String)
    ensures
        r@ == bot_url(token@, method@),
{
    let mut r = cat("https://api.telegram.org/bot", token);
    r.append("/");
    r.append(method);
    r
}

/// The longest reply sent whole, in characters.
pub const MESSAGE_LIMIT: usize = 3900;

/// A reply as sent: whole when it has at most 3900 characters, else its first 3900
/// characters followed by `...`.
pub open spec fn truncated(text: Seq<char>) -> Seq<char> {
    if text.len() <= MESSAGE_LIMIT {
        text
    } else {
        text.take(MESSAGE_LIMIT as int) + "..."@
    }
}

/// Cuts a reply to the message limit.
pub fn truncate_message(text: &str) -> (r: String)
    ensures
        r@ == truncated(text@),
{
    let v = chars_of(text);
    if v.len() <= MESSAGE_LIMIT {
        copy_str(text)
    } else {
        let head = string_of_range(v.as_slice(), 0, MESSAGE_LIMIT);
        assert(v@.subrange(0, MESSAGE_LIMIT as int) =~= v@.take(MESSAGE_LIMIT as int));
        cat(head.as_str(), "...")
    }
}

/// What a message asks the gateway to do.
#[derive(Debug)]
pub enum ChatAction {
    Reply(String),
    Prompt(String),
    Providers,
    Models(String),
    SetProvider(String),
    SetProviderModel(String, String),
    SetModel(String),
    SetToken(String),
    SetAi(bool, String),
    Check,
}

/// What a message asks for, as text.
pub enum ChatPlan {
    Reply(Seq<char>),
    Prompt(Seq<char>),
    Providers,
    Models(Seq<char>),
    SetProvider(Seq<char>),
    SetProviderModel(Seq<char>, Seq<char>),
    SetModel(Seq<char>),
    SetToken(Seq<char>),
    SetAi(bool, Seq<char>),
    Check,
}

impl ChatAction {
    /// The action, as text.
    pub open spec fn view(self) -> ChatPlan {
        match self {
            ChatAction::Reply(s) => ChatPlan::Reply(s@),
            ChatAction::Prompt(s) => ChatPlan::Prompt(s@),
            ChatAction::Providers => ChatPlan::Providers,
            ChatAction::Models(s) => ChatPlan::Models(s@),
            ChatAction::SetProvider(s) => ChatPlan::SetProvider(s@),
            ChatAction::SetProviderModel(p, m) => ChatPlan::SetProviderModel(p@, m@),
            ChatAction::SetModel(s) => ChatPlan::SetModel(s@),
            ChatAction::SetToken(s) => ChatPlan::SetToken(s@),
            ChatAction::SetAi(b, s) => ChatPlan::SetAi(b, s@),
            ChatAction::Check => ChatPlan::Check,
        }
    }
}

/// The command word of a slash message: the text before the first whitespace.
pub open spec fn command_word(t: Seq<char>) -> Seq<char> {
    t.subrange(0, word_end(t, 0))
}

/// The arguments of a slash message: what follows the first whitespace character, trimmed.
pub open spec fn command_args(t: Seq<char>) -> Seq<char> {
    let k = word_end(t, 0);
    if k < t.len() {
        trim(t.subrange(k + 1, t.len() as int))
    } else {
        Seq::empty()
    }
}

/// A command without the bot name that may follow `@`, in ASCII lower case.
pub open spec fn command_name(word: Seq<char>) -> Seq<char> {
    lower_str(
        match find(word, "@"@) {
            Some(i) => word.subrange(0, i),
            None => word,
        },
    )
}

/// The word at `i`, or the empty text.
pub open spec fn word_or_empty(ws: Seq<Seq<char>>, i: int) -> Seq<char> {
    if 0 <= i < ws.len() {
        ws[i]
    } else {
        Seq::empty()
    }
}

/// Whether `/ai` turns routing on (`Some(true)`), off (`Some(false)`), or neither.
pub open spec fn ai_switch(args: Seq<char>) -> Option<bool> {
    let a = lower_str(args);
    if a == "on"@ || a == "true"@ || a == "enabled"@ || a == "enable"@ {
        Some(true)
    } else if a == "off"@ || a == "false"@ || a == "disabled"@ || a == "disable"@ {
        Some(false)
    } else {
        None
    }
}

/// What a message asks for. Blank text gets the help; text not starting with `/` is a
/// prompt for the main thread; otherwise the command word (without `@bot`, any ASCII case)
/// selects the action, and commands missing their arguments get their usage line.
pub open spec fn chat_plan(
    text: Seq<char>,
    c: AppConfig,
    env: Seq<(Seq<char>, String)>,
) -> ChatPlan {
    let t = trim(text);
    if t.len() == 0 {
        ChatPlan::Reply(help())
    } else if !has_prefix(t, "/"@) {
        ChatPlan::Prompt(t)
    } else {
        let command = command_name(command_word(t));
        let args = command_args(t);
        let ws = words(args);
        if command == "/start"@ || command == "/help"@ {
            ChatPlan::Reply(help())
        } else if command == "/status"@ {
            ChatPlan::Reply(status_reply(c, env))
        } else if command == "/providers"@ {
            ChatPlan::Providers
        } else if command == "/models"@ {
            ChatPlan::Models(
                if args.len() == 0 {
                    c.llm_router.provider@
                } else {
                    args
                },
            )
        } else if command == "/provider"@ {
            if args.len() == 0 {
                ChatPlan::Reply("Usage: /provider <provider_id>"@)
            } else {
                ChatPlan::SetProvider(word_or_empty(ws, 0))
            }
        } else if command == "/use"@ {
            if word_or_empty(ws, 0).len() == 0 || word_or_empty(ws, 1).len() == 0 {
                ChatPlan::Reply("Usage: /use <provider_id> <model_id>"@)
            } else {
                ChatPlan::SetProviderModel(word_or_empty(ws, 0), word_or_empty(ws, 1))
            }
        } else if command == "/model"@ {
            if word_or_empty(ws, 0).len() == 0 {
                ChatPlan::Reply("Usage: /model <model_id>"@)
            } else {
                ChatPlan::SetModel(word_or_empty(ws, 0))
            }
        } else if command == "/token"@ {
            if is_blank(args) {
                ChatPlan::Reply("Usage: /token <provider_api_key>"@)
            } else {
                ChatPlan::SetToken(trim(args))
            }
        } else if command == "/ai"@ {
            match ai_switch(args) {
                Some(on) => ChatPlan::SetAi(on, args),
                None => ChatPlan::Reply("Usage: /ai on|off"@),
            }
        } else if command == "/check"@ {
            ChatPlan::Check
        } else if command == "/run"@ {
            if args.len() == 0 {
                ChatPlan::Reply("Usage: /run <prompt>"@)
            } else {
                ChatPlan::Prompt(args)
            }
        } else {
            ChatPlan::Reply("Unknown command `"@ + command + "`.\n\n"@ + help())
        }
    }
}

/// The word at `i`, or the empty text.
fn word_at(ws: &Vec<String>, i: usize) -> (r: String)
    ensures
        r@ == word_or_empty(views(ws@), i as int),
{
    if i < ws.len() {
        ws[i].clone()
    } else {
        String::new()
    }
}

/// Reads what a message asks the gateway to do.
pub fn plan_chat(text: &str, config: &AppConfig, env: &EnvVars) -> (r: ChatAction)
    ensures
        r@ == chat_plan(text@, *config, env@),
{
    let t = trim_str(text);
    let tv = chars_of(t.as_str());
    if tv.len() == 0 {
        return ChatAction::Reply(help_text());
    }
    if !crate::text::starts_with(t.as_str(), "/") {
        return ChatAction::Prompt(t);
    }
    let n = tv.len();
    let mut k: usize = 0;
    while k < n && !is_whitespace(tv[k])
        invariant
            k <= n == tv.len(),
            word_end(tv@, 0) == word_end(tv@, k as int),
        decreases n - k,
    {
        k = k + 1;
    }
    proof {
        crate::jobs::lemma_word_end(tv@, 0);
    }
    let word = string_of_range(tv.as_slice(), 0, k);
    let args = if k < n {
        let rest = string_of_range(tv.as_slice(), k + 1, n);
        trim_str(rest.as_str())
    } else {
        String::new()
    };
    let wv = chars_of(word.as_str());
    let at = chars_of("@");
    proof {
        crate::text::lemma_find_from(wv@, at@, 0);
    }
    let base = match crate::text::find_chars(wv.as_slice(), at.as_slice()) {
        Some(i) => string_of_range(wv.as_slice(), 0, i),
        None => word,
    };
    let command = to_lower(base.as_str());
    let c = command.as_str();
    let ws = words_of(args.as_str());
    let args_empty = args.as_str().is_empty();
    if str_eq(c, "/start") || str_eq(c, "/help") {
        ChatAction::Reply(help_text())
    } else if str_eq(c, "/status") {
        ChatAction::Reply(status_text(config, env))
    } else if str_eq(c, "/providers") {
        ChatAction::Providers
    } else if str_eq(c, "/models") {
        if args_empty {
            ChatAction::Models(config.llm_router.provider.clone())
        } else {
            ChatAction::Models(args)
        }
    } else if str_eq(c, "/provider") {
        if args_empty {
            ChatAction::Reply(copy_str("Usage: /provider <provider_id>"))
        } else {
            ChatAction::SetProvider(word_at(&ws, 0))
        }
    } else if str_eq(c, "/use") {
        let p = word_at(&ws, 0);
        let m = word_at(&ws, 1);
        if p.as_str().is_empty() || m.as_str().is_empty() {
            ChatAction::Reply(copy_str("Usage: /use <provider_id> <model_id>"))
        } else {
            ChatAction::SetProviderModel(p, m)
        }
    } else if str_eq(c, "/model") {
        let m = word_at(&ws, 0);
        if m.as_str().is_empty() {
            ChatAction::Reply(copy_str("Usage: /model <model_id>"))
        } else {
            ChatAction::SetModel(m)
        }
    } else if str_eq(c, "/token") {
        if is_blank_str(args.as_str()) {
            ChatAction::Reply(copy_str("Usage: /token <provider_api_key>"))
        } else {
            ChatAction::SetToken(trim_str(args.as_str()))
        }
    } else if str_eq(c, "/ai") {
        let a = to_lower(args.as_str());
        let a = a.as_str();
        if str_eq(a, "on") || str_eq(a, "true") || str_eq(a, "enabled") || str_eq(a, "enable") {
            ChatAction::SetAi(true, args)
        } else if str_eq(a, "off") || str_eq(a, "false") || str_eq(a, "disabled") || str_eq(
            a,
            "disable",
        ) {
            ChatAction::SetAi(false, args)
        } else {
            ChatAction::Reply(copy_str("Usage: /ai on|off"))
        }
    } else if str_eq(c, "/check") {
        ChatAction::Check
    } else if str_eq(c, "/run") {
        if args_empty {
            ChatAction::Reply(copy_str("Usage: /run <prompt>"))
        } else {
            ChatAction::Prompt(args)
        }
    } else {
        let mut r = cat("Unknown command `", c);
        r.append("`.\n\n");
        r.append(help_text().as_str());
        ChatAction::Reply(r)
    }
}

/// Why the gateway cannot poll.
#[derive(Debug, Clone, Copy, PartialEq, Eq, Structural)]
pub enum GatewayError {
    Disabled,
    EmptyToken,
}

impl GatewayError {
    /// The human-readable message for the error.
    pub fn message(&self) -> (m: String)
        ensures
            m@ == match *self {
                GatewayError::Disabled => "mobile.telegram.enabled is false"@,
                GatewayError::EmptyToken => "mobile.telegram.bot_token is empty"@,
            },
    {
        match self {
            GatewayError::Disabled => copy_str("mobile.telegram.enabled is false"),
            GatewayError::EmptyToken => copy_str("mobile.telegram.bot_token is empty"),
        }
    }
}

/// The bot token to poll with: refused when Telegram is disabled or the expanded token is
/// blank.
pub fn gateway_token(telegram: &TelegramConfig, env: &EnvVars) -> (r: Result<String, GatewayError>)
    ensures
        !telegram.enabled ==> r == Err::<String, GatewayError>(GatewayError::Disabled),
        telegram.enabled && is_blank(expand(telegram.bot_token@, env@)) ==> r == Err::<
            String,
            GatewayError,
        >(GatewayError::EmptyToken),
        telegram.enabled && !is_blank(expand(telegram.bot_token@, env@)) ==> (r matches Ok(t)
            && t@ == expand(telegram.bot_token@, env@)),
{
    if !telegram.enabled {
        return Err(GatewayError::Disabled);
    }
    let token = expand_string(telegram.bot_token.as_str(), env);
    if is_blank_str(token.as_str()) {
        return Err(GatewayError::EmptyToken);
    }
    Ok(token)
}

/// The offset that acknowledges an update: one past its identifier.
pub fn next_offset(update_id: i64) -> (r: i64)
    requires
        update_id < i64::MAX,
    ensures
        r == update_id + 1,
{
    update_id + 1
}

/// The reply to a chat that may not control the gateway.
pub fn not_allowed_reply() -> (r: String)
    ensures
        r@ == "This chat is not allowed to control Pocket Harness."@,
{
    copy_str("This chat is not allowed to control Pocket Harness.")
}

/// The reply when a command failed.
pub fn command_failed_reply(error: &str) -> (r: String)
    ensures
        r@ == "Command failed: "@ + error@,
{
    cat("Command failed: ", error)
}

/// The reply when the configuration could not be loaded.
pub fn config_load_failed_reply(error: &str) -> (r: String)
    ensures
        r@ == "Config load failed: "@ + error@,
{
    cat("Config load failed: ", error)
}

/// The reply after all connectors passed their health checks.
pub fn connectors_healthy_reply() -> (r: String)
    ensures
        r@ == "All connectors healthy."@,
{
    copy_str("All connectors healthy.")
}

/// The settings `/provider` writes: the provider, its base URL, and its default model.
pub open spec fn provider_edits(p: Seq<char>, base_url: Seq<char>, model: Seq<char>) -> Seq<
    (Seq<char>, Seq<char>),
> {
    seq![
        ("llm_router.provider"@, p),
        ("llm_router.base_url"@, base_url),
        ("llm_router.model"@, model),
    ]
}

/// Setting names and values, as text.
pub open spec fn edit_views(edits: Seq<(String, String)>) -> Seq<(Seq<char>, Seq<char>)> {
    edits.map_values(|e: (String, String)| (e.0@, e.1@))
}

/// The settings that select a provider and model, with the provider's base URL.
pub fn provider_settings(provider_id: &str, base_url: &str, model: &str) -> (r: Vec<
    (String, String),
>)
    ensures
        edit_views(r@) == provider_edits(provider_id@, base_url@, model@),
{
    let r = vec![
        (copy_str("llm_router.provider"), copy_str(provider_id)),
        (copy_str("llm_router.base_url"), copy_str(base_url)),
        (copy_str("llm_router.model"), copy_str(model)),
    ];
    assert(edit_views(r@) =~= provider_edits(provider_id@, base_url@, model@));
    r
}

/// The model a provider uses unless told otherwise: its default, or when that is blank the
/// first listed model; none when it lists none.
pub open spec fn provider_default_model(p: ProviderDefinition) -> Option<Seq<char>> {
    if !is_blank(p.default_model@) {
        Some(p.default_model@)
    } else if p.models@.len() > 0 {
        Some(p.models@[0].0)
    } else {
        None
    }
}

/// What `/provider` does with a catalog: the settings that select the provider, its base URL
/// and its default model, and the reply; refused for a provider the catalog does not know or
/// one without a model.
pub fn provider_selection(catalog: &ProviderCatalog, provider_id: &str) -> (r: Result<
    (Vec<(String, String)>, String),
    CatalogError,
>)
    ensures
        match lookup(catalog.providers@, provider_id@) {
            None => r matches Err(CatalogError::UnknownProvider(x)) && x@ == provider_id@,
            Some(p) => match provider_default_model(p) {
                None => r matches Err(CatalogError::NoModels(x)) && x@ == provider_id@,
                Some(m) => r matches Ok((edits, reply)) && edit_views(edits@) == provider_edits(
                    provider_id@,
                    p.base_url@,
                    m,
                ) && reply@ == "Provider set to "@ + provider_id@ + ". Default model set to "@
                    + m + "."@,
            },
        },
{
    let provider = match catalog.provider(provider_id) {
        Ok(p) => p,
        Err(e) => {
            return Err(e);
        },
    };
    let model = match catalog.default_model_for(provider_id) {
        Ok(m) => m,
        Err(e) => {
            return Err(e);
        },
    };
    let edits = provider_settings(provider_id, provider.base_url.as_str(), model);
    Ok((edits, provider_set_reply(provider_id, model)))
}

/// The settings `/ai` writes: routing and its feature switch, both on or both off.
pub open spec fn ai_edits(on: bool) -> Seq<(Seq<char>, Seq<char>)> {
    let v = if on {
        "true"@
    } else {
        "false"@
    };
    seq![("llm_router.enabled"@, v), ("features.llm_router.enabled"@, v)]
}

/// The settings that turn AI routing on or off.
pub fn ai_settings(on: bool) -> (r: Vec<(String, String)>)
    ensures
        edit_views(r@) == ai_edits(on),
{
    let v = if on { "true" } else { "false" };
    let r = vec![
        (copy_str("llm_router.enabled"), copy_str(v)),
        (copy_str("features.llm_router.enabled"), copy_str(v)),
    ];
    assert(edit_views(r@) =~= ai_edits(on));
    r
}

/// The reply after `/provider`.
pub fn provider_set_reply(provider_id: &str, model: &str) -> (r: String)
    ensures
        r@ == "Provider set to "@ + provider_id@ + ". Default model set to "@ + model@ + "."@,
{
    let mut r = cat("Provider set to ", provider_id);
    r.append(". Default model set to ");
    r.append(model);
    r.append(".");
    r
}

/// The reply after `/use`.
pub fn provider_model_set_reply(provider_id: &str, model: &str) -> (r: String)
    ensures
        r@ == "Provider/model set to "@ + provider_id@ + "/"@ + model@ + "."@,
{
    let mut r = cat("Provider/model set to ", provider_id);
    r.append("/");
    r.append(model);
    r.append(".");
    r
}

/// The reply after `/model`.
pub fn model_set_reply(model: &str, provider_id: &str) -> (r: String)
    ensures
        r@ == "Model set to "@ + model@ + " for provider "@ + provider_id@ + "."@,
{
    let mut r = cat("Model set to ", model);
    r.append(" for provider ");
    r.append(provider_id);
    r.append(".");
    r
}

/// The reply after `/token`; it never repeats the key.
pub fn token_saved_reply() -> (r: String)
    ensures
        r@ == "Provider API key saved locally. Delete the Telegram message that contained the token."@,
{
    copy_str(
        "Provider API key saved locally. Delete the Telegram message that contained the token.",
    )
}

/// The reply after `/ai`.
pub fn ai_switched_reply(args: &str) -> (r: String)
    ensures
        r@ == "AI model routing is now "@ + args@ + "."@,
{
    let mut r = cat("AI model routing is now ", args);
    r.append(".");
    r
}

/// The reply to a prompt from a connector's answer: its message when it succeeded,
/// otherwise an error naming the message.
pub fn connector_reply(response: &ConnectorResponse) -> (r: Result<String, String>)
    ensures
        response.ok ==> (r matches Ok(m) && m@ == response.message@),
        !response.ok ==> (r matches Err(e) && e@ == "connector returned error: "@
            + response.message@),
{
    if response.ok {
        Ok(response.message.clone())
    } else {
        Err(cat("connector returned error: ", response.message.as_str()))
    }
}

/// With no allow-lists, anyone may use the gateway from a private chat.
pub proof fn law_unrestricted_private_chat_is_allowed(config: TelegramConfig, message: TelegramMessage)
    requires
        config.allowed_users@.len() == 0,
        config.allowed_chats@.len() == 0,
        message.chat.kind@ == "private"@,
    ensures
        message_allowed(config, message),
{
}

/// Group chats are refused unless the configuration allows them.
pub proof fn law_group_chat_needs_permission(config: TelegramConfig, message: TelegramMessage)
    requires
        message.chat.kind@ != "private"@,
        !config.allow_group_chats,
    ensures
        !message_allowed(config, message),
{
}

/// Whether a word, in ASCII lower case, asks to turn routing on.
pub open spec fn names_on(a: Seq<char>) -> bool {
    a == "on"@ || a == "true"@ || a == "enabled"@ || a == "enable"@
}

/// Whether a word, in ASCII lower case, asks to turn routing off.
pub open spec fn names_off(a: Seq<char>) -> bool {
    a == "off"@ || a == "false"@ || a == "disabled"@ || a == "disable"@
}

/// `/ai` sets routing to what its argument names, in any ASCII case: `off`, `false`,
/// `disabled` or `disable` turn it off, `on`, `true`, `enabled` or `enable` turn it on, and
/// no `/ai` message sets a flag other than the one its word names.
pub proof fn law_ai_switch_follows_its_word(
    text: Seq<char>,
    c: AppConfig,
    env: Seq<(Seq<char>, String)>,
)
    requires
        has_prefix(trim(text), "/"@),
        command_name(command_word(trim(text))) == "/ai"@,
    ensures
        names_off(lower_str(command_args(trim(text)))) ==> chat_plan(text, c, env)
            == ChatPlan::SetAi(false, command_args(trim(text))),
        names_on(lower_str(command_args(trim(text)))) ==> chat_plan(text, c, env)
            == ChatPlan::SetAi(true, command_args(trim(text))),
        chat_plan(text, c, env) matches ChatPlan::SetAi(on, _) ==> (on ==> names_on(
            lower_str(command_args(trim(text))),
        )) && (!on ==> names_off(lower_str(command_args(trim(text))))),
{
    reveal_strlit("/");
    reveal_strlit("/ai");
    reveal_strlit("/start");
    reveal_strlit("/help");
    reveal_strlit("/status");
    reveal_strlit("/providers");
    reveal_strlit("/models");
    reveal_strlit("/provider");
    reveal_strlit("/use");
    reveal_strlit("/model");
    reveal_strlit("/token");
    reveal_strlit("on");
    reveal_strlit("true");
    reveal_strlit("enabled");
    reveal_strlit("enable");
    reveal_strlit("off");
    reveal_strlit("false");
    reveal_strlit("disabled");
    reveal_strlit("disable");
    let t = trim(text);
    assert(t.len() > 0);
    let args = command_args(t);
    let a = lower_str(args);
    assert("off"@[0] == 'o' && "false"@[0] == 'f' && "disabled"@[0] == 'd' && "disable"@[0] == 'd');
    assert("on"@[0] == 'o' && "true"@[0] == 't' && "enabled"@[0] == 'e' && "enable"@[0] == 'e');
    assert("off"@.len() == 3 && "on"@.len() == 2);
    assert("/ai"@.len() == 3 && "/start"@.len() == 6 && "/help"@.len() == 5 && "/status"@.len()
        == 7 && "/providers"@.len() == 10 && "/models"@.len() == 7 && "/provider"@.len() == 9
        && "/use"@.len() == 4 && "/model"@.len() == 6 && "/token"@.len() == 6);
    assert(has_prefix(t, "/"@));
    if names_off(a) {
        assert(!names_on(a));
        assert(ai_switch(args) == Some(false));
        assert(chat_plan(text, c, env) == ChatPlan::SetAi(false, args));
    }
    if names_on(a) {
        assert(ai_switch(args) == Some(true));
        assert(chat_plan(text, c, env) == ChatPlan::SetAi(true, args));
    }
}

/// A plain text message is a prompt for the main thread, the same as `/run` with that text.
pub proof fn law_plain_text_is_run(text: Seq<char>, c: AppConfig, env: Seq<(Seq<char>, String)>)
    requires
        !is_blank(text),
        !has_prefix(trim(text), "/"@),
    ensures
        chat_plan(text, c, env) == ChatPlan::Prompt(trim(text)),
        chat_plan("/run "@ + trim(text), c, env) == ChatPlan::Prompt(trim(text)),
{
    let t = trim(text);
    crate::text::lemma_trim_empty_iff_blank(text);
    crate::text::lemma_trim_idempotent(text);
    crate::text::lemma_trim_start_is_suffix(text);
    crate::text::lemma_trim_end_is_prefix(crate::text::trim_start(text));
    assert(t.len() > 0);
    let a = crate::text::trim_start(text);
    assert(a.len() > 0);
    crate::text::lemma_trim_end_keeps_first(a);
    assert(t[0] == a[0]);
    reveal_strlit("/run ");
    reveal_strlit("/run");
    let s = "/run "@ + t;
    assert(s[0] == '/');
    assert(s[4] == ' ');
    assert(s.last() == t.last());
    assert(!crate::text::is_ws(s[0]));
    assert(!crate::text::is_ws(s.last()));
    assert(crate::text::trim_start(s) == s);
    assert(crate::text::trim_end(s) == s);
    assert(trim(s) == s);
    reveal_strlit("/");
    assert(s.subrange(0, 1) =~= "/"@);
    assert(has_prefix(s, "/"@));
    assert(word_end(s, 4) == 4);
    assert(word_end(s, 3) == 4);
    assert(word_end(s, 2) == 4);
    assert(word_end(s, 1) == 4);
    assert(word_end(s, 0) == 4);
    let w = s.subrange(0, 4);
    assert(w =~= "/run"@);
    reveal_strlit("@");
    crate::text::lemma_find_from(w, "@"@, 0);
    if find(w, "@"@) is Some {
        let k = find(w, "@"@)->0;
        assert(w.subrange(k, k + 1) == "@"@);
        assert(w[k] == "@"@[0]);
    }
    assert(lower_str(w) =~= "/run"@);
    assert(command_name(command_word(s)) == "/run"@);
    assert(s.subrange(5, s.len() as int) =~= t);
    assert(command_args(s) == t);
    reveal_strlit("/start");
    reveal_strlit("/help");
    reveal_strlit("/status");
    reveal_strlit("/providers");
    reveal_strlit("/models");
    reveal_strlit("/provider");
    reveal_strlit("/use");
    reveal_strlit("/model");
    reveal_strlit("/token");
    reveal_strlit("/ai");
    reveal_strlit("/check");
    assert("/use"@[1] != "/run"@[1]);
    assert("/run"@ != "/use"@);
}

/// A sent reply is never longer than the message limit and three dots, and a reply within
/// the limit is sent unchanged.
pub proof fn law_reply_fits(text: Seq<char>)
    ensures
        truncated(text).len() <= MESSAGE_LIMIT + 3,
        text.len() <= MESSAGE_LIMIT ==> truncated(text) == text,
        text.len() > MESSAGE_LIMIT ==> truncated(text).take(MESSAGE_LIMIT as int) == text.take(
            MESSAGE_LIMIT as int,
        ),
{
    reveal_strlit("...");
    if text.len() > MESSAGE_LIMIT {
        assert(truncated(text).take(MESSAGE_LIMIT as int) =~= text.take(MESSAGE_LIMIT as int));
    }
}

} // verus!

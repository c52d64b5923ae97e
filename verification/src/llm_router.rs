//! Routing a prompt to a model provider: which call to make, and what the provider's answer
//! means.
use crate::config::{expand, expand_string, AppConfig};
use crate::env_file::EnvVars;
use crate::local_tools::trim_end_char;
use crate::provider_catalog::{catalog_error_message, CatalogError, ProviderCatalog};
use crate::strmap::lookup;
use crate::text::{
    cat, chars_of, copy_str, decimal, is_blank, is_blank_str, str_eq, string_of_range, trim,
    trim_str, u64_to_decimal,
};
use vstd::prelude::*;

verus! {

/// The string at a JSON pointer in a text, when the text parses as JSON and a string is
/// there.
pub uninterp spec fn json_string_at(text: Seq<char>, pointer: Seq<char>) -> Option<Seq<char>>;

/// The length of the array at a JSON pointer in a text, when the text parses as JSON and an
/// array is there.
pub uninterp spec fn json_array_len(text: Seq<char>, pointer: Seq<char>) -> Option<nat>;

/// Whether a text parses as JSON.
pub uninterp spec fn json_parses(text: Seq<char>) -> bool;

/// `serde_json::from_str::<Value>` then `Value::pointer` and `Value::as_str`: the string at
/// the pointer. The contract names the result and leaves JSON and pointer syntax unsaid.
#[verifier::external_body]
fn json_text_at(text: &str, pointer: &str) -> (r: Option<String>)
    ensures
        match r {
            Some(s) => json_string_at(text@, pointer@) == Some(s@),
            None => json_string_at(text@, pointer@) is None,
        },
{
    serde_json::from_str::<serde_json::Value>(text).ok().and_then(
        |v| v.pointer(pointer).and_then(|x| x.as_str()).map(|s| s.to_string()),
    )
}

/// `serde_json::from_str::<Value>` then `Value::pointer` and `Value::as_array`: the length of
/// the array at the pointer. The contract names the result and leaves JSON and pointer syntax
/// unsaid.
#[verifier::external_body]
fn json_array_len_at(text: &str, pointer: &str) -> (r: Option<usize>)
    ensures
        match r {
            Some(n) => json_array_len(text@, pointer@) == Some(n as nat),
            None => json_array_len(text@, pointer@) is None,
        },
{
    serde_json::from_str::<serde_json::Value>(text).ok().and_then(
        |v| v.pointer(pointer).and_then(|x| x.as_array()).map(|a| a.len()),
    )
}

/// `serde_json::from_str::<Value>` succeeds. The contract names the result and leaves JSON
/// syntax unsaid.
#[verifier::external_body]
fn json_is_valid(text: &str) -> (b: bool)
    ensures
        b == json_parses(text@),
{
    serde_json::from_str::<serde_json::Value>(text).is_ok()
}

/// Why a routed prompt failed.
#[derive(Debug)]
pub enum LlmError {
    Disabled,
    Catalog(CatalogError),
    EmptyApiKey,
    UnsupportedFormat(String),
    Http(String, String),
    MissingContent(String),
    EmptyText(String),
}

/// The message of a routing failure.
pub open spec fn llm_error_message(e: LlmError) -> Seq<char> {
    match e {
        LlmError::Disabled => "llm_router.enabled is false"@,
        LlmError::Catalog(c) => catalog_error_message(c),
        LlmError::EmptyApiKey => "llm_router.api_key is empty"@,
        LlmError::UnsupportedFormat(f) => "unsupported provider api_format `"@ + f@ + "`"@,
        LlmError::Http(status, detail) => "provider returned HTTP "@ + status@ + ": "@ + detail@,
        LlmError::MissingContent(m) => m@,
        LlmError::EmptyText(p) => p@ + " response did not include text"@,
    }
}

impl LlmError {
    /// The human-readable message for the failure.
    pub fn message(&self) -> (m: String)
        ensures
            m@ == llm_error_message(*self),
    {
        match self {
            LlmError::Disabled => copy_str("llm_router.enabled is false"),
            LlmError::Catalog(c) => c.message(),
            LlmError::EmptyApiKey => copy_str("llm_router.api_key is empty"),
            LlmError::UnsupportedFormat(f) => {
                let mut m = cat("unsupported provider api_format `", f.as_str());
                m.append("`");
                m
            },
            LlmError::Http(status, detail) => {
                let mut m = cat("provider returned HTTP ", status.as_str());
                m.append(": ");
                m.append(detail.as_str());
                m
            },
            LlmError::MissingContent(m) => m.clone(),
            LlmError::EmptyText(p) => cat(p.as_str(), " response did not include text"),
        }
    }
}

/// Text from a provider, trimmed; refused when nothing is left.
pub fn non_empty_text(text: &str, provider: &str) -> (r: Result<String, LlmError>)
    ensures
        is_blank(text@) ==> (r matches Err(LlmError::EmptyText(p)) && p@ == provider@),
        !is_blank(text@) ==> (r matches Ok(t) && t@ == trim(text@)),
{
    if is_blank_str(text) {
        Err(LlmError::EmptyText(copy_str(provider)))
    } else {
        Ok(trim_str(text))
    }
}

/// The wire format of a provider.
#[derive(Debug, Clone, Copy, PartialEq, Eq, Structural)]
pub enum ApiFormat {
    GoogleGemini,
    OpenAiCompatible,
    Anthropic,
}

/// The format a provider's `api_format` names.
pub open spec fn api_format_of(name: Seq<char>) -> Option<ApiFormat> {
    if name == "google_gemini"@ {
        Some(ApiFormat::GoogleGemini)
    } else if name == "openai_compatible"@ {
        Some(ApiFormat::OpenAiCompatible)
    } else if name == "anthropic"@ {
        Some(ApiFormat::Anthropic)
    } else {
        None
    }
}

/// One call to a provider: its format, address, model, key, and headers.
#[derive(Debug)]
pub struct LlmCall {
    pub format: ApiFormat,
    pub url: String,
    pub model: String,
    pub api_key: String,
    pub headers: Vec<(String, String)>,
}

/// The model identifier sent to the provider: the catalog's provider-side identifier for
/// the selected model when it has a non-blank one, else the selected model, trimmed.
pub open spec fn routed_model(
    c: AppConfig,
    catalog: ProviderCatalog,
) -> Result<Seq<char>, CatalogError> {
    let selected = trim(c.llm_router.model@);
    match lookup(catalog.providers@, c.llm_router.provider@) {
        None => Err(CatalogError::UnknownProvider(c.llm_router.provider)),
        Some(p) => match lookup(p.models@, selected) {
            Some(m) => Ok(
                if trim(m.provider_model_id@).len() > 0 {
                    trim(m.provider_model_id@)
                } else {
                    selected
                },
            ),
            None => if p.allow_custom_models {
                Ok(selected)
            } else {
                Err(CatalogError::UnknownModel(c.llm_router.model, c.llm_router.provider))
            },
        },
    }
}

/// The model identifier a configuration routes to.
pub fn model_id(config: &AppConfig, catalog: &ProviderCatalog) -> (r: Result<
    String,
    CatalogError,
>)
    ensures
        match routed_model(*config, *catalog) {
            Ok(m) => r matches Ok(s) && s@ == m,
            Err(CatalogError::UnknownProvider(p)) => r matches Err(CatalogError::UnknownProvider(
                q,
            )) && q@ == p@,
            Err(CatalogError::UnknownModel(_, p)) => r matches Err(CatalogError::UnknownModel(
                m,
                q,
            )) && m@ == trim(config.llm_router.model@) && q@ == p@,
            Err(CatalogError::NoModels(_)) => false,
        },
{
    let selected = trim_str(config.llm_router.model.as_str());
    let model = match catalog.model_or_custom(
        config.llm_router.provider.as_str(),
        selected.as_str(),
    ) {
        Ok(m) => m,
        Err(e) => {
            return Err(e);
        },
    };
    match model {
        Some(m) => {
            let id = trim_str(m.provider_model_id.as_str());
            if id.as_str().is_empty() {
                Ok(selected)
            } else {
                Ok(id)
            }
        },
        None => Ok(selected),
    }
}

/// The address of a provider call: the base URL without trailing slashes, then the
/// format's endpoint.
pub open spec fn call_url(format: ApiFormat, base_url: Seq<char>, model: Seq<char>) -> Seq<char> {
    let base = trim_end_char(base_url, '/');
    match format {
        ApiFormat::GoogleGemini => base + "/models/"@ + model + ":generateContent"@,
        ApiFormat::OpenAiCompatible => base + "/chat/completions"@,
        ApiFormat::Anthropic => base + "/messages"@,
    }
}

/// The headers of a provider call: the key as the format expects it, and for Anthropic
/// the API version.
pub open spec fn call_headers(format: ApiFormat, key: Seq<char>) -> Seq<(Seq<char>, Seq<char>)> {
    match format {
        ApiFormat::GoogleGemini => seq![("x-goog-api-key"@, key)],
        ApiFormat::OpenAiCompatible => seq![("authorization"@, "Bearer "@ + key)],
        ApiFormat::Anthropic => seq![("x-api-key"@, key), ("anthropic-version"@, "2023-06-01"@)],
    }
}

/// Header names and values, as text.
pub open spec fn header_views(h: Seq<(String, String)>) -> Seq<(Seq<char>, Seq<char>)> {
    h.map_values(|e: (String, String)| (e.0@, e.1@))
}

/// Plans the provider call for a prompt: refused when routing is off, the provider or model
/// is unknown, the expanded key is blank, or the provider's format is not supported.
pub fn plan_llm_call(config: &AppConfig, catalog: &ProviderCatalog, env: &EnvVars) -> (r: Result<
    LlmCall,
    LlmError,
>)
    ensures
        !config.llm_router.enabled ==> (r matches Err(LlmError::Disabled)),
        config.llm_router.enabled ==> match lookup(catalog.providers@, config.llm_router.provider@) {
            None => r matches Err(LlmError::Catalog(CatalogError::UnknownProvider(p))) && p@
                == config.llm_router.provider@,
            Some(p) => match routed_model(*config, *catalog) {
                Err(_) => r matches Err(LlmError::Catalog(CatalogError::UnknownModel(m, q)))
                    && m@ == trim(config.llm_router.model@) && q@ == config.llm_router.provider@,
                Ok(model) => if is_blank(expand(config.llm_router.api_key@, env@)) {
                    r matches Err(LlmError::EmptyApiKey)
                } else {
                    match api_format_of(p.api_format@) {
                        None => r matches Err(LlmError::UnsupportedFormat(f)) && f@
                            == p.api_format@,
                        Some(format) => r matches Ok(call) && call.format == format && call.url@
                            == call_url(format, p.base_url@, model) && call.model@ == model
                            && call.api_key@ == expand(config.llm_router.api_key@, env@)
                            && header_views(call.headers@) == call_headers(
                            format,
                            expand(config.llm_router.api_key@, env@),
                        ),
                    }
                },
            },
        },
{
    if !config.llm_router.enabled {
        return Err(LlmError::Disabled);
    }
    let provider = match catalog.provider(config.llm_router.provider.as_str()) {
        Ok(p) => p,
        Err(e) => {
            return Err(LlmError::Catalog(e));
        },
    };
    let model = match model_id(config, catalog) {
        Ok(m) => m,
        Err(e) => {
            return Err(LlmError::Catalog(e));
        },
    };
    let api_key = expand_string(config.llm_router.api_key.as_str(), env);
    if is_blank_str(api_key.as_str()) {
        return Err(LlmError::EmptyApiKey);
    }
    let f = provider.api_format.as_str();
    let format = if str_eq(f, "google_gemini") {
        ApiFormat::GoogleGemini
    } else if str_eq(f, "openai_compatible") {
        ApiFormat::OpenAiCompatible
    } else if str_eq(f, "anthropic") {
        ApiFormat::Anthropic
    } else {
        return Err(LlmError::UnsupportedFormat(copy_str(f)));
    };
    let bv = chars_of(provider.base_url.as_str());
    let end = trim_end_index(&bv, '/');
    let base = string_of_range(bv.as_slice(), 0, end);
    let url = match format {
        ApiFormat::GoogleGemini => {
            let mut u = cat(base.as_str(), "/models/");
            u.append(model.as_str());
            u.append(":generateContent");
            u
        },
        ApiFormat::OpenAiCompatible => cat(base.as_str(), "/chat/completions"),
        ApiFormat::Anthropic => cat(base.as_str(), "/messages"),
    };
    let headers = match format {
        ApiFormat::GoogleGemini => vec![(copy_str("x-goog-api-key"), api_key.clone())],
        ApiFormat::OpenAiCompatible => vec![
            (copy_str("authorization"), cat("Bearer ", api_key.as_str())),
        ],
        ApiFormat::Anthropic => vec![
            (copy_str("x-api-key"), api_key.clone()),
            (copy_str("anthropic-version"), copy_str("2023-06-01")),
        ],
    };
    assert(header_views(headers@) =~= call_headers(format, api_key@));
    Ok(LlmCall { format, url, model, api_key, headers })
}

/// The end of `v` once trailing `c` characters are cut.
fn trim_end_index(v: &Vec<char>, c: char) -> (r: usize)
    ensures
        r <= v.len(),
        v@.subrange(0, r as int) == trim_end_char(v@, c),
{
    let mut j = v.len();
    assert(v@.subrange(0, j as int) =~= v@);
    while j > 0 && v[j - 1] == c
        invariant
            j <= v.len(),
            trim_end_char(v@.subrange(0, j as int), c) == trim_end_char(v@, c),
        decreases j,
    {
        assert(v@.subrange(0, j as int).drop_last() =~= v@.subrange(0, j - 1));
        j = j - 1;
    }
    j
}

/// What a provider's error answer says: its `error.message`, else its `error` text, else
/// the raw body when it is not JSON (or its `raw` text), else a generic note.
pub open spec fn provider_error_of(body: Seq<char>) -> Seq<char> {
    match json_string_at(body, "/error/message"@) {
        Some(m) => m,
        None => match json_string_at(body, "/error"@) {
            Some(e) => e,
            None => if !json_parses(body) {
                body
            } else {
                match json_string_at(body, "/raw"@) {
                    Some(r) => r,
                    None => "unknown provider error"@,
                }
            },
        },
    }
}

/// Reads the error out of a provider's answer.
pub fn provider_error(body: &str) -> (r: String)
    ensures
        r@ == provider_error_of(body@),
{
    if let Some(m) = json_text_at(body, "/error/message") {
        return m;
    }
    if let Some(e) = json_text_at(body, "/error") {
        return e;
    }
    if !json_is_valid(body) {
        return copy_str(body);
    }
    match json_text_at(body, "/raw") {
        Some(r) => r,
        None => copy_str("unknown provider error"),
    }
}

/// The text pieces of an array of parts: each part's `text` string where it has one,
/// joined without separators, for parts `i` onward.
pub open spec fn part_texts(body: Seq<char>, array: Seq<char>, n: nat, i: nat, typed: bool) -> Seq<
    char,
>
    decreases n - i,
{
    if i >= n {
        Seq::empty()
    } else {
        let item = array + "/"@ + decimal(i);
        let keep = !typed || json_string_at(body, item + "/type"@) == Some("text"@);
        (if keep {
            match json_string_at(body, item + "/text"@) {
                Some(t) => t,
                None => Seq::empty(),
            }
        } else {
            Seq::empty()
        }) + part_texts(body, array, n, i + 1, typed)
    }
}

/// Joins the text of the parts in an array; with `typed`, only parts of type `text`.
fn collect_part_texts(body: &str, array: &str, n: usize, typed: bool) -> (r: String)
    ensures
        r@ == part_texts(body@, array@, n as nat, 0, typed),
{
    let mut out = String::new();
    let mut i: usize = 0;
    while i < n
        invariant
            i <= n,
            part_texts(body@, array@, n as nat, 0, typed) == out@ + part_texts(
                body@,
                array@,
                n as nat,
                i as nat,
                typed,
            ),
        decreases n - i,
    {
        let mut item = cat(array, "/");
        item.append(u64_to_decimal(i as u64).as_str());
        let ghost before = out@;
        let keep = if typed {
            let ty = cat(item.as_str(), "/type");
            match json_text_at(body, ty.as_str()) {
                Some(t) => str_eq(t.as_str(), "text"),
                None => false,
            }
        } else {
            true
        };
        if keep {
            let tx = cat(item.as_str(), "/text");
            match json_text_at(body, tx.as_str()) {
                Some(t) => out.append(t.as_str()),
                None => {},
            }
        }
        proof {
            let piece = part_texts(body@, array@, n as nat, i as nat, typed);
            let rest = part_texts(body@, array@, n as nat, (i + 1) as nat, typed);
            assert(piece == (out@.subrange(before.len() as int, out@.len() as int)) + rest) by {
                assert(out@ =~= before + out@.subrange(before.len() as int, out@.len() as int));
            }
            assert(before + piece =~= out@ + rest);
        }
        i = i + 1;
    }
    proof {
        assert(out@ + Seq::<char>::empty() =~= out@);
    }
    out
}

/// What a Gemini answer says: the text of `candidates[0].content.parts`.
pub open spec fn gemini_text(body: Seq<char>) -> Result<Seq<char>, Seq<char>> {
    match json_array_len(body, "/candidates/0/content/parts"@) {
        None => Err("Gemini response did not include candidates[0].content.parts"@),
        Some(n) => {
            let t = part_texts(body, "/candidates/0/content/parts"@, n, 0, false);
            if is_blank(t) {
                Err("Gemini response did not include text"@)
            } else {
                Ok(trim(t))
            }
        },
    }
}

/// What an OpenAI-compatible answer says: `choices[0].message.content`.
pub open spec fn openai_text(body: Seq<char>) -> Result<Seq<char>, Seq<char>> {
    match json_string_at(body, "/choices/0/message/content"@) {
        None => Err("OpenAI-compatible response did not include choices[0].message.content"@),
        Some(t) => if is_blank(t) {
            Err("OpenAI-compatible response did not include text"@)
        } else {
            Ok(trim(t))
        },
    }
}

/// What an Anthropic answer says: the text of the `content` parts of type `text`.
pub open spec fn anthropic_text(body: Seq<char>) -> Result<Seq<char>, Seq<char>> {
    match json_array_len(body, "/content"@) {
        None => Err("Anthropic response did not include content"@),
        Some(n) => {
            let t = part_texts(body, "/content"@, n, 0, true);
            if is_blank(t) {
                Err("Anthropic response did not include text"@)
            } else {
                Ok(trim(t))
            }
        },
    }
}

/// Whether an extraction result is the expected one, by message.
pub open spec fn answer_is(r: Result<String, LlmError>, expected: Result<Seq<char>, Seq<char>>) -> bool {
    match (r, expected) {
        (Ok(t), Ok(u)) => t@ == u,
        (Err(e), Err(m)) => llm_error_message(e) == m,
        _ => false,
    }
}

/// Reads the text of a Gemini answer.
pub fn extract_gemini_text(body: &str) -> (r: Result<String, LlmError>)
    ensures
        answer_is(r, gemini_text(body@)),
{
    let parts = "/candidates/0/content/parts";
    let n = match json_array_len_at(body, parts) {
        Some(n) => n,
        None => {
            return Err(
                LlmError::MissingContent(
                    copy_str("Gemini response did not include candidates[0].content.parts"),
                ),
            );
        },
    };
    let text = collect_part_texts(body, parts, n, false);
    {
        proof {
            reveal_strlit("Gemini");
            reveal_strlit(" response did not include text");
            reveal_strlit("Gemini response did not include text");
            assert("Gemini"@ + " response did not include text"@ =~= "Gemini response did not include text"@);
        }
        non_empty_text(text.as_str(), "Gemini")
    }
}

/// Reads the text of an OpenAI-compatible answer.
pub fn extract_openai_text(body: &str) -> (r: Result<String, LlmError>)
    ensures
        answer_is(r, openai_text(body@)),
{
    match json_text_at(body, "/choices/0/message/content") {
        Some(t) => {
            proof {
                reveal_strlit("OpenAI-compatible");
                reveal_strlit(" response did not include text");
                reveal_strlit("OpenAI-compatible response did not include text");
                assert("OpenAI-compatible"@ + " response did not include text"@ =~= "OpenAI-compatible response did not include text"@);
            }
            non_empty_text(t.as_str(), "OpenAI-compatible")
        },
        None => Err(
            LlmError::MissingContent(
                copy_str(
                    "OpenAI-compatible response did not include choices[0].message.content",
                ),
            ),
        ),
    }
}

/// Reads the text of an Anthropic answer.
pub fn extract_anthropic_text(body: &str) -> (r: Result<String, LlmError>)
    ensures
        answer_is(r, anthropic_text(body@)),
{
    let n = match json_array_len_at(body, "/content") {
        Some(n) => n,
        None => {
            return Err(
                LlmError::MissingContent(copy_str("Anthropic response did not include content")),
            );
        },
    };
    let text = collect_part_texts(body, "/content", n, true);
    {
        proof {
            reveal_strlit("Anthropic");
            reveal_strlit(" response did not include text");
            reveal_strlit("Anthropic response did not include text");
            assert("Anthropic"@ + " response did not include text"@ =~= "Anthropic response did not include text"@);
        }
        non_empty_text(text.as_str(), "Anthropic")
    }
}

/// What a provider's answer means: an HTTP failure with the provider's error, or the text
/// read out of the body by the call's format.
pub open spec fn provider_answer(
    format: ApiFormat,
    success: bool,
    status: Seq<char>,
    body: Seq<char>,
) -> Result<Seq<char>, Seq<char>> {
    if !success {
        Err("provider returned HTTP "@ + status + ": "@ + provider_error_of(body))
    } else {
        match format {
            ApiFormat::GoogleGemini => gemini_text(body),
            ApiFormat::OpenAiCompatible => openai_text(body),
            ApiFormat::Anthropic => anthropic_text(body),
        }
    }
}

/// Reads a provider's answer; `status` is the HTTP status as shown and `success` whether
/// it is a success status.
pub fn read_answer(format: ApiFormat, success: bool, status: &str, body: &str) -> (r: Result<
    String,
    LlmError,
>)
    ensures
        answer_is(r, provider_answer(format, success, status@, body@)),
{
    if !success {
        return Err(LlmError::Http(copy_str(status), provider_error(body)));
    }
    match format {
        ApiFormat::GoogleGemini => extract_gemini_text(body),
        ApiFormat::OpenAiCompatible => extract_openai_text(body),
        ApiFormat::Anthropic => extract_anthropic_text(body),
    }
}


/// Dropping trailing copies of `c` keeps a prefix that no longer ends in `c`.
proof fn lemma_trim_end_char(s: Seq<char>, c: char)
    ensures
        trim_end_char(s, c).len() <= s.len(),
        trim_end_char(s, c) == s.subrange(0, trim_end_char(s, c).len() as int),
        trim_end_char(s, c).len() == 0 || trim_end_char(s, c).last() != c,
    decreases s.len(),
{
    if s.len() > 0 && s.last() == c {
        lemma_trim_end_char(s.drop_last(), c);
    } else {
        assert(s.subrange(0, s.len() as int) =~= s);
    }
}

/// Each format calls its own endpoint under the provider's base URL, with the base's
/// trailing slashes dropped: Anthropic's `/messages`, the OpenAI-compatible
/// `/chat/completions`, and Gemini's `/models/<model>:generateContent`. An Anthropic call
/// never goes to the OpenAI-compatible address, and the catalog's format names select
/// these formats.
pub proof fn law_each_format_calls_its_own_endpoint(base_url: Seq<char>, model: Seq<char>)
    ensures
        ({
            let base = trim_end_char(base_url, '/');
            &&& base == base_url.subrange(0, base.len() as int)
            &&& base.len() == 0 || base.last() != '/'
            &&& call_url(ApiFormat::Anthropic, base_url, model) == base + "/messages"@
            &&& call_url(ApiFormat::OpenAiCompatible, base_url, model) == base
                + "/chat/completions"@
            &&& call_url(ApiFormat::GoogleGemini, base_url, model) == base + "/models/"@ + model
                + ":generateContent"@
        }),
        call_url(ApiFormat::Anthropic, base_url, model) != call_url(
            ApiFormat::OpenAiCompatible,
            base_url,
            model,
        ),
        api_format_of("anthropic"@) == Some(ApiFormat::Anthropic),
        api_format_of("openai_compatible"@) == Some(ApiFormat::OpenAiCompatible),
        api_format_of("google_gemini"@) == Some(ApiFormat::GoogleGemini),
{
    lemma_trim_end_char(base_url, '/');
    reveal_strlit("/messages");
    reveal_strlit("/chat/completions");
    reveal_strlit("anthropic");
    reveal_strlit("openai_compatible");
    reveal_strlit("google_gemini");
    assert("/messages"@.len() != "/chat/completions"@.len());
    assert("anthropic"@.len() == 9 && "openai_compatible"@.len() == 17 && "google_gemini"@.len()
        == 13);
    let base = trim_end_char(base_url, '/');
    assert((base + "/messages"@).len() != (base + "/chat/completions"@).len());
}

} // verus!

//! The provider catalog: which providers and models the router knows, where the catalog
//! file lives, and how providers and models are listed.
use crate::config::{expand_path, expanded_path, AppConfig};
use crate::env_file::EnvVars;
use crate::paths::{absolute_path, joined_path, parent_or_dot, parent_or_dot_of, path_is_absolute, path_join};
use crate::strmap::{lookup, StrMap};
use crate::text::{cat, copy_str, decimal, is_blank, is_blank_str, join, join_strings, u64_to_decimal, views};
use vstd::prelude::*;

verus! {

/// One model of a provider. Prices are in US dollars per million tokens, written to the
/// cent (`5.00`).
#[derive(Debug)]
pub struct ModelDefinition {
    pub display_name: String,
    pub provider_model_id: String,
    pub context_window: Option<u64>,
    pub max_output_tokens: Option<u64>,
    pub input_usd_per_1m: Option<String>,
    pub output_usd_per_1m: Option<String>,
    pub cached_input_usd_per_1m: Option<String>,
    pub capabilities: Vec<String>,
    pub notes: String,
}

/// One provider: how to reach it and its models by identifier.
#[derive(Debug)]
pub struct ProviderDefinition {
    pub display_name: String,
    pub api_format: String,
    pub base_url: String,
    pub token_env: String,
    pub default_model: String,
    pub allow_custom_models: bool,
    pub docs: Vec<String>,
    pub models: StrMap<ModelDefinition>,
}

/// The providers by identifier.
#[derive(Debug)]
pub struct ProviderCatalog {
    pub schema_version: u32,
    pub updated: String,
    pub providers: StrMap<ProviderDefinition>,
}

impl Default for ProviderCatalog {
    fn default() -> (c: Self)
        ensures
            c.schema_version == 1,
            c.updated@.len() == 0,
            c.providers@.len() == 0,
    {
        ProviderCatalog { schema_version: 1, updated: String::new(), providers: StrMap::new() }
    }
}

/// Why a catalog lookup failed.
#[derive(Debug)]
pub enum CatalogError {
    UnknownProvider(String),
    UnknownModel(String, String),
    NoModels(String),
}

/// The message of a catalog failure.
pub open spec fn catalog_error_message(e: CatalogError) -> Seq<char> {
    match e {
        CatalogError::UnknownProvider(p) => "unknown provider `"@ + p@ + "`"@,
        CatalogError::UnknownModel(m, p) => "unknown model `"@ + m@ + "` for provider `"@ + p@
            + "`"@,
        CatalogError::NoModels(p) => "provider `"@ + p@ + "` has no models"@,
    }
}

impl CatalogError {
    /// The human-readable message for the failure.
    pub fn message(&self) -> (m: String)
        ensures
            m@ == catalog_error_message(*self),
    {
        match self {
            CatalogError::UnknownProvider(p) => {
                let mut m = cat("unknown provider `", p.as_str());
                m.append("`");
                m
            },
            CatalogError::UnknownModel(model, p) => {
                let mut m = cat("unknown model `", model.as_str());
                m.append("` for provider `");
                m.append(p.as_str());
                m.append("`");
                m
            },
            CatalogError::NoModels(p) => {
                let mut m = cat("provider `", p.as_str());
                m.append("` has no models");
                m
            },
        }
    }
}

impl ProviderCatalog {
    /// A provider by identifier.
    pub fn provider(&self, provider_id: &str) -> (r: Result<&ProviderDefinition, CatalogError>)
        ensures
            match lookup(self.providers@, provider_id@) {
                Some(p) => r matches Ok(q) && *q == p,
                None => r matches Err(CatalogError::UnknownProvider(x)) && x@ == provider_id@,
            },
    {
        match self.providers.get(provider_id) {
            Some(p) => Ok(p),
            None => Err(CatalogError::UnknownProvider(copy_str(provider_id))),
        }
    }

    /// A model of a provider by identifier.
    pub fn model(&self, provider_id: &str, model_id: &str) -> (r: Result<
        &ModelDefinition,
        CatalogError,
    >)
        ensures
            match lookup(self.providers@, provider_id@) {
                None => r matches Err(CatalogError::UnknownProvider(x)) && x@ == provider_id@,
                Some(p) => match lookup(p.models@, model_id@) {
                    Some(m) => r matches Ok(q) && *q == m,
                    None => r matches Err(CatalogError::UnknownModel(a, b)) && a@ == model_id@
                        && b@ == provider_id@,
                },
            },
    {
        let provider = match self.provider(provider_id) {
            Ok(p) => p,
            Err(e) => {
                return Err(e);
            },
        };
        match provider.models.get(model_id) {
            Some(m) => Ok(m),
            None => Err(CatalogError::UnknownModel(copy_str(model_id), copy_str(provider_id))),
        }
    }

    /// A model of a provider, or nothing for a model the catalog does not list when the
    /// provider accepts custom models.
    pub fn model_or_custom(&self, provider_id: &str, model_id: &str) -> (r: Result<
        Option<&ModelDefinition>,
        CatalogError,
    >)
        ensures
            match lookup(self.providers@, provider_id@) {
                None => r matches Err(CatalogError::UnknownProvider(x)) && x@ == provider_id@,
                Some(p) => match lookup(p.models@, model_id@) {
                    Some(m) => r matches Ok(Some(q)) && *q == m,
                    None => if p.allow_custom_models {
                        r matches Ok(None)
                    } else {
                        r matches Err(CatalogError::UnknownModel(a, b)) && a@ == model_id@ && b@
                            == provider_id@
                    },
                },
            },
    {
        let provider = match self.provider(provider_id) {
            Ok(p) => p,
            Err(e) => {
                return Err(e);
            },
        };
        match provider.models.get(model_id) {
            Some(m) => Ok(Some(m)),
            None => if provider.allow_custom_models {
                Ok(None)
            } else {
                Err(CatalogError::UnknownModel(copy_str(model_id), copy_str(provider_id)))
            },
        }
    }

    /// The model a provider uses unless told otherwise: its default, or when that is blank
    /// the first model identifier in order.
    pub fn default_model_for(&self, provider_id: &str) -> (r: Result<&str, CatalogError>)
        ensures
            match lookup(self.providers@, provider_id@) {
                None => r matches Err(CatalogError::UnknownProvider(x)) && x@ == provider_id@,
                Some(p) => if !is_blank(p.default_model@) {
                    r matches Ok(m) && m@ == p.default_model@
                } else if p.models@.len() > 0 {
                    r matches Ok(m) && m@ == p.models@[0].0
                } else {
                    r matches Err(CatalogError::NoModels(x)) && x@ == provider_id@
                },
            },
    {
        let provider = match self.provider(provider_id) {
            Ok(p) => p,
            Err(e) => {
                return Err(e);
            },
        };
        if is_blank_str(provider.default_model.as_str()) {
            if provider.models.len() > 0 {
                let (k, _) = provider.models.entry(0);
                Ok(k.as_str())
            } else {
                Err(CatalogError::NoModels(copy_str(provider_id)))
            }
        } else {
            Ok(provider.default_model.as_str())
        }
    }
}

/// Where a catalog setting points: the expanded path when absolute, else beside the
/// configuration file.
pub open spec fn catalog_location(
    config_path: Seq<char>,
    raw: Seq<char>,
    env: Seq<(Seq<char>, String)>,
) -> Seq<char> {
    let expanded = expanded_path(raw, env);
    if absolute_path(expanded) {
        expanded
    } else {
        joined_path(parent_or_dot(config_path), expanded)
    }
}

/// Resolves a catalog path setting against the configuration file's directory.
pub fn resolve_catalog_path(config_path: &str, raw_path: &str, env: &EnvVars) -> (r: String)
    ensures
        r@ == catalog_location(config_path@, raw_path@, env@),
{
    let expanded = expand_path(raw_path, env);
    if path_is_absolute(expanded.as_str()) {
        expanded
    } else {
        let dir = parent_or_dot_of(config_path);
        path_join(dir.as_str(), expanded.as_str())
    }
}

/// The catalog file a configuration uses.
pub fn catalog_path(config_path: &str, config: &AppConfig, env: &EnvVars) -> (r: String)
    ensures
        r@ == catalog_location(config_path@, config.llm_router.catalog_path@, env@),
{
    resolve_catalog_path(config_path, config.llm_router.catalog_path.as_str(), env)
}

/// The provider list: `id - display name`, one per line in identifier order.
pub open spec fn providers_text(providers: Seq<(Seq<char>, ProviderDefinition)>) -> Seq<char> {
    join(
        providers.map_values(
            |e: (Seq<char>, ProviderDefinition)| e.0 + " - "@ + e.1.display_name@,
        ),
        "\n"@,
    )
}

/// Lists the catalog's providers.
pub fn format_providers(catalog: &ProviderCatalog) -> (r: String)
    ensures
        r@ == providers_text(catalog.providers@),
{
    let n = catalog.providers.len();
    let mut lines: Vec<String> = Vec::new();
    let mut i: usize = 0;
    while i < n
        invariant
            i <= n == catalog.providers@.len(),
            lines.len() == i,
            forall|j: int|
                0 <= j < i ==> #[trigger] lines@[j]@ == catalog.providers@[j].0 + " - "@
                    + catalog.providers@[j].1.display_name@,
        decreases n - i,
    {
        let (id, p) = catalog.providers.entry(i);
        let mut line = cat(id.as_str(), " - ");
        line.append(p.display_name.as_str());
        lines.push(line);
        i = i + 1;
    }
    assert(views(lines@) =~= catalog.providers@.map_values(
        |e: (Seq<char>, ProviderDefinition)| e.0 + " - "@ + e.1.display_name@,
    ));
    join_strings(&lines, "\n")
}

/// A context window in round units: millions as `M`, thousands as `K`.
pub open spec fn human_context(value: nat) -> Seq<char> {
    if value >= 1_000_000 {
        decimal(value / 1_000_000) + "M context"@
    } else if value >= 1_000 {
        decimal(value / 1_000) + "K context"@
    } else {
        decimal(value) + " context"@
    }
}

/// Describes a context window.
pub fn human_number(value: u64) -> (r: String)
    ensures
        r@ == human_context(value as nat),
{
    if value >= 1_000_000 {
        cat(u64_to_decimal(value / 1_000_000).as_str(), "M context")
    } else if value >= 1_000 {
        cat(u64_to_decimal(value / 1_000).as_str(), "K context")
    } else {
        cat(u64_to_decimal(value).as_str(), " context")
    }
}

/// One model line: identifier, context window, and prices when both are known.
pub open spec fn model_line(id: Seq<char>, m: ModelDefinition) -> Seq<char> {
    let context = match m.context_window {
        Some(c) => human_context(c as nat),
        None => "unknown context"@,
    };
    let price = match (m.input_usd_per_1m, m.output_usd_per_1m) {
        (Some(i), Some(o)) => "$"@ + i@ + "/1M in, $"@ + o@ + "/1M out"@,
        _ => "pricing in provider docs"@,
    };
    "- "@ + id + " ("@ + context + "; "@ + price + ")"@
}

/// The model list of a provider: a heading, then one line per model in identifier order.
pub open spec fn models_text(p: ProviderDefinition) -> Seq<char> {
    join(
        seq![p.display_name@ + " models:"@] + p.models@.map_values(
            |e: (Seq<char>, ModelDefinition)| model_line(e.0, e.1),
        ),
        "\n"@,
    )
}

/// Lists a provider's models.
pub fn format_models(catalog: &ProviderCatalog, provider_id: &str) -> (r: Result<
    String,
    CatalogError,
>)
    ensures
        match lookup(catalog.providers@, provider_id@) {
            Some(p) => r matches Ok(t) && t@ == models_text(p),
            None => r matches Err(CatalogError::UnknownProvider(x)) && x@ == provider_id@,
        },
{
    let provider = match catalog.provider(provider_id) {
        Ok(p) => p,
        Err(e) => {
            return Err(e);
        },
    };
    let ghost target = seq![provider.display_name@ + " models:"@] + provider.models@.map_values(
        |e: (Seq<char>, ModelDefinition)| model_line(e.0, e.1),
    );
    let mut lines: Vec<String> = vec![cat(provider.display_name.as_str(), " models:")];
    let n = provider.models.len();
    let mut i: usize = 0;
    while i < n
        invariant
            i <= n == provider.models@.len(),
            target == seq![provider.display_name@ + " models:"@] + provider.models@.map_values(
                |e: (Seq<char>, ModelDefinition)| model_line(e.0, e.1),
            ),
            lines.len() == i + 1,
            forall|j: int| 0 <= j <= i ==> #[trigger] lines@[j]@ == target[j],
        decreases n - i,
    {
        let (id, m) = provider.models.entry(i);
        let context = match m.context_window {
            Some(c) => human_number(c),
            None => copy_str("unknown context"),
        };
        let price = match (&m.input_usd_per_1m, &m.output_usd_per_1m) {
            (Some(input), Some(output)) => {
                let mut p = cat("$", input.as_str());
                p.append("/1M in, $");
                p.append(output.as_str());
                p.append("/1M out");
                p
            },
            _ => copy_str("pricing in provider docs"),
        };
        let mut line = cat("- ", id.as_str());
        line.append(" (");
        line.append(context.as_str());
        line.append("; ");
        line.append(price.as_str());
        line.append(")");
        assert(line@ =~= target[i + 1]);
        lines.push(line);
        i = i + 1;
    }
    assert(views(lines@) =~= target);
    Ok(join_strings(&lines, "\n"))
}

} // verus!

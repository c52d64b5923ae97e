//! The connector boundary: requests, responses, the built-in echo connector, the process
//! invocation for JSON connectors, and capability negotiation.
use crate::config::{
    add_key, expand, expand_path, expand_string, expanded_path, selected_connector,
    sorted_keys, strictly_sorted, thread_connector, AppConfig, ConfigError, ConfigFault,
    ConnectorConfig, ConnectorKind, LlmRouterConfig, ReplyStyle, ThreadConfig,
};
use crate::env_file::EnvVars;
use crate::ids::new_random_id;
use crate::strmap::{keys_of, lookup, StrMap};
use crate::text::{
    cat, copy_str, decimal, has_prefix, has_suffix, is_blank, is_blank_str, join, join_strings,
    lines, lines_of, starts_with, ends_with, str_eq, str_lt, trim, trim_str, u64_to_decimal,
    views,
};
use vstd::prelude::*;

verus! {

/// A JSON value passed back by a connector and carried through without being read.
#[verifier::external_type_specification]
#[verifier::external_body]
pub struct ExJsonValue(serde_json::Value);

/// What the parent asks a connector to do.
#[derive(Debug, Clone, Copy, PartialEq, Eq, Structural)]
pub enum ConnectorRequestKind {
    Health,
    Capabilities,
    Status,
    Run,
    Cancel,
    Shutdown,
}

/// A file handed to a connector.
#[derive(Debug)]
pub struct Attachment {
    pub kind: String,
    pub path: String,
    pub mime_type: Option<String>,
}

/// One request to a connector.
#[derive(Debug)]
pub struct ConnectorRequest {
    pub kind: ConnectorRequestKind,
    pub request_id: String,
    pub thread_id: String,
    pub prompt: String,
    pub cwd: String,
    pub attachments: Vec<Attachment>,
    pub settings: StrMap<serde_yaml::Value>,
    pub metadata: StrMap<String>,
}

/// A connector's answer.
#[derive(Debug)]
pub struct ConnectorResponse {
    pub ok: bool,
    pub message: String,
    pub capabilities: Vec<String>,
    pub retryable: bool,
    pub metadata: StrMap<serde_json::Value>,
}

impl Default for ConnectorResponse {
    fn default() -> (r: Self)
        ensures
            r.ok,
            r.message@ == ""@,
            r.capabilities@.len() == 0,
            !r.retryable,
            r.metadata@.len() == 0,
    {
        proof {
            reveal_strlit("");
        }
        ConnectorResponse {
            ok: true,
            message: String::new(),
            capabilities: Vec::new(),
            retryable: false,
            metadata: StrMap::new(),
        }
    }
}

/// How to run a JSON connector process for one request.
#[derive(Debug)]
pub struct JsonInvocation {
    pub program: String,
    pub args: Vec<String>,
    pub cwd: String,
    pub timeout_seconds: u64,
    pub env: Vec<(String, String)>,
    pub request: ConnectorRequest,
}

/// Where a request goes: answered in the parent, or to be run as a process.
#[derive(Debug)]
pub enum Dispatch {
    Answered(ConnectorResponse),
    Spawn(JsonInvocation),
}

/// Why the connector boundary refused.
#[derive(Debug)]
pub enum ConnectorError {
    Config(ConfigError),
    EmptyCommand,
    Unhealthy(String, String),
    MissingCapabilities(String, Vec<String>),
    EmptyStdout,
    NoJsonResponse,
    Exited(String, String),
    TimedOut(u64),
}

impl ConnectorError {
    /// The human-readable message for the error.
    pub fn message(&self) -> (m: String)
        ensures
            m@ == match self {
                ConnectorError::Config(e) => config_message(e@),
                ConnectorError::EmptyCommand => "json connector command is empty"@,
                ConnectorError::Unhealthy(n, msg) => "connector `"@ + n@
                    + "` reported unhealthy: "@ + msg@,
                ConnectorError::MissingCapabilities(n, missing) => "connector `"@ + n@
                    + "` is missing required capabilities: "@ + join(views(missing@), ", "@),
                ConnectorError::EmptyStdout => "connector returned empty stdout"@,
                ConnectorError::NoJsonResponse => "connector stdout did not contain a JSON response"@,
                ConnectorError::Exited(status, stderr) => "connector exited with status "@
                    + status@ + ": "@ + trim(stderr@),
                ConnectorError::TimedOut(secs) => "connector timed out after "@ + decimal(
                    *secs as nat,
                ) + "s"@,
            },
    {
        match self {
            ConnectorError::Config(e) => e.message(),
            ConnectorError::EmptyCommand => copy_str("json connector command is empty"),
            ConnectorError::Unhealthy(n, msg) => {
                let a = cat("connector `", n.as_str());
                let b = cat(a.as_str(), "` reported unhealthy: ");
                cat(b.as_str(), msg.as_str())
            },
            ConnectorError::MissingCapabilities(n, missing) => {
                let a = cat("connector `", n.as_str());
                let b = cat(a.as_str(), "` is missing required capabilities: ");
                let c = join_strings(missing, ", ");
                cat(b.as_str(), c.as_str())
            },
            ConnectorError::EmptyStdout => copy_str("connector returned empty stdout"),
            ConnectorError::NoJsonResponse => copy_str(
                "connector stdout did not contain a JSON response",
            ),
            ConnectorError::Exited(status, stderr) => {
                let mut m = cat("connector exited with status ", status.as_str());
                m.append(": ");
                m.append(trim_str(stderr.as_str()).as_str());
                m
            },
            ConnectorError::TimedOut(secs) => {
                let mut m = cat("connector timed out after ", u64_to_decimal(*secs).as_str());
                m.append("s");
                m
            },
        }
    }
}

/// The message of a configuration error.
pub open spec fn config_message(f: ConfigFault) -> Seq<char> {
    match f {
        ConfigFault::MissingConnector(a) => "missing connector definition: "@ + a,
        ConfigFault::MissingDefaultConnector(a) => "default connector `"@ + a
            + "` is not defined"@,
        ConfigFault::EmptyConnectorCommand(a) => "connector `"@ + a
            + "` uses json protocol but has no command"@,
        ConfigFault::InvalidConnectorTimeout(a) => "connector `"@ + a
            + "` has timeout_seconds < 1"@,
        ConfigFault::UnknownThreadConnector(a, b) => "thread `"@ + a
            + "` references unknown connector `"@ + b + "`"@,
        ConfigFault::WatchGloballyDisabled(a) => "thread `"@ + a
            + "` enables watch, but features.watch.enabled is false"@,
        ConfigFault::QueueGloballyDisabled(a) => "thread `"@ + a
            + "` enables queue, but features.queue.enabled is false"@,
        ConfigFault::MissingTelegramToken =>
            "telegram is enabled but mobile.telegram.bot_token is empty"@,
        ConfigFault::MissingLlmProvider => "llm_router is enabled but llm_router.provider is empty"@,
        ConfigFault::MissingLlmModel => "llm_router is enabled but llm_router.model is empty"@,
        ConfigFault::UnknownFeature(a) => "feature `"@ + a
            + "` is not available in the parent feature registry"@,
    }
}

/// The capabilities the built-in echo connector reports.
pub open spec fn echo_capabilities() -> Seq<Seq<char>> {
    seq![
        "connector.health"@,
        "connector.run"@,
        "connector.status"@,
        "connector.capabilities"@,
        "threads.cwd"@,
        "attachments.images"@,
    ]
}

/// The capabilities of the built-in echo connector.
pub fn default_capabilities() -> (r: Vec<String>)
    ensures
        views(r@) == echo_capabilities(),
{
    let r = vec![
        copy_str("connector.health"),
        copy_str("connector.run"),
        copy_str("connector.status"),
        copy_str("connector.capabilities"),
        copy_str("threads.cwd"),
        copy_str("attachments.images"),
    ];
    assert(views(r@) =~= echo_capabilities());
    r
}

/// The message the built-in echo connector answers a request with.
pub open spec fn echo_message(kind: ConnectorRequestKind, thread: Seq<char>, cwd: Seq<char>, prompt: Seq<char>) -> Seq<char> {
    match kind {
        ConnectorRequestKind::Health => "builtin echo connector healthy"@,
        ConnectorRequestKind::Capabilities => "builtin echo connector capabilities"@,
        ConnectorRequestKind::Run => "echo thread="@ + thread + " cwd="@ + cwd + " prompt="@
            + prompt,
        _ => "builtin echo connector accepted control request"@,
    }
}

/// Whether a response is the built-in echo connector's answer to a request of a kind on a
/// thread, in a directory, with a prompt: ok, not retryable, the echo message, the echo
/// capabilities, and no metadata.
pub open spec fn is_echo_reply(
    r: ConnectorResponse,
    kind: ConnectorRequestKind,
    thread: Seq<char>,
    cwd: Seq<char>,
    prompt: Seq<char>,
) -> bool {
    &&& r.ok
    &&& !r.retryable
    &&& r.message@ == echo_message(kind, thread, cwd, prompt)
    &&& views(r.capabilities@) == echo_capabilities()
    &&& r.metadata@.len() == 0
}

/// The built-in echo connector: always ok, echoing run requests back.
pub fn echo_response(request: &ConnectorRequest) -> (r: ConnectorResponse)
    ensures
        is_echo_reply(r, request.kind, request.thread_id@, request.cwd@, request.prompt@),
{
    let message = match request.kind {
        ConnectorRequestKind::Health => copy_str("builtin echo connector healthy"),
        ConnectorRequestKind::Capabilities => copy_str("builtin echo connector capabilities"),
        ConnectorRequestKind::Run => {
            let a = cat("echo thread=", request.thread_id.as_str());
            let b = cat(a.as_str(), " cwd=");
            let c = cat(b.as_str(), request.cwd.as_str());
            let d = cat(c.as_str(), " prompt=");
            cat(d.as_str(), request.prompt.as_str())
        },
        _ => copy_str("builtin echo connector accepted control request"),
    };
    ConnectorResponse {
        ok: true,
        message,
        capabilities: default_capabilities(),
        retryable: false,
        metadata: StrMap::new(),
    }
}

/// The lower-case name of a reply style.
pub open spec fn reply_style_name(s: ReplyStyle) -> Seq<char> {
    match s {
        ReplyStyle::Brief => "brief"@,
        ReplyStyle::Normal => "normal"@,
        ReplyStyle::Verbose => "verbose"@,
    }
}

pub fn reply_style_str(s: ReplyStyle) -> (r: String)
    ensures
        r@ == reply_style_name(s),
{
    match s {
        ReplyStyle::Brief => copy_str("brief"),
        ReplyStyle::Normal => copy_str("normal"),
        ReplyStyle::Verbose => copy_str("verbose"),
    }
}

/// The working directory a thread's requests carry: `.` for a blank setting, otherwise the
/// expanded path.
pub open spec fn request_cwd(cwd: Seq<char>, env: Seq<(Seq<char>, String)>) -> Seq<char> {
    if is_blank(cwd) {
        "."@
    } else {
        expanded_path(cwd, env)
    }
}

/// Metadata naming the connector only.
fn connector_metadata(name: &str) -> (m: StrMap<String>)
    ensures
        m@.len() == 1,
        m@[0].0 == "connector"@,
        m@[0].1@ == name@,
{
    let mut m: StrMap<String> = StrMap::new();
    m.insert(copy_str("connector"), copy_str(name));
    m
}

/// A copy of a connector's settings: the same keys, with the same values.
fn copy_settings(settings: &StrMap<serde_yaml::Value>) -> (r: StrMap<serde_yaml::Value>)
    ensures
        r@ == settings@,
{
    let r = settings.clone();
    proof {
        assert forall|i: int| 0 <= i < settings@.len() implies r@[i] == settings@[i] by {
            assert(keys_of(r@)[i] == keys_of(settings@)[i]);
            assert(cloned(settings@[i].1, r@[i].1));
        }
        assert(r@ =~= settings@);
    }
    r
}

/// The request for one prompt on one thread. Its metadata names the connector, the model
/// router's selected model and provider, and the thread's reply style; nothing else of the
/// router's settings (its API key among them) goes into the request.
pub fn run_request(
    connector_name: &str,
    thread_name: &str,
    connector: &ConnectorConfig,
    thread: &ThreadConfig,
    router: &LlmRouterConfig,
    prompt: &str,
    env: &EnvVars,
) -> (r: ConnectorRequest)
    ensures
        r.kind == ConnectorRequestKind::Run,
        crate::ids::is_uuid_v4_text(r.request_id@),
        r.thread_id@ == thread_name@,
        r.prompt@ == prompt@,
        r.cwd@ == request_cwd(thread.cwd@, env@),
        r.attachments@.len() == 0,
        r.settings@ == connector.settings@,
        run_metadata_is(r.metadata@, connector_name@, router.model@, router.provider@, thread.reply_style),
{
    let cwd = if is_blank_str(thread.cwd.as_str()) {
        copy_str(".")
    } else {
        expand_path(thread.cwd.as_str(), env)
    };
    let mut metadata = connector_metadata(connector_name);
    let ghost m0 = metadata@;
    let model = router.model.clone();
    let provider = router.provider.clone();
    let style = reply_style_str(thread.reply_style);
    let ghost (mv, pv, sv) = (model, provider, style);
    proof {
        reveal_strlit("connector");
        reveal_strlit("model");
        reveal_strlit("provider");
        reveal_strlit("reply_style");
        assert(m0 =~= seq![("connector"@, m0[0].1)]);
        assert(str_lt("connector"@, "model"@));
        lemma_insert_last(m0, "model"@, mv);
    }
    metadata.insert(copy_str("model"), model);
    let ghost m1 = metadata@;
    proof {
        assert(str_lt("connector"@, "provider"@));
        assert(str_lt("model"@, "provider"@));
        lemma_insert_last(m1, "provider"@, pv);
    }
    metadata.insert(copy_str("provider"), provider);
    let ghost m2 = metadata@;
    proof {
        assert(str_lt("connector"@, "reply_style"@));
        assert(str_lt("model"@, "reply_style"@));
        assert(str_lt("provider"@, "reply_style"@));
        lemma_insert_last(m2, "reply_style"@, sv);
    }
    metadata.insert(copy_str("reply_style"), style);
    ConnectorRequest {
        kind: ConnectorRequestKind::Run,
        request_id: new_random_id(),
        thread_id: copy_str(thread_name),
        prompt: copy_str(prompt),
        cwd,
        attachments: Vec::new(),
        settings: copy_settings(&connector.settings),
        metadata,
    }
}

/// The metadata of a run request: the connector's name, the selected model and provider,
/// and the reply style, in key order.
pub open spec fn run_metadata_is(
    m: Seq<(Seq<char>, String)>,
    connector_name: Seq<char>,
    model: Seq<char>,
    provider: Seq<char>,
    style: ReplyStyle,
) -> bool {
    &&& m.len() == 4
    &&& m[0].0 == "connector"@ && m[0].1@ == connector_name
    &&& m[1].0 == "model"@ && m[1].1@ == model
    &&& m[2].0 == "provider"@ && m[2].1@ == provider
    &&& m[3].0 == "reply_style"@ && m[3].1@ == reply_style_name(style)
}

/// Inserting a key above every key present appends it.
proof fn lemma_insert_last<V>(s: Seq<(Seq<char>, V)>, k: Seq<char>, v: V)
    requires
        forall|i: int| 0 <= i < s.len() ==> str_lt(#[trigger] s[i].0, k),
    ensures
        crate::strmap::insert_entry(s, k, v) == s.push((k, v)),
    decreases s.len(),
{
    if s.len() > 0 {
        crate::text::lemma_str_lt_irreflexive(k);
        crate::text::lemma_str_lt_asymmetric(s[0].0, k);
        assert(str_lt(s[0].0, k));
        assert forall|i: int| 0 <= i < s.drop_first().len() implies str_lt(
            #[trigger] s.drop_first()[i].0,
            k,
        ) by {
            assert(s.drop_first()[i] == s[i + 1]);
        }
        lemma_insert_last(s.drop_first(), k, v);
        assert(seq![s[0]] + s.drop_first().push((k, v)) =~= s.push((k, v)));
    }
}

/// An element is in a sequence with one more element when it is that element or was there.
proof fn lemma_push_contains<T>(s: Seq<T>, x: T, y: T)
    ensures
        s.push(x).contains(y) == (s.contains(y) || y == x),
{
    if s.contains(y) {
        let i = choose|i: int| 0 <= i < s.len() && s[i] == y;
        assert(s.push(x)[i] == y);
    }
    if y == x {
        assert(s.push(x)[s.len() as int] == y);
    }
    if s.push(x).contains(y) {
        let i = choose|i: int| 0 <= i < s.push(x).len() && s.push(x)[i] == y;
        if i < s.len() {
            assert(s[i] == y);
        }
    }
}

/// Whether a request is a control request (health or capabilities) of a kind for the
/// connector `name`: a fresh identifier, the given thread, no prompt, the current directory,
/// no attachments, the connector's settings, and metadata naming the connector only.
pub open spec fn is_control_request(
    r: ConnectorRequest,
    kind: ConnectorRequestKind,
    thread_id: Seq<char>,
    name: Seq<char>,
    connector: ConnectorConfig,
) -> bool {
    &&& r.kind == kind
    &&& crate::ids::is_uuid_v4_text(r.request_id@)
    &&& r.thread_id@ == thread_id
    &&& r.prompt@ == ""@
    &&& r.cwd@ == "."@
    &&& r.attachments@.len() == 0
    &&& r.settings@ == connector.settings@
    &&& r.metadata@.len() == 1
    &&& r.metadata@[0].0 == "connector"@
    &&& r.metadata@[0].1@ == name
}

/// A control request (health or capabilities) for a connector.
fn control_request(
    kind: ConnectorRequestKind,
    thread_id: &str,
    name: &str,
    connector: &ConnectorConfig,
) -> (r: ConnectorRequest)
    ensures
        is_control_request(r, kind, thread_id@, name@, *connector),
{
    ConnectorRequest {
        kind,
        request_id: new_random_id(),
        thread_id: copy_str(thread_id),
        prompt: copy_str(""),
        cwd: copy_str("."),
        attachments: Vec::new(),
        settings: copy_settings(&connector.settings),
        metadata: connector_metadata(name),
    }
}

/// Environment entries with values expanded, in name order.
pub open spec fn expanded_env(
    vars: Seq<(Seq<char>, String)>,
    env: Seq<(Seq<char>, String)>,
) -> Seq<(Seq<char>, Seq<char>)> {
    vars.map_values(|e: (Seq<char>, String)| (e.0, expand(e.1@, env)))
}

/// Whether an invocation runs a JSON connector as configured: the expanded command, the
/// expanded working directory, the timeout, and the connector's environment with values
/// expanded.
pub open spec fn invocation_for(
    inv: JsonInvocation,
    connector: ConnectorConfig,
    env: Seq<(Seq<char>, String)>,
) -> bool {
    &&& inv.program@ == expand(connector.command@[0]@, env)
    &&& inv.args@.len() == connector.command@.len() - 1
    &&& forall|i: int|
        0 <= i < inv.args@.len() ==> #[trigger] inv.args@[i]@ == expand(
            connector.command@[i + 1]@,
            env,
        )
    &&& inv.cwd@ == expanded_path(connector.cwd@, env)
    &&& inv.timeout_seconds == connector.timeout_seconds
    &&& inv.env@.map_values(|e: (String, String)| (e.0@, e.1@)) == expanded_env(
        connector.env@,
        env,
    )
}

/// The process that runs a JSON connector: the expanded command, the expanded working
/// directory, the timeout, and the connector's environment with values expanded.
pub fn json_invocation(connector: &ConnectorConfig, request: ConnectorRequest, env: &EnvVars) -> (r: Result<JsonInvocation, ConnectorError>)
    ensures
        connector.command@.len() == 0 ==> (r matches Err(ConnectorError::EmptyCommand)),
        connector.command@.len() > 0 ==> (r matches Ok(inv) && invocation_for(inv, *connector, env@)
            && inv.request == request),
{
    if connector.command.len() == 0 {
        return Err(ConnectorError::EmptyCommand);
    }
    let program = expand_string(connector.command[0].as_str(), env);
    let mut args: Vec<String> = Vec::new();
    let mut i: usize = 1;
    while i < connector.command.len()
        invariant
            1 <= i <= connector.command.len(),
            args@.len() == i - 1,
            forall|j: int|
                0 <= j < args@.len() ==> #[trigger] args@[j]@ == expand(
                    connector.command@[j + 1]@,
                    env@,
                ),
        decreases connector.command.len() - i,
    {
        args.push(expand_string(connector.command[i].as_str(), env));
        i = i + 1;
    }
    let mut vars: Vec<(String, String)> = Vec::new();
    let n = connector.env.len();
    let mut k: usize = 0;
    while k < n
        invariant
            k <= n == connector.env@.len(),
            vars@.map_values(|e: (String, String)| (e.0@, e.1@)) == expanded_env(
                connector.env@,
                env@,
            ).take(k as int),
        decreases n - k,
    {
        let (name, value) = connector.env.entry(k);
        let ghost before = vars@.map_values(|e: (String, String)| (e.0@, e.1@));
        let ghost target = expanded_env(connector.env@, env@);
        proof {
            assert(target[k as int] == (connector.env@[k as int].0, expand(
                connector.env@[k as int].1@,
                env@,
            )));
            assert(target.take(k + 1) =~= target.take(k as int).push(target[k as int]));
        }
        vars.push((name.clone(), expand_string(value.as_str(), env)));
        assert(vars@.map_values(|e: (String, String)| (e.0@, e.1@)) =~= expanded_env(
            connector.env@,
            env@,
        ).take(k + 1));
        k = k + 1;
    }
    assert(expanded_env(connector.env@, env@).take(n as int) =~= expanded_env(
        connector.env@,
        env@,
    ));
    Ok(
        JsonInvocation {
            program,
            args,
            cwd: expand_path(connector.cwd.as_str(), env),
            timeout_seconds: connector.timeout_seconds,
            env: vars,
            request,
        },
    )
}

/// Whether the configuration routes requests to the connector `name`: it is the default or
/// a thread names it.
pub open spec fn selects(c: AppConfig, name: Seq<char>) -> bool {
    ||| name == c.connectors.default@
    ||| exists|i: int|
        0 <= i < c.threads@.len() && ((#[trigger] c.threads@[i]).1.connector matches Some(n)
            && n@ == name)
}

/// Whether a thread that uses the connector `name` enables watch.
pub open spec fn watched(c: AppConfig, name: Seq<char>) -> bool {
    exists|i: int|
        0 <= i < c.threads@.len() && thread_connector(
            (#[trigger] c.threads@[i]).1,
            c.connectors.default@,
        ) == name && c.threads@[i].1.watch.enabled
}

/// Whether the connector `name` must report the capability `cap`: every connector needs
/// health and run; a selected connector needs what the enabled cancel, threads and images
/// features need; a connector used by a watching thread needs streaming.
pub open spec fn required_capability(c: AppConfig, name: Seq<char>, cap: Seq<char>) -> bool {
    ||| cap == "connector.health"@
    ||| cap == "connector.run"@
    ||| (selects(c, name) && ((c.features.cancel.enabled && cap == "connector.cancel"@) || (
    c.features.threads.enabled && cap == "threads.cwd"@) || (c.features.images.enabled && cap
        == "attachments.images"@)))
    ||| (watched(c, name) && cap == "connector.stream"@)
}

/// A required capability that was not reported.
pub open spec fn missing_capability(
    c: AppConfig,
    name: Seq<char>,
    reported: Seq<Seq<char>>,
    cap: Seq<char>,
) -> bool {
    required_capability(c, name, cap) && !reported.contains(cap)
}

/// Routes requests to connectors for one configuration and environment.
pub struct ConnectorManager<'a> {
    pub config: &'a AppConfig,
    pub env: &'a EnvVars,
}

impl<'a> ConnectorManager<'a> {
    pub fn new(config: &'a AppConfig, env: &'a EnvVars) -> (m: Self)
        ensures
            *m.config == *config,
            *m.env == *env,
    {
        ConnectorManager { config, env }
    }

    /// A health request to the connector.
    pub fn health(&self, name: &str, connector: &ConnectorConfig) -> (r: Result<
        Dispatch,
        ConnectorError,
    >)
        ensures
            connector.kind == ConnectorKind::BuiltinEcho ==> (r matches Ok(Dispatch::Answered(resp))
                && is_echo_reply(resp, ConnectorRequestKind::Health, "health"@, "."@, ""@)),
            connector.kind == ConnectorKind::Json && connector.command@.len() == 0 ==> (r matches Err(
                ConnectorError::EmptyCommand,
            )),
            connector.kind == ConnectorKind::Json && connector.command@.len() > 0 ==> (r matches Ok(
                Dispatch::Spawn(inv),
            ) && is_control_request(inv.request, ConnectorRequestKind::Health, "health"@, name@, *connector)
                && invocation_for(inv, *connector, self.env@)),
    {
        let request = control_request(ConnectorRequestKind::Health, "health", name, connector);
        self.dispatch(connector, request)
    }

    /// A capabilities request to the connector.
    pub fn capabilities(&self, name: &str, connector: &ConnectorConfig) -> (r: Result<
        Dispatch,
        ConnectorError,
    >)
        ensures
            connector.kind == ConnectorKind::BuiltinEcho ==> (r matches Ok(Dispatch::Answered(resp))
                && is_echo_reply(resp, ConnectorRequestKind::Capabilities, "capabilities"@, "."@, ""@)),
            connector.kind == ConnectorKind::Json && connector.command@.len() == 0 ==> (r matches Err(
                ConnectorError::EmptyCommand,
            )),
            connector.kind == ConnectorKind::Json && connector.command@.len() > 0 ==> (r matches Ok(
                Dispatch::Spawn(inv),
            ) && is_control_request(
                inv.request,
                ConnectorRequestKind::Capabilities,
                "capabilities"@,
                name@,
                *connector,
            ) && invocation_for(inv, *connector, self.env@)),
    {
        let request = control_request(
            ConnectorRequestKind::Capabilities,
            "capabilities",
            name,
            connector,
        );
        self.dispatch(connector, request)
    }

    /// Runs a prompt on a thread through the connector that thread selects, with the thread's
    /// settings (or those of `main`).
    pub fn run(&self, thread_name: &str, prompt: &str) -> (r: Result<Dispatch, ConnectorError>)
        ensures
            ({
                let name = selected_connector(*self.config, thread_name@);
                let cwd = request_cwd(thread_cwd(*self.config, thread_name@), self.env@);
                match lookup(self.config.connectors.definitions@, name) {
                    None => r matches Err(ConnectorError::Config(e)) && e@
                        == ConfigFault::MissingConnector(name),
                    Some(def) => if def.kind == ConnectorKind::BuiltinEcho {
                        r matches Ok(Dispatch::Answered(resp)) && is_echo_reply(
                            resp,
                            ConnectorRequestKind::Run,
                            thread_name@,
                            cwd,
                            prompt@,
                        )
                    } else if def.command@.len() == 0 {
                        r matches Err(ConnectorError::EmptyCommand)
                    } else {
                        r matches Ok(Dispatch::Spawn(inv)) && inv.request.kind
                            == ConnectorRequestKind::Run && crate::ids::is_uuid_v4_text(
                            inv.request.request_id@,
                        ) && inv.request.thread_id@ == thread_name@ && inv.request.prompt@
                            == prompt@ && inv.request.cwd@ == cwd
                            && inv.request.attachments@.len() == 0 && inv.request.settings@
                            == def.settings@ && run_metadata_is(
                            inv.request.metadata@,
                            name,
                            self.config.llm_router.model@,
                            self.config.llm_router.provider@,
                            thread_style(*self.config, thread_name@),
                        ) && invocation_for(inv, def, self.env@)
                    },
                }
            }),
    {
        let (connector_name, connector) = match self.config.connector_for_thread(thread_name) {
            Ok(found) => found,
            Err(e) => {
                return Err(ConnectorError::Config(e));
            },
        };
        let thread = self.config.thread_or_default(thread_name);
        let request = run_request(
            connector_name,
            thread_name,
            connector,
            &thread,
            &self.config.llm_router,
            prompt,
            self.env,
        );
        self.dispatch(connector, request)
    }

    /// Answers a request with the built-in echo connector, or prepares the JSON connector
    /// process.
    pub fn dispatch(&self, connector: &ConnectorConfig, request: ConnectorRequest) -> (r: Result<
        Dispatch,
        ConnectorError,
    >)
        ensures
            connector.kind == ConnectorKind::BuiltinEcho ==> (r matches Ok(Dispatch::Answered(resp))
                && is_echo_reply(
                resp,
                request.kind,
                request.thread_id@,
                request.cwd@,
                request.prompt@,
            )),
            connector.kind == ConnectorKind::Json && connector.command@.len() == 0 ==> (r matches Err(
                ConnectorError::EmptyCommand,
            )),
            connector.kind == ConnectorKind::Json && connector.command@.len() > 0 ==> (r matches Ok(
                Dispatch::Spawn(inv),
            ) && inv.request == request && invocation_for(inv, *connector, self.env@)),
    {
        match connector.kind {
            ConnectorKind::BuiltinEcho => Ok(Dispatch::Answered(echo_response(&request))),
            ConnectorKind::Json => match json_invocation(connector, request, self.env) {
                Ok(inv) => Ok(Dispatch::Spawn(inv)),
                Err(e) => Err(e),
            },
        }
    }

    /// The capabilities the connector `name` must report, sorted.
    pub fn required_capabilities(&self, name: &str) -> (r: Vec<String>)
        ensures
            strictly_sorted(views(r@)),
            forall|cap: Seq<char>| #[trigger]
                views(r@).contains(cap) == required_capability(*self.config, name@, cap),
    {
        let config = self.config;
        let mut selected = str_eq(name, config.connectors.default.as_str());
        let mut watch = false;
        let n = config.threads.len();
        let mut i: usize = 0;
        while i < n
            invariant
                i <= n == config.threads@.len(),
                selected == (name@ == config.connectors.default@ || exists|j: int|
                    0 <= j < i && ((#[trigger] config.threads@[j]).1.connector matches Some(c)
                        && c@ == name@)),
                watch == exists|j: int|
                    0 <= j < i && thread_connector(
                        (#[trigger] config.threads@[j]).1,
                        config.connectors.default@,
                    ) == name@ && config.threads@[j].1.watch.enabled,
            decreases n - i,
        {
            let (_thread_name, thread) = config.threads.entry(i);
            let uses: bool = match &thread.connector {
                Some(c) => str_eq(c.as_str(), name),
                None => str_eq(config.connectors.default.as_str(), name),
            };
            let names: bool = match &thread.connector {
                Some(c) => str_eq(c.as_str(), name),
                None => false,
            };
            if names {
                selected = true;
            }
            if uses && thread.watch.enabled {
                watch = true;
            }
            i = i + 1;
        }
        let mut set: StrMap<()> = StrMap::new();
        add_key(&mut set, "connector.health");
        add_key(&mut set, "connector.run");
        if selected {
            if config.features.cancel.enabled {
                add_key(&mut set, "connector.cancel");
            }
            if config.features.threads.enabled {
                add_key(&mut set, "threads.cwd");
            }
            if config.features.images.enabled {
                add_key(&mut set, "attachments.images");
            }
        }
        if watch {
            add_key(&mut set, "connector.stream");
        }
        sorted_keys(&set)
    }

    /// Checks reported capabilities against the required ones; the error lists the missing
    /// ones in order.
    pub fn validate_capabilities(&self, name: &str, reported: &[String]) -> (r: Result<
        (),
        ConnectorError,
    >)
        ensures
            match r {
                Ok(()) => forall|cap: Seq<char>|
                    !#[trigger] missing_capability(*self.config, name@, views(reported@), cap),
                Err(e) => e matches ConnectorError::MissingCapabilities(n, m) && n@ == name@
                    && m@.len() > 0 && strictly_sorted(views(m@)) && forall|cap: Seq<char>|
                    #[trigger] views(m@).contains(cap) == missing_capability(
                    *self.config,
                    name@,
                    views(reported@),
                    cap,
                ),
            },
    {
        let required = self.required_capabilities(name);
        let mut missing: Vec<String> = Vec::new();
        let mut i: usize = 0;
        let ghost rv = views(required@);
        while i < required.len()
            invariant
                i <= required.len(),
                rv == views(required@),
                strictly_sorted(rv),
                forall|cap: Seq<char>| #[trigger]
                    rv.contains(cap) == required_capability(*self.config, name@, cap),
                strictly_sorted(views(missing@)),
                forall|cap: Seq<char>| #[trigger]
                    views(missing@).contains(cap) == (rv.take(i as int).contains(cap)
                        && !views(reported@).contains(cap)),
                forall|j: int| 0 <= j < missing@.len() ==> exists|k: int|
                    0 <= k < i && rv[k] == #[trigger] views(missing@)[j],
            decreases required.len() - i,
        {
            let mut found = false;
            let mut j: usize = 0;
            while j < reported.len() && !found
                invariant
                    j <= reported.len(),
                    i < required.len(),
                    found ==> views(reported@).contains(required@[i as int]@),
                    !found ==> forall|m: int| 0 <= m < j ==> reported@[m]@ != required@[i as int]@,
                decreases reported.len() - j,
            {
                if str_eq(reported[j].as_str(), required[i].as_str()) {
                    assert(views(reported@)[j as int] == required@[i as int]@);
                    found = true;
                }
                j = j + 1;
            }
            let ghost before = views(missing@);
            if !found {
                proof {
                    assert forall|m: int| 0 <= m < views(reported@).len() implies views(
                        reported@,
                    )[m] != rv[i as int] by {
                        assert(views(reported@)[m] == reported@[m]@);
                    }
                }
                missing.push(required[i].clone());
                proof {
                    assert(views(missing@) =~= before.push(rv[i as int]));
                    assert forall|a: int, b: int| 0 <= a < b < views(missing@).len() implies str_lt(
                        #[trigger] views(missing@)[a],
                        #[trigger] views(missing@)[b],
                    ) by {
                        if b == views(missing@).len() - 1 {
                            let k = choose|k: int| 0 <= k < i && rv[k] == before[a];
                            assert(str_lt(rv[k], rv[i as int]));
                        }
                    }
                }
            }
            proof {
                assert(rv.take(i + 1) =~= rv.take(i as int).push(rv[i as int]));
                assert forall|cap: Seq<char>| #[trigger]
                    views(missing@).contains(cap) == (rv.take(i + 1).contains(cap)
                        && !views(reported@).contains(cap)) by {
                    lemma_push_contains(rv.take(i as int), rv[i as int], cap);
                    assert(before.contains(cap) == (rv.take(i as int).contains(cap) && !views(
                        reported@,
                    ).contains(cap)));
                    if found {
                        assert(views(missing@) == before);
                        if cap == rv[i as int] && before.contains(cap) {
                            let q = choose|q: int| 0 <= q < before.len() && before[q] == cap;
                            let k = choose|k: int| 0 <= k < i && rv[k] == #[trigger] before[q];
                            assert(str_lt(rv[k], rv[i as int]));
                            crate::text::lemma_str_lt_irreflexive(cap);
                        }
                    } else {
                        lemma_push_contains(before, rv[i as int], cap);
                        assert(views(missing@) == before.push(rv[i as int]));
                        if cap == rv[i as int] {
                            assert(!views(reported@).contains(cap));
                        }
                    }
                }
            }
            i = i + 1;
        }
        proof {
            assert(rv.take(required@.len() as int) =~= rv);
        }
        if missing.len() == 0 {
            proof {
                assert forall|cap: Seq<char>| !#[trigger] missing_capability(
                    *self.config,
                    name@,
                    views(reported@),
                    cap,
                ) by {
                    if required_capability(*self.config, name@, cap) && !views(
                        reported@,
                    ).contains(cap) {
                        assert(rv.contains(cap));
                        assert(views(missing@).contains(cap));
                    }
                }
            }
            Ok(())
        } else {
            Err(ConnectorError::MissingCapabilities(copy_str(name), missing))
        }
    }

    /// A health response is acceptable when it is ok and reports every required capability.
    pub fn check_health_response(&self, name: &str, response: &ConnectorResponse) -> (r: Result<
        (),
        ConnectorError,
    >)
        ensures
            !response.ok ==> (r matches Err(ConnectorError::Unhealthy(n, m)) && n@ == name@ && m@
                == response.message@),
            response.ok ==> (r is Ok <==> forall|cap: Seq<char>|
                required_capability(*self.config, name@, cap) ==> views(
                    response.capabilities@,
                ).contains(cap)),
            response.ok ==> (r matches Err(e) ==> e matches ConnectorError::MissingCapabilities(
                n,
                m,
            ) && n@ == name@ && m@.len() > 0 && strictly_sorted(views(m@)) && forall|
                cap: Seq<char>,
            |
                #[trigger] views(m@).contains(cap) == missing_capability(
                    *self.config,
                    name@,
                    views(response.capabilities@),
                    cap,
                )),
    {
        if !response.ok {
            return Err(ConnectorError::Unhealthy(copy_str(name), response.message.clone()));
        }
        let r = self.validate_capabilities(name, response.capabilities.as_slice());
        proof {
            let reported = views(response.capabilities@);
            match &r {
                Ok(()) => {
                    assert forall|cap: Seq<char>|
                        required_capability(*self.config, name@, cap) implies reported.contains(
                        cap,
                    ) by {
                        assert(!missing_capability(*self.config, name@, reported, cap));
                    }
                },
                Err(e) => {
                    if let ConnectorError::MissingCapabilities(_n, m) = e {
                        assert(m@.len() > 0);
                        let cap = views(m@)[0];
                        assert(views(m@).contains(cap));
                        assert(missing_capability(*self.config, name@, reported, cap));
                    }
                },
            }
        }
        r
    }
}

/// The working directory setting of a thread, falling back to `main` and then to `~`.
pub open spec fn thread_cwd(c: AppConfig, thread: Seq<char>) -> Seq<char> {
    match lookup(c.threads@, thread) {
        Some(t) => t.cwd@,
        None => match lookup(c.threads@, "main"@) {
            Some(m) => m.cwd@,
            None => "~"@,
        },
    }
}

/// The reply style of a thread: its own, else that of `main`, else the default style.
pub open spec fn thread_style(c: AppConfig, thread: Seq<char>) -> ReplyStyle {
    match lookup(c.threads@, thread) {
        Some(t) => t.reply_style,
        None => match lookup(c.threads@, "main"@) {
            Some(m) => m.reply_style,
            None => ReplyStyle::Normal,
        },
    }
}

/// A connector's standard output, trimmed; refused when nothing is left.
pub fn connector_stdout(stdout: &str) -> (r: Result<String, ConnectorError>)
    ensures
        is_blank(stdout@) ==> (r matches Err(ConnectorError::EmptyStdout)),
        !is_blank(stdout@) ==> (r matches Ok(t) && t@ == trim(stdout@)),
{
    if is_blank_str(stdout) {
        Err(ConnectorError::EmptyStdout)
    } else {
        Ok(trim_str(stdout))
    }
}

/// Whether a trimmed line looks like a JSON object.
pub open spec fn json_object_line(l: Seq<char>) -> bool {
    has_prefix(l, "{"@) && has_suffix(l, "}"@)
}

/// The last line, trimmed, that looks like a JSON object.
pub open spec fn last_json_line_of(ls: Seq<Seq<char>>) -> Option<Seq<char>>
    decreases ls.len(),
{
    if ls.len() == 0 {
        None
    } else if json_object_line(trim(ls.last())) {
        Some(trim(ls.last()))
    } else {
        last_json_line_of(ls.drop_last())
    }
}

/// The response line of output that has log lines before it: the last line, trimmed, that
/// starts with `{` and ends with `}`.
pub fn last_json_line(text: &str) -> (r: Result<String, ConnectorError>)
    ensures
        match last_json_line_of(lines(text@)) {
            Some(l) => r matches Ok(t) && t@ == l,
            None => r matches Err(ConnectorError::NoJsonResponse),
        },
{
    let ls = lines_of(text);
    let ghost lv = views(ls@);
    let mut i = ls.len();
    assert(lv.take(i as int) =~= lv);
    while i > 0
        invariant
            i <= ls.len(),
            lv == views(ls@),
            lv == lines(text@),
            last_json_line_of(lv) == last_json_line_of(lv.take(i as int)),
        decreases i,
    {
        let t = trim_str(ls[i - 1].as_str());
        proof {
            assert(lv.take(i as int).last() == ls@[i - 1]@);
            assert(lv.take(i as int).drop_last() =~= lv.take(i - 1));
        }
        if starts_with(t.as_str(), "{") && ends_with(t.as_str(), "}") {
            return Ok(t);
        }
        i = i - 1;
    }
    Err(ConnectorError::NoJsonResponse)
}

/// The model router's API key never reaches a connector: what a run request carries is
/// fixed by the connector and thread settings and the router's selected provider and model,
/// so two configurations that agree on those (whatever API keys they hold) send the same
/// connector the same working directory, reply style, provider and model.
pub proof fn law_router_settings_stay_out_of_run_requests(
    c1: AppConfig,
    c2: AppConfig,
    thread: Seq<char>,
    env: Seq<(Seq<char>, String)>,
)
    requires
        c1.connectors == c2.connectors,
        c1.threads == c2.threads,
        c1.llm_router.provider == c2.llm_router.provider,
        c1.llm_router.model == c2.llm_router.model,
    ensures
        selected_connector(c1, thread) == selected_connector(c2, thread),
        lookup(c1.connectors.definitions@, selected_connector(c1, thread)) == lookup(
            c2.connectors.definitions@,
            selected_connector(c2, thread),
        ),
        request_cwd(thread_cwd(c1, thread), env) == request_cwd(thread_cwd(c2, thread), env),
        thread_style(c1, thread) == thread_style(c2, thread),
        c1.llm_router.provider@ == c2.llm_router.provider@,
        c1.llm_router.model@ == c2.llm_router.model@,
{
}

/// A connector that no thread selects and no watching thread uses needs exactly the health
/// and run capabilities.
pub proof fn law_unselected_connector_needs_health_and_run(
    c: AppConfig,
    name: Seq<char>,
    cap: Seq<char>,
)
    requires
        !selects(c, name),
        !watched(c, name),
    ensures
        required_capability(c, name, cap) <==> (cap == "connector.health"@ || cap
            == "connector.run"@),
{
}

/// The default connector must report what the enabled cancel, thread and image features
/// need, besides health and run.
pub proof fn law_default_connector_needs_enabled_feature_capabilities(c: AppConfig)
    ensures
        required_capability(c, c.connectors.default@, "connector.health"@),
        required_capability(c, c.connectors.default@, "connector.run"@),
        c.features.cancel.enabled ==> required_capability(
            c,
            c.connectors.default@,
            "connector.cancel"@,
        ),
        c.features.threads.enabled ==> required_capability(
            c,
            c.connectors.default@,
            "threads.cwd"@,
        ),
        c.features.images.enabled ==> required_capability(
            c,
            c.connectors.default@,
            "attachments.images"@,
        ),
{
}

/// A thread that watches makes the connector it uses require streaming.
pub proof fn law_watching_thread_requires_stream(c: AppConfig, i: int)
    requires
        0 <= i < c.threads@.len(),
        c.threads@[i].1.watch.enabled,
    ensures
        required_capability(
            c,
            thread_connector(c.threads@[i].1, c.connectors.default@),
            "connector.stream"@,
        ),
{
    assert(watched(c, thread_connector(c.threads@[i].1, c.connectors.default@)));
}

/// Turning features off never adds a capability requirement: with the same connectors and
/// threads, whatever the reduced configuration requires, the fuller one requires too.
pub proof fn law_disabling_features_reduces_requirements(
    fuller: AppConfig,
    reduced: AppConfig,
    name: Seq<char>,
    cap: Seq<char>,
)
    requires
        reduced.connectors.default@ == fuller.connectors.default@,
        reduced.threads@ == fuller.threads@,
        reduced.features.cancel.enabled ==> fuller.features.cancel.enabled,
        reduced.features.threads.enabled ==> fuller.features.threads.enabled,
        reduced.features.images.enabled ==> fuller.features.images.enabled,
        required_capability(reduced, name, cap),
    ensures
        required_capability(fuller, name, cap),
{
    if selects(reduced, name) {
        if name != reduced.connectors.default@ {
            let i = choose|i: int|
                0 <= i < reduced.threads@.len() && ((#[trigger] reduced.threads@[i]).1.connector matches Some(n)
                    && n@ == name);
            assert(fuller.threads@[i] == reduced.threads@[i]);
        }
        assert(selects(fuller, name));
    }
    if watched(reduced, name) {
        let i = choose|i: int|
            0 <= i < reduced.threads@.len() && thread_connector(
                (#[trigger] reduced.threads@[i]).1,
                reduced.connectors.default@,
            ) == name && reduced.threads@[i].1.watch.enabled;
        assert(fuller.threads@[i] == reduced.threads@[i]);
        assert(watched(fuller, name));
    }
}

} // verus!

//! Background service definitions: systemd units, launchd property lists, Windows launchers,
//! and redaction of service manager output.
use crate::config::{expand_path, expanded_path};
use crate::env_file::{home_or_dot, EnvVars};
use crate::paths::{joined_path, parent_or_dot, parent_or_dot_of, path_join};
use crate::text::{
    cat, chars_of, contains_seq, contains_str, copy_str, has_suffix, join, join_strings, lines,
    lines_of, split_once, split_once_str, string_of, to_upper, trim, trim_str, upper_str, views,
};
use vstd::prelude::*;

verus! {

/// The service name used when none is given.
pub const DEFAULT_SERVICE_NAME: &'static str = "pocket-harness";

/// What the service runs and where it writes.
#[derive(Debug)]
pub struct ServiceOptions {
    pub config_path: String,
    pub env_file: String,
    pub service_name: String,
    pub binary_path: String,
    pub log_dir: String,
}

/// The service manager in use.
#[derive(Debug, Clone, Copy, PartialEq, Eq, Structural)]
pub enum ServicePlatform {
    SystemdUser,
    Launchd,
    WindowsTask,
}

impl ServiceOptions {
    /// Options for the current user: logs under `~/.pocket-harness/logs`, the given binary
    /// (or `pocket-harness` on the path), and the default service name unless one is given.
    pub fn new(
        config_path: String,
        env_file: String,
        service_name: Option<String>,
        binary_path: Option<String>,
        env: &EnvVars,
    ) -> (o: Self)
        ensures
            o.config_path == config_path,
            o.env_file == env_file,
            o.service_name@ == match service_name {
                Some(n) => n@,
                None => "pocket-harness"@,
            },
            o.binary_path@ == match binary_path {
                Some(b) => b@,
                None => "pocket-harness"@,
            },
            o.log_dir@ == joined_path(
                joined_path(home_or_dot(env@), ".pocket-harness"@),
                "logs"@,
            ),
    {
        let home = match crate::env_file::home_dir(env) {
            Some(h) => h,
            None => copy_str("."),
        };
        let data_dir = path_join(home.as_str(), ".pocket-harness");
        ServiceOptions {
            config_path,
            env_file,
            service_name: match service_name {
                Some(n) => n,
                None => copy_str(DEFAULT_SERVICE_NAME),
            },
            binary_path: match binary_path {
                Some(b) => b,
                None => copy_str("pocket-harness"),
            },
            log_dir: path_join(data_dir.as_str(), "logs"),
        }
    }

    /// The arguments the service passes to the binary.
    pub fn command_args(&self) -> (r: Vec<String>)
        ensures
            views(r@) == command_args_of(*self),
    {
        let r = vec![
            copy_str("--env-file"),
            self.env_file.clone(),
            copy_str("--config"),
            self.config_path.clone(),
            copy_str("telegram"),
        ];
        assert(views(r@) =~= command_args_of(*self));
        r
    }
}

/// The arguments the service passes to the binary.
pub open spec fn command_args_of(o: ServiceOptions) -> Seq<Seq<char>> {
    seq!["--env-file"@, o.env_file@, "--config"@, o.config_path@, "telegram"@]
}

/// The service manager for a platform: launchd on macOS, scheduled tasks on Windows, and
/// user systemd elsewhere when `systemctl` is on the path.
pub fn detect_platform(is_macos: bool, is_windows: bool, has_systemctl: bool) -> (r: Option<
    ServicePlatform,
>)
    ensures
        r == if is_macos {
            Some(ServicePlatform::Launchd)
        } else if is_windows {
            Some(ServicePlatform::WindowsTask)
        } else if has_systemctl {
            Some(ServicePlatform::SystemdUser)
        } else {
            None
        },
{
    if is_macos {
        Some(ServicePlatform::Launchd)
    } else if is_windows {
        Some(ServicePlatform::WindowsTask)
    } else if has_systemctl {
        Some(ServicePlatform::SystemdUser)
    } else {
        None
    }
}

/// Characters that need no shell quoting.
pub open spec fn shell_safe_char(c: char) -> bool {
    ('a' <= c && c <= 'z') || ('A' <= c && c <= 'Z') || ('0' <= c && c <= '9') || c == '/' || c
        == '.' || c == '_' || c == '-' || c == ':' || c == '=' || c == '+'
}

/// `s` with each `'` written as `'\''`.
pub open spec fn quote_single_quotes(s: Seq<char>) -> Seq<char>
    decreases s.len(),
{
    if s.len() == 0 {
        s
    } else {
        quote_single_quotes(s.drop_last()) + if s.last() == '\'' {
            "'\\''"@
        } else {
            seq![s.last()]
        }
    }
}

/// A word for a POSIX shell: unchanged when every character is safe, otherwise in single
/// quotes with inner single quotes escaped.
pub open spec fn shell_escaped(s: Seq<char>) -> Seq<char> {
    if forall|i: int| 0 <= i < s.len() ==> shell_safe_char(#[trigger] s[i]) {
        s
    } else {
        "'"@ + quote_single_quotes(s) + "'"@
    }
}

/// Quotes a word for a POSIX shell.
pub fn shell_escape(value: &str) -> (r: String)
    ensures
        r@ == shell_escaped(value@),
{
    let v = chars_of(value);
    let mut safe = true;
    let mut i: usize = 0;
    while i < v.len()
        invariant
            i <= v.len(),
            v@ == value@,
            safe == forall|j: int| 0 <= j < i ==> shell_safe_char(#[trigger] v@[j]),
        decreases v.len() - i,
    {
        let c = v[i];
        let ok = ('a' <= c && c <= 'z') || ('A' <= c && c <= 'Z') || ('0' <= c && c <= '9') || c
            == '/' || c == '.' || c == '_' || c == '-' || c == ':' || c == '=' || c == '+';
        if !ok {
            safe = false;
        }
        i = i + 1;
    }
    if safe {
        return copy_str(value);
    }
    let mut out = copy_str("'");
    let mut k: usize = 0;
    proof {
        reveal_strlit("'");
    }
    while k < v.len()
        invariant
            k <= v.len(),
            v@ == value@,
            out@ == "'"@ + quote_single_quotes(v@.take(k as int)),
        decreases v.len() - k,
    {
        if v[k] == '\'' {
            out.append("'\\''");
        } else {
            out.push(v[k]);
        }
        proof {
            assert(v@.take(k + 1).drop_last() == v@.take(k as int));
        }
        k = k + 1;
    }
    assert(v@.take(v.len() as int) == v@);
    out.append("'");
    out
}

/// Shell words joined by spaces.
pub open spec fn shell_joined(args: Seq<Seq<char>>) -> Seq<char> {
    join(args.map_values(|a: Seq<char>| shell_escaped(a)), " "@)
}

/// Quotes each argument and joins them with spaces.
pub fn shell_join(args: &Vec<String>) -> (r: String)
    ensures
        r@ == shell_joined(views(args@)),
{
    let mut escaped: Vec<String> = Vec::new();
    let mut i: usize = 0;
    while i < args.len()
        invariant
            i <= args.len(),
            escaped.len() == i,
            forall|j: int| 0 <= j < i ==> #[trigger] escaped@[j]@ == shell_escaped(args@[j]@),
        decreases args.len() - i,
    {
        escaped.push(shell_escape(args[i].as_str()));
        i = i + 1;
    }
    assert(views(escaped@) =~= views(args@).map_values(|a: Seq<char>| shell_escaped(a)));
    join_strings(&escaped, " ")
}

/// The XML escape of one character.
pub open spec fn xml_char(c: char) -> Seq<char> {
    if c == '&' {
        "&amp;"@
    } else if c == '<' {
        "&lt;"@
    } else if c == '>' {
        "&gt;"@
    } else if c == '"' {
        "&quot;"@
    } else if c == '\'' {
        "&apos;"@
    } else {
        seq![c]
    }
}

/// Text with `&`, `<`, `>`, `"` and `'` replaced by XML entities.
pub open spec fn xml_escaped(s: Seq<char>) -> Seq<char>
    decreases s.len(),
{
    if s.len() == 0 {
        s
    } else {
        xml_escaped(s.drop_last()) + xml_char(s.last())
    }
}

/// Escapes text for XML.
pub fn xml_escape(value: &str) -> (r: String)
    ensures
        r@ == xml_escaped(value@),
{
    let v = chars_of(value);
    let mut out = String::new();
    let mut k: usize = 0;
    while k < v.len()
        invariant
            k <= v.len(),
            v@ == value@,
            out@ == xml_escaped(v@.take(k as int)),
        decreases v.len() - k,
    {
        let c = v[k];
        if c == '&' {
            out.append("&amp;");
        } else if c == '<' {
            out.append("&lt;");
        } else if c == '>' {
            out.append("&gt;");
        } else if c == '"' {
            out.append("&quot;");
        } else if c == '\'' {
            out.append("&apos;");
        } else {
            out.push(c);
        }
        proof {
            assert(v@.take(k + 1).drop_last() == v@.take(k as int));
        }
        k = k + 1;
    }
    assert(v@.take(v.len() as int) == v@);
    out
}

/// Escaped text holds no raw markup characters.
pub proof fn law_xml_escape_has_no_markup(s: Seq<char>)
    ensures
        forall|i: int|
            0 <= i < xml_escaped(s).len() ==> #[trigger] xml_escaped(s)[i] != '<'
                && xml_escaped(s)[i] != '>' && xml_escaped(s)[i] != '"' && xml_escaped(s)[i]
                != '\'',
    decreases s.len(),
{
    reveal_strlit("&amp;");
    reveal_strlit("&lt;");
    reveal_strlit("&gt;");
    reveal_strlit("&quot;");
    reveal_strlit("&apos;");
    if s.len() > 0 {
        law_xml_escape_has_no_markup(s.drop_last());
        let p = xml_escaped(s.drop_last());
        let q = xml_char(s.last());
        assert forall|i: int| 0 <= i < xml_escaped(s).len() implies #[trigger] xml_escaped(s)[i]
            != '<' && xml_escaped(s)[i] != '>' && xml_escaped(s)[i] != '"' && xml_escaped(s)[i]
            != '\'' by {
            if i >= p.len() {
                assert(xml_escaped(s)[i] == q[i - p.len()]);
            } else {
                assert(xml_escaped(s)[i] == p[i]);
            }
        }
    }
}

/// `s` with each `-` replaced by `.`.
pub open spec fn dashes_to_dots(s: Seq<char>) -> Seq<char> {
    s.map_values(|c: char| if c == '-' { '.' } else { c })
}

/// The systemd unit file name.
pub fn unit_name(options: &ServiceOptions) -> (r: String)
    ensures
        r@ == options.service_name@ + ".service"@,
{
    cat(options.service_name.as_str(), ".service")
}

/// The launchd label: `com.pocketharness.` and the service name with dashes as dots.
pub fn launchd_label(options: &ServiceOptions) -> (r: String)
    ensures
        r@ == "com.pocketharness."@ + dashes_to_dots(options.service_name@),
{
    let v = chars_of(options.service_name.as_str());
    let mut out = copy_str("com.pocketharness.");
    let mut k: usize = 0;
    while k < v.len()
        invariant
            k <= v.len(),
            v@ == options.service_name@,
            out@ == "com.pocketharness."@ + dashes_to_dots(v@.take(k as int)),
        decreases v.len() - k,
    {
        if v[k] == '-' {
            out.push('.');
        } else {
            out.push(v[k]);
        }
        assert(dashes_to_dots(v@.take(k + 1)) =~= dashes_to_dots(v@.take(k as int)).push(
            if v@[k as int] == '-' {
                '.'
            } else {
                v@[k as int]
            },
        ));
        k = k + 1;
    }
    assert(v@.take(v.len() as int) == v@);
    out
}

/// The systemd user unit path: `~/.config/systemd/user/<name>.service`.
pub fn systemd_unit_path(options: &ServiceOptions, env: &EnvVars) -> (r: String)
    ensures
        r@ == joined_path(
            joined_path(
                joined_path(joined_path(home_or_dot(env@), ".config"@), "systemd"@),
                "user"@,
            ),
            options.service_name@ + ".service"@,
        ),
{
    let home = match crate::env_file::home_dir(env) {
        Some(h) => h,
        None => copy_str("."),
    };
    let a = path_join(home.as_str(), ".config");
    let b = path_join(a.as_str(), "systemd");
    let c = path_join(b.as_str(), "user");
    let name = unit_name(options);
    path_join(c.as_str(), name.as_str())
}

/// The launchd agent path: `~/Library/LaunchAgents/<label>.plist`.
pub fn launchd_plist_path(options: &ServiceOptions, env: &EnvVars) -> (r: String)
    ensures
        r@ == joined_path(
            joined_path(joined_path(home_or_dot(env@), "Library"@), "LaunchAgents"@),
            "com.pocketharness."@ + dashes_to_dots(options.service_name@) + ".plist"@,
        ),
{
    let home = match crate::env_file::home_dir(env) {
        Some(h) => h,
        None => copy_str("."),
    };
    let a = path_join(home.as_str(), "Library");
    let b = path_join(a.as_str(), "LaunchAgents");
    let label = launchd_label(options);
    let file = cat(label.as_str(), ".plist");
    path_join(b.as_str(), file.as_str())
}

/// The Windows launcher script path: `<log dir>/<name>.cmd`.
pub fn windows_launcher_path(options: &ServiceOptions) -> (r: String)
    ensures
        r@ == joined_path(options.log_dir@, options.service_name@ + ".cmd"@),
{
    let file = cat(options.service_name.as_str(), ".cmd");
    path_join(options.log_dir.as_str(), file.as_str())
}

/// The systemd unit text.
pub open spec fn systemd_unit_text(o: ServiceOptions) -> Seq<char> {
    "[Unit]\nDescription=Pocket Harness Telegram gateway\nAfter=network-online.target\nWants=network-online.target\n\n[Service]\nType=simple\nEnvironmentFile="@
        + o.env_file@ + "\nExecStart="@ + o.binary_path@ + " "@ + shell_joined(command_args_of(o))
        + "\nRestart=always\nRestartSec=5\nWorkingDirectory="@ + parent_or_dot(o.config_path@)
        + "\nStandardOutput=append:"@ + joined_path(o.log_dir@, "service.log"@)
        + "\nStandardError=append:"@ + joined_path(o.log_dir@, "service.err.log"@)
        + "\n\n[Install]\nWantedBy=default.target\n"@
}

/// Renders the systemd user unit: it loads the env file and restarts the gateway always.
pub fn render_systemd_unit(options: &ServiceOptions) -> (r: String)
    ensures
        r@ == systemd_unit_text(*options),
{
    let args = shell_join(&options.command_args());
    let workdir = parent_or_dot_of(options.config_path.as_str());
    let stdout = path_join(options.log_dir.as_str(), "service.log");
    let stderr = path_join(options.log_dir.as_str(), "service.err.log");
    let mut s = copy_str(
        "[Unit]\nDescription=Pocket Harness Telegram gateway\nAfter=network-online.target\nWants=network-online.target\n\n[Service]\nType=simple\nEnvironmentFile=",
    );
    s.append(options.env_file.as_str());
    s.append("\nExecStart=");
    s.append(options.binary_path.as_str());
    s.append(" ");
    s.append(args.as_str());
    s.append("\nRestart=always\nRestartSec=5\nWorkingDirectory=");
    s.append(workdir.as_str());
    s.append("\nStandardOutput=append:");
    s.append(stdout.as_str());
    s.append("\nStandardError=append:");
    s.append(stderr.as_str());
    s.append("\n\n[Install]\nWantedBy=default.target\n");
    s
}

/// The launchd environment entry that points at the env file.
pub open spec fn launchd_env_vars_text(env_file: Seq<char>) -> Seq<char> {
    "    <key>POCKET_HARNESS_ENV_FILE</key>\n    <string>"@ + xml_escaped(env_file) + "</string>"@
}

/// The launchd environment entries: only the env file's path, never its contents.
pub fn render_launchd_env_vars(env_file: &str) -> (r: String)
    ensures
        r@ == launchd_env_vars_text(env_file@),
{
    let mut s = copy_str("    <key>POCKET_HARNESS_ENV_FILE</key>\n    <string>");
    let e = xml_escape(env_file);
    s.append(e.as_str());
    s.append("</string>");
    s
}

/// One `<string>` element of the program arguments.
pub open spec fn plist_arg(a: Seq<char>) -> Seq<char> {
    "    <string>"@ + xml_escaped(a) + "</string>"@
}

/// The program arguments of the launchd job: the binary, then the command arguments.
pub open spec fn plist_args_text(o: ServiceOptions) -> Seq<char> {
    join(
        (seq![o.binary_path@] + command_args_of(o)).map_values(|a: Seq<char>| plist_arg(a)),
        "\n"@,
    )
}

/// The launchd property list text.
pub open spec fn launchd_plist_text(o: ServiceOptions) -> Seq<char> {
    "<?xml version=\"1.0\" encoding=\"UTF-8\"?>\n<!DOCTYPE plist PUBLIC \"-//Apple//DTD PLIST 1.0//EN\" \"http://www.apple.com/DTDs/PropertyList-1.0.dtd\">\n<plist version=\"1.0\">\n<dict>\n  <key>Label</key>\n  <string>"@
        + "com.pocketharness."@ + dashes_to_dots(o.service_name@)
        + "</string>\n  <key>ProgramArguments</key>\n  <array>\n"@ + plist_args_text(o)
        + "\n  </array>\n  <key>EnvironmentVariables</key>\n  <dict>\n"@
        + launchd_env_vars_text(o.env_file@)
        + "\n  </dict>\n  <key>RunAtLoad</key>\n  <true/>\n  <key>KeepAlive</key>\n  <true/>\n  <key>WorkingDirectory</key>\n  <string>"@
        + xml_escaped(parent_or_dot(o.config_path@))
        + "</string>\n  <key>StandardOutPath</key>\n  <string>"@ + xml_escaped(
        joined_path(o.log_dir@, "service.log"@),
    ) + "</string>\n  <key>StandardErrorPath</key>\n  <string>"@ + xml_escaped(
        joined_path(o.log_dir@, "service.err.log"@),
    ) + "</string>\n</dict>\n</plist>\n"@
}

/// Text placed between two others occurs in the whole.
proof fn lemma_occurs_between(a: Seq<char>, x: Seq<char>, b: Seq<char>)
    ensures
        contains_seq(a + x + b, x),
{
    assert((a + x + b).subrange(a.len() as int, (a.len() + x.len()) as int) =~= x);
    assert(crate::text::occurs_at(a + x + b, x, a.len() as int));
}

/// The launchd agent names the env file by its (escaped) path and is kept alive; it is a
/// function of the service options alone, so the env file's contents, read by the program at
/// start-up, never appear in it.
pub proof fn law_launchd_plist_names_env_file_only_by_path(o: ServiceOptions)
    ensures
        contains_seq(
            launchd_plist_text(o),
            "    <key>POCKET_HARNESS_ENV_FILE</key>\n    <string>"@ + xml_escaped(o.env_file@)
                + "</string>"@,
        ),
        contains_seq(launchd_plist_text(o), "<key>KeepAlive</key>"@),
{
    let t = launchd_plist_text(o);
    let env = launchd_env_vars_text(o.env_file@);
    let head = "<?xml version=\"1.0\" encoding=\"UTF-8\"?>\n<!DOCTYPE plist PUBLIC \"-//Apple//DTD PLIST 1.0//EN\" \"http://www.apple.com/DTDs/PropertyList-1.0.dtd\">\n<plist version=\"1.0\">\n<dict>\n  <key>Label</key>\n  <string>"@
        + "com.pocketharness."@ + dashes_to_dots(o.service_name@)
        + "</string>\n  <key>ProgramArguments</key>\n  <array>\n"@ + plist_args_text(o)
        + "\n  </array>\n  <key>EnvironmentVariables</key>\n  <dict>\n"@;
    let mid = "\n  </dict>\n  <key>RunAtLoad</key>\n  <true/>\n  <key>KeepAlive</key>\n  <true/>\n  <key>WorkingDirectory</key>\n  <string>"@;
    let tail = xml_escaped(parent_or_dot(o.config_path@))
        + "</string>\n  <key>StandardOutPath</key>\n  <string>"@ + xml_escaped(
        joined_path(o.log_dir@, "service.log"@),
    ) + "</string>\n  <key>StandardErrorPath</key>\n  <string>"@ + xml_escaped(
        joined_path(o.log_dir@, "service.err.log"@),
    ) + "</string>\n</dict>\n</plist>\n"@;
    assert(t =~= head + env + (mid + tail));
    lemma_occurs_between(head, env, mid + tail);
    reveal_strlit("\n  </dict>\n  <key>RunAtLoad</key>\n  <true/>\n  <key>KeepAlive</key>\n  <true/>\n  <key>WorkingDirectory</key>\n  <string>");
    reveal_strlit("<key>KeepAlive</key>");
    let key = "<key>KeepAlive</key>"@;
    let pre = mid.subrange(0, 46);
    assert(mid.subrange(46, 66) =~= key);
    assert(mid =~= pre + key + mid.subrange(66, mid.len() as int));
    assert(t =~= (head + env + pre) + key + (mid.subrange(66, mid.len() as int) + tail));
    lemma_occurs_between(head + env + pre, key, mid.subrange(66, mid.len() as int) + tail);
}

/// Renders the launchd agent: kept alive, started at load, env file by path only.
pub fn render_launchd_plist(options: &ServiceOptions) -> (r: String)
    ensures
        r@ == launchd_plist_text(*options),
{
    let mut program_args: Vec<String> = vec![options.binary_path.clone()];
    let mut rest = options.command_args();
    program_args.append(&mut rest);
    let ghost all = seq![options.binary_path@] + command_args_of(*options);
    assert(views(program_args@) =~= all);
    let mut items: Vec<String> = Vec::new();
    let mut i: usize = 0;
    while i < program_args.len()
        invariant
            i <= program_args.len(),
            views(program_args@) == all,
            items.len() == i,
            forall|j: int| 0 <= j < i ==> #[trigger] items@[j]@ == plist_arg(all[j]),
        decreases program_args.len() - i,
    {
        let mut item = copy_str("    <string>");
        let e = xml_escape(program_args[i].as_str());
        item.append(e.as_str());
        item.append("</string>");
        proof {
            assert(all[i as int] == program_args@[i as int]@);
        }
        items.push(item);
        i = i + 1;
    }
    assert(views(items@) =~= all.map_values(|a: Seq<char>| plist_arg(a)));
    let args = join_strings(&items, "\n");
    let label = launchd_label(options);
    let env_vars = render_launchd_env_vars(options.env_file.as_str());
    let workdir = xml_escape(parent_or_dot_of(options.config_path.as_str()).as_str());
    let stdout = xml_escape(path_join(options.log_dir.as_str(), "service.log").as_str());
    let stderr = xml_escape(path_join(options.log_dir.as_str(), "service.err.log").as_str());
    let mut s = copy_str(
        "<?xml version=\"1.0\" encoding=\"UTF-8\"?>\n<!DOCTYPE plist PUBLIC \"-//Apple//DTD PLIST 1.0//EN\" \"http://www.apple.com/DTDs/PropertyList-1.0.dtd\">\n<plist version=\"1.0\">\n<dict>\n  <key>Label</key>\n  <string>",
    );
    s.append(label.as_str());
    s.append("</string>\n  <key>ProgramArguments</key>\n  <array>\n");
    s.append(args.as_str());
    s.append("\n  </array>\n  <key>EnvironmentVariables</key>\n  <dict>\n");
    s.append(env_vars.as_str());
    s.append(
        "\n  </dict>\n  <key>RunAtLoad</key>\n  <true/>\n  <key>KeepAlive</key>\n  <true/>\n  <key>WorkingDirectory</key>\n  <string>",
    );
    s.append(workdir.as_str());
    s.append("</string>\n  <key>StandardOutPath</key>\n  <string>");
    s.append(stdout.as_str());
    s.append("</string>\n  <key>StandardErrorPath</key>\n  <string>");
    s.append(stderr.as_str());
    s.append("</string>\n</dict>\n</plist>\n");
    s
}

/// The Windows launcher script text.
pub open spec fn windows_launcher_text(o: ServiceOptions) -> Seq<char> {
    "@echo off\r\nsetlocal\r\nif exist \""@ + o.env_file@
        + "\" for /f \"usebackq tokens=1,* delims==\" %%A in (\""@ + o.env_file@
        + "\") do set \"%%A=%%B\"\r\n\""@ + o.binary_path@ + "\" "@ + shell_joined(
        command_args_of(o),
    ) + "\r\n"@
}

/// Renders the Windows launcher: it loads the env file's `KEY=value` lines, then runs the
/// gateway.
pub fn render_windows_launcher(options: &ServiceOptions) -> (r: String)
    ensures
        r@ == windows_launcher_text(*options),
{
    let args = shell_join(&options.command_args());
    let mut s = copy_str("@echo off\r\nsetlocal\r\nif exist \"");
    s.append(options.env_file.as_str());
    s.append("\" for /f \"usebackq tokens=1,* delims==\" %%A in (\"");
    s.append(options.env_file.as_str());
    s.append("\") do set \"%%A=%%B\"\r\n\"");
    s.append(options.binary_path.as_str());
    s.append("\" ");
    s.append(args.as_str());
    s.append("\r\n");
    s
}

/// Whether a variable name looks secret: it mentions a token, API key, secret or password.
pub open spec fn secret_key(key: Seq<char>) -> bool {
    let u = upper_str(key);
    contains_seq(u, "TOKEN"@) || contains_seq(u, "API_KEY"@) || contains_seq(u, "SECRET"@)
        || contains_seq(u, "PASSWORD"@)
}

/// Whether a variable name looks secret.
pub fn is_secret_key(key: &str) -> (b: bool)
    ensures
        b == secret_key(key@),
{
    let upper = to_upper(key);
    contains_str(upper.as_str(), "TOKEN") || contains_str(upper.as_str(), "API_KEY")
        || contains_str(upper.as_str(), "SECRET") || contains_str(upper.as_str(), "PASSWORD")
}

/// One line of service output with a secret `NAME => value` value hidden.
pub open spec fn redact_line(line: Seq<char>) -> Seq<char> {
    match split_once(line, "=>"@) {
        Some((left, _)) => if secret_key(trim(left)) {
            left + "=> [redacted]"@
        } else {
            line
        },
        None => line,
    }
}

/// Service output with every secret value hidden, line by line, keeping a final newline.
pub open spec fn redacted(text: Seq<char>) -> Seq<char> {
    join(lines(text).map_values(|l: Seq<char>| redact_line(l)), "\n"@) + if has_suffix(
        text,
        "\n"@,
    ) {
        "\n"@
    } else {
        Seq::empty()
    }
}

/// Hides the values of secret-looking `NAME => value` lines.
pub fn redact_secrets(text: &str) -> (r: String)
    ensures
        r@ == redacted(text@),
{
    let ls = lines_of(text);
    let ghost lv = views(ls@);
    let mut out: Vec<String> = Vec::new();
    let mut i: usize = 0;
    while i < ls.len()
        invariant
            i <= ls.len(),
            lv == views(ls@),
            lv == lines(text@),
            out.len() == i,
            forall|j: int| 0 <= j < i ==> #[trigger] out@[j]@ == redact_line(lv[j]),
        decreases ls.len() - i,
    {
        let line = &ls[i];
        proof {
            assert(lv[i as int] == line@);
        }
        let redacted_line = match split_once_str(line.as_str(), "=>") {
            Some((left, _right)) => {
                let key = trim_str(left.as_str());
                if is_secret_key(key.as_str()) {
                    cat(left.as_str(), "=> [redacted]")
                } else {
                    line.clone()
                }
            },
            None => line.clone(),
        };
        out.push(redacted_line);
        i = i + 1;
    }
    assert(views(out@) =~= lv.map_values(|l: Seq<char>| redact_line(l)));
    let joined = join_strings(&out, "\n");
    if crate::text::ends_with(text, "\n") {
        cat(joined.as_str(), "\n")
    } else {
        proof {
            assert(joined@ + Seq::<char>::empty() == joined@);
        }
        joined
    }
}

/// Expands environment references and `~` in a path given to the service commands.
pub fn expand_service_path(raw: &str, env: &EnvVars) -> (r: String)
    ensures
        r@ == expanded_path(raw@, env@),
{
    expand_path(raw, env)
}

/// What the service commands do.
#[derive(Debug, Clone, Copy, PartialEq, Eq, Structural)]
pub enum ServiceAction {
    Install,
    Uninstall,
    Start,
    Stop,
    Restart,
    Status,
}

/// How a service manager command's outcome is treated.
#[derive(Debug, Clone, Copy, PartialEq, Eq, Structural)]
pub enum CommandCheck {
    /// A failure stops the action.
    MustSucceed,
    /// A failure is ignored.
    AllowFail,
    /// A failure stops the action, and secret values are hidden in what it prints.
    Redacted,
}

/// One step of a service action.
#[derive(Debug)]
pub enum ServiceStep {
    CreateDir(String),
    WriteFile(String, String),
    RemoveFile(String),
    Run(String, Vec<String>, CommandCheck),
}

/// One step of a service action, as text.
#[verifier::ext_equal]
pub enum StepView {
    CreateDir(Seq<char>),
    WriteFile(Seq<char>, Seq<char>),
    RemoveFile(Seq<char>),
    Run(Seq<char>, Seq<Seq<char>>, CommandCheck),
}

impl ServiceStep {
    /// The step, as text.
    pub open spec fn view(self) -> StepView {
        match self {
            ServiceStep::CreateDir(p) => StepView::CreateDir(p@),
            ServiceStep::WriteFile(p, t) => StepView::WriteFile(p@, t@),
            ServiceStep::RemoveFile(p) => StepView::RemoveFile(p@),
            ServiceStep::Run(prog, args, check) => StepView::Run(prog@, views(args@), check),
        }
    }
}

/// Steps, as text.
pub open spec fn step_views(s: Seq<ServiceStep>) -> Seq<StepView> {
    s.map_values(|x: ServiceStep| x@)
}

/// The systemd unit path for an environment.
pub open spec fn unit_path_of(o: ServiceOptions, env: Seq<(Seq<char>, String)>) -> Seq<char> {
    joined_path(
        joined_path(joined_path(joined_path(home_or_dot(env), ".config"@), "systemd"@), "user"@),
        o.service_name@ + ".service"@,
    )
}

/// The launchd agent path for an environment.
pub open spec fn plist_path_of(o: ServiceOptions, env: Seq<(Seq<char>, String)>) -> Seq<char> {
    joined_path(
        joined_path(joined_path(home_or_dot(env), "Library"@), "LaunchAgents"@),
        "com.pocketharness."@ + dashes_to_dots(o.service_name@) + ".plist"@,
    )
}

/// The launchd service target: the domain and the label.
pub open spec fn launchd_target_of(o: ServiceOptions, domain: Seq<char>) -> Seq<char> {
    domain + "/"@ + "com.pocketharness."@ + dashes_to_dots(o.service_name@)
}

/// The steps that stop the service, with the given treatment of failure.
pub open spec fn stop_steps(
    o: ServiceOptions,
    platform: ServicePlatform,
    domain: Seq<char>,
    check: CommandCheck,
) -> Seq<StepView> {
    match platform {
        ServicePlatform::SystemdUser => seq![
            StepView::Run("systemctl"@, seq!["--user"@, "stop"@, o.service_name@ + ".service"@], check),
        ],
        ServicePlatform::Launchd => seq![
            StepView::Run("launchctl"@, seq!["kill"@, "TERM"@, launchd_target_of(o, domain)], check),
        ],
        ServicePlatform::WindowsTask => seq![
            StepView::Run("schtasks"@, seq!["/End"@, "/TN"@, o.service_name@], check),
        ],
    }
}

/// The steps that start the service.
pub open spec fn start_steps(o: ServiceOptions, platform: ServicePlatform, domain: Seq<char>) -> Seq<
    StepView,
> {
    match platform {
        ServicePlatform::SystemdUser => seq![
            StepView::Run(
                "systemctl"@,
                seq!["--user"@, "start"@, o.service_name@ + ".service"@],
                CommandCheck::MustSucceed,
            ),
        ],
        ServicePlatform::Launchd => seq![
            StepView::Run(
                "launchctl"@,
                seq!["kickstart"@, "-k"@, launchd_target_of(o, domain)],
                CommandCheck::MustSucceed,
            ),
        ],
        ServicePlatform::WindowsTask => seq![
            StepView::Run(
                "schtasks"@,
                seq!["/Run"@, "/TN"@, o.service_name@],
                CommandCheck::MustSucceed,
            ),
        ],
    }
}

/// The steps of a service action on a platform. `domain` is the launchd user domain
/// (`gui/<uid>`). Installing creates the log directory, writes the definition and enables
/// the service; uninstalling disables it (ignoring failure) and removes the definition;
/// restarting outside systemd stops (ignoring failure) and starts.
pub open spec fn service_steps_of(
    action: ServiceAction,
    platform: ServicePlatform,
    o: ServiceOptions,
    env: Seq<(Seq<char>, String)>,
    domain: Seq<char>,
) -> Seq<StepView> {
    let unit = o.service_name@ + ".service"@;
    let target = launchd_target_of(o, domain);
    match action {
        ServiceAction::Install => seq![StepView::CreateDir(o.log_dir@)] + match platform {
            ServicePlatform::SystemdUser => seq![
                StepView::WriteFile(unit_path_of(o, env), systemd_unit_text(o)),
                StepView::Run("systemctl"@, seq!["--user"@, "daemon-reload"@], CommandCheck::MustSucceed),
                StepView::Run(
                    "systemctl"@,
                    seq!["--user"@, "enable"@, "--now"@, unit],
                    CommandCheck::MustSucceed,
                ),
            ],
            ServicePlatform::Launchd => seq![
                StepView::WriteFile(plist_path_of(o, env), launchd_plist_text(o)),
                StepView::Run("launchctl"@, seq!["bootout"@, target], CommandCheck::AllowFail),
                StepView::Run(
                    "launchctl"@,
                    seq!["bootout"@, domain, plist_path_of(o, env)],
                    CommandCheck::AllowFail,
                ),
                StepView::Run(
                    "launchctl"@,
                    seq!["bootstrap"@, domain, plist_path_of(o, env)],
                    CommandCheck::MustSucceed,
                ),
                StepView::Run("launchctl"@, seq!["enable"@, target], CommandCheck::MustSucceed),
                StepView::Run(
                    "launchctl"@,
                    seq!["kickstart"@, "-k"@, target],
                    CommandCheck::MustSucceed,
                ),
            ],
            ServicePlatform::WindowsTask => seq![
                StepView::WriteFile(
                    joined_path(o.log_dir@, o.service_name@ + ".cmd"@),
                    windows_launcher_text(o),
                ),
                StepView::Run(
                    "schtasks"@,
                    seq![
                        "/Create"@,
                        "/TN"@,
                        o.service_name@,
                        "/SC"@,
                        "ONLOGON"@,
                        "/TR"@,
                        joined_path(o.log_dir@, o.service_name@ + ".cmd"@),
                        "/F"@,
                    ],
                    CommandCheck::MustSucceed,
                ),
                StepView::Run(
                    "schtasks"@,
                    seq!["/Run"@, "/TN"@, o.service_name@],
                    CommandCheck::MustSucceed,
                ),
            ],
        },
        ServiceAction::Uninstall => match platform {
            ServicePlatform::SystemdUser => seq![
                StepView::Run(
                    "systemctl"@,
                    seq!["--user"@, "disable"@, "--now"@, unit],
                    CommandCheck::AllowFail,
                ),
                StepView::RemoveFile(unit_path_of(o, env)),
                StepView::Run("systemctl"@, seq!["--user"@, "daemon-reload"@], CommandCheck::AllowFail),
            ],
            ServicePlatform::Launchd => seq![
                StepView::Run(
                    "launchctl"@,
                    seq!["bootout"@, domain, plist_path_of(o, env)],
                    CommandCheck::AllowFail,
                ),
                StepView::Run("launchctl"@, seq!["disable"@, target], CommandCheck::AllowFail),
                StepView::RemoveFile(plist_path_of(o, env)),
            ],
            ServicePlatform::WindowsTask => seq![
                StepView::Run(
                    "schtasks"@,
                    seq!["/Delete"@, "/TN"@, o.service_name@, "/F"@],
                    CommandCheck::AllowFail,
                ),
                StepView::RemoveFile(joined_path(o.log_dir@, o.service_name@ + ".cmd"@)),
            ],
        },
        ServiceAction::Start => start_steps(o, platform, domain),
        ServiceAction::Stop => stop_steps(o, platform, domain, CommandCheck::MustSucceed),
        ServiceAction::Restart => match platform {
            ServicePlatform::SystemdUser => seq![
                StepView::Run(
                    "systemctl"@,
                    seq!["--user"@, "restart"@, unit],
                    CommandCheck::MustSucceed,
                ),
            ],
            _ => stop_steps(o, platform, domain, CommandCheck::AllowFail) + start_steps(
                o,
                platform,
                domain,
            ),
        },
        ServiceAction::Status => match platform {
            ServicePlatform::SystemdUser => seq![
                StepView::Run(
                    "systemctl"@,
                    seq!["--user"@, "status"@, "--no-pager"@, unit],
                    CommandCheck::MustSucceed,
                ),
            ],
            ServicePlatform::Launchd => seq![
                StepView::Run("launchctl"@, seq!["print"@, target], CommandCheck::Redacted),
            ],
            ServicePlatform::WindowsTask => seq![
                StepView::Run(
                    "schtasks"@,
                    seq!["/Query"@, "/TN"@, o.service_name@, "/V"@],
                    CommandCheck::MustSucceed,
                ),
            ],
        },
    }
}

/// Why a service action cannot run.
#[derive(Debug, Clone, Copy, PartialEq, Eq, Structural)]
pub enum ServiceError {
    NoServiceManager,
}

impl ServiceError {
    /// The human-readable message for the error.
    pub fn message(&self) -> (m: String)
        ensures
            m@ == "no supported service manager found"@,
    {
        copy_str("no supported service manager found")
    }
}

/// A step that runs a command.
fn run_step(program: &str, args: Vec<&str>, check: CommandCheck) -> (s: ServiceStep)
    ensures
        s@ == StepView::Run(program@, args@.map_values(|a: &str| a@), check),
{
    let mut owned: Vec<String> = Vec::new();
    let mut i: usize = 0;
    while i < args.len()
        invariant
            i <= args.len(),
            owned.len() == i,
            forall|j: int| 0 <= j < i ==> #[trigger] owned@[j]@ == args@[j]@,
        decreases args.len() - i,
    {
        owned.push(copy_str(args[i]));
        i = i + 1;
    }
    assert(views(owned@) =~= args@.map_values(|a: &str| a@));
    ServiceStep::Run(copy_str(program), owned, check)
}

/// The steps that stop the service.
fn stop_plan(options: &ServiceOptions, platform: ServicePlatform, domain: &str, check: CommandCheck) -> (r: Vec<ServiceStep>)
    ensures
        step_views(r@) == stop_steps(*options, platform, domain@, check),
{
    let r = match platform {
        ServicePlatform::SystemdUser => {
            let unit = unit_name(options);
            vec![run_step("systemctl", vec!["--user", "stop", unit.as_str()], check)]
        },
        ServicePlatform::Launchd => {
            let target = launchd_target(options, domain);
            vec![run_step("launchctl", vec!["kill", "TERM", target.as_str()], check)]
        },
        ServicePlatform::WindowsTask => vec![
            run_step("schtasks", vec!["/End", "/TN", options.service_name.as_str()], check),
        ],
    };
    assert(step_views(r@) =~~= stop_steps(*options, platform, domain@, check));
    r
}

/// The steps that start the service.
fn start_plan(options: &ServiceOptions, platform: ServicePlatform, domain: &str) -> (r: Vec<ServiceStep>)
    ensures
        step_views(r@) == start_steps(*options, platform, domain@),
{
    let r = match platform {
        ServicePlatform::SystemdUser => {
            let unit = unit_name(options);
            vec![run_step("systemctl", vec!["--user", "start", unit.as_str()], CommandCheck::MustSucceed)]
        },
        ServicePlatform::Launchd => {
            let target = launchd_target(options, domain);
            vec![run_step("launchctl", vec!["kickstart", "-k", target.as_str()], CommandCheck::MustSucceed)]
        },
        ServicePlatform::WindowsTask => vec![
            run_step(
                "schtasks",
                vec!["/Run", "/TN", options.service_name.as_str()],
                CommandCheck::MustSucceed,
            ),
        ],
    };
    assert(step_views(r@) =~~= start_steps(*options, platform, domain@));
    r
}

/// The launchd service target for a domain.
pub fn launchd_target(options: &ServiceOptions, domain: &str) -> (r: String)
    ensures
        r@ == launchd_target_of(*options, domain@),
{
    let label = launchd_label(options);
    let mut r = cat(domain, "/");
    r.append(label.as_str());
    r
}

/// Plans a service action: refused without a service manager.
pub fn service_plan(
    action: ServiceAction,
    platform: Option<ServicePlatform>,
    options: &ServiceOptions,
    env: &EnvVars,
    domain: &str,
) -> (r: Result<Vec<ServiceStep>, ServiceError>)
    ensures
        match platform {
            None => r == Err::<Vec<ServiceStep>, ServiceError>(ServiceError::NoServiceManager),
            Some(p) => r matches Ok(steps) && step_views(steps@) == service_steps_of(
                action,
                p,
                *options,
                env@,
                domain@,
            ),
        },
{
    let platform = match platform {
        Some(p) => p,
        None => {
            return Err(ServiceError::NoServiceManager);
        },
    };
    let unit = unit_name(options);
    let target = launchd_target(options, domain);
    let name = options.service_name.as_str();
    let steps: Vec<ServiceStep> = match action {
        ServiceAction::Install => {
            let mut steps = vec![ServiceStep::CreateDir(options.log_dir.clone())];
            let mut rest = match platform {
                ServicePlatform::SystemdUser => vec![
                    ServiceStep::WriteFile(
                        systemd_unit_path(options, env),
                        render_systemd_unit(options),
                    ),
                    run_step("systemctl", vec!["--user", "daemon-reload"], CommandCheck::MustSucceed),
                    run_step(
                        "systemctl",
                        vec!["--user", "enable", "--now", unit.as_str()],
                        CommandCheck::MustSucceed,
                    ),
                ],
                ServicePlatform::Launchd => {
                    let path = launchd_plist_path(options, env);
                    vec![
                        ServiceStep::WriteFile(path.clone(), render_launchd_plist(options)),
                        run_step("launchctl", vec!["bootout", target.as_str()], CommandCheck::AllowFail),
                        run_step(
                            "launchctl",
                            vec!["bootout", domain, path.as_str()],
                            CommandCheck::AllowFail,
                        ),
                        run_step(
                            "launchctl",
                            vec!["bootstrap", domain, path.as_str()],
                            CommandCheck::MustSucceed,
                        ),
                        run_step("launchctl", vec!["enable", target.as_str()], CommandCheck::MustSucceed),
                        run_step(
                            "launchctl",
                            vec!["kickstart", "-k", target.as_str()],
                            CommandCheck::MustSucceed,
                        ),
                    ]
                },
                ServicePlatform::WindowsTask => {
                    let path = windows_launcher_path(options);
                    vec![
                        ServiceStep::WriteFile(path.clone(), render_windows_launcher(options)),
                        run_step(
                            "schtasks",
                            vec!["/Create", "/TN", name, "/SC", "ONLOGON", "/TR", path.as_str(), "/F"],
                            CommandCheck::MustSucceed,
                        ),
                        run_step("schtasks", vec!["/Run", "/TN", name], CommandCheck::MustSucceed),
                    ]
                },
            };
            let ghost head = step_views(steps@);
            let ghost tail = step_views(rest@);
            steps.append(&mut rest);
            assert(step_views(steps@) =~= head + tail);
            steps
        },
        ServiceAction::Uninstall => match platform {
            ServicePlatform::SystemdUser => vec![
                run_step(
                    "systemctl",
                    vec!["--user", "disable", "--now", unit.as_str()],
                    CommandCheck::AllowFail,
                ),
                ServiceStep::RemoveFile(systemd_unit_path(options, env)),
                run_step("systemctl", vec!["--user", "daemon-reload"], CommandCheck::AllowFail),
            ],
            ServicePlatform::Launchd => {
                let path = launchd_plist_path(options, env);
                vec![
                    run_step("launchctl", vec!["bootout", domain, path.as_str()], CommandCheck::AllowFail),
                    run_step("launchctl", vec!["disable", target.as_str()], CommandCheck::AllowFail),
                    ServiceStep::RemoveFile(path),
                ]
            },
            ServicePlatform::WindowsTask => vec![
                run_step("schtasks", vec!["/Delete", "/TN", name, "/F"], CommandCheck::AllowFail),
                ServiceStep::RemoveFile(windows_launcher_path(options)),
            ],
        },
        ServiceAction::Start => start_plan(options, platform, domain),
        ServiceAction::Stop => stop_plan(options, platform, domain, CommandCheck::MustSucceed),
        ServiceAction::Restart => match platform {
            ServicePlatform::SystemdUser => vec![
                run_step(
                    "systemctl",
                    vec!["--user", "restart", unit.as_str()],
                    CommandCheck::MustSucceed,
                ),
            ],
            _ => {
                let mut steps = stop_plan(options, platform, domain, CommandCheck::AllowFail);
                let mut rest = start_plan(options, platform, domain);
                let ghost head = step_views(steps@);
                let ghost tail = step_views(rest@);
                steps.append(&mut rest);
                assert(step_views(steps@) =~= head + tail);
                steps
            },
        },
        ServiceAction::Status => match platform {
            ServicePlatform::SystemdUser => vec![
                run_step(
                    "systemctl",
                    vec!["--user", "status", "--no-pager", unit.as_str()],
                    CommandCheck::MustSucceed,
                ),
            ],
            ServicePlatform::Launchd => vec![
                run_step("launchctl", vec!["print", target.as_str()], CommandCheck::Redacted),
            ],
            ServicePlatform::WindowsTask => vec![
                run_step("schtasks", vec!["/Query", "/TN", name, "/V"], CommandCheck::MustSucceed),
            ],
        },
    };
    assert(step_views(steps@) =~~= service_steps_of(action, platform, *options, env@, domain@));
    Ok(steps)
}


/// Stopping the service only stops it. On systemd the plan is the single step `systemctl
/// --user stop <name>.service`, which must succeed; on every platform the stop plan differs
/// from the start plan, and on systemd from the restart plan, so no stop leaves the service
/// started or restarted.
pub proof fn law_stop_plan_only_stops(
    o: ServiceOptions,
    env: Seq<(Seq<char>, String)>,
    domain: Seq<char>,
)
    ensures
        service_steps_of(ServiceAction::Stop, ServicePlatform::SystemdUser, o, env, domain) == seq![
            StepView::Run(
                "systemctl"@,
                seq!["--user"@, "stop"@, o.service_name@ + ".service"@],
                CommandCheck::MustSucceed,
            ),
        ],
        forall|p: ServicePlatform|
            #[trigger] service_steps_of(ServiceAction::Stop, p, o, env, domain) != service_steps_of(
                ServiceAction::Start,
                p,
                o,
                env,
                domain,
            ),
        service_steps_of(ServiceAction::Stop, ServicePlatform::SystemdUser, o, env, domain)
            != service_steps_of(ServiceAction::Restart, ServicePlatform::SystemdUser, o, env, domain),
{
    reveal_strlit("stop");
    reveal_strlit("start");
    reveal_strlit("restart");
    reveal_strlit("kill");
    reveal_strlit("kickstart");
    reveal_strlit("/End");
    reveal_strlit("/Run");
    assert("stop"@.len() == 4 && "start"@.len() == 5 && "restart"@.len() == 7);
    assert("kill"@.len() == 4 && "kickstart"@.len() == 9);
    assert("/End"@[1] == 'E' && "/Run"@[1] == 'R');
    assert forall|p: ServicePlatform|
        #[trigger] service_steps_of(ServiceAction::Stop, p, o, env, domain) != service_steps_of(
            ServiceAction::Start,
            p,
            o,
            env,
            domain,
        ) by {
        let a = service_steps_of(ServiceAction::Stop, p, o, env, domain);
        let b = service_steps_of(ServiceAction::Start, p, o, env, domain);
        match (a[0], b[0]) {
            (StepView::Run(_, x, _), StepView::Run(_, y, _)) => {
                match p {
                    ServicePlatform::SystemdUser => assert(x[1] != y[1]),
                    ServicePlatform::Launchd => assert(x[0] != y[0]),
                    ServicePlatform::WindowsTask => assert(x[0] != y[0]),
                }
            },
            _ => {},
        }
    }
    let a = service_steps_of(ServiceAction::Stop, ServicePlatform::SystemdUser, o, env, domain);
    let b = service_steps_of(ServiceAction::Restart, ServicePlatform::SystemdUser, o, env, domain);
    match (a[0], b[0]) {
        (StepView::Run(_, x, _), StepView::Run(_, y, _)) => assert(x[1] != y[1]),
        _ => {},
    }
}

} // verus!

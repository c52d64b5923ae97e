//! Local tools driven from chat: natural-language requests, tool calls and their checks,
//! terminal session bookkeeping, and the shaping of command output.
use crate::config::{data_dir_of, expand_path, expanded_path, AppConfig};
use crate::connector::{request_cwd, thread_cwd};
use crate::env_file::EnvVars;
use crate::paths::{absolute_path, file_name_of, joined_path, path_file_name, path_is_absolute, path_join};
use crate::text::{
    cat, chars_of, contains_seq, contains_str, copy_str, decimal, has_prefix, is_blank,
    is_blank_str, join, join_strings, lines, lines_of, lower, lower_char, lower_str,
    starts_with, str_eq, str_less, str_lt, string_of_range, to_lower, trim, trim_end, trim_end_str, trim_str,
    u64_to_decimal, views,
};
use vstd::prelude::*;

verus! {

/// The local tools a call can name.
#[derive(Debug, Clone, Copy, PartialEq, Eq, Structural)]
pub enum ToolKind {
    Pwd,
    Cd,
    Ls,
    Find,
    Grep,
    Cat,
    Sh,
    Bg,
    TermList,
    TermTail,
    TermKill,
    Sudo,
    SudoBg,
}

/// The tool a name selects.
pub open spec fn tool_kind_of(name: Seq<char>) -> Option<ToolKind> {
    if name == "pwd"@ {
        Some(ToolKind::Pwd)
    } else if name == "cd"@ {
        Some(ToolKind::Cd)
    } else if name == "ls"@ {
        Some(ToolKind::Ls)
    } else if name == "find"@ {
        Some(ToolKind::Find)
    } else if name == "grep"@ {
        Some(ToolKind::Grep)
    } else if name == "cat"@ {
        Some(ToolKind::Cat)
    } else if name == "sh"@ {
        Some(ToolKind::Sh)
    } else if name == "bg"@ {
        Some(ToolKind::Bg)
    } else if name == "term_list"@ {
        Some(ToolKind::TermList)
    } else if name == "term_tail"@ {
        Some(ToolKind::TermTail)
    } else if name == "term_kill"@ {
        Some(ToolKind::TermKill)
    } else if name == "sudo"@ {
        Some(ToolKind::Sudo)
    } else if name == "sudo_bg"@ {
        Some(ToolKind::SudoBg)
    } else {
        None
    }
}

impl ToolKind {
    /// The tool with the given name.
    pub fn from_name(name: &str) -> (r: Option<ToolKind>)
        ensures
            r == tool_kind_of(name@),
    {
        if str_eq(name, "pwd") {
            Some(ToolKind::Pwd)
        } else if str_eq(name, "cd") {
            Some(ToolKind::Cd)
        } else if str_eq(name, "ls") {
            Some(ToolKind::Ls)
        } else if str_eq(name, "find") {
            Some(ToolKind::Find)
        } else if str_eq(name, "grep") {
            Some(ToolKind::Grep)
        } else if str_eq(name, "cat") {
            Some(ToolKind::Cat)
        } else if str_eq(name, "sh") {
            Some(ToolKind::Sh)
        } else if str_eq(name, "bg") {
            Some(ToolKind::Bg)
        } else if str_eq(name, "term_list") {
            Some(ToolKind::TermList)
        } else if str_eq(name, "term_tail") {
            Some(ToolKind::TermTail)
        } else if str_eq(name, "term_kill") {
            Some(ToolKind::TermKill)
        } else if str_eq(name, "sudo") {
            Some(ToolKind::Sudo)
        } else if str_eq(name, "sudo_bg") {
            Some(ToolKind::SudoBg)
        } else {
            None
        }
    }
}

/// A tool name with its arguments.
#[derive(Debug, Clone, PartialEq, Eq)]
pub struct LocalToolCall {
    pub name: String,
    pub args: Vec<String>,
}

impl LocalToolCall {
    /// The call as its name and its arguments' text.
    pub open spec fn view(self) -> (Seq<char>, Seq<Seq<char>>) {
        (self.name@, views(self.args@))
    }
}

/// A call of the named tool.
pub fn call(name: &str, args: Vec<String>) -> (c: LocalToolCall)
    ensures
        c.name@ == name@,
        c.args@ == args@,
{
    LocalToolCall { name: copy_str(name), args }
}

/// `s` without the leading characters equal to `c`.
pub open spec fn trim_start_char(s: Seq<char>, c: char) -> Seq<char>
    decreases s.len(),
{
    if s.len() > 0 && s[0] == c {
        trim_start_char(s.drop_first(), c)
    } else {
        s
    }
}

/// `s` without the trailing characters equal to `c`.
pub open spec fn trim_end_char(s: Seq<char>, c: char) -> Seq<char>
    decreases s.len(),
{
    if s.len() > 0 && s.last() == c {
        trim_end_char(s.drop_last(), c)
    } else {
        s
    }
}

/// `s` without the leading and trailing characters equal to `c`.
pub open spec fn trim_char(s: Seq<char>, c: char) -> Seq<char> {
    trim_end_char(trim_start_char(s, c), c)
}

/// A path or query as typed: trimmed, without surrounding double and then single quotes,
/// and without trailing full stops.
pub open spec fn cleaned(s: Seq<char>) -> Seq<char> {
    trim_end_char(trim_char(trim_char(trim(s), '"'), '\''), '.')
}

/// The first index at or after `a` where `v[a..b]` stops starting with `c`.
fn skip_start(v: &Vec<char>, a: usize, b: usize, c: char) -> (r: usize)
    requires
        a <= b <= v.len(),
    ensures
        a <= r <= b,
        v@.subrange(r as int, b as int) == trim_start_char(v@.subrange(a as int, b as int), c),
{
    let mut i = a;
    while i < b && v[i] == c
        invariant
            a <= i <= b <= v.len(),
            trim_start_char(v@.subrange(i as int, b as int), c) == trim_start_char(
                v@.subrange(a as int, b as int),
                c,
            ),
        decreases b - i,
    {
        assert(v@.subrange(i as int, b as int).drop_first() =~= v@.subrange(i + 1, b as int));
        i = i + 1;
    }
    i
}

/// The last index at or before `b` where `v[a..b]` stops ending with `c`.
fn skip_end(v: &Vec<char>, a: usize, b: usize, c: char) -> (r: usize)
    requires
        a <= b <= v.len(),
    ensures
        a <= r <= b,
        v@.subrange(a as int, r as int) == trim_end_char(v@.subrange(a as int, b as int), c),
{
    let mut j = b;
    while j > a && v[j - 1] == c
        invariant
            a <= j <= b <= v.len(),
            trim_end_char(v@.subrange(a as int, j as int), c) == trim_end_char(
                v@.subrange(a as int, b as int),
                c,
            ),
        decreases j - a,
    {
        assert(v@.subrange(a as int, j as int).drop_last() =~= v@.subrange(a as int, j - 1));
        j = j - 1;
    }
    j
}

/// Cleans a path typed in a request.
pub fn clean_path(value: &str) -> (r: String)
    ensures
        r@ == cleaned(value@),
{
    let t = trim_str(value);
    let v = chars_of(t.as_str());
    let n = v.len();
    assert(v@.subrange(0, n as int) =~= v@);
    let a1 = skip_start(&v, 0, n, '"');
    let b1 = skip_end(&v, a1, n, '"');
    let a2 = skip_start(&v, a1, b1, '\'');
    let b2 = skip_end(&v, a2, b1, '\'');
    let b3 = skip_end(&v, a2, b2, '.');
    string_of_range(v.as_slice(), a2, b3)
}

/// Cleans a search query typed in a request, as a path is cleaned.
pub fn clean_query(value: &str) -> (r: String)
    ensures
        r@ == cleaned(value@),
{
    clean_path(value)
}

/// The rest of `s` after the prefix `p`, compared without regard to ASCII case.
pub open spec fn strip_prefix_ci(s: Seq<char>, p: Seq<char>) -> Option<Seq<char>> {
    if p.len() <= s.len() && lower_str(s.subrange(0, p.len() as int)) == lower_str(p) {
        Some(s.subrange(p.len() as int, s.len() as int))
    } else {
        None
    }
}

/// Strips an ASCII-case-insensitive prefix.
fn strip_prefix_case(s: &Vec<char>, prefix: &str) -> (r: Option<String>)
    ensures
        match r {
            Some(v) => strip_prefix_ci(s@, prefix@) == Some(v@),
            None => strip_prefix_ci(s@, prefix@) is None,
        },
{
    let p = chars_of(prefix);
    if p.len() > s.len() {
        return None;
    }
    let mut i: usize = 0;
    while i < p.len()
        invariant
            p.len() <= s.len(),
            p@ == prefix@,
            i <= p.len(),
            forall|k: int| 0 <= k < i ==> lower(#[trigger] s@[k]) == lower(p@[k]),
        decreases p.len() - i,
    {
        if lower_char(s[i]) != lower_char(p[i]) {
            proof {
                assert(lower_str(s@.subrange(0, p.len() as int))[i as int] != lower_str(p@)[i as int]);
            }
            return None;
        }
        i = i + 1;
    }
    assert(lower_str(s@.subrange(0, p.len() as int)) =~= lower_str(p@));
    Some(string_of_range(s.as_slice(), p.len(), s.len()))
}

/// The text of each prefix.
pub open spec fn prefix_views(ps: Seq<&str>) -> Seq<Seq<char>> {
    ps.map_values(|p: &str| p@)
}

/// The rest of `s` after the first of `prefixes` that it starts with.
pub open spec fn first_prefix(s: Seq<char>, prefixes: Seq<Seq<char>>) -> Option<Seq<char>>
    decreases prefixes.len(),
{
    if prefixes.len() == 0 {
        None
    } else {
        match strip_prefix_ci(s, prefixes[0]) {
            Some(v) => Some(v),
            None => first_prefix(s, prefixes.drop_first()),
        }
    }
}

/// Strips the first of `prefixes` that `s` starts with.
fn strip_first_prefix(s: &Vec<char>, prefixes: &Vec<&str>) -> (r: Option<String>)
    ensures
        match r {
            Some(v) => first_prefix(s@, prefix_views(prefixes@)) == Some(v@),
            None => first_prefix(s@, prefix_views(prefixes@)) is None,
        },
{
    let ghost all = prefix_views(prefixes@);
    assert(all.subrange(0, all.len() as int) =~= all);
    let mut i: usize = 0;
    while i < prefixes.len()
        invariant
            i <= prefixes.len(),
            all == prefix_views(prefixes@),
            first_prefix(s@, all) == first_prefix(s@, all.subrange(i as int, all.len() as int)),
        decreases prefixes.len() - i,
    {
        let ghost rest = all.subrange(i as int, all.len() as int);
        assert(rest[0] == prefixes@[i as int]@);
        assert(rest.drop_first() =~= all.subrange(i + 1, all.len() as int));
        match strip_prefix_case(s, prefixes[i]) {
            Some(v) => {
                return Some(v);
            },
            None => {},
        }
        i = i + 1;
    }
    None
}

/// The prefixes that ask to change directory.
pub open spec fn cd_prefixes() -> Seq<Seq<char>> {
    seq![
        "cd "@,
        "go to "@,
        "go into "@,
        "change directory to "@,
        "change directories to "@,
        "open folder "@,
    ]
}

/// The words that ask for a listing.
pub open spec fn ls_words() -> Seq<Seq<char>> {
    seq!["ls"@, "list files"@, "show files"@]
}

/// The prefixes that ask to find files.
pub open spec fn find_prefixes() -> Seq<Seq<char>> {
    seq!["find "@, "find file "@, "find files "@, "search for file "@]
}

/// The prefixes that ask to search text.
pub open spec fn grep_prefixes() -> Seq<Seq<char>> {
    seq!["grep "@, "search text "@, "search for text "@]
}

/// The prefixes that ask to show a file.
pub open spec fn cat_prefixes() -> Seq<Seq<char>> {
    seq!["cat "@, "show file "@, "read file "@, "open file "@]
}

/// The prefixes that ask for a background terminal.
pub open spec fn bg_prefixes() -> Seq<Seq<char>> {
    seq!["run in background "@, "start background "@, "start terminal "@]
}

/// The prefixes that ask to run a command.
pub open spec fn sh_prefixes() -> Seq<Seq<char>> {
    seq!["run "@, "run command "@, "execute "@, "execute command "@, "terminal "@]
}

/// A listing request: for the first listing word, either the whole lowered request is that
/// word (list the working directory) or the request starts with it and a space (list the
/// cleaned rest).
pub open spec fn ls_match(s: Seq<char>, lowered: Seq<char>, words: Seq<Seq<char>>) -> Option<
    Seq<Seq<char>>,
>
    decreases words.len(),
{
    if words.len() == 0 {
        None
    } else if lowered == words[0] {
        Some(Seq::empty())
    } else {
        match strip_prefix_ci(s, words[0] + " "@) {
            Some(v) => Some(seq![cleaned(v)]),
            None => ls_match(s, lowered, words.drop_first()),
        }
    }
}

/// The tool call a plain-language request asks for, tried in this order: where am I,
/// change directory, list, find, search text, show a file, background terminal, run.
pub open spec fn natural_call(text: Seq<char>) -> Option<(Seq<char>, Seq<Seq<char>>)> {
    let t = trim(text);
    let l = lower_str(t);
    if l == "pwd"@ || l == "where am i"@ || l == "what directory am i in"@ {
        Some(("pwd"@, Seq::empty()))
    } else if first_prefix(t, cd_prefixes()) is Some {
        Some(("cd"@, seq![cleaned(first_prefix(t, cd_prefixes())->0)]))
    } else if ls_match(t, l, ls_words()) is Some {
        Some(("ls"@, ls_match(t, l, ls_words())->0))
    } else if first_prefix(t, find_prefixes()) is Some {
        Some(("find"@, seq![cleaned(first_prefix(t, find_prefixes())->0)]))
    } else if first_prefix(t, grep_prefixes()) is Some {
        Some(("grep"@, seq![cleaned(first_prefix(t, grep_prefixes())->0)]))
    } else if first_prefix(t, cat_prefixes()) is Some {
        Some(("cat"@, seq![cleaned(first_prefix(t, cat_prefixes())->0)]))
    } else if first_prefix(t, bg_prefixes()) is Some {
        Some(("bg"@, seq![trim(first_prefix(t, bg_prefixes())->0)]))
    } else if first_prefix(t, sh_prefixes()) is Some {
        Some(("sh"@, seq![trim(first_prefix(t, sh_prefixes())->0)]))
    } else {
        None
    }
}

/// The listing arguments for a request, if it asks for a listing.
fn ls_args(s: &Vec<char>, lowered: &str, words: &Vec<&str>) -> (r: Option<Vec<String>>)
    ensures
        match r {
            Some(a) => ls_match(s@, lowered@, prefix_views(words@)) == Some(views(a@)),
            None => ls_match(s@, lowered@, prefix_views(words@)) is None,
        },
{
    let ghost all = prefix_views(words@);
    assert(all.subrange(0, all.len() as int) =~= all);
    let mut i: usize = 0;
    while i < words.len()
        invariant
            i <= words.len(),
            all == prefix_views(words@),
            ls_match(s@, lowered@, all) == ls_match(
                s@,
                lowered@,
                all.subrange(i as int, all.len() as int),
            ),
        decreases words.len() - i,
    {
        let ghost rest = all.subrange(i as int, all.len() as int);
        assert(rest[0] == words@[i as int]@);
        assert(rest.drop_first() =~= all.subrange(i + 1, all.len() as int));
        if str_eq(lowered, words[i]) {
            let r: Vec<String> = Vec::new();
            assert(views(r@) =~= Seq::<Seq<char>>::empty());
            return Some(r);
        }
        let spaced = crate::text::cat(words[i], " ");
        match strip_prefix_case(s, spaced.as_str()) {
            Some(v) => {
                let r = vec![clean_path(v.as_str())];
                assert(views(r@) =~= seq![cleaned(v@)]);
                return Some(r);
            },
            None => {},
        }
        i = i + 1;
    }
    None
}

/// A call with one argument.
fn call1(name: &str, arg: String) -> (c: LocalToolCall)
    ensures
        c@ == (name@, seq![arg@]),
{
    let c = call(name, vec![arg]);
    assert(views(c.args@) =~= seq![arg@]);
    c
}

/// Reads a plain-language request as a tool call: "where am i", "go to ~/code",
/// "list files", "find notes", "search text TODO", "show file README.md",
/// "run in background ...", "run cargo test". Prefixes match without regard to ASCII case.
pub fn try_parse_natural(text: &str) -> (r: Option<LocalToolCall>)
    ensures
        match r {
            Some(c) => natural_call(text@) == Some(c@),
            None => natural_call(text@) is None,
        },
{
    let t = trim_str(text);
    let tv = chars_of(t.as_str());
    let l = to_lower(t.as_str());
    if str_eq(l.as_str(), "pwd") || str_eq(l.as_str(), "where am i") || str_eq(
        l.as_str(),
        "what directory am i in",
    ) {
        let c = call("pwd", Vec::new());
        assert(views(c.args@) =~= Seq::<Seq<char>>::empty());
        return Some(c);
    }
    let cd = vec![
        "cd ",
        "go to ",
        "go into ",
        "change directory to ",
        "change directories to ",
        "open folder ",
    ];
    assert(prefix_views(cd@) =~= cd_prefixes());
    if let Some(v) = strip_first_prefix(&tv, &cd) {
        return Some(call1("cd", clean_path(v.as_str())));
    }
    let ls = vec!["ls", "list files", "show files"];
    assert(prefix_views(ls@) =~= ls_words());
    if let Some(a) = ls_args(&tv, l.as_str(), &ls) {
        return Some(call("ls", a));
    }
    let find = vec!["find ", "find file ", "find files ", "search for file "];
    assert(prefix_views(find@) =~= find_prefixes());
    if let Some(v) = strip_first_prefix(&tv, &find) {
        return Some(call1("find", clean_query(v.as_str())));
    }
    let grep = vec!["grep ", "search text ", "search for text "];
    assert(prefix_views(grep@) =~= grep_prefixes());
    if let Some(v) = strip_first_prefix(&tv, &grep) {
        return Some(call1("grep", clean_query(v.as_str())));
    }
    let cat = vec!["cat ", "show file ", "read file ", "open file "];
    assert(prefix_views(cat@) =~= cat_prefixes());
    if let Some(v) = strip_first_prefix(&tv, &cat) {
        return Some(call1("cat", clean_path(v.as_str())));
    }
    let bg = vec!["run in background ", "start background ", "start terminal "];
    assert(prefix_views(bg@) =~= bg_prefixes());
    if let Some(v) = strip_first_prefix(&tv, &bg) {
        return Some(call1("bg", trim_str(v.as_str())));
    }
    let sh = vec!["run ", "run command ", "execute ", "execute command ", "terminal "];
    assert(prefix_views(sh@) =~= sh_prefixes());
    if let Some(v) = strip_first_prefix(&tv, &sh) {
        return Some(call1("sh", trim_str(v.as_str())));
    }
    None
}

/// Whether a request asks for a terminal: it reads as a run or background call, or it
/// mentions " in terminal" in any ASCII case.
pub open spec fn terminal_request(text: Seq<char>) -> bool {
    (match natural_call(text) {
        Some((name, _)) => name == "sh"@ || name == "bg"@,
        None => false,
    }) || contains_seq(lower_str(text), " in terminal"@)
}

/// Whether a request asks for a terminal.
pub fn is_terminal_request(text: &str) -> (b: bool)
    ensures
        b == terminal_request(text@),
{
    let by_call = match try_parse_natural(text) {
        Some(c) => str_eq(c.name.as_str(), "sh") || str_eq(c.name.as_str(), "bg"),
        None => false,
    };
    by_call || contains_str(to_lower(text).as_str(), " in terminal")
}

/// Why a tool call was refused before it ran.
#[derive(Debug)]
pub enum ToolError {
    UnknownTool(String),
    TerminalDisabled,
    Usage(String),
    NeedsRuntimeState,
    SessionLimit(usize),
    UnknownSession(String),
    /// The path is not a directory.
    NotADirectory(String),
    /// The path is not a file.
    NotAFile(String),
    /// The file holds a zero byte.
    BinaryFile(String),
    /// A command (`command` or `sudo command`) ran past the time limit.
    TimedOut(String, u64),
}

/// The message of a tool refusal.
pub open spec fn tool_error_message(e: ToolError) -> Seq<char> {
    match e {
        ToolError::UnknownTool(n) => "unknown local tool `"@ + n@ + "`"@,
        ToolError::TerminalDisabled => "terminal feature is disabled"@,
        ToolError::Usage(u) => "usage: "@ + u@,
        ToolError::NeedsRuntimeState => "persistent terminal tools require gateway runtime state"@,
        ToolError::SessionLimit(n) => "terminal session limit reached ("@ + decimal(n as nat)
            + ")"@,
        ToolError::UnknownSession(id) => "unknown terminal session `"@ + id@ + "`"@,
        ToolError::NotADirectory(p) => "not a directory: "@ + p@,
        ToolError::NotAFile(p) => "not a file: "@ + p@,
        ToolError::BinaryFile(p) => "refusing to print binary file: "@ + p@,
        ToolError::TimedOut(what, secs) => what@ + " timed out after "@ + decimal(secs as nat)
            + "s"@,
    }
}

impl ToolError {
    /// The human-readable message for the refusal.
    pub fn message(&self) -> (m: String)
        ensures
            m@ == tool_error_message(*self),
    {
        match self {
            ToolError::UnknownTool(n) => {
                let a = cat("unknown local tool `", n.as_str());
                cat(a.as_str(), "`")
            },
            ToolError::TerminalDisabled => copy_str("terminal feature is disabled"),
            ToolError::Usage(u) => cat("usage: ", u.as_str()),
            ToolError::NeedsRuntimeState => copy_str(
                "persistent terminal tools require gateway runtime state",
            ),
            ToolError::SessionLimit(n) => {
                let d = u64_to_decimal(*n as u64);
                let a = cat("terminal session limit reached (", d.as_str());
                cat(a.as_str(), ")")
            },
            ToolError::UnknownSession(id) => {
                let a = cat("unknown terminal session `", id.as_str());
                cat(a.as_str(), "`")
            },
            ToolError::NotADirectory(p) => cat("not a directory: ", p.as_str()),
            ToolError::NotAFile(p) => cat("not a file: ", p.as_str()),
            ToolError::BinaryFile(p) => cat("refusing to print binary file: ", p.as_str()),
            ToolError::TimedOut(what, secs) => {
                let d = u64_to_decimal(*secs);
                let mut m = cat(what.as_str(), " timed out after ");
                m.append(d.as_str());
                m.append("s");
                m
            },
        }
    }
}

/// A checked tool call, ready to run.
#[derive(Debug)]
pub enum ToolRequest {
    Pwd,
    Cd(String),
    Ls(Option<String>),
    Find(String, Option<String>),
    Grep(String, Option<String>),
    Cat(String),
    Sh(String),
    Bg(String),
    TermList,
    TermTail(String),
    TermKill(String),
    Sudo(String, String),
    SudoBg(String, String),
}

/// The usage line of `/sudo`.
pub open spec fn sudo_usage() -> Seq<char> {
    "/sudo <password> -- <command>"@
}

/// The password and command of a sudo call: either one argument `password -- command`
/// with both parts non-blank (each trimmed), or `password -- word...` with the words
/// joined by spaces.
pub open spec fn password_command(args: Seq<Seq<char>>) -> Option<(Seq<char>, Seq<char>)> {
    if args.len() == 1 && contains_seq(args[0], " -- "@) {
        let (password, command) = crate::text::split_once(args[0], " -- "@)->0;
        if is_blank(password) || is_blank(command) {
            None
        } else {
            Some((trim(password), trim(command)))
        }
    } else if args.len() >= 3 && args[1] == "--"@ {
        Some((trim(args[0]), join(args.subrange(2, args.len() as int), " "@)))
    } else {
        None
    }
}

/// Splits the arguments of a sudo call into password and command.
pub fn parse_password_command(args: &Vec<String>) -> (r: Result<(String, String), ToolError>)
    ensures
        match password_command(views(args@)) {
            Some((p, c)) => r matches Ok((rp, rc)) && rp@ == p && rc@ == c,
            None => r matches Err(ToolError::Usage(u)) && u@ == sudo_usage(),
        },
{
    let ghost a = views(args@);
    if args.len() == 1 && contains_str(args[0].as_str(), " -- ") {
        proof {
            assert(a[0] == args@[0]@);
        }
        match crate::text::split_once_str(args[0].as_str(), " -- ") {
            Some((password, command)) => {
                if is_blank_str(password.as_str()) || is_blank_str(command.as_str()) {
                    return Err(ToolError::Usage(copy_str("/sudo <password> -- <command>")));
                }
                return Ok((trim_str(password.as_str()), trim_str(command.as_str())));
            },
            None => {
                return Err(ToolError::Usage(copy_str("/sudo <password> -- <command>")));
            },
        }
    }
    if args.len() >= 3 && str_eq(args[1].as_str(), "--") {
        proof {
            assert(a[0] == args@[0]@);
            assert(a[1] == args@[1]@);
        }
        let mut rest: Vec<String> = Vec::new();
        let mut i: usize = 2;
        while i < args.len()
            invariant
                2 <= i <= args.len(),
                a == views(args@),
                rest.len() == i - 2,
                forall|j: int| 0 <= j < rest.len() ==> #[trigger] rest@[j]@ == a[j + 2],
            decreases args.len() - i,
        {
            rest.push(args[i].clone());
            i = i + 1;
        }
        assert(views(rest@) =~= a.subrange(2, a.len() as int));
        let command = join_strings(&rest, " ");
        return Ok((trim_str(args[0].as_str()), command));
    }
    Err(ToolError::Usage(copy_str("/sudo <password> -- <command>")))
}

/// The first argument, or the empty text.
pub open spec fn first_arg(args: Seq<Seq<char>>) -> Seq<char> {
    if args.len() > 0 {
        args[0]
    } else {
        Seq::empty()
    }
}

/// The argument at `i`, if there is one.
pub open spec fn arg_at(args: Seq<Seq<char>>, i: int) -> Option<Seq<char>> {
    if 0 <= i < args.len() {
        Some(args[i])
    } else {
        None
    }
}

/// A checked request and what it holds, as text.
pub open spec fn request_is(r: ToolRequest, expected: PlannedTool) -> bool {
    match (r, expected) {
        (ToolRequest::Pwd, PlannedTool::Pwd) => true,
        (ToolRequest::Cd(p), PlannedTool::Cd(q)) => p@ == q,
        (ToolRequest::Ls(p), PlannedTool::Ls(q)) => match (p, q) {
            (Some(x), Some(y)) => x@ == y,
            (None, None) => true,
            _ => false,
        },
        (ToolRequest::Find(p, x), PlannedTool::Find(q, y)) => p@ == q && match (x, y) {
            (Some(a), Some(b)) => a@ == b,
            (None, None) => true,
            _ => false,
        },
        (ToolRequest::Grep(p, x), PlannedTool::Grep(q, y)) => p@ == q && match (x, y) {
            (Some(a), Some(b)) => a@ == b,
            (None, None) => true,
            _ => false,
        },
        (ToolRequest::Cat(p), PlannedTool::Cat(q)) => p@ == q,
        (ToolRequest::Sh(p), PlannedTool::Sh(q)) => p@ == q,
        (ToolRequest::Bg(p), PlannedTool::Bg(q)) => p@ == q,
        (ToolRequest::TermList, PlannedTool::TermList) => true,
        (ToolRequest::TermTail(p), PlannedTool::TermTail(q)) => p@ == q,
        (ToolRequest::TermKill(p), PlannedTool::TermKill(q)) => p@ == q,
        (ToolRequest::Sudo(p, c), PlannedTool::Sudo(q, d)) => p@ == q && c@ == d,
        (ToolRequest::SudoBg(p, c), PlannedTool::SudoBg(q, d)) => p@ == q && c@ == d,
        _ => false,
    }
}

/// A checked request, as text.
pub enum PlannedTool {
    Pwd,
    Cd(Seq<char>),
    Ls(Option<Seq<char>>),
    Find(Seq<char>, Option<Seq<char>>),
    Grep(Seq<char>, Option<Seq<char>>),
    Cat(Seq<char>),
    Sh(Seq<char>),
    Bg(Seq<char>),
    TermList,
    TermTail(Seq<char>),
    TermKill(Seq<char>),
    Sudo(Seq<char>, Seq<char>),
    SudoBg(Seq<char>, Seq<char>),
}

/// A refusal, as text.
pub enum PlanFault {
    UnknownTool(Seq<char>),
    TerminalDisabled,
    Usage(Seq<char>),
    NeedsRuntimeState,
}

/// Whether a refusal is the expected one.
pub open spec fn error_is(e: ToolError, expected: PlanFault) -> bool {
    match (e, expected) {
        (ToolError::UnknownTool(n), PlanFault::UnknownTool(m)) => n@ == m,
        (ToolError::TerminalDisabled, PlanFault::TerminalDisabled) => true,
        (ToolError::Usage(u), PlanFault::Usage(v)) => u@ == v,
        (ToolError::NeedsRuntimeState, PlanFault::NeedsRuntimeState) => true,
        _ => false,
    }
}

/// What a tool call becomes when terminal sessions can be kept: the tool its name selects,
/// with the usage checks of each tool, and the terminal feature required by `sh`, `bg`,
/// `sudo` and `sudo_bg`. `bg` joins its arguments with spaces; its blank check belongs to
/// starting the session.
pub open spec fn session_plan(
    name: Seq<char>,
    args: Seq<Seq<char>>,
    terminal_enabled: bool,
) -> Result<PlannedTool, PlanFault> {
    match tool_kind_of(name) {
        None => Err(PlanFault::UnknownTool(name)),
        Some(kind) => match kind {
            ToolKind::Pwd => Ok(PlannedTool::Pwd),
            ToolKind::Cd => if is_blank(first_arg(args)) {
                Err(PlanFault::Usage("/cd <path>"@))
            } else {
                Ok(PlannedTool::Cd(first_arg(args)))
            },
            ToolKind::Ls => Ok(PlannedTool::Ls(arg_at(args, 0))),
            ToolKind::Find => if trim(first_arg(args)).len() == 0 {
                Err(PlanFault::Usage("/find <pattern> [path]"@))
            } else {
                Ok(PlannedTool::Find(trim(first_arg(args)), arg_at(args, 1)))
            },
            ToolKind::Grep => if trim(first_arg(args)).len() == 0 {
                Err(PlanFault::Usage("/grep <pattern> [path]"@))
            } else {
                Ok(PlannedTool::Grep(trim(first_arg(args)), arg_at(args, 1)))
            },
            ToolKind::Cat => if is_blank(first_arg(args)) {
                Err(PlanFault::Usage("/cat <path>"@))
            } else {
                Ok(PlannedTool::Cat(first_arg(args)))
            },
            ToolKind::Sh => if !terminal_enabled {
                Err(PlanFault::TerminalDisabled)
            } else if is_blank(join(args, " "@)) {
                Err(PlanFault::Usage("/sh <command>"@))
            } else {
                Ok(PlannedTool::Sh(join(args, " "@)))
            },
            ToolKind::Bg => if !terminal_enabled {
                Err(PlanFault::TerminalDisabled)
            } else {
                Ok(PlannedTool::Bg(join(args, " "@)))
            },
            ToolKind::TermList => Ok(PlannedTool::TermList),
            ToolKind::TermTail => Ok(PlannedTool::TermTail(first_arg(args))),
            ToolKind::TermKill => Ok(PlannedTool::TermKill(first_arg(args))),
            ToolKind::Sudo => if !terminal_enabled {
                Err(PlanFault::TerminalDisabled)
            } else {
                match password_command(args) {
                    None => Err(PlanFault::Usage(sudo_usage())),
                    Some((p, c)) => if is_blank(c) {
                        Err(PlanFault::Usage(sudo_usage()))
                    } else {
                        Ok(PlannedTool::Sudo(p, c))
                    },
                }
            },
            ToolKind::SudoBg => if !terminal_enabled {
                Err(PlanFault::TerminalDisabled)
            } else {
                match password_command(args) {
                    None => Err(PlanFault::Usage(sudo_usage())),
                    Some((p, c)) => Ok(PlannedTool::SudoBg(p, c)),
                }
            },
        },
    }
}

/// What a tool call becomes without terminal sessions: the session tools are refused.
pub open spec fn stateless_plan(
    name: Seq<char>,
    args: Seq<Seq<char>>,
    terminal_enabled: bool,
) -> Result<PlannedTool, PlanFault> {
    match tool_kind_of(name) {
        Some(ToolKind::Bg) | Some(ToolKind::TermList) | Some(ToolKind::TermTail) | Some(
            ToolKind::TermKill,
        ) | Some(ToolKind::Sudo) | Some(ToolKind::SudoBg) => Err(PlanFault::NeedsRuntimeState),
        _ => session_plan(name, args, terminal_enabled),
    }
}

/// Whether a plan result is the expected one.
pub open spec fn plan_is(r: Result<ToolRequest, ToolError>, expected: Result<PlannedTool, PlanFault>) -> bool {
    match (r, expected) {
        (Ok(q), Ok(p)) => request_is(q, p),
        (Err(e), Err(f)) => error_is(e, f),
        _ => false,
    }
}

/// The first argument, or the empty text.
fn first_or_empty(args: &Vec<String>) -> (r: String)
    ensures
        r@ == first_arg(views(args@)),
{
    if args.len() > 0 {
        args[0].clone()
    } else {
        String::new()
    }
}

/// The argument at `i`, if there is one.
fn arg_opt(args: &Vec<String>, i: usize) -> (r: Option<String>)
    ensures
        match r {
            Some(x) => arg_at(views(args@), i as int) == Some(x@),
            None => arg_at(views(args@), i as int) is None,
        },
{
    if i < args.len() {
        Some(args[i].clone())
    } else {
        None
    }
}

/// Checks a tool call where terminal sessions can be kept.
pub fn plan_session_tool(call: &LocalToolCall, terminal_enabled: bool) -> (r: Result<
    ToolRequest,
    ToolError,
>)
    ensures
        plan_is(r, session_plan(call.name@, views(call.args@), terminal_enabled)),
{
    let kind = match ToolKind::from_name(call.name.as_str()) {
        Some(k) => k,
        None => {
            return Err(ToolError::UnknownTool(call.name.clone()));
        },
    };
    let args = &call.args;
    match kind {
        ToolKind::Pwd => Ok(ToolRequest::Pwd),
        ToolKind::Cd => {
            let raw = first_or_empty(args);
            if is_blank_str(raw.as_str()) {
                Err(ToolError::Usage(copy_str("/cd <path>")))
            } else {
                Ok(ToolRequest::Cd(raw))
            }
        },
        ToolKind::Ls => Ok(ToolRequest::Ls(arg_opt(args, 0))),
        ToolKind::Find => {
            let first = first_or_empty(args);
            if is_blank_str(first.as_str()) {
                Err(ToolError::Usage(copy_str("/find <pattern> [path]")))
            } else {
                Ok(ToolRequest::Find(trim_str(first.as_str()), arg_opt(args, 1)))
            }
        },
        ToolKind::Grep => {
            let first = first_or_empty(args);
            if is_blank_str(first.as_str()) {
                Err(ToolError::Usage(copy_str("/grep <pattern> [path]")))
            } else {
                Ok(ToolRequest::Grep(trim_str(first.as_str()), arg_opt(args, 1)))
            }
        },
        ToolKind::Cat => {
            let raw = first_or_empty(args);
            if is_blank_str(raw.as_str()) {
                Err(ToolError::Usage(copy_str("/cat <path>")))
            } else {
                Ok(ToolRequest::Cat(raw))
            }
        },
        ToolKind::Sh => {
            if !terminal_enabled {
                return Err(ToolError::TerminalDisabled);
            }
            let command = join_strings(args, " ");
            if is_blank_str(command.as_str()) {
                Err(ToolError::Usage(copy_str("/sh <command>")))
            } else {
                Ok(ToolRequest::Sh(command))
            }
        },
        ToolKind::Bg => {
            if !terminal_enabled {
                return Err(ToolError::TerminalDisabled);
            }
            Ok(ToolRequest::Bg(join_strings(args, " ")))
        },
        ToolKind::TermList => Ok(ToolRequest::TermList),
        ToolKind::TermTail => Ok(ToolRequest::TermTail(first_or_empty(args))),
        ToolKind::TermKill => Ok(ToolRequest::TermKill(first_or_empty(args))),
        ToolKind::Sudo => {
            if !terminal_enabled {
                return Err(ToolError::TerminalDisabled);
            }
            let (password, command) = match parse_password_command(args) {
                Ok(pc) => pc,
                Err(e) => {
                    return Err(e);
                },
            };
            if is_blank_str(command.as_str()) {
                Err(ToolError::Usage(copy_str("/sudo <password> -- <command>")))
            } else {
                Ok(ToolRequest::Sudo(password, command))
            }
        },
        ToolKind::SudoBg => {
            if !terminal_enabled {
                return Err(ToolError::TerminalDisabled);
            }
            match parse_password_command(args) {
                Ok((password, command)) => Ok(ToolRequest::SudoBg(password, command)),
                Err(e) => Err(e),
            }
        },
    }
}

/// Checks a tool call where no terminal sessions are kept: the session tools are refused.
pub fn plan_tool(call: &LocalToolCall, terminal_enabled: bool) -> (r: Result<
    ToolRequest,
    ToolError,
>)
    ensures
        plan_is(r, stateless_plan(call.name@, views(call.args@), terminal_enabled)),
{
    match ToolKind::from_name(call.name.as_str()) {
        Some(ToolKind::Bg) | Some(ToolKind::TermList) | Some(ToolKind::TermTail) | Some(
            ToolKind::TermKill,
        ) | Some(ToolKind::Sudo) | Some(ToolKind::SudoBg) => Err(ToolError::NeedsRuntimeState),
        _ => plan_session_tool(call, terminal_enabled),
    }
}

/// The working directory of a thread: `.` for a blank setting, otherwise the expanded path.
pub fn current_cwd(config: &AppConfig, thread: &str, env: &EnvVars) -> (r: String)
    ensures
        r@ == request_cwd(thread_cwd(*config, thread@), env@),
{
    let t = config.thread_or_default(thread);
    if is_blank_str(t.cwd.as_str()) {
        copy_str(".")
    } else {
        expand_path(t.cwd.as_str(), env)
    }
}

/// The path a request names, before it is made canonical: the cleaned text expanded when it
/// starts at `~`, kept when absolute, and otherwise taken under the thread's directory.
pub open spec fn raw_resolved_path(
    c: AppConfig,
    thread: Seq<char>,
    raw: Seq<char>,
    env: Seq<(Seq<char>, String)>,
) -> Seq<char> {
    let p = cleaned(raw);
    if has_prefix(p, "~/"@) || p == "~"@ {
        expanded_path(p, env)
    } else if absolute_path(p) {
        p
    } else {
        joined_path(request_cwd(thread_cwd(c, thread), env), p)
    }
}

/// Resolves the path a request names against the thread's directory.
pub fn resolve_raw_path(config: &AppConfig, thread: &str, raw: &str, env: &EnvVars) -> (r: String)
    ensures
        r@ == raw_resolved_path(*config, thread@, raw@, env@),
{
    let p = clean_path(raw);
    if starts_with(p.as_str(), "~/") || str_eq(p.as_str(), "~") {
        expand_path(p.as_str(), env)
    } else if path_is_absolute(p.as_str()) {
        p
    } else {
        let cwd = current_cwd(config, thread, env);
        path_join(cwd.as_str(), p.as_str())
    }
}

/// An optional path argument that names something: trimmed, and absent when blank.
pub fn optional_path_arg(raw: Option<&str>) -> (r: Option<String>)
    ensures
        match raw {
            Some(x) => if is_blank(x@) {
                r is None
            } else {
                r matches Some(p) && p@ == trim(x@)
            },
            None => r is None,
        },
{
    match raw {
        Some(x) => if is_blank_str(x) {
            None
        } else {
            Some(trim_str(x))
        },
        None => None,
    }
}

/// Where background terminals write their output: `<data dir>/logs/terminals`.
pub fn terminal_log_dir(config_path: &str, config: &AppConfig, env: &EnvVars) -> (r: String)
    ensures
        r@ == joined_path(joined_path(data_dir_of(*config, config_path@, env@), "logs"@), "terminals"@),
{
    let d = config.data_dir(config_path, env);
    let l = path_join(d.as_str(), "logs");
    path_join(l.as_str(), "terminals")
}

/// The log file of a terminal session.
pub fn terminal_log_path(log_dir: &str, id: &str) -> (r: String)
    ensures
        r@ == joined_path(log_dir@, id@ + ".log"@),
{
    let file = cat(id, ".log");
    path_join(log_dir, file.as_str())
}

/// How long a command run by `/sh` or `/sudo` may take, in seconds.
pub const COMMAND_TIMEOUT_SECS: u64 = 60;

/// How deep `/find` and `/grep` walk below the directory they start from.
pub const MAX_WALK_DEPTH: usize = 8;

/// The setting `/cd` changes: the working directory of a thread.
pub fn thread_cwd_setting(thread: &str) -> (r: String)
    ensures
        r@ == "threads."@ + thread@ + ".cwd"@,
{
    let mut r = cat("threads.", thread);
    r.append(".cwd");
    r
}

/// The reply of `/cd`.
pub fn cwd_set_message(path: &str) -> (r: String)
    ensures
        r@ == "cwd set to "@ + path@,
{
    cat("cwd set to ", path)
}

/// Directory names that searches skip.
pub open spec fn ignored_name(n: Seq<char>) -> bool {
    n == ".git"@ || n == "target"@ || n == "node_modules"@ || n == ".next"@ || n == ".cache"@
        || n == "__pycache__"@
}

/// Whether a search skips the path: its last component is version control, build output,
/// dependencies or a cache.
pub fn is_ignored_dir(path: &str) -> (b: bool)
    ensures
        b == match file_name_of(path@) {
            Some(n) => ignored_name(n),
            None => false,
        },
{
    match path_file_name(path) {
        Some(n) => {
            let n = n.as_str();
            str_eq(n, ".git") || str_eq(n, "target") || str_eq(n, "node_modules") || str_eq(
                n,
                ".next",
            ) || str_eq(n, ".cache") || str_eq(n, "__pycache__")
        },
        None => false,
    }
}

/// Paths one per line, or the given text when there are none.
pub fn format_paths(paths: Vec<String>, empty: &str) -> (r: String)
    ensures
        r@ == if paths@.len() == 0 {
            empty@
        } else {
            join(views(paths@), "\n"@)
        },
{
    if paths.len() == 0 {
        copy_str(empty)
    } else {
        join_strings(&paths, "\n")
    }
}

/// Text cut to its first `max` lines, with a note when lines were dropped; the given text
/// when empty.
pub open spec fn capped_lines(text: Seq<char>, max: nat, empty: Seq<char>) -> Seq<char> {
    if text.len() == 0 {
        empty
    } else {
        let ls = lines(text);
        let kept = if ls.len() <= max {
            ls
        } else {
            ls.take(max as int)
        };
        join(kept, "\n"@) + if ls.len() > max {
            "\n... truncated at "@ + decimal(max) + " lines"@
        } else {
            Seq::empty()
        }
    }
}

/// Cuts text to `max_lines` lines.
pub fn cap_lines(text: &str, max_lines: usize, empty: &str) -> (r: String)
    ensures
        r@ == capped_lines(text@, max_lines as nat, empty@),
{
    if chars_of(text).len() == 0 {
        return copy_str(empty);
    }
    let ls = lines_of(text);
    let ghost lv = views(ls@);
    let mut kept: Vec<String> = Vec::new();
    let mut i: usize = 0;
    while i < ls.len() && i < max_lines
        invariant
            i <= ls.len(),
            i <= max_lines,
            lv == views(ls@),
            kept.len() == i,
            forall|j: int| 0 <= j < i ==> #[trigger] kept@[j]@ == lv[j],
        decreases ls.len() - i,
    {
        kept.push(ls[i].clone());
        i = i + 1;
    }
    let ghost kv = if lv.len() <= max_lines {
        lv
    } else {
        lv.take(max_lines as int)
    };
    assert(views(kept@) =~= kv);
    let mut out = join_strings(&kept, "\n");
    if ls.len() > max_lines {
        let d = u64_to_decimal(max_lines as u64);
        out.append("\n... truncated at ");
        out.append(d.as_str());
        out.append(" lines");
    } else {
        proof {
            assert(out@ + Seq::<char>::empty() == out@);
        }
    }
    out
}

/// The number of bytes a character takes in UTF-8.
pub open spec fn utf8_width(c: char) -> nat {
    if (c as u32) < 0x80 {
        1
    } else if (c as u32) < 0x800 {
        2
    } else if (c as u32) < 0x10000 {
        3
    } else {
        4
    }
}

/// The number of bytes a text takes in UTF-8.
pub open spec fn utf8_len(s: Seq<char>) -> nat
    decreases s.len(),
{
    if s.len() == 0 {
        0
    } else {
        utf8_len(s.drop_last()) + utf8_width(s.last())
    }
}

/// The longest prefix of `s` that fits in `budget` bytes.
pub open spec fn clip_to(s: Seq<char>, budget: nat) -> Seq<char>
    decreases s.len(),
{
    if s.len() > 0 && utf8_width(s[0]) <= budget {
        seq![s[0]] + clip_to(s.drop_first(), (budget - utf8_width(s[0])) as nat)
    } else {
        Seq::empty()
    }
}

/// Text that fits in `max` bytes, or its longest fitting prefix with a note of the cut.
pub open spec fn capped_bytes(text: Seq<char>, max: nat) -> Seq<char> {
    if utf8_len(text) <= max {
        text
    } else {
        clip_to(text, max) + "...\ntruncated at "@ + decimal(max) + " bytes"@
    }
}

/// The UTF-8 width of a character.
fn char_width(c: char) -> (w: u128)
    ensures
        w == utf8_width(c),
{
    let u = c as u32;
    if u < 0x80 {
        1
    } else if u < 0x800 {
        2
    } else if u < 0x10000 {
        3
    } else {
        4
    }
}

/// A longer prefix takes at least as many bytes.
proof fn lemma_utf8_len_take(s: Seq<char>, i: int)
    requires
        0 <= i < s.len(),
    ensures
        utf8_len(s.take(i + 1)) == utf8_len(s.take(i)) + utf8_width(s[i]),
        utf8_len(s.take(i + 1)) <= utf8_len(s),
    decreases s.len() - i,
{
    assert(s.take(i + 1).drop_last() =~= s.take(i));
    if i + 1 < s.len() {
        lemma_utf8_len_take(s, i + 1);
    } else {
        assert(s.take(i + 1) =~= s);
    }
}

/// Clipping the rest after a prefix that fits.
proof fn lemma_clip_step(s: Seq<char>, i: int, budget: nat)
    requires
        0 <= i < s.len(),
        utf8_width(s[i]) <= budget,
    ensures
        clip_to(s.subrange(i, s.len() as int), budget) == seq![s[i]] + clip_to(
            s.subrange(i + 1, s.len() as int),
            (budget - utf8_width(s[i])) as nat,
        ),
{
    let t = s.subrange(i, s.len() as int);
    assert(t[0] == s[i]);
    assert(t.drop_first() =~= s.subrange(i + 1, s.len() as int));
}

/// Cuts text to `max_bytes` bytes at a character boundary.
pub fn cap_bytes(text: &str, max_bytes: usize) -> (r: String)
    ensures
        r@ == capped_bytes(text@, max_bytes as nat),
{
    let v = chars_of(text);
    let n = v.len();
    let max: u128 = max_bytes as u128;
    let mut used: u128 = 0;
    let mut i: usize = 0;
    proof {
        assert(v@.subrange(0, n as int) =~= v@);
        assert(v@.take(0) =~= Seq::<char>::empty());
    }
    while i < n && used + char_width(v[i]) <= max
        invariant
            i <= n == v.len(),
            v@ == text@,
            used == utf8_len(v@.take(i as int)),
            used <= max,
            max == max_bytes,
            clip_to(v@, max as nat) == v@.take(i as int) + clip_to(
                v@.subrange(i as int, n as int),
                (max - used) as nat,
            ),
        decreases n - i,
    {
        let w = char_width(v[i]);
        proof {
            lemma_utf8_len_take(v@, i as int);
            lemma_clip_step(v@, i as int, (max - used) as nat);
            assert(v@.take(i + 1) =~= v@.take(i as int) + seq![v@[i as int]]);
        }
        used = used + w;
        i = i + 1;
    }
    if i == n {
        proof {
            assert(v@.take(n as int) =~= v@);
        }
        return copy_str(text);
    }
    proof {
        lemma_utf8_len_take(v@, i as int);
        let t = v@.subrange(i as int, n as int);
        assert(t[0] == v@[i as int]);
        assert(clip_to(t, (max - used) as nat) =~= Seq::<char>::empty());
        assert(v@.take(i as int) + Seq::<char>::empty() =~= v@.take(i as int));
        assert(v@.take(i as int) =~= v@.subrange(0, i as int));
    }
    let mut out = string_of_range(v.as_slice(), 0, i);
    let d = u64_to_decimal(max_bytes as u64);
    out.append("...\ntruncated at ");
    out.append(d.as_str());
    out.append(" bytes");
    out
}

/// Most entries a listing shows.
pub const MAX_LIST_ENTRIES: usize = 200;
/// Most paths a file search returns.
pub const MAX_FIND_RESULTS: usize = 200;
/// Most lines a text search returns.
pub const MAX_GREP_RESULTS: usize = 200;
/// Most bytes of a file that are shown.
pub const MAX_READ_BYTES: usize = 24576;
/// Most bytes of command output that are returned.
pub const MAX_OUTPUT_BYTES: usize = 32768;
/// Most bytes of a terminal log that are shown.
pub const TERMINAL_TAIL_BYTES: usize = 12288;

/// The output of a finished command: trimmed standard output, then trimmed standard error
/// on its own line, or a note of the exit status when both are blank; led by a failure line
/// when the command failed; cut to the output limit.
pub open spec fn command_output_text(
    stdout: Seq<char>,
    stderr: Seq<char>,
    status: Seq<char>,
    success: bool,
) -> Seq<char> {
    let a = if is_blank(stdout) {
        Seq::empty()
    } else {
        trim_end(stdout)
    };
    let b = if is_blank(stderr) {
        a
    } else {
        (if a.len() == 0 {
            a
        } else {
            a + "\n"@
        }) + trim_end(stderr)
    };
    let c = if b.len() == 0 {
        "command exited with status "@ + status
    } else {
        b
    };
    let d = if success {
        c
    } else {
        "command failed with status "@ + status + "\n"@ + c
    };
    capped_bytes(d, MAX_OUTPUT_BYTES as nat)
}

/// Shapes the output of a command run with `/sh`; `status` is the exit status as shown.
pub fn command_output(stdout: &str, stderr: &str, status: &str, success: bool) -> (r: String)
    ensures
        r@ == command_output_text(stdout@, stderr@, status@, success),
{
    proof {
        reveal_strlit("\n");
    }
    let ghost a = if is_blank(stdout@) {
        Seq::<char>::empty()
    } else {
        trim_end(stdout@)
    };
    let ghost b = if is_blank(stderr@) {
        a
    } else {
        (if a.len() == 0 {
            a
        } else {
            a + "\n"@
        }) + trim_end(stderr@)
    };
    let ghost c = if b.len() == 0 {
        "command exited with status "@ + status@
    } else {
        b
    };
    let mut text = String::new();
    if !is_blank_str(stdout) {
        text.append(trim_end_str(stdout).as_str());
    }
    assert(text@ =~= a);
    if !is_blank_str(stderr) {
        if !text.as_str().is_empty() {
            text.push('\n');
        }
        text.append(trim_end_str(stderr).as_str());
    }
    assert(text@ =~= b);
    if text.as_str().is_empty() {
        text = cat("command exited with status ", status);
    }
    assert(text@ =~= c);
    let ghost d = if success {
        c
    } else {
        "command failed with status "@ + status@ + "\n"@ + c
    };
    if !success {
        let mut t = cat("command failed with status ", status);
        t.push('\n');
        t.append(text.as_str());
        text = t;
    }
    assert(text@ =~= d);
    cap_bytes(text.as_str(), MAX_OUTPUT_BYTES)
}

/// The output of a finished sudo command: its non-empty trimmed output and error joined by
/// a newline, led by a failure line when it failed, cut to the output limit.
pub open spec fn sudo_output_text(
    stdout: Seq<char>,
    stderr: Seq<char>,
    status: Seq<char>,
    success: bool,
) -> Seq<char> {
    let o = trim_end(stdout);
    let e = trim_end(stderr);
    let parts = (if o.len() > 0 {
        seq![o]
    } else {
        Seq::empty()
    }) + (if e.len() > 0 {
        seq![e]
    } else {
        Seq::empty()
    });
    let combined = join(parts, "\n"@);
    if success {
        capped_bytes(combined, MAX_OUTPUT_BYTES as nat)
    } else {
        capped_bytes(
            "sudo command failed with status "@ + status + "\n"@ + combined,
            MAX_OUTPUT_BYTES as nat,
        )
    }
}

/// Shapes the output of a command run with `/sudo`.
pub fn sudo_output(stdout: &str, stderr: &str, status: &str, success: bool) -> (r: String)
    ensures
        r@ == sudo_output_text(stdout@, stderr@, status@, success),
{
    proof {
        reveal_strlit("\n");
    }
    let o = trim_end_str(stdout);
    let e = trim_end_str(stderr);
    let mut parts: Vec<String> = Vec::new();
    let ghost o_part = if o@.len() > 0 {
        seq![o@]
    } else {
        Seq::<Seq<char>>::empty()
    };
    let ghost e_part = if e@.len() > 0 {
        seq![e@]
    } else {
        Seq::<Seq<char>>::empty()
    };
    if !o.as_str().is_empty() {
        parts.push(o);
    }
    assert(views(parts@) =~= o_part);
    if !e.as_str().is_empty() {
        parts.push(e);
    }
    assert(views(parts@) =~= o_part + e_part);
    let combined = join_strings(&parts, "\n");
    if success {
        cap_bytes(combined.as_str(), MAX_OUTPUT_BYTES)
    } else {
        let mut t = cat("sudo command failed with status ", status);
        t.push('\n');
        t.append(combined.as_str());
        assert(t@ =~= "sudo command failed with status "@ + status@ + "\n"@ + combined@);
        cap_bytes(t.as_str(), MAX_OUTPUT_BYTES)
    }
}

/// Whether file content looks binary: it holds a zero byte.
pub fn is_binary(bytes: &[u8]) -> (b: bool)
    ensures
        b == bytes@.contains(0u8),
{
    let mut i: usize = 0;
    while i < bytes.len()
        invariant
            i <= bytes.len(),
            forall|j: int| 0 <= j < i ==> bytes@[j] != 0u8,
        decreases bytes.len() - i,
    {
        if bytes[i] == 0u8 {
            assert(bytes@[i as int] == 0u8);
            return true;
        }
        i = i + 1;
    }
    false
}

/// What `/cat` shows: the path, then the text, then a note when the file was cut.
pub open spec fn cat_output_text(path: Seq<char>, text: Seq<char>, truncated: bool) -> Seq<char> {
    path + ":\n"@ + text + if truncated {
        "\n... truncated at 24576 bytes"@
    } else {
        Seq::empty()
    }
}

/// Shapes the output of `/cat`; `text` is the shown part of the file.
pub fn cat_output(path: &str, text: &str, truncated: bool) -> (r: String)
    ensures
        r@ == cat_output_text(path@, text@, truncated),
{
    let mut out = cat(path, ":\n");
    out.append(text);
    if truncated {
        out.append("\n... truncated at 24576 bytes");
    } else {
        proof {
            assert(out@ + Seq::<char>::empty() == out@);
        }
    }
    out
}

/// One listing line: the entry's name, with `/` after a directory.
pub open spec fn listing_entry(e: (Seq<char>, bool)) -> Seq<char> {
    e.0 + if e.1 {
        "/"@
    } else {
        Seq::empty()
    }
}

/// What `/ls` shows for entries in name order: the directory, at most the listing limit of
/// entries, and a count of the rest.
pub open spec fn listing_text(path: Seq<char>, entries: Seq<(Seq<char>, bool)>) -> Seq<char> {
    let shown = if entries.len() <= MAX_LIST_ENTRIES {
        entries
    } else {
        entries.take(MAX_LIST_ENTRIES as int)
    };
    let ls = seq![path + ":"@] + shown.map_values(|e: (Seq<char>, bool)| listing_entry(e))
        + if entries.len() > MAX_LIST_ENTRIES {
        seq!["... "@ + decimal((entries.len() - MAX_LIST_ENTRIES) as nat) + " more"@]
    } else {
        Seq::empty()
    };
    join(ls, "\n"@)
}

/// Names with their directory flags, as text.
pub open spec fn entry_views(entries: Seq<(String, bool)>) -> Seq<(Seq<char>, bool)> {
    entries.map_values(|e: (String, bool)| (e.0@, e.1))
}

/// Shapes the output of `/ls` for entries already in name order.
pub fn listing(path: &str, entries: &Vec<(String, bool)>) -> (r: String)
    ensures
        r@ == listing_text(path@, entry_views(entries@)),
{
    let ghost ev = entry_views(entries@);
    let ghost shown = if ev.len() <= MAX_LIST_ENTRIES {
        ev
    } else {
        ev.take(MAX_LIST_ENTRIES as int)
    };
    let mut lines: Vec<String> = vec![cat(path, ":")];
    let mut i: usize = 0;
    while i < entries.len() && i < MAX_LIST_ENTRIES
        invariant
            i <= entries.len(),
            i <= MAX_LIST_ENTRIES,
            ev == entry_views(entries@),
            lines.len() == i + 1,
            lines@[0]@ == path@ + ":"@,
            forall|j: int| 0 <= j < i ==> #[trigger] lines@[j + 1]@ == listing_entry(ev[j]),
        decreases entries.len() - i,
    {
        let (name, is_dir) = &entries[i];
        let line = if *is_dir {
            cat(name.as_str(), "/")
        } else {
            proof {
                assert(name@ + Seq::<char>::empty() == name@);
            }
            name.clone()
        };
        proof {
            assert(ev[i as int] == (name@, *is_dir));
        }
        lines.push(line);
        i = i + 1;
    }
    let ghost head = seq![path@ + ":"@] + shown.map_values(
        |e: (Seq<char>, bool)| listing_entry(e),
    );
    assert(shown.len() == i);
    assert forall|j: int| 0 <= j < head.len() implies #[trigger] views(lines@)[j] == head[j] by {
        if j > 0 {
            assert(lines@[(j - 1) + 1]@ == listing_entry(ev[j - 1]));
            assert(shown[j - 1] == ev[j - 1]);
        }
    }
    assert(views(lines@) =~= head);
    if entries.len() > MAX_LIST_ENTRIES {
        let d = u64_to_decimal((entries.len() - MAX_LIST_ENTRIES) as u64);
        let mut more = cat("... ", d.as_str());
        more.append(" more");
        lines.push(more);
        assert(views(lines@) =~= head + seq![
            "... "@ + decimal((ev.len() - MAX_LIST_ENTRIES) as nat) + " more"@,
        ]);
    } else {
        assert(head + Seq::<Seq<char>>::empty() =~= head);
    }
    join_strings(&lines, "\n")
}

/// The search results after one more path: kept when there is room and its last component
/// contains the lowered needle in any ASCII case.
pub open spec fn find_step(results: Seq<Seq<char>>, path: Seq<char>, needle: Seq<char>) -> Seq<
    Seq<char>,
> {
    if results.len() < MAX_FIND_RESULTS && (match file_name_of(path) {
        Some(n) => contains_seq(lower_str(n), needle),
        None => false,
    }) {
        results.push(path)
    } else {
        results
    }
}

/// Adds a visited path to the file search results.
pub fn collect_find_match(results: &mut Vec<String>, path: &str, needle: &str)
    ensures
        views(final(results)@) == find_step(views(old(results)@), path@, needle@),
{
    if results.len() >= MAX_FIND_RESULTS {
        return;
    }
    let keep = match path_file_name(path) {
        Some(n) => contains_str(to_lower(n.as_str()).as_str(), needle),
        None => false,
    };
    if keep {
        let ghost before = views(results@);
        results.push(copy_str(path));
        assert(views(results@) =~= before.push(path@));
    }
}

/// One text search match: path, line number from one, and the line.
pub open spec fn grep_match_line(path: Seq<char>, number: nat, line: Seq<char>) -> Seq<char> {
    path + ":"@ + decimal(number) + ":"@ + line
}

/// The text search results after the lines of one more file, from line `i` on: each line
/// holding the pattern is added while there is room.
pub open spec fn grep_lines_from(
    results: Seq<Seq<char>>,
    path: Seq<char>,
    ls: Seq<Seq<char>>,
    pattern: Seq<char>,
    i: nat,
) -> Seq<Seq<char>>
    decreases ls.len() - i,
{
    if i >= ls.len() || results.len() >= MAX_GREP_RESULTS {
        results
    } else {
        let next = if contains_seq(ls[i as int], pattern) {
            results.push(grep_match_line(path, i + 1, ls[i as int]))
        } else {
            results
        };
        grep_lines_from(next, path, ls, pattern, i + 1)
    }
}

/// Adds the matching lines of one file to the text search results.
pub fn collect_grep_matches(matches: &mut Vec<String>, path: &str, text: &str, pattern: &str)
    ensures
        views(final(matches)@) == grep_lines_from(
            views(old(matches)@),
            path@,
            lines(text@),
            pattern@,
            0,
        ),
{
    proof {
        reveal_strlit(":");
    }
    let ls = lines_of(text);
    let ghost lv = views(ls@);
    let ghost start = views(matches@);
    let mut i: usize = 0;
    while i < ls.len() && matches.len() < MAX_GREP_RESULTS
        invariant
            i <= ls.len(),
            lv == views(ls@),
            lv == lines(text@),
            grep_lines_from(start, path@, lv, pattern@, 0) == grep_lines_from(
                views(matches@),
                path@,
                lv,
                pattern@,
                i as nat,
            ),
        decreases ls.len() - i,
    {
        let ghost before = views(matches@);
        proof {
            assert(lv[i as int] == ls@[i as int]@);
        }
        if contains_str(ls[i].as_str(), pattern) {
            let k: u64 = (i as u64) + 1;
            assert(k as nat == (i + 1) as nat);
            let d = u64_to_decimal(k);
            assert(d@ == decimal((i + 1) as nat));
            let mut m = cat(path, ":");
            m.append(d.as_str());
            m.push(':');
            proof {
                reveal_strlit(":");
            }
            m.append(ls[i].as_str());
            assert(m@ =~= grep_match_line(path@, (i + 1) as nat, lv[i as int]));
            matches.push(m);
            assert(views(matches@) =~= before.push(
                grep_match_line(path@, (i + 1) as nat, lv[i as int]),
            ));
        }
        i = i + 1;
    }
}

/// A background terminal session as the gateway records it.
#[derive(Debug)]
pub struct TerminalInfo {
    pub id: String,
    pub command: String,
    pub cwd: String,
    pub log_path: String,
}

/// The background terminal sessions of a gateway, in the order they were started, and the
/// number of the next one.
#[derive(Debug)]
pub struct TerminalSessions {
    sessions: Vec<TerminalInfo>,
    next_terminal_id: u64,
}

/// The identifier of the `n`th terminal session: `t1`, `t2`, ...
pub open spec fn terminal_id(n: nat) -> Seq<char> {
    "t"@ + decimal(n)
}

/// The usage line of `/bg`.
pub open spec fn bg_usage() -> Seq<char> {
    "/bg <command>"@
}

/// The position of the first session with the identifier, if any.
pub open spec fn session_position(sessions: Seq<TerminalInfo>, id: Seq<char>) -> Option<int> {
    if exists|i: int| 0 <= i < sessions.len() && (#[trigger] sessions[i]).id@ == id {
        Some(
            choose|i: int|
                0 <= i < sessions.len() && (#[trigger] sessions[i]).id@ == id && forall|j: int|
                    0 <= j < i ==> (#[trigger] sessions[j]).id@ != id,
        )
    } else {
        None
    }
}

impl TerminalSessions {
    /// The sessions, oldest first.
    pub closed spec fn sessions_view(&self) -> Seq<TerminalInfo> {
        self.sessions@
    }

    /// The number the next session will get.
    pub closed spec fn next_view(&self) -> u64 {
        self.next_terminal_id
    }

    /// No sessions; the first one will be `t1`.
    pub fn new() -> (s: Self)
        ensures
            s.sessions_view().len() == 0,
            s.next_view() == 1,
    {
        TerminalSessions { sessions: Vec::new(), next_terminal_id: 1 }
    }

    /// The number the next session will get.
    pub fn next_id(&self) -> (n: u64)
        ensures
            n == self.next_view(),
    {
        self.next_terminal_id
    }

    /// How many sessions are recorded.
    pub fn len(&self) -> (n: usize)
        ensures
            n == self.sessions_view().len(),
    {
        self.sessions.len()
    }

    /// The session at a position.
    pub fn get(&self, index: usize) -> (s: &TerminalInfo)
        requires
            index < self.sessions_view().len(),
        ensures
            *s == self.sessions_view()[index as int],
    {
        &self.sessions[index]
    }

    /// Reserves the identifier of a new session for a command: refused when the command is
    /// blank or `max_sessions` sessions are running; otherwise the next number is used up.
    pub fn begin(&mut self, command: &str, max_sessions: usize) -> (r: Result<String, ToolError>)
        requires
            old(self).next_view() < u64::MAX,
        ensures
            is_blank(command@) ==> (r matches Err(ToolError::Usage(u)) && u@ == bg_usage()
                && *final(self) == *old(self)),
            !is_blank(command@) && old(self).sessions_view().len() >= max_sessions ==> (r matches Err(
                ToolError::SessionLimit(n),
            ) && n == max_sessions && *final(self) == *old(self)),
            !is_blank(command@) && old(self).sessions_view().len() < max_sessions ==> (r matches Ok(
                id,
            ) && id@ == terminal_id(old(self).next_view() as nat) && final(self).sessions_view()
                == old(self).sessions_view() && final(self).next_view() == old(self).next_view()
                + 1),
    {
        if is_blank_str(command) {
            return Err(ToolError::Usage(copy_str("/bg <command>")));
        }
        if self.sessions.len() >= max_sessions {
            return Err(ToolError::SessionLimit(max_sessions));
        }
        let d = u64_to_decimal(self.next_terminal_id);
        let id = cat("t", d.as_str());
        self.next_terminal_id = self.next_terminal_id + 1;
        Ok(id)
    }

    /// Records a started session after the others.
    pub fn add(&mut self, info: TerminalInfo)
        ensures
            final(self).sessions_view() == old(self).sessions_view().push(info),
            final(self).next_view() == old(self).next_view(),
    {
        self.sessions.push(info);
    }

    /// The position of the session with an identifier.
    pub fn find(&self, id: &str) -> (r: Result<usize, ToolError>)
        ensures
            match session_position(self.sessions_view(), id@) {
                Some(i) => r matches Ok(k) && k == i,
                None => r matches Err(ToolError::UnknownSession(x)) && x@ == id@,
            },
    {
        let mut i: usize = 0;
        while i < self.sessions.len()
            invariant
                i <= self.sessions@.len(),
                forall|j: int| 0 <= j < i ==> (#[trigger] self.sessions@[j]).id@ != id@,
            decreases self.sessions.len() - i,
        {
            if str_eq(self.sessions[i].id.as_str(), id) {
                proof {
                    let ss = self.sessions@;
                    assert(0 <= i < ss.len() && ss[i as int].id@ == id@);
                    let k = choose|k: int|
                        0 <= k < ss.len() && (#[trigger] ss[k]).id@ == id@ && forall|j: int|
                            0 <= j < k ==> (#[trigger] ss[j]).id@ != id@;
                    assert(k == i) by {
                        if k < i {
                            assert(ss[k].id@ != id@);
                        } else if k > i {
                            assert(ss[i as int].id@ != id@);
                        }
                    }
                }
                return Ok(i);
            }
            i = i + 1;
        }
        Err(ToolError::UnknownSession(copy_str(id)))
    }

    /// Removes the session at a position and hands it back.
    pub fn remove(&mut self, index: usize) -> (s: TerminalInfo)
        requires
            index < old(self).sessions_view().len(),
        ensures
            s == old(self).sessions_view()[index as int],
            final(self).sessions_view() == old(self).sessions_view().remove(index as int),
            final(self).next_view() == old(self).next_view(),
    {
        self.sessions.remove(index)
    }
}

/// The report of a started session.
pub open spec fn started_text(id: Seq<char>, pid: nat, cwd: Seq<char>, log: Seq<char>) -> Seq<
    char,
> {
    "started terminal "@ + id + " pid="@ + decimal(pid) + "\ncwd="@ + cwd + "\nlog="@ + log
}

/// Reports a started session.
pub fn started_message(id: &str, pid: u32, cwd: &str, log: &str) -> (r: String)
    ensures
        r@ == started_text(id@, pid as nat, cwd@, log@),
{
    let mut r = cat("started terminal ", id);
    r.append(" pid=");
    r.append(u64_to_decimal(pid as u64).as_str());
    r.append("\ncwd=");
    r.append(cwd);
    r.append("\nlog=");
    r.append(log);
    r
}

/// How a session stands: `exited <status>` once its process has ended, else `running`.
pub open spec fn status_text(exit: Option<Seq<char>>) -> Seq<char> {
    match exit {
        Some(st) => "exited "@ + st,
        None => "running"@,
    }
}

/// Describes how a session stands, from its exit status if it has ended.
pub fn session_status(exit: Option<&str>) -> (r: String)
    ensures
        r@ == status_text(
            match exit {
                Some(s) => Some(s@),
                None => None,
            },
        ),
{
    match exit {
        Some(s) => cat("exited ", s),
        None => copy_str("running"),
    }
}

/// One line of the session list.
pub open spec fn session_line(info: TerminalInfo, status: Seq<char>) -> Seq<char> {
    info.id@ + " "@ + status + " cwd="@ + info.cwd@ + " command="@ + info.command@
}

/// The session list: one line per session with its status, or a note that there are none.
pub open spec fn session_list_text(sessions: Seq<TerminalInfo>, statuses: Seq<Seq<char>>) -> Seq<
    char,
> {
    if sessions.len() == 0 {
        "No terminal sessions."@
    } else {
        join(
            Seq::new(sessions.len(), |i: int| session_line(sessions[i], statuses[i])),
            "\n"@,
        )
    }
}

impl TerminalSessions {
    /// Lists the sessions with their statuses, given in the same order.
    pub fn list(&self, statuses: &Vec<String>) -> (r: String)
        requires
            statuses@.len() == self.sessions_view().len(),
        ensures
            r@ == session_list_text(self.sessions_view(), views(statuses@)),
    {
        if self.sessions.len() == 0 {
            return copy_str("No terminal sessions.");
        }
        let ghost target = Seq::new(
            self.sessions@.len(),
            |i: int| session_line(self.sessions@[i], views(statuses@)[i]),
        );
        let mut lines: Vec<String> = Vec::new();
        let mut i: usize = 0;
        while i < self.sessions.len()
            invariant
                i <= self.sessions@.len() == statuses@.len(),
                target == Seq::new(
                    self.sessions@.len(),
                    |i: int| session_line(self.sessions@[i], views(statuses@)[i]),
                ),
                lines.len() == i,
                forall|j: int| 0 <= j < i ==> #[trigger] lines@[j]@ == target[j],
            decreases self.sessions.len() - i,
        {
            let s = &self.sessions[i];
            let mut line = cat(s.id.as_str(), " ");
            line.append(statuses[i].as_str());
            line.append(" cwd=");
            line.append(s.cwd.as_str());
            line.append(" command=");
            line.append(s.command.as_str());
            assert(line@ =~= target[i as int]);
            lines.push(line);
            i = i + 1;
        }
        assert(views(lines@) =~= target);
        join_strings(&lines, "\n")
    }
}

/// The report of a session's recent output.
pub open spec fn tail_text(id: Seq<char>, status: Seq<char>, log: Seq<char>, text: Seq<char>) -> Seq<
    char,
> {
    id + " "@ + status + "\n"@ + log + "\n"@ + if is_blank(text) {
        "(no output yet)"@
    } else {
        text
    }
}

/// Reports a session's recent output.
pub fn tail_message(id: &str, status: &str, log: &str, text: &str) -> (r: String)
    ensures
        r@ == tail_text(id@, status@, log@, text@),
{
    let mut r = cat(id, " ");
    r.append(status);
    r.append("\n");
    r.append(log);
    r.append("\n");
    if is_blank_str(text) {
        r.append("(no output yet)");
    } else {
        r.append(text);
    }
    r
}

/// The report of a session that had already ended when asked to stop.
pub open spec fn already_exited_text(id: Seq<char>, status: Seq<char>) -> Seq<char> {
    "terminal "@ + id + " already exited with "@ + status
}

/// Reports a session that had already ended.
pub fn already_exited_message(id: &str, status: &str) -> (r: String)
    ensures
        r@ == already_exited_text(id@, status@),
{
    let mut r = cat("terminal ", id);
    r.append(" already exited with ");
    r.append(status);
    r
}

/// The report of a stopped session.
pub open spec fn killed_text(id: Seq<char>, status: Seq<char>) -> Seq<char> {
    "killed terminal "@ + id + "; status "@ + status
}

/// Reports a stopped session.
pub fn killed_message(id: &str, status: &str) -> (r: String)
    ensures
        r@ == killed_text(id@, status@),
{
    let mut r = cat("killed terminal ", id);
    r.append("; status ");
    r.append(status);
    r
}

/// Where a log's last `max` bytes begin.
pub fn tail_start(len: usize, max: usize) -> (r: usize)
    ensures
        r == if len > max {
            len - max
        } else {
            0
        },
{
    len.saturating_sub(max)
}

/// Entries in name order: no entry's name comes before an earlier one's.
pub open spec fn names_sorted(e: Seq<(Seq<char>, bool)>) -> bool {
    forall|i: int, j: int| 0 <= i < j < e.len() ==> !str_lt(#[trigger] e[j].0, #[trigger] e[i].0)
}

/// Puts directory entries in name order, keeping each entry.
pub fn sort_entries(entries: &Vec<(String, bool)>) -> (r: Vec<(String, bool)>)
    ensures
        names_sorted(entry_views(r@)),
        entry_views(r@).to_multiset() == entry_views(entries@).to_multiset(),
{
    let ghost ev = entry_views(entries@);
    let mut r: Vec<(String, bool)> = Vec::new();
    let mut i: usize = 0;
    proof {
        assert(entry_views(r@) =~= ev.take(0));
    }
    while i < entries.len()
        invariant
            i <= entries.len(),
            ev == entry_views(entries@),
            names_sorted(entry_views(r@)),
            entry_views(r@).to_multiset() == ev.take(i as int).to_multiset(),
        decreases entries.len() - i,
    {
        let name = entries[i].0.clone();
        let is_dir = entries[i].1;
        let nv = chars_of(name.as_str());
        let ghost old_r = entry_views(r@);
        let mut p: usize = 0;
        while p < r.len() && !str_less(nv.as_slice(), chars_of(r[p].0.as_str()).as_slice())
            invariant
                p <= r.len(),
                old_r == entry_views(r@),
                nv@ == name@,
                forall|k: int| 0 <= k < p ==> !str_lt(name@, #[trigger] old_r[k].0),
            decreases r.len() - p,
        {
            p = p + 1;
        }
        let ghost item = (name@, is_dir);
        r.insert(p, (name, is_dir));
        proof {
            let nr = entry_views(r@);
            assert(nr =~= old_r.insert(p as int, item));
            assert forall|a: int, b: int| 0 <= a < b < nr.len() implies !str_lt(
                #[trigger] nr[b].0,
                #[trigger] nr[a].0,
            ) by {
                if b < p {
                    assert(nr[a] == old_r[a] && nr[b] == old_r[b]);
                } else if b == p {
                    assert(nr[a] == old_r[a]);
                } else if a > p {
                    assert(nr[a] == old_r[a - 1] && nr[b] == old_r[b - 1]);
                } else if a == p {
                    assert(nr[b] == old_r[b - 1]);
                    assert(p < old_r.len());
                    assert(str_lt(name@, old_r[p as int].0));
                    if str_lt(old_r[b - 1].0, name@) {
                        crate::text::lemma_str_lt_transitive(
                            old_r[b - 1].0,
                            name@,
                            old_r[p as int].0,
                        );
                        if b - 1 == p {
                            crate::text::lemma_str_lt_irreflexive(old_r[p as int].0);
                        }
                    }
                } else {
                    assert(nr[a] == old_r[a] && nr[b] == old_r[b - 1]);
                }
            }
            vstd::seq_lib::to_multiset_insert(old_r, p as int, item);
            assert(ev[i as int] == item);
            assert(ev.take(i + 1) =~= ev.take(i as int).push(item));
            vstd::seq_lib::to_multiset_build(ev.take(i as int), item);
        }
        i = i + 1;
    }
    proof {
        assert(ev.take(entries.len() as int) =~= ev);
    }
    r
}

/// The UTF-8 length of a character followed by text.
proof fn lemma_utf8_len_prepend(x: char, r: Seq<char>)
    ensures
        utf8_len(seq![x] + r) == utf8_width(x) + utf8_len(r),
    decreases r.len(),
{
    if r.len() > 0 {
        lemma_utf8_len_prepend(x, r.drop_last());
        assert((seq![x] + r).drop_last() =~= seq![x] + r.drop_last());
        assert((seq![x] + r).last() == r.last());
    } else {
        assert(seq![x] + r =~= seq![x]);
        assert(seq![x].drop_last() =~= Seq::<char>::empty());
        assert(seq![x].last() == x);
        assert(utf8_len(Seq::<char>::empty()) == 0);
    }
}

/// A text that starts with `p` does not start with a prefix `q` that differs from `p`, in
/// ASCII lower case, at `i`.
proof fn lemma_prefix_clash(t: Seq<char>, p: Seq<char>, q: Seq<char>, i: int)
    requires
        strip_prefix_ci(t, p) is Some,
        0 <= i < p.len(),
        i < q.len(),
        lower(p[i]) != lower(q[i]),
    ensures
        strip_prefix_ci(t, q) is None,
{
    assert(lower_str(t.subrange(0, p.len() as int))[i] == lower_str(p)[i]);
    assert(t.subrange(0, p.len() as int)[i] == t[i]);
    if q.len() <= t.len() && lower_str(t.subrange(0, q.len() as int)) == lower_str(q) {
        assert(lower_str(t.subrange(0, q.len() as int))[i] == lower_str(q)[i]);
        assert(t.subrange(0, q.len() as int)[i] == t[i]);
    }
}

/// A request that starts with `grep `, `search text ` or `search for text ` (in any ASCII
/// case) is a text search for the rest of the request, cleaned of surrounding quotes and a
/// final period: no earlier reading (where am I, change directory, list, find) takes it.
pub proof fn law_grep_requests_search_text(text: Seq<char>, p: Seq<char>)
    requires
        p == "grep "@ || p == "search text "@ || p == "search for text "@,
        strip_prefix_ci(trim(text), p) is Some,
    ensures
        natural_call(text) == Some(
            ("grep"@, seq![cleaned(strip_prefix_ci(trim(text), p)->0)]),
        ),
{
    let t = trim(text);
    let l = lower_str(t);
    reveal_strlit("grep ");
    reveal_strlit("search text ");
    reveal_strlit("search for text ");
    assert(lower_str(t.subrange(0, p.len() as int)) == lower_str(p));
    assert forall|k: int| 0 <= k < p.len() implies lower(#[trigger] t[k]) == lower(p[k]) by {
        assert(lower_str(t.subrange(0, p.len() as int))[k] == lower_str(p)[k]);
        assert(t.subrange(0, p.len() as int)[k] == t[k]);
    }
    assert(l[0] == lower(t[0]) && l[1] == lower(t[1]));
    reveal_strlit("pwd");
    reveal_strlit("where am i");
    reveal_strlit("what directory am i in");
    assert(l != "pwd"@ && l != "where am i"@ && l != "what directory am i in"@) by {
        assert("pwd"@[0] == 'p');
        assert("where am i"@[0] == 'w');
        assert("what directory am i in"@[0] == 'w');
    }
    reveal_strlit("cd ");
    reveal_strlit("go to ");
    reveal_strlit("go into ");
    reveal_strlit("change directory to ");
    reveal_strlit("change directories to ");
    reveal_strlit("open folder ");
    lemma_prefix_clash(t, p, "cd "@, 0);
    if p == "grep "@ {
        lemma_prefix_clash(t, p, "go to "@, 1);
        lemma_prefix_clash(t, p, "go into "@, 1);
    } else {
        lemma_prefix_clash(t, p, "go to "@, 0);
        lemma_prefix_clash(t, p, "go into "@, 0);
    }
    lemma_prefix_clash(t, p, "change directory to "@, 0);
    lemma_prefix_clash(t, p, "change directories to "@, 0);
    lemma_prefix_clash(t, p, "open folder "@, 0);
    reveal_with_fuel(first_prefix, 7);
    assert(first_prefix(t, cd_prefixes()) is None);
    reveal_strlit("ls");
    reveal_strlit("list files");
    reveal_strlit("show files");
    reveal_strlit(" ");
    let w = ls_words();
    assert(w[0] == "ls"@ && w[1] == "list files"@ && w[2] == "show files"@);
    assert(l != "ls"@ && l != "list files"@ && l != "show files"@) by {
        assert("ls"@[0] == 'l');
        assert("list files"@[0] == 'l');
        assert("show files"@[1] == 'h');
    }
    lemma_prefix_clash(t, p, "ls"@ + " "@, 0);
    lemma_prefix_clash(t, p, "list files"@ + " "@, 0);
    if p == "grep "@ {
        lemma_prefix_clash(t, p, "show files"@ + " "@, 0);
    } else {
        lemma_prefix_clash(t, p, "show files"@ + " "@, 1);
    }
    reveal_with_fuel(ls_match, 4);
    assert(w.drop_first().drop_first().drop_first().len() == 0);
    assert(ls_match(t, l, w) is None);
    reveal_strlit("find ");
    reveal_strlit("find file ");
    reveal_strlit("find files ");
    reveal_strlit("search for file ");
    lemma_prefix_clash(t, p, "find "@, 0);
    lemma_prefix_clash(t, p, "find file "@, 0);
    lemma_prefix_clash(t, p, "find files "@, 0);
    if p == "grep "@ {
        lemma_prefix_clash(t, p, "search for file "@, 0);
    } else if p == "search text "@ {
        lemma_prefix_clash(t, p, "search for file "@, 7);
    } else {
        lemma_prefix_clash(t, p, "search for file "@, 11);
    }
    assert(first_prefix(t, find_prefixes()) is None);
    if p == "search text "@ {
        lemma_prefix_clash(t, p, "grep "@, 0);
    } else if p == "search for text "@ {
        lemma_prefix_clash(t, p, "grep "@, 0);
        lemma_prefix_clash(t, p, "search text "@, 7);
    }
    assert(first_prefix(t, grep_prefixes()) == strip_prefix_ci(t, p));
}

/// What output cutting keeps is the longest prefix of the text that fits in the budget.
pub proof fn law_clip_is_longest_fitting_prefix(s: Seq<char>, budget: nat)
    ensures
        utf8_len(clip_to(s, budget)) <= budget,
        clip_to(s, budget).len() <= s.len(),
        clip_to(s, budget) == s.take(clip_to(s, budget).len() as int),
        clip_to(s, budget).len() < s.len() ==> utf8_len(
            s.take(clip_to(s, budget).len() as int + 1),
        ) > budget,
    decreases s.len(),
{
    if s.len() > 0 && utf8_width(s[0]) <= budget {
        let rest = s.drop_first();
        let b2 = (budget - utf8_width(s[0])) as nat;
        law_clip_is_longest_fitting_prefix(rest, b2);
        let cr = clip_to(rest, b2);
        lemma_utf8_len_prepend(s[0], cr);
        assert(s.take(cr.len() as int + 1) =~= seq![s[0]] + rest.take(cr.len() as int));
        if cr.len() < rest.len() {
            assert(s.take(cr.len() as int + 2) =~= seq![s[0]] + rest.take(cr.len() as int + 1));
            lemma_utf8_len_prepend(s[0], rest.take(cr.len() as int + 1));
        }
    } else {
        assert(s.take(0) =~= Seq::<char>::empty());
        if s.len() > 0 {
            assert(s.take(1) =~= seq![s[0]]);
            assert(seq![s[0]].drop_last() =~= Seq::<char>::empty());
        }
    }
}

/// Terminal sessions never share an identifier: different numbers give different
/// identifiers.
pub proof fn law_terminal_ids_are_distinct(n: nat, m: nat)
    requires
        n != m,
    ensures
        terminal_id(n) != terminal_id(m),
{
    reveal_strlit("t");
    if terminal_id(n) == terminal_id(m) {
        assert(terminal_id(n).drop_first() =~= decimal(n));
        assert(terminal_id(m).drop_first() =~= decimal(m));
        crate::text::lemma_decimal_injective(n, m);
    }
}

} // verus!

//! Environment variables as values, and the `KEY=value` env file format.
use crate::paths::{joined_path, path_join};
use crate::strmap::{lemma_lookup_insert, lookup, StrMap};
use crate::text::{
    chars_of, copy_str, lines, lines_of, split_once, split_once_str, string_of_range, trim,
    trim_str,
};
use vstd::prelude::*;

verus! {

/// A snapshot of environment variables: names and values.
#[derive(Debug)]
pub struct EnvVars {
    vars: StrMap<String>,
}

/// The value of `key` in an environment, or the empty string where it is unset.
pub open spec fn env_value(env: Seq<(Seq<char>, String)>, key: Seq<char>) -> Seq<char> {
    match lookup(env, key) {
        Some(v) => v@,
        None => Seq::empty(),
    }
}

/// Whether `key` is set in an environment.
pub open spec fn env_has(env: Seq<(Seq<char>, String)>, key: Seq<char>) -> bool {
    lookup(env, key) is Some
}

impl View for EnvVars {
    type V = Seq<(Seq<char>, String)>;

    closed spec fn view(&self) -> Seq<(Seq<char>, String)> {
        self.vars@
    }
}

impl EnvVars {
    /// An environment with no variables.
    pub fn new() -> (e: Self)
        ensures
            e@ == Seq::<(Seq<char>, String)>::empty(),
    {
        EnvVars { vars: StrMap::new() }
    }

    /// Sets `key` to `value`.
    pub fn set(&mut self, key: String, value: String)
        ensures
            forall|k: Seq<char>| #[trigger]
                lookup(final(self)@, k) == if k == key@ {
                    Some(value)
                } else {
                    lookup(old(self)@, k)
                },
    {
        let ghost s = self.vars@;
        let ghost kv = key@;
        let ghost vv = value;
        self.vars.insert(key, value);
        proof {
            assert forall|k: Seq<char>| #[trigger]
                lookup(self@, k) == if k == kv {
                    Some(vv)
                } else {
                    lookup(s, k)
                } by {
                lemma_lookup_insert(s, kv, vv, k);
            }
        }
    }

    /// The value of `key`, if set.
    pub fn get(&self, key: &str) -> (r: Option<&String>)
        ensures
            r matches Some(v) ==> lookup(self@, key@) == Some(*v),
            r is None ==> lookup(self@, key@) is None,
    {
        self.vars.get(key)
    }

    /// The value of `key`, or the empty string where it is unset.
    pub fn value_or_empty(&self, key: &str) -> (r: String)
        ensures
            r@ == env_value(self@, key@),
    {
        match self.vars.get(key) {
            Some(v) => v.clone(),
            None => String::new(),
        }
    }

    /// Whether `key` is set.
    pub fn has(&self, key: &str) -> (b: bool)
        ensures
            b == env_has(self@, key@),
    {
        self.vars.contains_key(key)
    }
}

/// The home directory: the `HOME` variable.
pub fn home_dir(env: &EnvVars) -> (r: Option<String>)
    ensures
        match lookup(env@, "HOME"@) {
            Some(h) => r matches Some(s) && s@ == h@,
            None => r is None,
        },
{
    match env.get("HOME") {
        Some(h) => Some(h.clone()),
        None => None,
    }
}

/// The home directory, or `.` where `HOME` is unset.
pub open spec fn home_or_dot(env: Seq<(Seq<char>, String)>) -> Seq<char> {
    match lookup(env, "HOME"@) {
        Some(h) => h@,
        None => "."@,
    }
}

/// Where the env file lives by default: `~/.pocket-harness/env`.
pub fn default_env_file(env: &EnvVars) -> (r: String)
    ensures
        r@ == joined_path(joined_path(home_or_dot(env@), ".pocket-harness"@), "env"@),
{
    let home = match home_dir(env) {
        Some(h) => h,
        None => copy_str("."),
    };
    let dir = path_join(home.as_str(), ".pocket-harness");
    path_join(dir.as_str(), "env")
}

/// The env file loaded at startup: the given path, or the default one. Reading it, when
/// it exists, and applying its assignments are left to the caller.
pub fn load_default_env_file(override_path: Option<&str>, env: &EnvVars) -> (r: String)
    ensures
        r@ == match override_path {
            Some(p) => p@,
            None => joined_path(joined_path(home_or_dot(env@), ".pocket-harness"@), "env"@),
        },
{
    match override_path {
        Some(p) => copy_str(p),
        None => default_env_file(env),
    }
}

/// A value without one pair of surrounding double or single quotes.
pub open spec fn unquote(v: Seq<char>) -> Seq<char> {
    if v.len() >= 2 && v[0] == '"' && v.last() == '"' {
        v.subrange(1, v.len() - 1)
    } else if v.len() >= 2 && v[0] == '\'' && v.last() == '\'' {
        v.subrange(1, v.len() - 1)
    } else {
        v
    }
}

/// Removes one pair of surrounding quotes.
pub fn unquote_str(value: &str) -> (r: String)
    ensures
        r@ == unquote(value@),
{
    let v = chars_of(value);
    let n = v.len();
    if n >= 2 && v[0] == '"' && v[n - 1] == '"' {
        string_of_range(v.as_slice(), 1, n - 1)
    } else if n >= 2 && v[0] == '\'' && v[n - 1] == '\'' {
        string_of_range(v.as_slice(), 1, n - 1)
    } else {
        copy_str(value)
    }
}

/// The assignment a trimmed env file line makes, if any: blank lines, `#` comments and lines
/// without `=` make none, nor does an empty name.
pub open spec fn line_assignment(line: Seq<char>) -> Option<(Seq<char>, Seq<char>)> {
    if line.len() == 0 || line[0] == '#' {
        None
    } else {
        match split_once(line, "="@) {
            None => None,
            Some((k, v)) => {
                let key = trim(k);
                if key.len() == 0 {
                    None
                } else {
                    Some((key, unquote(trim(v))))
                }
            },
        }
    }
}

/// Whether `key` is among the names already assigned.
pub open spec fn assigned(acc: Seq<(Seq<char>, Seq<char>)>, key: Seq<char>) -> bool {
    exists|i: int| 0 <= i < acc.len() && acc[i].0 == key
}

/// The assignments an env file makes, line by line: a name that is already set in the
/// environment, or was assigned by an earlier line, is left alone.
pub open spec fn env_assignments_from(
    ls: Seq<Seq<char>>,
    env: Seq<(Seq<char>, String)>,
    acc: Seq<(Seq<char>, Seq<char>)>,
) -> Seq<(Seq<char>, Seq<char>)>
    decreases ls.len(),
{
    if ls.len() == 0 {
        acc
    } else {
        let next = match line_assignment(trim(ls[0])) {
            Some((k, v)) => if env_has(env, k) || assigned(acc, k) {
                acc
            } else {
                acc.push((k, v))
            },
            None => acc,
        };
        env_assignments_from(ls.drop_first(), env, next)
    }
}

/// The assignments the env file text `text` makes against the environment `env`.
pub open spec fn env_assignments(text: Seq<char>, env: Seq<(Seq<char>, String)>) -> Seq<
    (Seq<char>, Seq<char>),
> {
    env_assignments_from(lines(text), env, Seq::empty())
}

/// The assignment made by one line (already trimmed).
fn parse_line(line: &str) -> (r: Option<(String, String)>)
    ensures
        match line_assignment(line@) {
            Some((k, v)) => r matches Some((a, b)) && a@ == k && b@ == v,
            None => r is None,
        },
{
    let v = chars_of(line);
    if v.len() == 0 || v[0] == '#' {
        return None;
    }
    match split_once_str(line, "=") {
        None => None,
        Some((k, val)) => {
            let key = trim_str(k.as_str());
            if crate::text::is_blank_str(key.as_str()) {
                proof {
                    crate::text::lemma_trim_empty_iff_blank(key@);
                    crate::text::lemma_trim_start_is_suffix(k@);
                    crate::text::lemma_trim_end_is_prefix(crate::text::trim_start(k@));
                    if key@.len() > 0 {
                        // a trimmed string that is not empty has a non-whitespace first char
                        assert(!crate::text::is_blank(key@)) by {
                            lemma_trimmed_not_blank(k@);
                        }
                    }
                }
                return None;
            }
            let t = trim_str(val.as_str());
            let value = unquote_str(t.as_str());
            Some((key, value))
        },
    }
}

/// A non-empty trimmed string has a non-whitespace character.
proof fn lemma_trimmed_not_blank(s: Seq<char>)
    requires
        trim(s).len() > 0,
    ensures
        !crate::text::is_blank(trim(s)),
{
    crate::text::lemma_trim_start_is_suffix(s);
    crate::text::lemma_trim_end_is_prefix(crate::text::trim_start(s));
    let t = crate::text::trim_start(s);
    let u = trim(s);
    assert(u.len() <= t.len());
    assert(t.len() > 0);
    assert(!crate::text::is_ws(t[0]));
    assert(u[0] == t[0]);
}

/// The names and values an env file assigns, in file order, given the environment it is
/// loaded into: names already set are kept, and of repeated names the first assignment wins.
pub fn env_file_assignments(text: &str, env: &EnvVars) -> (r: Vec<(String, String)>)
    ensures
        r@.map_values(|e: (String, String)| (e.0@, e.1@)) == env_assignments(text@, env@),
{
    let ls = lines_of(text);
    let ghost lv = ls@.map_values(|x: String| x@);
    let mut out: Vec<(String, String)> = Vec::new();
    let mut i: usize = 0;
    assert(lv.skip(0) == lv);
    assert(out@.map_values(|e: (String, String)| (e.0@, e.1@)) == Seq::<
        (Seq<char>, Seq<char>),
    >::empty());
    while i < ls.len()
        invariant
            i <= ls.len(),
            lv == ls@.map_values(|x: String| x@),
            lv == lines(text@),
            env_assignments(text@, env@) == env_assignments_from(
                lv.skip(i as int),
                env@,
                out@.map_values(|e: (String, String)| (e.0@, e.1@)),
            ),
        decreases ls.len() - i,
    {
        let ghost acc = out@.map_values(|e: (String, String)| (e.0@, e.1@));
        let line = trim_str(ls[i].as_str());
        proof {
            assert(lv.skip(i as int)[0] == lv[i as int]);
            assert(lv.skip(i as int).drop_first() == lv.skip(i + 1));
        }
        match parse_line(line.as_str()) {
            Some((key, value)) => {
                let mut seen = env.has(key.as_str());
                let mut j: usize = 0;
                while j < out.len() && !seen
                    invariant
                        j <= out.len(),
                        acc == out@.map_values(|e: (String, String)| (e.0@, e.1@)),
                        seen ==> env_has(env@, key@) || assigned(acc, key@),
                        !seen ==> !env_has(env@, key@) && forall|m: int|
                            0 <= m < j ==> acc[m].0 != key@,
                    decreases out.len() - j,
                {
                    if crate::text::str_eq(out[j].0.as_str(), key.as_str()) {
                        assert(acc[j as int].0 == key@);
                        seen = true;
                    }
                    j = j + 1;
                }
                if !seen {
                    out.push((key, value));
                    assert(out@.map_values(|e: (String, String)| (e.0@, e.1@)) == acc.push(
                        (key@, value@),
                    ));
                }
            },
            None => {},
        }
        i = i + 1;
    }
    out
}

/// Assignments that leave set names alone and name each variable once.
pub open spec fn fresh_and_distinct(
    acc: Seq<(Seq<char>, Seq<char>)>,
    env: Seq<(Seq<char>, String)>,
) -> bool {
    &&& forall|i: int| 0 <= i < acc.len() ==> !env_has(env, #[trigger] acc[i].0)
    &&& forall|i: int, j: int| 0 <= i < j < acc.len() ==> #[trigger] acc[i].0 != #[trigger] acc[j].0
}

proof fn lemma_assignments_fresh(
    ls: Seq<Seq<char>>,
    env: Seq<(Seq<char>, String)>,
    acc: Seq<(Seq<char>, Seq<char>)>,
)
    requires
        fresh_and_distinct(acc, env),
    ensures
        fresh_and_distinct(env_assignments_from(ls, env, acc), env),
    decreases ls.len(),
{
    if ls.len() > 0 {
        let next = match line_assignment(trim(ls[0])) {
            Some((k, v)) => if env_has(env, k) || assigned(acc, k) {
                acc
            } else {
                acc.push((k, v))
            },
            None => acc,
        };
        if let Some((k, v)) = line_assignment(trim(ls[0])) {
            if !(env_has(env, k) || assigned(acc, k)) {
                let n = acc.push((k, v));
                assert forall|i: int, j: int| 0 <= i < j < n.len() implies #[trigger] n[i].0
                    != #[trigger] n[j].0 by {
                    if j == acc.len() {
                        if n[i].0 == k {
                            assert(acc[i].0 == k);
                            assert(assigned(acc, k));
                        }
                    } else {
                        assert(n[i] == acc[i] && n[j] == acc[j]);
                    }
                }
                assert forall|i: int| 0 <= i < n.len() implies !env_has(env, #[trigger] n[i].0) by {
                    if i < acc.len() {
                        assert(n[i] == acc[i]);
                    }
                }
            }
        }
        lemma_assignments_fresh(ls.drop_first(), env, next);
    }
}

/// Loading an env file never overrides a variable that is already set, and assigns each
/// variable at most once: the first assignment in the file wins.
pub proof fn law_env_file_keeps_existing_values(text: Seq<char>, env: Seq<(Seq<char>, String)>)
    ensures
        forall|i: int|
            0 <= i < env_assignments(text, env).len() ==> !env_has(
                env,
                #[trigger] env_assignments(text, env)[i].0,
            ),
        forall|i: int, j: int|
            0 <= i < j < env_assignments(text, env).len() ==> #[trigger] env_assignments(
                text,
                env,
            )[i].0 != #[trigger] env_assignments(text, env)[j].0,
{
    lemma_assignments_fresh(lines(text), env, Seq::empty());
}

} // verus!

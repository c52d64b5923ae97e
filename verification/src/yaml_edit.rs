//! Dotted setting paths for configuration edits, and setting a value at a path in a YAML
//! document.
use crate::env_file::{unquote, unquote_str};
use crate::text::{
    copy_str, chars_of, i64_value, parse_i64_text, str_eq, string_of_range, trim, trim_str, views,
};
use vstd::prelude::*;

verus! {

/// The pieces of `s` between occurrences of `c` (`str::split`), always at least one.
pub open spec fn split_char(s: Seq<char>, c: char) -> Seq<Seq<char>>
    decreases s.len(),
{
    if s.len() == 0 {
        seq![Seq::empty()]
    } else {
        let p = split_char(s.drop_last(), c);
        if s.last() == c {
            p.push(Seq::empty())
        } else {
            p.update(p.len() - 1, p.last().push(s.last()))
        }
    }
}

/// `split_char` never yields nothing.
proof fn lemma_split_char_nonempty(s: Seq<char>, c: char)
    ensures
        split_char(s, c).len() >= 1,
    decreases s.len(),
{
    if s.len() > 0 {
        lemma_split_char_nonempty(s.drop_last(), c);
    }
}

/// The trimmed, non-empty pieces, in order.
pub open spec fn nonempty_trimmed(pieces: Seq<Seq<char>>) -> Seq<Seq<char>>
    decreases pieces.len(),
{
    if pieces.len() == 0 {
        Seq::empty()
    } else {
        nonempty_trimmed(pieces.drop_last()) + if trim(pieces.last()).len() > 0 {
            seq![trim(pieces.last())]
        } else {
            Seq::empty()
        }
    }
}

/// The keys of a dotted setting path: the dot-separated parts, trimmed, empty ones dropped.
pub open spec fn path_keys(dotted: Seq<char>) -> Seq<Seq<char>> {
    nonempty_trimmed(split_char(dotted, '.'))
}

/// Why a setting path was refused.
#[derive(Debug, Clone, Copy, PartialEq, Eq, Structural)]
pub enum PathError {
    Empty,
}

impl PathError {
    /// The human-readable message for the error.
    pub fn message(&self) -> (m: String)
        ensures
            m@ == "config path cannot be empty"@,
    {
        copy_str("config path cannot be empty")
    }
}

/// Splits a dotted setting path such as `threads.main.cwd` into its keys.
pub fn parse_path(dotted_path: &str) -> (r: Result<Vec<String>, PathError>)
    ensures
        path_keys(dotted_path@).len() == 0 ==> r == Err::<Vec<String>, PathError>(PathError::Empty),
        path_keys(dotted_path@).len() > 0 ==> (r matches Ok(keys) && views(keys@) == path_keys(
            dotted_path@,
        )),
{
    let v = chars_of(dotted_path);
    let n = v.len();
    let mut keys: Vec<String> = Vec::new();
    let mut start: usize = 0;
    let mut i: usize = 0;
    proof {
        assert(v@.take(0) =~= Seq::<char>::empty());
        assert(split_char(v@.take(0), '.') =~= seq![Seq::<char>::empty()]);
        assert(split_char(v@.take(0), '.').drop_last() =~= Seq::<Seq<char>>::empty());
        assert(v@.subrange(0, 0) =~= Seq::<char>::empty());
    }
    while i < n
        invariant
            start <= i <= n == v.len(),
            v@ == dotted_path@,
            split_char(v@.take(i as int), '.').len() >= 1,
            split_char(v@.take(i as int), '.').last() == v@.subrange(start as int, i as int),
            views(keys@) == nonempty_trimmed(split_char(v@.take(i as int), '.').drop_last()),
        decreases n - i,
    {
        let ghost p = split_char(v@.take(i as int), '.');
        proof {
            assert(v@.take(i + 1).drop_last() =~= v@.take(i as int));
            assert(v@.take(i + 1).last() == v@[i as int]);
            lemma_split_char_nonempty(v@.take(i as int), '.');
        }
        if v[i] == '.' {
            let piece = string_of_range(v.as_slice(), start, i);
            let t = trim_str(piece.as_str());
            let ghost before = views(keys@);
            proof {
                let q = split_char(v@.take(i + 1), '.');
                assert(q == p.push(Seq::empty()));
                assert(q.drop_last() =~= p);
                assert(p.drop_last() + seq![p.last()] =~= p);
                assert(nonempty_trimmed(p) == nonempty_trimmed(p.drop_last()) + if trim(
                    p.last(),
                ).len() > 0 {
                    seq![trim(p.last())]
                } else {
                    Seq::empty()
                });
            }
            if !t.as_str().is_empty() {
                keys.push(t);
                assert(views(keys@) =~= before.push(trim(p.last())));
            } else {
                assert(before + Seq::<Seq<char>>::empty() =~= before);
            }
            start = i + 1;
            i = i + 1;
            proof {
                assert(v@.subrange(start as int, i as int) =~= Seq::<char>::empty());
            }
        } else {
            proof {
                let q = split_char(v@.take(i + 1), '.');
                assert(q == p.update(p.len() - 1, p.last().push(v@[i as int])));
                assert(q.drop_last() =~= p.drop_last());
                assert(v@.subrange(start as int, i + 1) =~= v@.subrange(start as int, i as int).push(
                    v@[i as int],
                ));
            }
            i = i + 1;
        }
    }
    let piece = string_of_range(v.as_slice(), start, n);
    let t = trim_str(piece.as_str());
    let ghost p = split_char(v@.take(n as int), '.');
    proof {
        assert(v@.take(n as int) =~= v@);
        assert(p.drop_last() + seq![p.last()] =~= p);
    }
    let ghost before = views(keys@);
    if !t.as_str().is_empty() {
        keys.push(t);
        assert(views(keys@) =~= before.push(trim(p.last())));
    } else {
        assert(before + Seq::<Seq<char>>::empty() =~= before);
    }
    if keys.len() == 0 {
        Err(PathError::Empty)
    } else {
        Ok(keys)
    }
}

/// No piece of a split holds the separator.
proof fn lemma_split_char_pieces(s: Seq<char>, c: char)
    ensures
        forall|i: int, j: int|
            0 <= i < split_char(s, c).len() && 0 <= j < split_char(s, c)[i].len() ==> #[trigger] split_char(
                s,
                c,
            )[i][j] != c,
    decreases s.len(),
{
    if s.len() > 0 {
        lemma_split_char_pieces(s.drop_last(), c);
        lemma_split_char_nonempty(s.drop_last(), c);
        let p = split_char(s.drop_last(), c);
        if s.last() != c {
            let q = p.update(p.len() - 1, p.last().push(s.last()));
            assert forall|i: int, j: int| 0 <= i < q.len() && 0 <= j < q[i].len() implies q[i][j]
                != c by {
                if i == p.len() - 1 {
                    if j < p.last().len() {
                        assert(q[i][j] == p[i][j]);
                    }
                } else {
                    assert(q[i] == p[i]);
                }
            }
        } else {
            let q = p.push(Seq::<char>::empty());
            assert forall|i: int, j: int| 0 <= i < q.len() && 0 <= j < q[i].len() implies q[i][j]
                != c by {
                if i < p.len() {
                    assert(q[i] == p[i]);
                }
            }
        }
    }
}

/// The kept pieces are trimmed, non-empty, and hold no `c` when no piece does.
proof fn lemma_nonempty_trimmed(pieces: Seq<Seq<char>>, c: char)
    requires
        forall|i: int, j: int|
            0 <= i < pieces.len() && 0 <= j < pieces[i].len() ==> #[trigger] pieces[i][j] != c,
    ensures
        forall|i: int|
            0 <= i < nonempty_trimmed(pieces).len() ==> {
                let k = #[trigger] nonempty_trimmed(pieces)[i];
                &&& k.len() > 0
                &&& trim(k) == k
                &&& !k.contains(c)
            },
    decreases pieces.len(),
{
    if pieces.len() > 0 {
        let init = pieces.drop_last();
        assert forall|i: int, j: int| 0 <= i < init.len() && 0 <= j < init[i].len() implies #[trigger] init[i][j]
            != c by {
            assert(init[i] == pieces[i]);
        }
        lemma_nonempty_trimmed(init, c);
        let last = pieces.last();
        let t = trim(last);
        crate::text::lemma_trim_idempotent(last);
        crate::text::lemma_trim_start_is_suffix(last);
        crate::text::lemma_trim_end_is_prefix(crate::text::trim_start(last));
        let a = crate::text::trim_start(last);
        assert forall|j: int| 0 <= j < t.len() implies t[j] != c by {
            assert(t[j] == a[j]);
            assert(a[j] == last[last.len() - a.len() + j]);
            assert(pieces[pieces.len() - 1] == last);
        }
        let r = nonempty_trimmed(pieces);
        let ri = nonempty_trimmed(init);
        assert forall|i: int| 0 <= i < r.len() implies {
            let k = #[trigger] r[i];
            &&& k.len() > 0
            &&& trim(k) == k
            &&& !k.contains(c)
        } by {
            if i < ri.len() {
                assert(r[i] == ri[i]);
            } else {
                assert(r[i] == t);
                if t.contains(c) {
                    let j = choose|j: int| 0 <= j < t.len() && t[j] == c;
                    assert(false);
                }
            }
        }
    }
}

/// Every key of a setting path is non-empty, trimmed, and free of dots.
pub proof fn law_path_keys_are_clean(dotted: Seq<char>)
    ensures
        forall|i: int|
            0 <= i < path_keys(dotted).len() ==> {
                let k = #[trigger] path_keys(dotted)[i];
                &&& k.len() > 0
                &&& trim(k) == k
                &&& !k.contains('.')
            },
{
    lemma_split_char_pieces(dotted, '.');
    lemma_nonempty_trimmed(split_char(dotted, '.'), '.');
}


/// A key of a YAML mapping: text, or any other YAML value.
#[derive(Debug)]
pub enum YamlKey {
    Text(String),
    Other(serde_yaml::Value),
}

/// A YAML document as an edit sees it: mappings, whose entries it can walk, and every other
/// value, carried through unread.
#[derive(Debug)]
pub enum YamlTree {
    Mapping(Vec<(YamlKey, YamlTree)>),
    Plain(serde_yaml::Value),
}

/// Whether an entry's key is the text `k`.
pub open spec fn has_text_key(e: (YamlKey, YamlTree), k: Seq<char>) -> bool {
    e.0 matches YamlKey::Text(t) && t@ == k
}

/// The position of the first entry keyed by the text `k`.
pub open spec fn key_position(m: Seq<(YamlKey, YamlTree)>, k: Seq<char>) -> Option<int> {
    if exists|i: int| 0 <= i < m.len() && has_text_key(#[trigger] m[i], k) {
        Some(
            choose|i: int|
                0 <= i < m.len() && has_text_key(#[trigger] m[i], k) && forall|j: int|
                    0 <= j < i ==> !has_text_key(#[trigger] m[j], k),
        )
    } else {
        None
    }
}

/// The entries of a mapping; any other value has none.
pub open spec fn entries_of(t: YamlTree) -> Seq<(YamlKey, YamlTree)> {
    match t {
        YamlTree::Mapping(m) => m@,
        YamlTree::Plain(_) => Seq::empty(),
    }
}

/// The value a path of keys leads to, if every key is found in a mapping on the way.
pub open spec fn node_at(t: YamlTree, path: Seq<Seq<char>>) -> Option<YamlTree>
    decreases path.len(),
{
    if path.len() == 0 {
        Some(t)
    } else {
        match t {
            YamlTree::Mapping(m) => match key_position(m@, path[0]) {
                Some(i) => node_at(m@[i].1, path.drop_first()),
                None => None,
            },
            YamlTree::Plain(_) => None,
        }
    }
}

/// Whether `r` is what setting `v` at `path` makes of a value with the entries `before`:
/// along the path each value becomes a mapping (a value that was not one loses what it
/// held), the entry for each key is updated in place where the key is found and added at
/// the end where it is not, and `v` is put at the end of the path. Entries off the path are
/// kept as they were, in their order.
pub open spec fn placed(
    before: Seq<(YamlKey, YamlTree)>,
    path: Seq<Seq<char>>,
    v: YamlTree,
    r: YamlTree,
) -> bool
    decreases path.len(),
{
    if path.len() == 0 {
        r == v
    } else {
        &&& r is Mapping
        &&& match key_position(before, path[0]) {
            Some(i) => {
                let rm = r->Mapping_0@;
                &&& rm.len() == before.len()
                &&& forall|j: int| 0 <= j < before.len() && j != i ==> rm[j] == before[j]
                &&& rm[i].0 == before[i].0
                &&& placed(entries_of(before[i].1), path.drop_first(), v, rm[i].1)
            },
            None => {
                let rm = r->Mapping_0@;
                &&& rm.len() == before.len() + 1
                &&& forall|j: int| 0 <= j < before.len() ==> rm[j] == before[j]
                &&& has_text_key(rm[before.len() as int], path[0])
                &&& placed(Seq::empty(), path.drop_first(), v, rm[before.len() as int].1)
            },
        }
    }
}

/// The entries of a value, taking it apart.
fn into_entries(t: YamlTree) -> (m: Vec<(YamlKey, YamlTree)>)
    ensures
        m@ == entries_of(t),
{
    match t {
        YamlTree::Mapping(m) => m,
        YamlTree::Plain(_) => Vec::new(),
    }
}

/// Whether an entry's key is the text `k`.
fn is_text_key(e: &(YamlKey, YamlTree), k: &str) -> (b: bool)
    ensures
        b == has_text_key(*e, k@),
{
    match &e.0 {
        YamlKey::Text(t) => str_eq(t.as_str(), k),
        YamlKey::Other(_) => false,
    }
}

/// The position of the first entry keyed by the text `k`.
fn find_key(m: &Vec<(YamlKey, YamlTree)>, k: &str) -> (r: Option<usize>)
    ensures
        match r {
            Some(i) => i < m@.len() && key_position(m@, k@) == Some(i as int),
            None => key_position(m@, k@) is None,
        },
{
    let mut i: usize = 0;
    while i < m.len()
        invariant
            i <= m.len(),
            forall|j: int| 0 <= j < i ==> !has_text_key(#[trigger] m@[j], k@),
        decreases m.len() - i,
    {
        if is_text_key(&m[i], k) {
            proof {
                let p = key_position(m@, k@);
                assert(has_text_key(m@[i as int], k@));
                if let Some(q) = p {
                    if q < i {
                        assert(!has_text_key(m@[q], k@));
                    } else if q > i {
                        assert(false);
                    }
                }
            }
            return Some(i);
        }
        i = i + 1;
    }
    None
}

/// Sets `v` at the keys of `path` from `start` on.
fn set_from(t: YamlTree, path: &Vec<String>, start: usize, v: YamlTree) -> (r: YamlTree)
    requires
        start <= path.len(),
    ensures
        placed(entries_of(t), views(path@).skip(start as int), v, r),
    decreases path.len() - start,
{
    let ghost rest = views(path@).skip(start as int);
    if start == path.len() {
        proof {
            assert(rest.len() == 0);
        }
        return v;
    }
    proof {
        assert(rest[0] == path@[start as int]@);
        assert(rest.drop_first() =~= views(path@).skip(start + 1));
    }
    let mut m = into_entries(t);
    let ghost before = m@;
    match find_key(&m, path[start].as_str()) {
        Some(i) => {
            let (k, child) = m.remove(i);
            let ghost old_child = child;
            let child2 = set_from(child, path, start + 1, v);
            m.insert(i, (k, child2));
            proof {
                assert(before[i as int] == (k, old_child));
            }
            YamlTree::Mapping(m)
        },
        None => {
            let child2 = set_from(YamlTree::Mapping(Vec::new()), path, start + 1, v);
            m.push((YamlKey::Text(path[start].clone()), child2));
            YamlTree::Mapping(m)
        },
    }
}

/// Sets a value at a path of keys, making a mapping of each value along the way that is not
/// one.
pub fn set_path(t: YamlTree, path: &Vec<String>, v: YamlTree) -> (r: YamlTree)
    ensures
        placed(entries_of(t), views(path@), v, r),
{
    proof {
        assert(views(path@).skip(0) =~= views(path@));
    }
    set_from(t, path, 0, v)
}

/// The first entry with a key is where `key_position` points.
proof fn lemma_key_position_is(m: Seq<(YamlKey, YamlTree)>, k: Seq<char>, i: int)
    requires
        0 <= i < m.len(),
        has_text_key(m[i], k),
        forall|j: int| 0 <= j < i ==> !has_text_key(#[trigger] m[j], k),
    ensures
        key_position(m, k) == Some(i),
{
    let c = choose|c: int|
        0 <= c < m.len() && has_text_key(#[trigger] m[c], k) && forall|j: int|
            0 <= j < c ==> !has_text_key(#[trigger] m[j], k);
    assert(0 <= c < m.len() && has_text_key(m[c], k) && forall|j: int|
        0 <= j < c ==> !has_text_key(#[trigger] m[j], k));
    if c < i {
        assert(!has_text_key(m[c], k));
    } else if c > i {
        assert(!has_text_key(m[i], k));
    }
}

/// What `key_position` promises of the entry it finds, and of the entries when it finds
/// none.
proof fn lemma_key_position(m: Seq<(YamlKey, YamlTree)>, k: Seq<char>)
    ensures
        key_position(m, k) matches Some(i) ==> 0 <= i < m.len() && has_text_key(m[i], k)
            && forall|j: int| 0 <= j < i ==> !has_text_key(#[trigger] m[j], k),
        key_position(m, k) is None ==> forall|j: int|
            0 <= j < m.len() ==> !has_text_key(#[trigger] m[j], k),
{
    if exists|i: int| 0 <= i < m.len() && has_text_key(#[trigger] m[i], k) {
        let w = choose|i: int| 0 <= i < m.len() && has_text_key(#[trigger] m[i], k);
        lemma_first_key(m, k, w);
    }
}

/// Below any entry with a key there is a first one.
proof fn lemma_first_key(m: Seq<(YamlKey, YamlTree)>, k: Seq<char>, w: int)
    requires
        0 <= w < m.len(),
        has_text_key(m[w], k),
    ensures
        exists|i: int|
            0 <= i < m.len() && has_text_key(#[trigger] m[i], k) && forall|j: int|
                0 <= j < i ==> !has_text_key(#[trigger] m[j], k),
    decreases w,
{
    if exists|j: int| 0 <= j < w && has_text_key(#[trigger] m[j], k) {
        let j = choose|j: int| 0 <= j < w && has_text_key(#[trigger] m[j], k);
        lemma_first_key(m, k, j);
    } else {
        assert(forall|j: int| 0 <= j < w ==> !has_text_key(#[trigger] m[j], k));
    }
}

/// Reading a path right after setting a value there gives that value back.
pub proof fn law_read_after_set(t: YamlTree, path: Seq<Seq<char>>, v: YamlTree, r: YamlTree)
    requires
        placed(entries_of(t), path, v, r),
    ensures
        node_at(r, path) == Some(v),
{
    law_read_after_placing(entries_of(t), path, v, r);
}

proof fn law_read_after_placing(
    before: Seq<(YamlKey, YamlTree)>,
    path: Seq<Seq<char>>,
    v: YamlTree,
    r: YamlTree,
)
    requires
        placed(before, path, v, r),
    ensures
        node_at(r, path) == Some(v),
    decreases path.len(),
{
    if path.len() > 0 {
        let rm = r->Mapping_0@;
        lemma_key_position(before, path[0]);
        match key_position(before, path[0]) {
            Some(i) => {
                assert forall|j: int| 0 <= j < i implies !has_text_key(#[trigger] rm[j], path[0]) by {
                    assert(rm[j] == before[j]);
                }
                lemma_key_position_is(rm, path[0], i);
                law_read_after_placing(entries_of(before[i].1), path.drop_first(), v, rm[i].1);
            },
            None => {
                let n = before.len() as int;
                assert forall|j: int| 0 <= j < n implies !has_text_key(#[trigger] rm[j], path[0]) by {
                    assert(rm[j] == before[j]);
                }
                lemma_key_position_is(rm, path[0], n);
                law_read_after_placing(Seq::empty(), path.drop_first(), v, rm[n].1);
            },
        }
    }
}

/// Setting a value at one path leaves every value at a path that parts from it where it
/// was: the two paths agree on their first `k` keys and differ at key `k`.
pub proof fn law_set_keeps_other_settings(
    t: YamlTree,
    path: Seq<Seq<char>>,
    v: YamlTree,
    r: YamlTree,
    other: Seq<Seq<char>>,
    k: int,
)
    requires
        placed(entries_of(t), path, v, r),
        0 <= k < path.len(),
        k < other.len(),
        path[k] != other[k],
        forall|j: int| 0 <= j < k ==> path[j] == other[j],
        node_at(t, other) is Some,
    ensures
        node_at(r, other) == node_at(t, other),
    decreases k,
{
    let before = entries_of(t);
    let tm = t->Mapping_0@;
    assert(before == tm);
    let rm = r->Mapping_0@;
    lemma_key_position(before, path[0]);
    lemma_key_position(before, other[0]);
    let jq = key_position(before, other[0])->0;
    if k == 0 {
        match key_position(before, path[0]) {
            Some(i) => {
                assert(i != jq);
                assert forall|j: int| 0 <= j < jq implies !has_text_key(#[trigger] rm[j], other[0]) by {
                    if j != i {
                        assert(rm[j] == before[j]);
                    }
                }
                assert(rm[jq] == before[jq]);
                lemma_key_position_is(rm, other[0], jq);
            },
            None => {
                assert forall|j: int| 0 <= j < jq implies !has_text_key(#[trigger] rm[j], other[0]) by {
                    assert(rm[j] == before[j]);
                }
                assert(rm[jq] == before[jq]);
                lemma_key_position_is(rm, other[0], jq);
            },
        }
    } else {
        assert(path[0] == other[0]);
        let i = jq;
        assert forall|j: int| 0 <= j < i implies !has_text_key(#[trigger] rm[j], other[0]) by {
            assert(rm[j] == before[j]);
        }
        lemma_key_position_is(rm, other[0], i);
        let p2 = path.drop_first();
        let o2 = other.drop_first();
        assert forall|j: int| 0 <= j < k - 1 implies p2[j] == o2[j] by {
            assert(path[j + 1] == other[j + 1]);
        }
        law_set_keeps_other_settings(before[i].1, p2, v, rm[i].1, o2, k - 1);
    }
}

/// Whether a text parses as YAML: `serde_yaml::from_str::<serde_yaml::Value>` succeeds.
pub uninterp spec fn yaml_parses(text: Seq<char>) -> bool;

/// The value `serde_yaml::from_str::<serde_yaml::Value>` reads from a text that parses.
pub uninterp spec fn yaml_parsed(text: Seq<char>) -> serde_yaml::Value;

/// The text `serde_yaml::to_string` writes for a value, or none where it fails.
pub uninterp spec fn yaml_written(v: serde_yaml::Value) -> Option<Seq<char>>;

/// The entries of a `serde_yaml::Value::Mapping`, in their order; none for other variants.
pub uninterp spec fn yaml_mapping_entries_of(v: serde_yaml::Value) -> Option<
    Seq<(serde_yaml::Value, serde_yaml::Value)>,
>;

/// The text of a `serde_yaml::Value::String`; none for other variants.
pub uninterp spec fn yaml_string_text_of(v: serde_yaml::Value) -> Option<Seq<char>>;

/// `serde_yaml::Value::String` of a text.
pub uninterp spec fn yaml_string_node(s: Seq<char>) -> serde_yaml::Value;

/// `serde_yaml::Value::Mapping` of entries collected into a `serde_yaml::Mapping`.
pub uninterp spec fn yaml_mapping_node(entries: Seq<(serde_yaml::Value, serde_yaml::Value)>) -> serde_yaml::Value;

/// `serde_yaml::Value::Bool` of a flag.
pub uninterp spec fn yaml_bool_node(b: bool) -> serde_yaml::Value;

/// `serde_yaml::Value::Number` of an integer, made with `serde_yaml::Number::from`.
pub uninterp spec fn yaml_integer_node(i: int) -> serde_yaml::Value;

/// `serde_yaml::Value::is_null`.
pub uninterp spec fn yaml_is_null(v: serde_yaml::Value) -> bool;

/// `serde_yaml::from_str::<serde_yaml::Value>`: the YAML value a text holds, exactly when it
/// parses. The value read is named, not spelled out.
#[verifier::external_body]
fn yaml_value_of_text(text: &str) -> (r: Option<serde_yaml::Value>)
    ensures
        r is Some == yaml_parses(text@),
        r matches Some(v) ==> v == yaml_parsed(text@),
{
    serde_yaml::from_str::<serde_yaml::Value>(text).ok()
}

/// `serde_yaml::to_string` of a value: the text it writes, or none where it fails. The text
/// is named, not spelled out.
#[verifier::external_body]
fn yaml_text_of_value(v: &serde_yaml::Value) -> (r: Option<String>)
    ensures
        yaml_written(*v) == match r {
            Some(t) => Some(t@),
            None => None::<Seq<char>>,
        },
{
    serde_yaml::to_string(v).ok()
}

/// Tells a YAML mapping (`serde_yaml::Value::Mapping`) from other values: the mapping's
/// entries in their order, or the value handed back unchanged.
#[verifier::external_body]
fn yaml_mapping_entries(v: serde_yaml::Value) -> (r: Result<
    Vec<(serde_yaml::Value, serde_yaml::Value)>,
    serde_yaml::Value,
>)
    ensures
        match r {
            Ok(e) => yaml_mapping_entries_of(v) == Some(e@),
            Err(o) => yaml_mapping_entries_of(v) is None && o == v,
        },
{
    match v {
        serde_yaml::Value::Mapping(m) => Ok(m.into_iter().collect()),
        other => Err(other),
    }
}

/// Tells a YAML string (`serde_yaml::Value::String`) from other values: its text, or the
/// value handed back unchanged.
#[verifier::external_body]
fn yaml_string_text(v: serde_yaml::Value) -> (r: Result<String, serde_yaml::Value>)
    ensures
        match r {
            Ok(s) => yaml_string_text_of(v) == Some(s@),
            Err(o) => yaml_string_text_of(v) is None && o == v,
        },
{
    match v {
        serde_yaml::Value::String(s) => Ok(s),
        other => Err(other),
    }
}

/// `serde_yaml::Value::String` of a text.
#[verifier::external_body]
fn yaml_string_value(s: String) -> (r: serde_yaml::Value)
    ensures
        r == yaml_string_node(s@),
{
    serde_yaml::Value::String(s)
}

/// `serde_yaml::Value::Mapping` of entries, in their order.
#[verifier::external_body]
fn yaml_mapping_value(entries: Vec<(serde_yaml::Value, serde_yaml::Value)>) -> (r: serde_yaml::Value)
    ensures
        r == yaml_mapping_node(entries@),
{
    serde_yaml::Value::Mapping(entries.into_iter().collect())
}

/// How many nested mappings a document is walked into. `serde_yaml` refuses documents nested
/// deeper than 128 levels, so every parsed document is walked whole.
pub const YAML_DEPTH_BUDGET: usize = 256;

/// Whether `key` is how an edit sees the YAML key `k`: its text for a string, and the key
/// itself for anything else.
pub open spec fn key_read(k: serde_yaml::Value, key: YamlKey) -> bool {
    match key {
        YamlKey::Text(s) => yaml_string_text_of(k) == Some(s@),
        YamlKey::Other(o) => yaml_string_text_of(k) is None && o == k,
    }
}

/// Whether `t` is how an edit sees the YAML value `v`, walking `depth` levels of mappings:
/// a mapping's entries in their order, and any other value (or one past the depth) as it is.
pub open spec fn tree_read(v: serde_yaml::Value, depth: nat, t: YamlTree) -> bool
    decreases depth,
{
    if depth == 0 {
        t == YamlTree::Plain(v)
    } else {
        match yaml_mapping_entries_of(v) {
            None => t == YamlTree::Plain(v),
            Some(es) => t matches YamlTree::Mapping(m) && m@.len() == es.len() && forall|i: int|
                0 <= i < es.len() ==> key_read(es[i].0, #[trigger] m@[i].0) && tree_read(
                    es[i].1,
                    (depth - 1) as nat,
                    m@[i].1,
                ),
        }
    }
}

/// The YAML key of an edit's key.
pub open spec fn key_value(k: YamlKey) -> serde_yaml::Value {
    match k {
        YamlKey::Text(s) => yaml_string_node(s@),
        YamlKey::Other(o) => o,
    }
}

/// The YAML value of a tree.
pub open spec fn tree_value(t: YamlTree) -> serde_yaml::Value
    decreases t, 0int,
{
    match t {
        YamlTree::Mapping(es) => yaml_mapping_node(entries_value(es@, es@.len() as int)),
        YamlTree::Plain(v) => v,
    }
}

/// The YAML entries of the first `n` entries of a mapping.
pub open spec fn entries_value(s: Seq<(YamlKey, YamlTree)>, n: int) -> Seq<
    (serde_yaml::Value, serde_yaml::Value),
>
    decreases s, n,
{
    if n <= 0 || n > s.len() {
        Seq::empty()
    } else {
        entries_value(s, n - 1).push((key_value(s[n - 1].0), tree_value(s[n - 1].1)))
    }
}

/// A YAML value as an edit sees it, walking `depth` levels of mappings.
fn tree_within(v: serde_yaml::Value, depth: usize) -> (t: YamlTree)
    ensures
        tree_read(v, depth as nat, t),
    decreases depth,
{
    if depth == 0 {
        return YamlTree::Plain(v);
    }
    let ghost v0 = v;
    match yaml_mapping_entries(v) {
        Ok(entries) => {
            let ghost es = entries@;
            let mut rest = entries;
            let ghost mut taken: int = 0;
            let mut out: Vec<(YamlKey, YamlTree)> = Vec::new();
            while rest.len() > 0
                invariant
                    depth > 0,
                    0 <= taken <= es.len(),
                    rest@ == es.skip(taken),
                    out@.len() == taken,
                    forall|i: int|
                        0 <= i < taken ==> key_read(es[i].0, #[trigger] out@[i].0) && tree_read(
                            es[i].1,
                            (depth - 1) as nat,
                            out@[i].1,
                        ),
                decreases rest.len(),
            {
                let ghost before = rest@;
                let (k, child) = rest.remove(0);
                proof {
                    assert(before[0] == es[taken]);
                }
                let key = match yaml_string_text(k) {
                    Ok(text) => YamlKey::Text(text),
                    Err(other) => YamlKey::Other(other),
                };
                out.push((key, tree_within(child, depth - 1)));
                proof {
                    assert(es.skip(taken + 1) =~= es.skip(taken).drop_first());
                    taken = taken + 1;
                }
            }
            proof {
                assert(taken == es.len());
                assert(yaml_mapping_entries_of(v0) == Some(es));
                assert(forall|i: int|
                    0 <= i < es.len() ==> key_read(es[i].0, #[trigger] out@[i].0) && tree_read(
                        es[i].1,
                        (depth as nat - 1) as nat,
                        out@[i].1,
                    ));
            }
            let t = YamlTree::Mapping(out);
            proof {
                let d = depth as nat;
                assert(d > 0);
                assert(t matches YamlTree::Mapping(m) && m@.len() == es.len() && forall|i: int|
                    0 <= i < es.len() ==> key_read(es[i].0, #[trigger] m@[i].0) && tree_read(
                        es[i].1,
                        (d - 1) as nat,
                        m@[i].1,
                    ));
                assert(tree_read(v0, d, t)) by {
                    reveal_with_fuel(tree_read, 2);
                }
            }
            t
        },
        Err(other) => {
            proof {
                assert(tree_read(v0, depth as nat, YamlTree::Plain(other)));
            }
            YamlTree::Plain(other)
        },
    }
}

/// The YAML value of a tree.
fn value_of_tree(t: YamlTree) -> (v: serde_yaml::Value)
    ensures
        v == tree_value(t),
    decreases t,
{
    match t {
        YamlTree::Mapping(entries) => {
            let ghost all = entries@;
            let mut rest = entries;
            let ghost mut taken: int = 0;
            let mut out: Vec<(serde_yaml::Value, serde_yaml::Value)> = Vec::new();
            while rest.len() > 0
                invariant
                    0 <= taken <= all.len(),
                    rest@ == all.skip(taken),
                    decreases_to!(t => all),
                    out@ == entries_value(all, taken),
                decreases rest.len(),
            {
                let (k, child) = rest.remove(0);
                proof {
                    assert(all[taken] == (k, child));
                    assert(decreases_to!(all => all[taken]));
                    assert(decreases_to!(all[taken] => all[taken].1));
                    assert(all.skip(taken + 1) =~= all.skip(taken).drop_first());
                }
                let key = match k {
                    YamlKey::Text(text) => yaml_string_value(text),
                    YamlKey::Other(other) => other,
                };
                out.push((key, value_of_tree(child)));
                proof {
                    taken = taken + 1;
                }
            }
            yaml_mapping_value(out)
        },
        YamlTree::Plain(v) => v,
    }
}

/// Whether `r` is what setting each value at its path, in order, makes of `t`.
pub open spec fn edits_placed(t: YamlTree, edits: Seq<(Seq<Seq<char>>, YamlTree)>, r: YamlTree) -> bool
    decreases edits.len(),
{
    if edits.len() == 0 {
        r == t
    } else {
        exists|mid: YamlTree|
            edits_placed(t, edits.drop_last(), mid) && #[trigger] placed(
                entries_of(mid),
                edits.last().0,
                edits.last().1,
                r,
            )
    }
}

/// Paths and values of edits, as text.
pub open spec fn edit_paths(edits: Seq<(Vec<String>, YamlTree)>) -> Seq<(Seq<Seq<char>>, YamlTree)> {
    edits.map_values(|e: (Vec<String>, YamlTree)| (views(e.0@), e.1))
}

/// Sets each value at its path, in order.
pub fn apply_edits(t: YamlTree, edits: Vec<(Vec<String>, YamlTree)>) -> (r: YamlTree)
    ensures
        edits_placed(t, edit_paths(edits@), r),
{
    let ghost all = edit_paths(edits@);
    let ghost start = t;
    let mut rest = edits;
    let mut tree = t;
    let ghost mut done: int = 0;
    proof {
        assert(all.take(0) =~= Seq::<(Seq<Seq<char>>, YamlTree)>::empty());
    }
    while rest.len() > 0
        invariant
            0 <= done <= all.len(),
            edit_paths(rest@) == all.skip(done),
            edits_placed(start, all.take(done), tree),
        decreases rest.len(),
    {
        let ghost old_rest = rest@;
        proof {
            assert(edit_paths(old_rest).len() == old_rest.len());
            assert(all.skip(done).len() == all.len() - done);
        }
        let (path, value) = rest.remove(0);
        let ghost before = tree;
        proof {
            assert(old_rest[0] == (path, value));
            assert(edit_paths(old_rest)[0] == (views(path@), value));
            assert(all[done] == all.skip(done)[0]);
        }
        tree = set_path(tree, &path, value);
        proof {
            let next = all.take(done + 1);
            assert(next.drop_last() =~= all.take(done));
            assert(next.last() == all[done]);
            assert(placed(entries_of(before), next.last().0, next.last().1, tree));
            assert(edit_paths(rest@) =~= edit_paths(old_rest).drop_first());
            assert(all.skip(done + 1) =~= all.skip(done).drop_first());
            done = done + 1;
        }
    }
    proof {
        assert(all.take(done) =~= all);
    }
    tree
}

/// Why an edit of the configuration text was refused.
#[derive(Debug, Clone, Copy, PartialEq, Eq, Structural)]
pub enum EditError {
    /// The configuration text is not YAML.
    InvalidYaml,
    /// A setting path has no key.
    EmptyPath,
    /// The edited document could not be written as YAML.
    Unserializable,
}

impl EditError {
    /// The human-readable message for the error.
    pub fn message(&self) -> (m: String)
        ensures
            m@ == match self {
                EditError::InvalidYaml => "parse yaml before edit"@,
                EditError::EmptyPath => "config path cannot be empty"@,
                EditError::Unserializable => "serialize edited yaml"@,
            },
    {
        match self {
            EditError::InvalidYaml => copy_str("parse yaml before edit"),
            EditError::EmptyPath => copy_str("config path cannot be empty"),
            EditError::Unserializable => copy_str("serialize edited yaml"),
        }
    }
}

/// Whether `planned` is how an edit sees `edits`: each dotted path as its keys, and each
/// value as a tree.
pub open spec fn edits_read(
    edits: Seq<(String, serde_yaml::Value)>,
    planned: Seq<(Seq<Seq<char>>, YamlTree)>,
) -> bool {
    &&& planned.len() == edits.len()
    &&& forall|i: int|
        0 <= i < edits.len() ==> (#[trigger] planned[i]).0 == path_keys(edits[i].0@) && tree_read(
            edits[i].1,
            YAML_DEPTH_BUDGET as nat,
            planned[i].1,
        )
}

/// Whether `out` is what writing back the document of `text`, with each edit set in order,
/// gives: the written text, or none where writing fails.
pub open spec fn edited_text_is(
    text: Seq<char>,
    edits: Seq<(String, serde_yaml::Value)>,
    out: Option<Seq<char>>,
) -> bool {
    exists|t: YamlTree, planned: Seq<(Seq<Seq<char>>, YamlTree)>, r: YamlTree|
        #![trigger edits_placed(t, planned, r)]
        {
            &&& tree_read(yaml_parsed(text), YAML_DEPTH_BUDGET as nat, t)
            &&& edits_read(edits, planned)
            &&& edits_placed(t, planned, r)
            &&& yaml_written(tree_value(r)) == out
        }
}

/// The configuration text with each dotted setting set to its value, in order: refused when
/// the text is not YAML or a path has no key; otherwise the edited document written back as
/// YAML, or refused where it cannot be written. The document is walked as a `YamlTree` and
/// edited with `set_path`; parsing and writing the text are `serde_yaml`'s.
pub fn edited_config_text(text: &str, edits: Vec<(String, serde_yaml::Value)>) -> (r: Result<
    String,
    EditError,
>)
    ensures
        !yaml_parses(text@) ==> r == Err::<String, EditError>(EditError::InvalidYaml),
        yaml_parses(text@) && (exists|i: int|
            0 <= i < edits@.len() && path_keys(#[trigger] edits@[i].0@).len() == 0) ==> r == Err::<
            String,
            EditError,
        >(EditError::EmptyPath),
        yaml_parses(text@) && (forall|i: int|
            0 <= i < edits@.len() ==> path_keys(#[trigger] edits@[i].0@).len() > 0) ==> match r {
            Ok(out) => edited_text_is(text@, edits@, Some(out@)),
            Err(e) => e == EditError::Unserializable && edited_text_is(text@, edits@, None),
        },
{
    let document = match yaml_value_of_text(text) {
        Some(v) => v,
        None => {
            return Err(EditError::InvalidYaml);
        },
    };
    let ghost all = edits@;
    let mut rest = edits;
    let ghost mut done: int = 0;
    let mut planned: Vec<(Vec<String>, YamlTree)> = Vec::new();
    while rest.len() > 0
        invariant
            yaml_parses(text@),
            all == edits@,
            0 <= done <= all.len(),
            rest@ == all.skip(done),
            planned@.len() == done,
            forall|i: int| 0 <= i < done ==> path_keys(#[trigger] all[i].0@).len() > 0,
            forall|i: int|
                0 <= i < done ==> views((#[trigger] planned@[i]).0@) == path_keys(all[i].0@)
                    && tree_read(all[i].1, YAML_DEPTH_BUDGET as nat, planned@[i].1),
        decreases rest.len(),
    {
        let (dotted, value) = rest.remove(0);
        proof {
            assert(all.skip(done)[0] == (dotted, value));
            assert(all[done] == (dotted, value));
        }
        match parse_path(dotted.as_str()) {
            Ok(keys) => {
                planned.push((keys, tree_within(value, YAML_DEPTH_BUDGET)));
            },
            Err(_) => {
                proof {
                    assert(path_keys(edits@[done].0@).len() == 0);
                }
                return Err(EditError::EmptyPath);
            },
        }
        proof {
            assert(all.skip(done + 1) =~= all.skip(done).drop_first());
            done = done + 1;
        }
    }
    let ghost plan = edit_paths(planned@);
    proof {
        assert(edits_read(all, plan)) by {
            assert forall|i: int| 0 <= i < all.len() implies (#[trigger] plan[i]).0 == path_keys(
                all[i].0@,
            ) && tree_read(all[i].1, YAML_DEPTH_BUDGET as nat, plan[i].1) by {
                assert(plan[i] == (views(planned@[i].0@), planned@[i].1));
            }
        }
    }
    let tree = tree_within(document, YAML_DEPTH_BUDGET);
    let ghost start = tree;
    let edited = apply_edits(tree, planned);
    let ghost end = edited;
    match yaml_text_of_value(&value_of_tree(edited)) {
        Some(t) => {
            proof {
                assert(edits_placed(start, plan, end));
            }
            Ok(t)
        },
        None => {
            proof {
                assert(edits_placed(start, plan, end));
            }
            Err(EditError::Unserializable)
        },
    }
}

/// How a raw setting value from the command line reads.
#[derive(Debug, PartialEq, Eq)]
pub enum ScalarText {
    Bool(bool),
    Null,
    Integer(i64),
    /// Text that reads as a floating-point number; it is handed to the YAML parser.
    Number(String),
    /// Any other text, with one pair of surrounding quotes taken off.
    Text(String),
}

/// What a raw setting value reads as, given whether its trimmed text reads as a
/// floating-point number: `true`, `false`, `null` and `~` first, then an `i64`, then a
/// number, and text otherwise.
pub fn scalar_text(raw: &str, float_parses: bool) -> (r: ScalarText)
    ensures
        ({
            let t = trim(raw@);
            if t == "true"@ {
                r == ScalarText::Bool(true)
            } else if t == "false"@ {
                r == ScalarText::Bool(false)
            } else if t == "null"@ || t == "~"@ {
                r == ScalarText::Null
            } else {
                match i64_value(t) {
                    Some(v) => r == ScalarText::Integer(v as i64),
                    None => if float_parses {
                        r matches ScalarText::Number(x) && x@ == t
                    } else {
                        r matches ScalarText::Text(x) && x@ == unquote(t)
                    },
                }
            }
        }),
{
    let t = trim_str(raw);
    if str_eq(t.as_str(), "true") {
        ScalarText::Bool(true)
    } else if str_eq(t.as_str(), "false") {
        ScalarText::Bool(false)
    } else if str_eq(t.as_str(), "null") || str_eq(t.as_str(), "~") {
        ScalarText::Null
    } else {
        match parse_i64_text(t.as_str()) {
            Some(v) => ScalarText::Integer(v),
            None => if float_parses {
                ScalarText::Number(t)
            } else {
                ScalarText::Text(unquote_str(t.as_str()))
            },
        }
    }
}

/// `serde_yaml::Value::Bool` of a flag.
#[verifier::external_body]
fn yaml_bool_value(b: bool) -> (r: serde_yaml::Value)
    ensures
        r == yaml_bool_node(b),
{
    serde_yaml::Value::Bool(b)
}

/// `serde_yaml::Value::Null`, which `serde_yaml::Value::is_null` holds of.
#[verifier::external_body]
fn yaml_null_value() -> (r: serde_yaml::Value)
    ensures
        yaml_is_null(r),
{
    serde_yaml::Value::Null
}

/// `serde_yaml::Value::Number` of an integer, made with `serde_yaml::Number::from`.
#[verifier::external_body]
fn yaml_integer_value(i: i64) -> (r: serde_yaml::Value)
    ensures
        r == yaml_integer_node(i as int),
{
    serde_yaml::Value::Number(serde_yaml::Number::from(i))
}

/// The YAML value a raw setting value stands for, read by `scalar_text`. `float_text` is the
/// trimmed text printed back from its floating-point reading, where it has one: a number
/// that the YAML parser refuses is kept as that text.
pub fn parse_scalar(raw: &str, float_text: Option<String>) -> (v: serde_yaml::Value)
    ensures
        ({
            let t = trim(raw@);
            if t == "true"@ {
                v == yaml_bool_node(true)
            } else if t == "false"@ {
                v == yaml_bool_node(false)
            } else if t == "null"@ || t == "~"@ {
                yaml_is_null(v)
            } else {
                match i64_value(t) {
                    Some(i) => v == yaml_integer_node(i),
                    None => match float_text {
                        Some(f) => v == if yaml_parses(t) {
                            yaml_parsed(t)
                        } else {
                            yaml_string_node(f@)
                        },
                        None => v == yaml_string_node(unquote(t)),
                    },
                }
            }
        }),
{
    match scalar_text(raw, float_text.is_some()) {
        ScalarText::Bool(b) => yaml_bool_value(b),
        ScalarText::Null => yaml_null_value(),
        ScalarText::Integer(i) => yaml_integer_value(i),
        ScalarText::Number(t) => match yaml_value_of_text(t.as_str()) {
            Some(v) => v,
            None => match float_text {
                Some(f) => yaml_string_value(f),
                None => yaml_string_value(t),
            },
        },
        ScalarText::Text(x) => yaml_string_value(x),
    }
}

} // verus!

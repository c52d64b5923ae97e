//! Character-level string operations with their meaning stated over `Seq<char>`.
use vstd::prelude::*;

verus! {

/// Appending one character to a string adds it at the end.
pub assume_specification[ String::push ](s: &mut String, ch: char)
    ensures
        final(s)@ == old(s)@.push(ch),
;

/// The characters of a string, in order.
pub fn chars_of(s: &str) -> (v: Vec<char>)
    ensures
        v@ == s@,
{
    let mut v: Vec<char> = Vec::new();
    for c in iter: s.chars()
        invariant
            v@ == iter.seq().take(iter.index() as int),
    {
        v.push(c);
    }
    v
}

/// The string made of the given characters.
pub fn string_of(v: &[char]) -> (s: String)
    ensures
        s@ == v@,
{
    let mut s = String::new();
    let mut i: usize = 0;
    while i < v.len()
        invariant
            i <= v.len(),
            s@ == v@.take(i as int),
        decreases v.len() - i,
    {
        s.push(v[i]);
        i = i + 1;
        assert(v@.take(i as int) == v@.take((i - 1) as int).push(v@[i - 1]));
    }
    assert(v@.take(v.len() as int) == v@);
    s
}

/// The characters `v[start..end]` as a string.
pub fn string_of_range(v: &[char], start: usize, end: usize) -> (s: String)
    requires
        start <= end <= v.len(),
    ensures
        s@ == v@.subrange(start as int, end as int),
{
    let mut s = String::new();
    let mut i: usize = start;
    while i < end
        invariant
            start <= i <= end <= v.len(),
            s@ == v@.subrange(start as int, i as int),
        decreases end - i,
    {
        s.push(v[i]);
        i = i + 1;
        assert(v@.subrange(start as int, i as int) == v@.subrange(start as int, (i - 1) as int).push(
            v@[i - 1],
        ));
    }
    s
}

/// A copy of a string.
pub fn copy_str(s: &str) -> (r: String)
    ensures
        r@ == s@,
{
    String::from_str(s)
}

/// `s` followed by `t`.
pub fn cat(s: &str, t: &str) -> (r: String)
    ensures
        r@ == s@ + t@,
{
    let mut r = String::from_str(s);
    r.append(t);
    r
}

/// The character sequences of a sequence of strings.
pub open spec fn views(v: Seq<String>) -> Seq<Seq<char>> {
    v.map_values(|x: String| x@)
}

/// Whether `c` has the Unicode `White_Space` property.
pub open spec fn is_ws(c: char) -> bool {
    ||| ('\u{9}' <= c && c <= '\u{d}')
    ||| c == ' '
    ||| c == '\u{85}'
    ||| c == '\u{a0}'
    ||| c == '\u{1680}'
    ||| ('\u{2000}' <= c && c <= '\u{200a}')
    ||| c == '\u{2028}'
    ||| c == '\u{2029}'
    ||| c == '\u{202f}'
    ||| c == '\u{205f}'
    ||| c == '\u{3000}'
}

/// `char::is_whitespace`.
pub fn is_whitespace(c: char) -> (b: bool)
    ensures
        b == is_ws(c),
{
    ('\u{9}' <= c && c <= '\u{d}') || c == ' ' || c == '\u{85}' || c == '\u{a0}' || c
        == '\u{1680}' || ('\u{2000}' <= c && c <= '\u{200a}') || c == '\u{2028}' || c
        == '\u{2029}' || c == '\u{202f}' || c == '\u{205f}' || c == '\u{3000}'
}

/// Every character is whitespace (so trimming leaves nothing).
pub open spec fn is_blank(s: Seq<char>) -> bool {
    forall|i: int| 0 <= i < s.len() ==> is_ws(#[trigger] s[i])
}

/// `s` without its leading whitespace.
pub open spec fn trim_start(s: Seq<char>) -> Seq<char>
    decreases s.len(),
{
    if s.len() > 0 && is_ws(s[0]) {
        trim_start(s.drop_first())
    } else {
        s
    }
}

/// `s` without its trailing whitespace.
pub open spec fn trim_end(s: Seq<char>) -> Seq<char>
    decreases s.len(),
{
    if s.len() > 0 && is_ws(s.last()) {
        trim_end(s.drop_last())
    } else {
        s
    }
}

/// `s` without leading and trailing whitespace (`str::trim`).
pub open spec fn trim(s: Seq<char>) -> Seq<char> {
    trim_end(trim_start(s))
}

/// Skipping a whitespace prefix does not change the leading trim.
pub proof fn lemma_trim_start_skip(s: Seq<char>, i: int)
    requires
        0 <= i <= s.len(),
        forall|j: int| 0 <= j < i ==> is_ws(#[trigger] s[j]),
    ensures
        trim_start(s) == trim_start(s.subrange(i, s.len() as int)),
    decreases i,
{
    if i > 0 {
        assert(s.drop_first() == s.subrange(1, s.len() as int));
        lemma_trim_start_skip(s.drop_first(), i - 1);
        assert(s.drop_first().subrange(i - 1, s.drop_first().len() as int) == s.subrange(
            i,
            s.len() as int,
        ));
    } else {
        assert(s.subrange(0, s.len() as int) == s);
    }
}

/// Dropping a whitespace suffix does not change the trailing trim.
pub proof fn lemma_trim_end_skip(s: Seq<char>, k: int)
    requires
        0 <= k <= s.len(),
        forall|j: int| k <= j < s.len() ==> is_ws(#[trigger] s[j]),
    ensures
        trim_end(s) == trim_end(s.subrange(0, k)),
    decreases s.len() - k,
{
    if k < s.len() {
        assert(s.drop_last() == s.subrange(0, s.len() - 1));
        lemma_trim_end_skip(s.drop_last(), k);
        assert(s.drop_last().subrange(0, k) == s.subrange(0, k));
    } else {
        assert(s.subrange(0, k) == s);
    }
}

/// The leading trim is a suffix of the string.
pub proof fn lemma_trim_start_is_suffix(s: Seq<char>)
    ensures
        trim_start(s).len() <= s.len(),
        trim_start(s) == s.subrange(s.len() - trim_start(s).len(), s.len() as int),
        trim_start(s).len() == 0 || !is_ws(trim_start(s)[0]),
    decreases s.len(),
{
    if s.len() > 0 && is_ws(s[0]) {
        lemma_trim_start_is_suffix(s.drop_first());
        assert(s.drop_first().subrange(
            s.drop_first().len() - trim_start(s).len(),
            s.drop_first().len() as int,
        ) == s.subrange(s.len() - trim_start(s).len(), s.len() as int));
    } else {
        assert(s.subrange(0, s.len() as int) == s);
    }
}

/// The trailing trim is a prefix of the string.
pub proof fn lemma_trim_end_is_prefix(s: Seq<char>)
    ensures
        trim_end(s).len() <= s.len(),
        trim_end(s) == s.subrange(0, trim_end(s).len() as int),
        trim_end(s).len() == 0 || !is_ws(trim_end(s).last()),
    decreases s.len(),
{
    if s.len() > 0 && is_ws(s.last()) {
        lemma_trim_end_is_prefix(s.drop_last());
        assert(s.drop_last().subrange(0, trim_end(s).len() as int) == s.subrange(
            0,
            trim_end(s).len() as int,
        ));
    } else {
        assert(s.subrange(0, s.len() as int) == s);
    }
}

/// Trimming leaves nothing exactly when every character is whitespace.
pub proof fn lemma_trim_empty_iff_blank(s: Seq<char>)
    ensures
        (trim(s).len() == 0) == is_blank(s),
    decreases s.len(),
{
    lemma_trim_start_is_suffix(s);
    lemma_trim_end_is_prefix(trim_start(s));
    if is_blank(s) {
        lemma_trim_start_skip(s, s.len() as int);
        assert(s.subrange(s.len() as int, s.len() as int).len() == 0);
    } else {
        let i = choose|i: int| 0 <= i < s.len() && !is_ws(s[i]);
        if trim(s).len() == 0 {
            let t = trim_start(s);
            if t.len() == 0 {
                // all of s was skipped, so s[i] was whitespace
                lemma_trim_start_prefix_ws(s);
                assert(is_ws(s[i]));
            } else {
                assert(!is_ws(t[0]));
                lemma_trim_end_keeps_first(t);
            }
        }
    }
}

/// Characters skipped by the leading trim are whitespace.
pub proof fn lemma_trim_start_prefix_ws(s: Seq<char>)
    ensures
        forall|j: int| 0 <= j < s.len() - trim_start(s).len() ==> is_ws(#[trigger] s[j]),
    decreases s.len(),
{
    lemma_trim_start_is_suffix(s);
    if s.len() > 0 && is_ws(s[0]) {
        lemma_trim_start_prefix_ws(s.drop_first());
        assert forall|j: int| 0 <= j < s.len() - trim_start(s).len() implies is_ws(
            #[trigger] s[j],
        ) by {
            if j > 0 {
                assert(s[j] == s.drop_first()[j - 1]);
            }
        }
    }
}

/// A string starting with a non-whitespace character keeps some character under the
/// trailing trim.
pub proof fn lemma_trim_end_keeps_first(t: Seq<char>)
    requires
        t.len() > 0,
        !is_ws(t[0]),
    ensures
        trim_end(t).len() > 0,
    decreases t.len(),
{
    if is_ws(t.last()) {
        assert(t.len() > 1);
        assert(t.drop_last()[0] == t[0]);
        lemma_trim_end_keeps_first(t.drop_last());
    }
}

/// Trimming twice is trimming once.
pub proof fn lemma_trim_idempotent(s: Seq<char>)
    ensures
        trim(trim(s)) == trim(s),
{
    let a = trim_start(s);
    let t = trim_end(a);
    lemma_trim_start_is_suffix(s);
    lemma_trim_end_is_prefix(a);
    if t.len() > 0 {
        assert(a.len() > 0);
        assert(t[0] == a[0]);
        assert(!is_ws(t[0]));
        assert(!is_ws(t.last()));
        assert(trim_start(t) == t);
        assert(trim_end(t) == t);
    } else {
        assert(trim_start(t) == t);
        assert(trim_end(t) == t);
    }
}

/// Positions where the leading and trailing trims cut `v`.
fn trim_bounds(v: &[char]) -> (r: (usize, usize))
    ensures
        r.0 <= r.1 <= v.len(),
        v@.subrange(r.0 as int, r.1 as int) == trim(v@),
{
    let n = v.len();
    let mut a: usize = 0;
    while a < n && is_whitespace(v[a])
        invariant
            a <= n == v.len(),
            forall|j: int| 0 <= j < a ==> is_ws(#[trigger] v@[j]),
        decreases n - a,
    {
        a = a + 1;
    }
    proof {
        lemma_trim_start_skip(v@, a as int);
        let t = v@.subrange(a as int, n as int);
        if t.len() > 0 {
            assert(t[0] == v@[a as int]);
        }
        assert(trim_start(t) == t);
    }
    let mut b: usize = n;
    while b > a && is_whitespace(v[b - 1])
        invariant
            a <= b <= n == v.len(),
            forall|j: int| b <= j < n ==> is_ws(#[trigger] v@[j]),
        decreases b - a,
    {
        b = b - 1;
    }
    proof {
        let t = v@.subrange(a as int, n as int);
        assert forall|j: int| (b - a) <= j < t.len() implies is_ws(#[trigger] t[j]) by {
            assert(t[j] == v@[a + j]);
        }
        lemma_trim_end_skip(t, (b - a) as int);
        let u = t.subrange(0, (b - a) as int);
        assert(u == v@.subrange(a as int, b as int));
        if u.len() > 0 {
            assert(u.last() == v@[b - 1]);
        }
        assert(trim_end(u) == u);
    }
    (a, b)
}

/// `str::trim`, as an owned string.
pub fn trim_str(s: &str) -> (r: String)
    ensures
        r@ == trim(s@),
{
    let v = chars_of(s);
    let (a, b) = trim_bounds(v.as_slice());
    string_of_range(v.as_slice(), a, b)
}

/// `str::trim_end`, as an owned string.
pub fn trim_end_str(s: &str) -> (r: String)
    ensures
        r@ == trim_end(s@),
{
    let v = chars_of(s);
    let n = v.len();
    let mut b: usize = n;
    while b > 0 && is_whitespace(v[b - 1])
        invariant
            b <= n == v.len(),
            forall|j: int| b <= j < n ==> is_ws(#[trigger] v@[j]),
        decreases b,
    {
        b = b - 1;
    }
    proof {
        lemma_trim_end_skip(v@, b as int);
        let u = v@.subrange(0, b as int);
        if u.len() > 0 {
            assert(u.last() == v@[b - 1]);
        }
        assert(trim_end(u) == u);
    }
    string_of_range(v.as_slice(), 0, b)
}

/// `str::trim` on characters.
pub fn trim_chars(v: &[char]) -> (r: Vec<char>)
    ensures
        r@ == trim(v@),
{
    let (a, b) = trim_bounds(v);
    let mut r: Vec<char> = Vec::new();
    let mut i = a;
    while i < b
        invariant
            a <= i <= b <= v.len(),
            r@ == v@.subrange(a as int, i as int),
        decreases b - i,
    {
        r.push(v[i]);
        i = i + 1;
        assert(r@ == v@.subrange(a as int, i as int));
    }
    r
}

/// Whether the trimmed string is empty.
pub fn is_blank_str(s: &str) -> (b: bool)
    ensures
        b == is_blank(s@),
        b == (trim(s@).len() == 0),
{
    proof {
        lemma_trim_empty_iff_blank(s@);
    }
    let v = chars_of(s);
    let mut i: usize = 0;
    while i < v.len()
        invariant
            i <= v.len(),
            v@ == s@,
            forall|j: int| 0 <= j < i ==> is_ws(#[trigger] v@[j]),
        decreases v.len() - i,
    {
        if !is_whitespace(v[i]) {
            assert(!is_ws(s@[i as int]));
            assert(!is_blank(s@));
            proof {
                lemma_trim_empty_iff_blank(s@);
            }
            return false;
        }
        i = i + 1;
    }
    true
}

/// ASCII lower case of one character.
pub open spec fn lower(c: char) -> char {
    if 'A' <= c && c <= 'Z' {
        ((c as u32) + 32) as char
    } else {
        c
    }
}

/// ASCII upper case of one character.
pub open spec fn upper(c: char) -> char {
    if 'a' <= c && c <= 'z' {
        ((c as u32) - 32) as char
    } else {
        c
    }
}

/// `str::to_ascii_lowercase`.
pub open spec fn lower_str(s: Seq<char>) -> Seq<char> {
    s.map_values(|c: char| lower(c))
}

/// `str::to_ascii_uppercase`.
pub open spec fn upper_str(s: Seq<char>) -> Seq<char> {
    s.map_values(|c: char| upper(c))
}

pub fn lower_char(c: char) -> (r: char)
    ensures
        r == lower(c),
{
    if 'A' <= c && c <= 'Z' {
        ((c as u8) + 32) as char
    } else {
        c
    }
}

pub fn upper_char(c: char) -> (r: char)
    ensures
        r == upper(c),
{
    if 'a' <= c && c <= 'z' {
        ((c as u8) - 32) as char
    } else {
        c
    }
}

/// `str::to_ascii_lowercase`.
pub fn to_lower(s: &str) -> (r: String)
    ensures
        r@ == lower_str(s@),
{
    let v = chars_of(s);
    let mut r = String::new();
    let mut i: usize = 0;
    while i < v.len()
        invariant
            i <= v.len(),
            v@ == s@,
            r@ == lower_str(s@).take(i as int),
        decreases v.len() - i,
    {
        r.push(lower_char(v[i]));
        i = i + 1;
        assert(r@ == lower_str(s@).take(i as int));
    }
    assert(lower_str(s@).take(v.len() as int) == lower_str(s@));
    r
}

/// `str::to_ascii_uppercase`.
pub fn to_upper(s: &str) -> (r: String)
    ensures
        r@ == upper_str(s@),
{
    let v = chars_of(s);
    let mut r = String::new();
    let mut i: usize = 0;
    while i < v.len()
        invariant
            i <= v.len(),
            v@ == s@,
            r@ == upper_str(s@).take(i as int),
        decreases v.len() - i,
    {
        r.push(upper_char(v[i]));
        i = i + 1;
        assert(r@ == upper_str(s@).take(i as int));
    }
    assert(upper_str(s@).take(v.len() as int) == upper_str(s@));
    r
}

/// Equality of two strings.
pub fn str_eq(a: &str, b: &str) -> (r: bool)
    ensures
        r == (a@ == b@),
{
    let va = chars_of(a);
    let vb = chars_of(b);
    if va.len() != vb.len() {
        return false;
    }
    let mut i: usize = 0;
    while i < va.len()
        invariant
            i <= va.len() == vb.len(),
            va@ == a@,
            vb@ == b@,
            forall|j: int| 0 <= j < i ==> va@[j] == vb@[j],
        decreases va.len() - i,
    {
        if va[i] != vb[i] {
            return false;
        }
        i = i + 1;
    }
    assert(va@ == vb@);
    true
}

/// `p` is a prefix of `s`.
pub open spec fn has_prefix(s: Seq<char>, p: Seq<char>) -> bool {
    p.len() <= s.len() && s.subrange(0, p.len() as int) == p
}

/// `p` is a suffix of `s`.
pub open spec fn has_suffix(s: Seq<char>, p: Seq<char>) -> bool {
    p.len() <= s.len() && s.subrange(s.len() - p.len(), s.len() as int) == p
}

/// `p` occurs in `s` starting at position `i`.
pub open spec fn occurs_at(s: Seq<char>, p: Seq<char>, i: int) -> bool {
    0 <= i && i + p.len() <= s.len() && s.subrange(i, i + p.len()) == p
}

/// `p` occurs somewhere in `s` (`str::contains`).
pub open spec fn contains_seq(s: Seq<char>, p: Seq<char>) -> bool {
    exists|i: int| occurs_at(s, p, i)
}

/// The first position at or after `i` where `p` occurs in `s`.
pub open spec fn find_from(s: Seq<char>, p: Seq<char>, i: int) -> Option<int>
    decreases s.len() + 1 - i,
{
    if i < 0 || i + p.len() > s.len() {
        None
    } else if occurs_at(s, p, i) {
        Some(i)
    } else {
        find_from(s, p, i + 1)
    }
}

/// The first position where `p` occurs in `s` (`str::find`).
pub open spec fn find(s: Seq<char>, p: Seq<char>) -> Option<int> {
    find_from(s, p, 0)
}

/// What `find_from` finds is an occurrence, and nothing earlier (from `i` on) is.
pub proof fn lemma_find_from(s: Seq<char>, p: Seq<char>, i: int)
    requires
        0 <= i,
    ensures
        find_from(s, p, i) matches Some(k) ==> i <= k && occurs_at(s, p, k) && forall|j: int|
            i <= j < k ==> !occurs_at(s, p, j),
        find_from(s, p, i) is None ==> forall|j: int| i <= j ==> !occurs_at(s, p, j),
    decreases s.len() + 1 - i,
{
    if i + p.len() > s.len() {
    } else if occurs_at(s, p, i) {
    } else {
        lemma_find_from(s, p, i + 1);
    }
}

/// Whether `s` has an occurrence of `p` starting at `i`.
fn occurs_at_exec(s: &[char], p: &[char], i: usize) -> (b: bool)
    ensures
        b == occurs_at(s@, p@, i as int),
{
    if p.len() > s.len() || i > s.len() - p.len() {
        return false;
    }
    let mut j: usize = 0;
    while j < p.len()
        invariant
            j <= p.len(),
            i + p.len() <= s.len(),
            forall|k: int| 0 <= k < j ==> s@[i + k] == p@[k],
        decreases p.len() - j,
    {
        if s[i + j] != p[j] {
            assert(s@.subrange(i as int, i + p.len())[j as int] != p@[j as int]);
            return false;
        }
        j = j + 1;
    }
    assert(s@.subrange(i as int, i + p.len()) == p@);
    true
}

/// The first occurrence of `p` in `s` at or after `from`.
pub fn find_chars_from(s: &[char], p: &[char], from: usize) -> (r: Option<usize>)
    ensures
        r matches Some(k) ==> find_from(s@, p@, from as int) == Some(k as int),
        r is None ==> find_from(s@, p@, from as int) is None,
{
    if p.len() > s.len() {
        return None;
    }
    let last = s.len() - p.len();
    let mut i = from;
    if i > last {
        return None;
    }
    loop
        invariant
            last == s.len() - p.len(),
            from <= i <= last,
            find_from(s@, p@, from as int) == find_from(s@, p@, i as int),
        decreases last - i,
    {
        if occurs_at_exec(s, p, i) {
            return Some(i);
        }
        if i == last {
            assert(find_from(s@, p@, i + 1) is None);
            return None;
        }
        i = i + 1;
    }
}

/// The first occurrence of `p` in `s`.
pub fn find_chars(s: &[char], p: &[char]) -> (r: Option<usize>)
    ensures
        r matches Some(k) ==> find(s@, p@) == Some(k as int),
        r is None ==> find(s@, p@) is None,
{
    find_chars_from(s, p, 0)
}

/// `str::contains` for a string pattern.
pub fn contains_str(s: &str, p: &str) -> (b: bool)
    ensures
        b == contains_seq(s@, p@),
        b == (find(s@, p@) is Some),
{
    let vs = chars_of(s);
    let vp = chars_of(p);
    let r = find_chars(vs.as_slice(), vp.as_slice());
    proof {
        lemma_find_from(s@, p@, 0);
    }
    r.is_some()
}

/// `str::starts_with` for a string pattern.
pub fn starts_with(s: &str, p: &str) -> (b: bool)
    ensures
        b == has_prefix(s@, p@),
{
    let vs = chars_of(s);
    let vp = chars_of(p);
    let r = occurs_at_exec(vs.as_slice(), vp.as_slice(), 0);
    r
}

/// `str::ends_with` for a string pattern.
pub fn ends_with(s: &str, p: &str) -> (b: bool)
    ensures
        b == has_suffix(s@, p@),
{
    let vs = chars_of(s);
    let vp = chars_of(p);
    if vp.len() > vs.len() {
        return false;
    }
    occurs_at_exec(vs.as_slice(), vp.as_slice(), vs.len() - vp.len())
}

/// The parts of `s` before and after the first occurrence of `p` (`str::split_once`).
pub open spec fn split_once(s: Seq<char>, p: Seq<char>) -> Option<(Seq<char>, Seq<char>)> {
    match find(s, p) {
        Some(k) => Some((s.subrange(0, k), s.subrange(k + p.len(), s.len() as int))),
        None => None,
    }
}

/// `str::split_once` for a string pattern.
pub fn split_once_str(s: &str, p: &str) -> (r: Option<(String, String)>)
    ensures
        r matches Some((a, b)) ==> split_once(s@, p@) == Some((a@, b@)),
        r is None ==> split_once(s@, p@) is None,
{
    let vs = chars_of(s);
    let vp = chars_of(p);
    match find_chars(vs.as_slice(), vp.as_slice()) {
        Some(k) => {
            proof {
                lemma_find_from(s@, p@, 0);
                assert(occurs_at(s@, p@, k as int));
                assert(vp@.len() == p@.len());
                assert(vs@.len() == s@.len());
                assert(k + vp@.len() <= vs@.len());
            }
            let a = string_of_range(vs.as_slice(), 0, k);
            let n = vs.len();
            let plen = vp.len();
            let rest_start = k + plen;
            let b = string_of_range(vs.as_slice(), rest_start, n);
            Some((a, b))
        },
        None => None,
    }
}

/// A line without a trailing carriage return.
pub open spec fn strip_cr(line: Seq<char>) -> Seq<char> {
    if line.len() > 0 && line.last() == '\r' {
        line.drop_last()
    } else {
        line
    }
}

/// The lines of `s` (`str::lines`): split at `\n`, a `\r` before the `\n` removed, and no
/// empty line after a final `\n`.
pub open spec fn lines(s: Seq<char>) -> Seq<Seq<char>>
    decreases s.len(),
{
    if s.len() == 0 {
        Seq::empty()
    } else {
        match find(s, seq!['\n']) {
            Some(k) => {
                if 0 <= k < s.len() {
                    seq![strip_cr(s.subrange(0, k))] + lines(s.subrange(k + 1, s.len() as int))
                } else {
                    Seq::empty()
                }
            },
            None => seq![s],
        }
    }
}

/// A line of `v[start..end]`, without a trailing carriage return.
fn line_string(v: &[char], start: usize, end: usize) -> (r: String)
    requires
        start <= end <= v.len(),
    ensures
        r@ == strip_cr(v@.subrange(start as int, end as int)),
{
    if end > start && v[end - 1] == '\r' {
        let r = string_of_range(v, start, end - 1);
        assert(v@.subrange(start as int, end as int).drop_last() == v@.subrange(
            start as int,
            end - 1,
        ));
        r
    } else {
        string_of_range(v, start, end)
    }
}

/// `str::lines`.
pub fn lines_of(s: &str) -> (r: Vec<String>)
    ensures
        r@.map_values(|x: String| x@) == lines(s@),
{
    let v = chars_of(s);
    let nl: Vec<char> = vec!['\n'];
    let mut out: Vec<String> = Vec::new();
    let mut start: usize = 0;
    let n = v.len();
    assert(s@.subrange(0, n as int) == s@);
    while start < n
        invariant
            start <= n == v.len(),
            v@ == s@,
            nl@ == seq!['\n'],
            lines(s@) == out@.map_values(|x: String| x@) + lines(
                s@.subrange(start as int, n as int),
            ),
        decreases n - start,
    {
        let ghost rest = s@.subrange(start as int, n as int);
        match find_chars_from(v.as_slice(), nl.as_slice(), start) {
            Some(k) => {
                proof {
                    lemma_find_from(s@, seq!['\n'], start as int);
                    lemma_find_shift(s@, seq!['\n'], start as int);
                    assert(find(rest, seq!['\n']) == Some(k - start));
                    assert(rest.subrange(0, k - start) == s@.subrange(start as int, k as int));
                    assert(rest.subrange(k - start + 1, rest.len() as int) == s@.subrange(
                        k + 1,
                        n as int,
                    ));
                }
                let line = line_string(v.as_slice(), start, k);
                let ghost before = out@.map_values(|x: String| x@);
                out.push(line);
                assert(out@.map_values(|x: String| x@) == before.push(line@));
                start = k + 1;
            },
            None => {
                proof {
                    lemma_find_from(s@, seq!['\n'], start as int);
                    lemma_find_shift(s@, seq!['\n'], start as int);
                    assert(find(rest, seq!['\n']) is None);
                }
                let line = string_of_range(v.as_slice(), start, n);
                let ghost before = out@.map_values(|x: String| x@);
                out.push(line);
                assert(out@.map_values(|x: String| x@) == before.push(line@));
                start = n;
                assert(lines(s@.subrange(n as int, n as int)) == Seq::<Seq<char>>::empty());
            },
        }
    }
    assert(lines(s@.subrange(n as int, n as int)) == Seq::<Seq<char>>::empty());
    out
}

/// Searching a suffix of `s` finds the same occurrence, shifted.
pub proof fn lemma_find_shift(s: Seq<char>, p: Seq<char>, start: int)
    requires
        0 <= start <= s.len(),
    ensures
        find_from(s, p, start) matches Some(k) ==> find(s.subrange(start, s.len() as int), p)
            == Some(k - start),
        find_from(s, p, start) is None ==> find(s.subrange(start, s.len() as int), p) is None,
{
    let t = s.subrange(start, s.len() as int);
    assert forall|j: int| #![trigger occurs_at(t, p, j)] 0 <= j ==> occurs_at(t, p, j) == occurs_at(
        s,
        p,
        j + start,
    ) by {
        if 0 <= j && j + p.len() <= t.len() {
            assert(t.subrange(j, j + p.len()) == s.subrange(j + start, j + start + p.len()));
        }
    }
    lemma_find_shift_rec(s, p, start, 0);
}

proof fn lemma_find_shift_rec(s: Seq<char>, p: Seq<char>, start: int, j: int)
    requires
        0 <= start <= s.len(),
        0 <= j,
        forall|j: int| #![trigger occurs_at(s.subrange(start, s.len() as int), p, j)] 0 <= j
            ==> occurs_at(s.subrange(start, s.len() as int), p, j) == occurs_at(s, p, j + start),
    ensures
        find_from(s.subrange(start, s.len() as int), p, j) == match find_from(s, p, j + start) {
            Some(k) => Some(k - start),
            None => None,
        },
    decreases s.len() + 1 - start - j,
{
    let t = s.subrange(start, s.len() as int);
    if j + p.len() > t.len() {
    } else if occurs_at(t, p, j) {
    } else {
        lemma_find_shift_rec(s, p, start, j + 1);
    }
}

/// Pieces joined with a separator between neighbours (`[..].join(sep)`).
pub open spec fn join(parts: Seq<Seq<char>>, sep: Seq<char>) -> Seq<char>
    decreases parts.len(),
{
    if parts.len() == 0 {
        Seq::empty()
    } else if parts.len() == 1 {
        parts[0]
    } else {
        join(parts.drop_last(), sep) + sep + parts.last()
    }
}

/// `[String]::join`.
pub fn join_strings(parts: &Vec<String>, sep: &str) -> (r: String)
    ensures
        r@ == join(parts@.map_values(|x: String| x@), sep@),
{
    let ghost views = parts@.map_values(|x: String| x@);
    let mut r = String::new();
    let mut i: usize = 0;
    while i < parts.len()
        invariant
            i <= parts.len(),
            views == parts@.map_values(|x: String| x@),
            r@ == join(views.take(i as int), sep@),
        decreases parts.len() - i,
    {
        if i > 0 {
            r.append(sep);
        }
        r.append(parts[i].as_str());
        i = i + 1;
        assert(views.take(i as int).drop_last() == views.take((i - 1) as int));
    }
    assert(views.take(parts.len() as int) == views);
    r
}

/// Lexicographic order on strings by code point (the order of `String`).
pub open spec fn str_lt(a: Seq<char>, b: Seq<char>) -> bool
    decreases a.len(),
{
    if a.len() == 0 {
        b.len() > 0
    } else if b.len() == 0 {
        false
    } else if a[0] != b[0] {
        (a[0] as u32) < (b[0] as u32)
    } else {
        str_lt(a.drop_first(), b.drop_first())
    }
}

/// The order is irreflexive.
pub proof fn lemma_str_lt_irreflexive(a: Seq<char>)
    ensures
        !str_lt(a, a),
    decreases a.len(),
{
    if a.len() > 0 {
        lemma_str_lt_irreflexive(a.drop_first());
    }
}

/// The order is transitive.
pub proof fn lemma_str_lt_transitive(a: Seq<char>, b: Seq<char>, c: Seq<char>)
    requires
        str_lt(a, b),
        str_lt(b, c),
    ensures
        str_lt(a, c),
    decreases a.len(),
{
    if a.len() > 0 && b.len() > 0 && c.len() > 0 && a[0] == b[0] && b[0] == c[0] {
        lemma_str_lt_transitive(a.drop_first(), b.drop_first(), c.drop_first());
    }
}

/// Any two distinct strings are ordered one way or the other.
pub proof fn lemma_str_lt_total(a: Seq<char>, b: Seq<char>)
    requires
        a != b,
    ensures
        str_lt(a, b) || str_lt(b, a),
    decreases a.len(),
{
    if a.len() > 0 && b.len() > 0 && a[0] == b[0] {
        if a.drop_first() =~= b.drop_first() {
            assert(a =~= seq![a[0]] + a.drop_first());
            assert(b =~= seq![b[0]] + b.drop_first());
            assert(false);
        }
        lemma_str_lt_total(a.drop_first(), b.drop_first());
    } else if a.len() == 0 && b.len() == 0 {
        assert(a =~= b);
    } else if a.len() > 0 && b.len() > 0 {
        lemma_char_code_injective(a[0], b[0]);
    }
}

/// Distinct characters have distinct code points.
pub proof fn lemma_char_code_injective(x: char, y: char)
    requires
        x != y,
    ensures
        (x as u32) != (y as u32),
{
}

/// The order is asymmetric.
pub proof fn lemma_str_lt_asymmetric(a: Seq<char>, b: Seq<char>)
    requires
        str_lt(a, b),
    ensures
        !str_lt(b, a),
{
    if str_lt(b, a) {
        lemma_str_lt_transitive(a, b, a);
        lemma_str_lt_irreflexive(a);
    }
}

/// Whether `a` comes before `b` in string order.
pub fn str_less(a: &[char], b: &[char]) -> (r: bool)
    ensures
        r == str_lt(a@, b@),
{
    let mut i: usize = 0;
    assert(a@.skip(0) == a@);
    assert(b@.skip(0) == b@);
    while i < a.len() && i < b.len() && a[i] == b[i]
        invariant
            i <= a.len(),
            i <= b.len(),
            str_lt(a@, b@) == str_lt(a@.skip(i as int), b@.skip(i as int)),
        decreases a.len() - i,
    {
        proof {
            assert(a@.skip(i as int).drop_first() == a@.skip(i + 1));
            assert(b@.skip(i as int).drop_first() == b@.skip(i + 1));
        }
        i = i + 1;
    }
    if i == a.len() {
        i < b.len()
    } else if i == b.len() {
        false
    } else {
        (a[i] as u32) < (b[i] as u32)
    }
}

/// Decimal digits of a natural number.
pub open spec fn decimal(n: nat) -> Seq<char>
    decreases n,
{
    if n < 10 {
        seq![digit_char(n)]
    } else {
        decimal(n / 10).push(digit_char(n % 10))
    }
}

/// The digit character for a value below ten.
pub open spec fn digit_char(d: nat) -> char {
    (('0' as u32) + d) as char
}

/// One digit for numbers under ten, more for larger ones.
pub proof fn lemma_decimal_len(n: nat)
    ensures
        n < 10 ==> decimal(n).len() == 1,
        n >= 10 ==> decimal(n).len() >= 2,
    decreases n,
{
    if n >= 10 {
        lemma_decimal_len(n / 10);
    }
}

/// Different numbers have different decimal texts.
pub proof fn lemma_decimal_injective(n: nat, m: nat)
    requires
        decimal(n) == decimal(m),
    ensures
        n == m,
    decreases n,
{
    lemma_decimal_len(n);
    lemma_decimal_len(m);
    if n < 10 && m < 10 {
        assert(decimal(n)[0] == digit_char(n));
        assert(digit_char(n) as u32 == 48 + n);
        assert(digit_char(m) as u32 == 48 + m);
    } else if n >= 10 && m >= 10 {
        assert(decimal(n).last() == digit_char(n % 10));
        assert(decimal(m).last() == digit_char(m % 10));
        assert(digit_char(n % 10) as u32 == 48 + n % 10);
        assert(digit_char(m % 10) as u32 == 48 + m % 10);
        assert(decimal(n).drop_last() =~= decimal(n / 10));
        assert(decimal(m).drop_last() =~= decimal(m / 10));
        lemma_decimal_injective(n / 10, m / 10);
    }
}

/// The decimal text of an unsigned integer (`u64::to_string`).
pub fn u64_to_decimal(n: u64) -> (r: String)
    ensures
        r@ == decimal(n as nat),
    decreases n,
{
    if n < 10 {
        let mut r = String::new();
        r.push(((48u8 + (n as u8)) as char));
        r
    } else {
        let mut r = u64_to_decimal(n / 10);
        r.push(((48u8 + ((n % 10) as u8)) as char));
        r
    }
}

/// Strings in order: none comes before an earlier one.
pub open spec fn strs_sorted(s: Seq<Seq<char>>) -> bool {
    forall|i: int, j: int| 0 <= i < j < s.len() ==> !str_lt(#[trigger] s[j], #[trigger] s[i])
}

/// Puts strings in order, keeping each one.
pub fn sort_strings(v: &Vec<String>) -> (r: Vec<String>)
    ensures
        strs_sorted(views(r@)),
        views(r@).to_multiset() == views(v@).to_multiset(),
{
    let ghost sv = views(v@);
    let mut r: Vec<String> = Vec::new();
    let mut i: usize = 0;
    proof {
        assert(views(r@) =~= sv.take(0));
    }
    while i < v.len()
        invariant
            i <= v.len(),
            sv == views(v@),
            strs_sorted(views(r@)),
            views(r@).to_multiset() == sv.take(i as int).to_multiset(),
        decreases v.len() - i,
    {
        let item = v[i].clone();
        let iv = chars_of(item.as_str());
        let ghost old_r = views(r@);
        let mut p: usize = 0;
        while p < r.len() && !str_less(iv.as_slice(), chars_of(r[p].as_str()).as_slice())
            invariant
                p <= r.len(),
                old_r == views(r@),
                iv@ == item@,
                forall|k: int| 0 <= k < p ==> !str_lt(item@, #[trigger] old_r[k]),
            decreases r.len() - p,
        {
            p = p + 1;
        }
        let ghost x = item@;
        r.insert(p, item);
        proof {
            let nr = views(r@);
            assert(nr =~= old_r.insert(p as int, x));
            assert forall|a: int, b: int| 0 <= a < b < nr.len() implies !str_lt(
                #[trigger] nr[b],
                #[trigger] nr[a],
            ) by {
                if b < p {
                    assert(nr[a] == old_r[a] && nr[b] == old_r[b]);
                } else if b == p {
                    assert(nr[a] == old_r[a]);
                } else if a > p {
                    assert(nr[a] == old_r[a - 1] && nr[b] == old_r[b - 1]);
                } else if a == p {
                    assert(nr[b] == old_r[b - 1]);
                    assert(str_lt(x, old_r[p as int]));
                    if str_lt(old_r[b - 1], x) {
                        lemma_str_lt_transitive(old_r[b - 1], x, old_r[p as int]);
                        if b - 1 == p {
                            lemma_str_lt_irreflexive(old_r[p as int]);
                        }
                    }
                } else {
                    assert(nr[a] == old_r[a] && nr[b] == old_r[b - 1]);
                }
            }
            vstd::seq_lib::to_multiset_insert(old_r, p as int, x);
            assert(sv[i as int] == x);
            assert(sv.take(i + 1) =~= sv.take(i as int).push(x));
            vstd::seq_lib::to_multiset_build(sv.take(i as int), x);
        }
        i = i + 1;
    }
    proof {
        assert(sv.take(v.len() as int) =~= sv);
    }
    r
}

/// Whether `c` is an ASCII decimal digit.
pub open spec fn is_digit(c: char) -> bool {
    '0' <= c && c <= '9'
}

/// The value of a run of decimal digits.
pub open spec fn digits_value(s: Seq<char>) -> int
    decreases s.len(),
{
    if s.len() == 0 {
        0
    } else {
        digits_value(s.drop_last()) * 10 + (s.last() as int - '0' as int)
    }
}

/// Whether every character is an ASCII digit.
pub open spec fn all_digits(t: Seq<char>) -> bool {
    forall|i: int| 0 <= i < t.len() ==> is_digit(#[trigger] t[i])
}

/// The length of a leading `+` or `-`.
pub open spec fn sign_len(s: Seq<char>) -> int {
    if s.len() > 0 && (s[0] == '-' || s[0] == '+') {
        1
    } else {
        0
    }
}

/// The integer a text spells, as `i64::from_str` reads it: an optional `+` or `-`, then one
/// or more ASCII digits and nothing else.
pub open spec fn integer_value(s: Seq<char>) -> Option<int> {
    let body = s.skip(sign_len(s));
    if body.len() == 0 || !all_digits(body) {
        None
    } else if s[0] == '-' {
        Some(-digits_value(body))
    } else {
        Some(digits_value(body))
    }
}

/// The `i64` a text spells: its integer value where that lies in the range of `i64`.
pub open spec fn i64_value(s: Seq<char>) -> Option<int> {
    match integer_value(s) {
        Some(v) => if i64::MIN <= v <= i64::MAX {
            Some(v)
        } else {
            None
        },
        None => None,
    }
}

/// A longer run of digits is worth at least as much as its prefix.
proof fn lemma_digits_value_grows(s: Seq<char>, i: int)
    requires
        0 <= i <= s.len(),
        all_digits(s),
    ensures
        0 <= digits_value(s.take(i)) <= digits_value(s),
    decreases s.len(),
{
    if s.len() > 0 {
        let t = s.drop_last();
        assert(is_digit(s[s.len() - 1]));
        if i < s.len() {
            lemma_digits_value_grows(t, i);
            assert(t.take(i) =~= s.take(i));
        } else {
            lemma_digits_value_grows(t, t.len() as int);
            assert(t.take(t.len() as int) =~= t);
        }
    }
    if i == s.len() {
        assert(s.take(i) =~= s);
    }
}

/// `i64::from_str`: the `i64` a text spells, if it spells one.
pub fn parse_i64_text(s: &str) -> (r: Option<i64>)
    ensures
        match i64_value(s@) {
            Some(v) => r == Some(v as i64),
            None => r is None,
        },
{
    let v = chars_of(s);
    let n = v.len();
    let negative = n > 0 && v[0] == '-';
    let start: usize = if n > 0 && (v[0] == '-' || v[0] == '+') {
        1
    } else {
        0
    };
    let ghost body = s@.skip(start as int);
    if start == n {
        return None;
    }
    let limit: u64 = 9223372036854775808;
    let mut acc: u64 = 0;
    let mut i: usize = start;
    while i < n
        invariant
            start <= i <= n,
            n == v@.len(),
            v@ == s@,
            start == sign_len(s@),
            body == s@.skip(start as int),
            forall|j: int| start <= j < i ==> is_digit(#[trigger] v@[j]),
            acc == digits_value(body.take(i - start)),
            acc <= limit,
            limit == 9223372036854775808u64,
        decreases n - i,
    {
        let c = v[i];
        if !('0' <= c && c <= '9') {
            proof {
                assert(body[i - start] == c);
                assert(!all_digits(body));
            }
            return None;
        }
        let d: u64 = (c as u32 - '0' as u32) as u64;
        proof {
            let k = i - start;
            assert(body.take(k + 1).drop_last() =~= body.take(k));
            assert(body.take(k + 1).last() == c);
        }
        if acc > 922337203685477580 || acc * 10 + d > limit {
            proof {
                if all_digits(body) {
                    lemma_digits_value_grows(body, i - start + 1);
                }
            }
            return None;
        }
        acc = acc * 10 + d;
        i = i + 1;
    }
    proof {
        assert(body.take(n - start) =~= body);
        assert forall|j: int| 0 <= j < body.len() implies is_digit(#[trigger] body[j]) by {
            assert(body[j] == v@[j + start]);
        }
        assert(all_digits(body));
    }
    if negative {
        if acc == limit {
            Some(i64::MIN)
        } else {
            Some(-(acc as i64))
        }
    } else if acc < limit {
        Some(acc as i64)
    } else {
        None
    }
}

} // verus!

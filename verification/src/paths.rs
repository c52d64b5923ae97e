//! Filesystem path text, composed the way `std::path` composes it.
use vstd::prelude::*;

verus! {

/// The text of `Path::new(base).join(rest)`.
pub uninterp spec fn joined_path(base: Seq<char>, rest: Seq<char>) -> Seq<char>;

/// The text of `Path::new(p).parent()`.
pub uninterp spec fn parent_path(p: Seq<char>) -> Option<Seq<char>>;

/// Whether `Path::new(p).is_absolute()`.
pub uninterp spec fn absolute_path(p: Seq<char>) -> bool;

/// The text of `Path::new(p).file_name()`, where it has one.
pub uninterp spec fn file_name_of(p: Seq<char>) -> Option<Seq<char>>;

/// Whether `Path::new(a) == Path::new(b)`: the paths have the same components.
pub uninterp spec fn same_path(a: Seq<char>, b: Seq<char>) -> bool;

/// The text of `Path::new(p).extension()`, where it has one.
pub uninterp spec fn extension_of(p: Seq<char>) -> Option<Seq<char>>;

/// The text of `Path::new(p).with_extension(ext)`.
pub uninterp spec fn with_extension_of(p: Seq<char>, ext: Seq<char>) -> Seq<char>;

/// Whether `std::path::is_separator(c)`: the character separates path components on this
/// platform.
pub uninterp spec fn is_separator_char(c: char) -> bool;

/// Text holding no path separator of the platform.
pub open spec fn separator_free(s: Seq<char>) -> bool {
    forall|i: int| 0 <= i < s.len() ==> !is_separator_char(#[trigger] s[i])
}

/// `Path::join`: `rest` appended to `base` under the platform's path rules. The contract
/// names the result and leaves those rules (separators, absolute `rest`) unsaid.
#[verifier::external_body]
pub(crate) fn path_join(base: &str, rest: &str) -> (r: String)
    ensures
        r@ == joined_path(base@, rest@),
{
    std::path::Path::new(base).join(rest).to_string_lossy().into_owned()
}

/// `Path::parent`: the path without its last component, if it has one. The contract names
/// the result and leaves the platform's component rules unsaid.
#[verifier::external_body]
pub(crate) fn path_parent(p: &str) -> (r: Option<String>)
    ensures
        match r {
            Some(s) => parent_path(p@) == Some(s@),
            None => parent_path(p@) is None,
        },
{
    std::path::Path::new(p).parent().map(|q| q.to_string_lossy().into_owned())
}

/// `Path::is_absolute`. The contract names the result and leaves the platform's rule unsaid.
#[verifier::external_body]
pub(crate) fn path_is_absolute(p: &str) -> (b: bool)
    ensures
        b == absolute_path(p@),
{
    std::path::Path::new(p).is_absolute()
}

/// `Path::file_name`: the last component of the path, unless it is `..` or the path ends in
/// none. The contract names the result and leaves the platform's component rules unsaid.
#[verifier::external_body]
pub(crate) fn path_file_name(p: &str) -> (r: Option<String>)
    ensures
        match r {
            Some(s) => file_name_of(p@) == Some(s@),
            None => file_name_of(p@) is None,
        },
{
    std::path::Path::new(p).file_name().map(|n| n.to_string_lossy().into_owned())
}

/// `Path`'s `==`: the two paths have the same components. The contract names the result and
/// leaves the platform's component rules unsaid.
#[verifier::external_body]
pub(crate) fn paths_equal(a: &str, b: &str) -> (r: bool)
    ensures
        r == same_path(a@, b@),
{
    std::path::Path::new(a) == std::path::Path::new(b)
}

/// `Path::extension`: the text after the last `.` of the file name, where there is one. The
/// contract names the result and says that, being part of the last path component, it holds
/// no path separator; the platform's other rules are left unsaid.
#[verifier::external_body]
pub(crate) fn path_extension(p: &str) -> (r: Option<String>)
    ensures
        match r {
            Some(s) => extension_of(p@) == Some(s@) && separator_free(s@),
            None => extension_of(p@) is None,
        },
{
    std::path::Path::new(p).extension().map(|e| e.to_string_lossy().into_owned())
}

/// `Path::with_extension`: the path with its extension replaced. It panics when the new
/// extension holds a path separator, so the contract asks for one without. It names the
/// result and leaves the platform's rules unsaid.
#[verifier::external_body]
pub(crate) fn path_with_extension(p: &str, ext: &str) -> (r: String)
    requires
        separator_free(ext@),
    ensures
        r@ == with_extension_of(p@, ext@),
{
    std::path::Path::new(p).with_extension(ext).to_string_lossy().into_owned()
}

/// `std::path::is_separator`: whether a character separates path components on this
/// platform. The contract names the result and says, as the `std::path` documentation does,
/// that the separators are `/` and, on Windows only, `\\`; which of the two a platform uses is
/// left unsaid.
#[verifier::external_body]
pub(crate) fn char_is_separator(c: char) -> (b: bool)
    ensures
        b == is_separator_char(c),
        b ==> (c == '/' || c == '\\'),
{
    std::path::is_separator(c)
}

/// Checks each character of a text against the platform's path separators; every
/// character other than `/` and `\\` is found not to be one.
pub(crate) fn check_separators(s: &str) -> (b: bool)
    ensures
        b == separator_free(s@),
        forall|i: int|
            0 <= i < s@.len() && s@[i] != '/' && s@[i] != '\\' ==> !is_separator_char(
                #[trigger] s@[i],
            ),
{
    let v = crate::text::chars_of(s);
    let mut free = true;
    let mut i: usize = 0;
    while i < v.len()
        invariant
            i <= v.len(),
            v@ == s@,
            free == (forall|j: int| 0 <= j < i ==> !is_separator_char(#[trigger] v@[j])),
            forall|j: int|
                0 <= j < i && v@[j] != '/' && v@[j] != '\\' ==> !is_separator_char(#[trigger] v@[j]),
        decreases v.len() - i,
    {
        if char_is_separator(v[i]) {
            free = false;
        }
        i = i + 1;
    }
    free
}

/// The parent of `p`, or `.` where it has none (`p.parent().unwrap_or(Path::new("."))`).
pub open spec fn parent_or_dot(p: Seq<char>) -> Seq<char> {
    match parent_path(p) {
        Some(q) => q,
        None => "."@,
    }
}

pub fn parent_or_dot_of(p: &str) -> (r: String)
    ensures
        r@ == parent_or_dot(p@),
{
    match path_parent(p) {
        Some(q) => q,
        None => crate::text::copy_str("."),
    }
}

} // verus!

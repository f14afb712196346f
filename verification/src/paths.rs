//! Path operations on `/`-separated UTF-8 paths, delegated to `camino`.
//!
//! The results of camino's path algebra are named by uninterpreted spec
//! functions; contracts elsewhere speak of these names.

use vstd::prelude::*;

use crate::text::chars_of;

verus! {

/// How `camino::Utf8Path` orders `a` against `b`: negative, zero or positive
/// for less, equal (component-wise) or greater.
pub uninterp spec fn path_order(a: Seq<char>, b: Seq<char>) -> i8;

/// The components of `p` as `camino::Utf8Path::components` yields them.
pub uninterp spec fn path_components(p: Seq<char>) -> Seq<Seq<char>>;

/// `camino::Utf8Path::parent`.
pub uninterp spec fn path_parent(p: Seq<char>) -> Option<Seq<char>>;

/// `camino::Utf8Path::join`.
pub uninterp spec fn path_join(a: Seq<char>, b: Seq<char>) -> Seq<char>;

/// `camino::Utf8Path::with_extension`.
pub uninterp spec fn path_with_extension(p: Seq<char>, ext: Seq<char>) -> Seq<char>;

/// `camino::Utf8Path::strip_prefix`, `None` where it fails.
pub uninterp spec fn path_strip_prefix(p: Seq<char>, base: Seq<char>) -> Option<Seq<char>>;

/// `camino::Utf8Path::file_name`.
pub uninterp spec fn path_file_name(p: Seq<char>) -> Option<Seq<char>>;

/// `camino::Utf8Path::file_stem`.
pub uninterp spec fn path_file_stem(p: Seq<char>) -> Option<Seq<char>>;

/// Compares two paths component-wise (`Ord for camino::Utf8Path`).
/// The contract claims that the result is camino's order, named by
/// `path_order`, as one of -1, 0, 1, and what `Ord` promises of every
/// order (std's documentation of `Ord`): swapping the operands reverses
/// the result, and the order is transitive through `a` and `b`.
#[verifier::external_body]
pub(crate) fn order_paths(a: &str, b: &str) -> (r: i8)
    ensures
        r == path_order(a@, b@),
        -1 <= r <= 1,
        path_order(b@, a@) == -r,
        forall|x: Seq<char>| r <= 0 && #[trigger] path_order(b@, x) < 0 ==> path_order(a@, x) < 0,
        forall|x: Seq<char>| r > 0 && #[trigger] path_order(a@, x) < 0 ==> path_order(b@, x) < 0,
        forall|x: Seq<char>| r >= 0 && #[trigger] path_order(x, b@) <= 0 ==> path_order(x, a@) <= 0,
        forall|x: Seq<char>| r <= 0 && #[trigger] path_order(x, a@) <= 0 ==> path_order(x, b@) <= 0,
{
    match camino::Utf8Path::new(a).cmp(camino::Utf8Path::new(b)) {
        std::cmp::Ordering::Less => -1,
        std::cmp::Ordering::Equal => 0,
        std::cmp::Ordering::Greater => 1,
    }
}

/// The components of `p` (`camino::Utf8Path::components`, each by `as_str`).
/// The contract claims only that the result is camino's, named by
/// `path_components`.
#[verifier::external_body]
pub(crate) fn components(p: &str) -> (r: Vec<String>)
    ensures
        r@.map_values(|c: String| c@) == path_components(p@),
{
    camino::Utf8Path::new(p).components().map(|c| c.as_str().to_owned()).collect()
}

/// The parent of `p` (`camino::Utf8Path::parent`), named by `path_parent`.
#[verifier::external_body]
pub(crate) fn parent(p: &str) -> (r: Option<String>)
    ensures
        r matches Some(s) ==> path_parent(p@) == Some(s@),
        r is None ==> path_parent(p@) is None,
{
    camino::Utf8Path::new(p).parent().map(|q| q.as_str().to_owned())
}

/// `a` joined with `b` (`camino::Utf8Path::join`), named by `path_join`.
#[verifier::external_body]
pub(crate) fn join(a: &str, b: &str) -> (r: String)
    ensures
        r@ == path_join(a@, b@),
{
    camino::Utf8Path::new(a).join(b).into_string()
}

/// An extension that holds no path separator (`/`, or `\\` on Windows);
/// std's `Path::with_extension` panics on any other.
pub open spec fn ext_ok(ext: Seq<char>) -> bool {
    !ext.contains('/') && !ext.contains('\\')
}

/// Whether `ext` can be given to `with_extension` (see `ext_ok`).
pub fn is_plain_ext(ext: &str) -> (r: bool)
    ensures
        r == ext_ok(ext@),
{
    let cs = chars_of(ext);
    let mut i: usize = 0;
    while i < cs.len()
        invariant
            0 <= i <= cs@.len(),
            cs@ == ext@,
            forall|k: int| 0 <= k < i ==> cs@[k] != '/' && cs@[k] != '\\',
        decreases cs@.len() - i,
    {
        if cs[i] == '/' || cs[i] == '\\' {
            assert(ext@[i as int] == cs@[i as int]);
            return false;
        }
        i += 1;
    }
    true
}

/// `p` with its extension replaced by `ext`
/// (`camino::Utf8Path::with_extension`), named by `path_with_extension`.
/// std panics on an extension with a path separator, so `ext_ok` is
/// required.
#[verifier::external_body]
pub(crate) fn with_extension(p: &str, ext: &str) -> (r: String)
    requires
        ext_ok(ext@),
    ensures
        r@ == path_with_extension(p@, ext@),
{
    camino::Utf8Path::new(p).with_extension(ext).into_string()
}

/// The final component of `p` (`camino::Utf8Path::file_name`), named by
/// `path_file_name`.
#[verifier::external_body]
pub(crate) fn file_name(p: &str) -> (r: Option<String>)
    ensures
        r matches Some(s) ==> path_file_name(p@) == Some(s@),
        r is None ==> path_file_name(p@) is None,
{
    camino::Utf8Path::new(p).file_name().map(|s| s.to_owned())
}

/// The final component of `p` without its extension
/// (`camino::Utf8Path::file_stem`), named by `path_file_stem`.
#[verifier::external_body]
pub(crate) fn file_stem(p: &str) -> (r: Option<String>)
    ensures
        r matches Some(s) ==> path_file_stem(p@) == Some(s@),
        r is None ==> path_file_stem(p@) is None,
{
    camino::Utf8Path::new(p).file_stem().map(|s| s.to_owned())
}

/// `p` relative to `base` (`camino::Utf8Path::strip_prefix`), `None` where
/// `base` is not a prefix of `p`; named by `path_strip_prefix`.
#[verifier::external_body]
pub(crate) fn strip_prefix(p: &str, base: &str) -> (r: Option<String>)
    ensures
        r matches Some(s) ==> path_strip_prefix(p@, base@) == Some(s@),
        r is None ==> path_strip_prefix(p@, base@) is None,
{
    camino::Utf8Path::new(p).strip_prefix(base).ok().map(|q| q.as_str().to_owned())
}

} // verus!

//! File paths, held as text. What `std::path` computes on them is named
//! here; whether a file is on disk is asked of the system.
use vstd::prelude::*;

verus! {

/// The file stem (`Path::file_stem`) of `path`, as text.
pub uninterp spec fn spec_file_stem(path: Seq<char>) -> Option<Seq<char>>;

/// The extension (`Path::extension`) of `path`, as text.
pub uninterp spec fn spec_extension(path: Seq<char>) -> Option<Seq<char>>;

/// The parent (`Path::parent`) of `path`, as text.
pub uninterp spec fn spec_parent(path: Seq<char>) -> Option<Seq<char>>;

/// `base` joined with `part` (`Path::join`), as text.
pub uninterp spec fn spec_join(base: Seq<char>, part: Seq<char>) -> Seq<char>;

/// `path` with its extension replaced by `ext` (`Path::with_extension`), as text.
pub uninterp spec fn spec_with_extension(path: Seq<char>, ext: Seq<char>) -> Seq<char>;

/// Calls `std::path::Path::file_stem`; the contract claims only that the
/// result, read as text, is a function of `path` alone.
#[verifier::external_body]
pub(crate) fn path_file_stem(path: &str) -> (r: Option<String>)
    ensures
        match r {
            Some(t) => spec_file_stem(path@) == Some(t@),
            None => spec_file_stem(path@) is None,
        },
{
    match std::path::Path::new(path).file_stem() {
        Some(stem) => stem.to_str().map(String::from),
        None => None,
    }
}

/// Calls `std::path::Path::extension`; the contract claims only that the
/// result, read as text, is a function of `path` alone.
#[verifier::external_body]
pub(crate) fn path_extension(path: &str) -> (r: Option<String>)
    ensures
        match r {
            Some(t) => spec_extension(path@) == Some(t@),
            None => spec_extension(path@) is None,
        },
{
    match std::path::Path::new(path).extension() {
        Some(ext) => ext.to_str().map(String::from),
        None => None,
    }
}

/// Calls `std::path::Path::parent`; the contract claims that the result,
/// read as text, is a function of `path` alone, and, as std documents
/// (`parent` is `None` only for a path that ends in a root or prefix or is
/// empty, and a file stem exists only when the last component is a file
/// name), that a path with a file stem has a parent.
#[verifier::external_body]
pub(crate) fn path_parent(path: &str) -> (r: Option<String>)
    ensures
        match r {
            Some(t) => spec_parent(path@) == Some(t@),
            None => spec_parent(path@) is None,
        },
        spec_file_stem(path@) is Some ==> r is Some,
{
    match std::path::Path::new(path).parent() {
        Some(parent) => parent.to_str().map(String::from),
        None => None,
    }
}

/// Calls `std::path::Path::join`; the contract claims only that the result,
/// read as text, is a function of `base` and `part` alone.
#[verifier::external_body]
pub(crate) fn path_join(base: &str, part: &str) -> (r: String)
    ensures
        r@ == spec_join(base@, part@),
{
    std::path::Path::new(base).join(part).to_string_lossy().into_owned()
}

/// Calls `std::path::Path::with_extension`; the contract claims only that the
/// result, read as text, is a function of `path` and `ext` alone. The call
/// panics on an extension that holds a path separator (`/`, and `\` on
/// Windows), so such extensions are excluded.
#[verifier::external_body]
pub(crate) fn path_with_extension(path: &str, ext: &str) -> (r: String)
    requires
        !ext@.contains('/'),
        !ext@.contains('\\'),
    ensures
        r@ == spec_with_extension(path@, ext@),
{
    std::path::Path::new(path).with_extension(ext).to_string_lossy().into_owned()
}

/// Calls `std::path::Path::exists`. Its answer depends on what is on disk at
/// the moment of the call, so nothing is claimed of it.
#[verifier::external_body]
pub(crate) fn path_exists(path: &str) -> bool {
    std::path::Path::new(path).exists()
}

} // verus!

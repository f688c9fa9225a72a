//! Removing yt-dlp's format-id suffix (`.f30033`) from a file name, with the
//! `regex` crate.
use vstd::prelude::*;
use crate::paths::{
    path_extension, path_file_stem, path_join, path_parent, spec_extension, spec_file_stem,
    spec_join, spec_parent,
};
use crate::text::concat_text;

verus! {

/// The format-id suffix at the end of a file stem: `.f` and digits.
pub const FORMAT_SUFFIX_PATTERN: &'static str = r"\.f\d+$";

#[verifier::external_type_specification]
#[verifier::external_body]
pub struct ExRegexError(regex::Error);

/// Whether `regex::Regex::new` accepts `pattern`.
pub uninterp spec fn spec_regex_compiles(pattern: Seq<char>) -> bool;

/// What `regex::Regex::is_match` answers for the regex of `pattern` on `haystack`.
pub uninterp spec fn spec_regex_is_match(pattern: Seq<char>, haystack: Seq<char>) -> bool;

/// What `regex::Regex::replace` gives for the regex of `pattern` on
/// `haystack` with replacement `rep`.
pub uninterp spec fn spec_regex_replace(pattern: Seq<char>, haystack: Seq<char>, rep: Seq<char>) -> Seq<char>;

/// Compiles `pattern` with `regex::Regex::new` and calls `Regex::is_match`.
/// Claims that compiling succeeds exactly when `spec_regex_compiles` holds,
/// and that it does for the format-suffix pattern (valid syntax as the crate
/// documents it, far below the default size limit), and that the answer is a
/// function of the pattern and the haystack alone.
#[verifier::external_body]
fn regex_is_match(pattern: &str, haystack: &str) -> (r: Result<bool, regex::Error>)
    ensures
        r is Ok <==> spec_regex_compiles(pattern@),
        pattern@ == FORMAT_SUFFIX_PATTERN@ ==> r is Ok,
        r matches Ok(b) ==> b == spec_regex_is_match(pattern@, haystack@),
{
    match regex::Regex::new(pattern) {
        Ok(re) => Ok(re.is_match(haystack)),
        Err(e) => Err(e),
    }
}

/// Compiles `pattern` with `regex::Regex::new` and calls `Regex::replace`
/// (leftmost-first match replaced once). Claims that compiling succeeds
/// exactly when `spec_regex_compiles` holds, and that it does for the
/// format-suffix pattern, that the result is a function of its arguments,
/// and, as the crate documents, that a haystack without a match comes back
/// unchanged.
#[verifier::external_body]
fn regex_replace(pattern: &str, haystack: &str, rep: &str) -> (r: Result<String, regex::Error>)
    ensures
        r is Ok <==> spec_regex_compiles(pattern@),
        pattern@ == FORMAT_SUFFIX_PATTERN@ ==> r is Ok,
        r matches Ok(s) ==> s@ == spec_regex_replace(pattern@, haystack@, rep@),
        r matches Ok(s) ==> (!spec_regex_is_match(pattern@, haystack@) ==> s@ == haystack@),
{
    match regex::Regex::new(pattern) {
        Ok(re) => Ok(re.replace(haystack, rep).into_owned()),
        Err(e) => Err(e),
    }
}

/// A file name made of a stem and an extension.
pub open spec fn file_name(stem: Seq<char>, ext: Seq<char>) -> Seq<char> {
    stem + "."@ + ext
}

/// The file name `stem.ext`.
pub fn format_file_name(stem: &str, ext: &str) -> (r: String)
    ensures
        r@ == file_name(stem@, ext@),
{
    let a = concat_text(stem, ".");
    concat_text(a.as_str(), ext)
}

/// `path` with the format-id suffix removed from its file stem
/// (`a/b.f30033.mp3` becomes `a/b.mp3`): the parent and the extension are
/// kept, and the stem loses its last `.f<digits>`. A path without a stem or
/// an extension, or whose stem has no such suffix, is kept.
pub open spec fn cleaned_path(path: Seq<char>) -> Seq<char> {
    let p = FORMAT_SUFFIX_PATTERN@;
    match (spec_file_stem(path), spec_extension(path)) {
        (Some(stem), Some(ext)) => if spec_regex_is_match(p, stem) {
            spec_join(spec_parent(path)->0, file_name(spec_regex_replace(p, stem, ""@), ext))
        } else {
            path
        },
        _ => path,
    }
}

/// Where a path goes, given its stem with the suffix removed (present only
/// when the stem had one), its extension and its parent: the directory and
/// the file name to join, or nothing when the path is kept.
pub fn suffix_free_target(replaced_stem: Option<String>, ext: &str, parent: Option<String>) -> (r:
    Option<(String, String)>)
    ensures
        match (replaced_stem, parent) {
            (Some(c), Some(d)) => (r matches Some((dir, name)) && dir == d && name@ == file_name(
                c@,
                ext@,
            )),
            _ => r is None,
        },
{
    match (replaced_stem, parent) {
        (Some(c), Some(d)) => {
            let name = format_file_name(c.as_str(), ext);
            Some((d, name))
        },
        _ => None,
    }
}

/// Removes yt-dlp's format-id suffix from the file name in `path`
/// (`.f30033.mp3` becomes `.mp3`). A path without a stem or an extension is
/// kept as it is. What follows the outside calls is `suffix_free_target`.
pub fn clean_format_suffix(path: &str) -> (r: String)
    ensures
        r@ == cleaned_path(path@),
{
    let filename = match path_file_stem(path) {
        Some(f) => f,
        None => return String::from_str(path),
    };
    let ext = match path_extension(path) {
        Some(e) => e,
        None => return String::from_str(path),
    };
    let matched = match regex_is_match(FORMAT_SUFFIX_PATTERN, filename.as_str()) {
        Ok(b) => b,
        Err(_) => false,
    };
    let replaced = if matched {
        match regex_replace(FORMAT_SUFFIX_PATTERN, filename.as_str(), "") {
            Ok(cleaned) => Some(cleaned),
            Err(_) => None,
        }
    } else {
        None
    };
    let parent = if matched {
        path_parent(path)
    } else {
        None
    };
    match suffix_free_target(replaced, ext.as_str(), parent) {
        Some((dir, name)) => path_join(dir.as_str(), name.as_str()),
        None => String::from_str(path),
    }
}

} // verus!

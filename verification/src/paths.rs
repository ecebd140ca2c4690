//! Path arithmetic, left to `std::path`: what is the stem of a file name, how
//! a path reads with another extension, another file name, or below a
//! directory.
//!
//! None of it touches the file system. The rules that `std::path` applies
//! (separators, `.` and `..`, hidden files) are not restated here: each
//! result has a name, and the contracts around it speak of that name.

use std::path::Path;
use vstd::prelude::*;
use crate::text::opt_text;

verus! {

/// What `Path::file_stem` returns for `path`.
pub uninterp spec fn file_stem_of(path: Seq<char>) -> Option<Seq<char>>;

/// What `Path::with_extension` makes of `path` and `extension`.
pub uninterp spec fn with_extension_of(path: Seq<char>, extension: Seq<char>) -> Seq<char>;

/// What `Path::with_file_name` makes of `path` and `name`.
pub uninterp spec fn with_file_name_of(path: Seq<char>, name: Seq<char>) -> Seq<char>;

/// What `Path::join` makes of `base` and `rest`.
pub uninterp spec fn joined_path(base: Seq<char>, rest: Seq<char>) -> Seq<char>;

/// Whether `text` holds a character that separates path components on some
/// platform.
pub open spec fn has_separator(text: Seq<char>) -> bool {
    exists|i: int| 0 <= i < text.len() && (text[i] == '/' || text[i] == '\\')
}

/// Calls `Path::file_stem` on `path`.
///
/// Believed, not proved: the result is the stem that `std` finds, as text, and
/// `None` where `std` finds no file name.
#[verifier::external_body]
pub(crate) fn file_stem(path: &str) -> (stem: Option<String>)
    ensures
        opt_text(stem) == file_stem_of(path@),
{
    Path::new(path).file_stem().map(|stem| stem.to_string_lossy().into_owned())
}

/// Calls `Path::with_extension` on `path`.
///
/// Believed, not proved: the result is the path that `std` builds, as text.
/// `std` panics on an extension that holds a separator, so such an extension
/// is left out.
#[verifier::external_body]
pub(crate) fn with_extension(path: &str, extension: &str) -> (out: String)
    requires
        !has_separator(extension@),
    ensures
        out@ == with_extension_of(path@, extension@),
{
    Path::new(path).with_extension(extension).to_string_lossy().into_owned()
}

/// Calls `Path::with_file_name` on `path`.
///
/// Believed, not proved: the result is the path that `std` builds, as text.
#[verifier::external_body]
pub(crate) fn with_file_name(path: &str, name: &str) -> (out: String)
    ensures
        out@ == with_file_name_of(path@, name@),
{
    Path::new(path).with_file_name(name).to_string_lossy().into_owned()
}

/// Calls `Path::join` on `base`.
///
/// Believed, not proved: the result is the path that `std` builds, as text.
#[verifier::external_body]
pub(crate) fn join(base: &str, rest: &str) -> (out: String)
    ensures
        out@ == joined_path(base@, rest@),
{
    Path::new(base).join(rest).to_string_lossy().into_owned()
}

} // verus!

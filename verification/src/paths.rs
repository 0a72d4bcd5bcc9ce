//! What the gallery needs to know of a file-system path: its final segment,
//! its extension, and how either reads as text or bytes.

use std::path::PathBuf;
use vstd::prelude::*;

verus! {

/// `std::path::PathBuf`, carried through as an opaque value.
#[verifier::external_type_specification]
#[verifier::external_body]
pub struct ExPathBuf(PathBuf);

/// The final segment of `path` as `std::path::Path::file_name` gives it,
/// `None` where the path has none.
pub uninterp spec fn file_name_of(path: PathBuf) -> Option<PathBuf>;

/// The extension of `path` as `std::path::Path::extension` gives it, `None`
/// where the path has none.
pub uninterp spec fn extension_of(path: PathBuf) -> Option<PathBuf>;

/// `path` as text, as `std::path::Path::to_str` gives it: `None` where it
/// is not valid Unicode.
pub uninterp spec fn text_of(path: PathBuf) -> Option<Seq<char>>;

/// The bytes of `path` as `OsStr::as_encoded_bytes` shows them.
pub uninterp spec fn encoded_bytes_of(path: PathBuf) -> Seq<u8>;

/// `<PathBuf as Clone>::clone`: the copy is the same path.
pub assume_specification[ <PathBuf as Clone>::clone ](path: &PathBuf) -> (r: PathBuf)
    ensures
        r == *path,
;

/// Calls `Path::file_name` and hands the segment back as a path of its
/// own. The result is the named final segment of `path`; nothing more is
/// claimed of it.
#[verifier::external_body]
pub(crate) fn file_name(path: &PathBuf) -> (r: Option<PathBuf>)
    ensures
        r == file_name_of(*path),
{
    match path.file_name() {
        Some(segment) => Some(PathBuf::from(segment)),
        None => None,
    }
}

/// Calls `Path::extension` and hands the extension back as a path of its
/// own. The result is the named extension of `path`; nothing more is
/// claimed of it.
#[verifier::external_body]
pub(crate) fn extension(path: &PathBuf) -> (r: Option<PathBuf>)
    ensures
        r == extension_of(*path),
{
    match path.extension() {
        Some(extension) => Some(PathBuf::from(extension)),
        None => None,
    }
}

/// Calls `Path::to_str`. The result is the named text of `path`; nothing
/// more is claimed of it.
#[verifier::external_body]
pub(crate) fn to_text(path: &PathBuf) -> (r: Option<String>)
    ensures
        match r {
            Some(text) => text_of(*path) == Some(text@),
            None => text_of(*path) is None,
        },
{
    match path.to_str() {
        Some(text) => Some(text.to_string()),
        None => None,
    }
}

/// Calls `OsStr::as_encoded_bytes` on `path` and copies the bytes. The
/// result is the named bytes of `path`; nothing more is claimed of it.
#[verifier::external_body]
pub(crate) fn encoded_bytes(path: &PathBuf) -> (r: Vec<u8>)
    ensures
        r@ == encoded_bytes_of(*path),
{
    path.as_os_str().as_encoded_bytes().to_vec()
}

} // verus!

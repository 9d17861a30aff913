//! Validation of paths, from what the filesystem answered about them.
//!
//! The library does not touch the filesystem. Its caller resolves a path and
//! hands over the answer as a [`PathLookup`]; the functions here decide what
//! the answer means.

use vstd::prelude::*;
use vstd::string::*;
use vstd::utf8::*;

verus! {

/// What a resolved path names.
#[derive(Clone, Copy, Debug, PartialEq, Eq, Structural)]
pub enum EntryKind {
    Directory,
    File,
    Other,
}

/// What the filesystem answered when a path was resolved to an absolute one.
#[derive(Debug)]
pub enum PathLookup {
    /// The path could not be resolved; `reason` is the system's message.
    Unresolved { reason: String },
    /// The path resolves to the absolute path with the bytes `raw`, which
    /// names an entry of this kind.
    Resolved { raw: Vec<u8>, kind: EntryKind },
}

/// Why a path was not accepted.
#[derive(Debug)]
pub enum PathError {
    /// The path could not be resolved; `reason` is the system's message.
    Unresolved { reason: String },
    /// The resolved path is not valid UTF-8.
    NotText,
    /// The resolved path does not name a directory.
    NotADirectory { path: String },
    /// The resolved path does not name a regular file.
    NotAFile { path: String },
    /// The directory could not be listed; `reason` is the system's message.
    Unlisted { reason: String },
}

impl PathError {
    /// What the error says.
    pub open spec fn spec_message(self) -> Seq<char> {
        match self {
            PathError::Unresolved { reason } => reason@,
            PathError::NotText => "Failed to convert path to string"@,
            PathError::NotADirectory { path } => path@ + " is not a directory"@,
            PathError::NotAFile { path } => path@ + " is not a file"@,
            PathError::Unlisted { reason } => reason@,
        }
    }

    /// What the error says, for a reader.
    pub fn message(&self) -> (text: String)
        ensures
            text@ == self.spec_message(),
    {
        match self {
            PathError::Unresolved { reason } => reason.clone(),
            PathError::NotText => "Failed to convert path to string".to_owned(),
            PathError::NotADirectory { path } => {
                let mut text = path.clone();
                text.append(" is not a directory");
                text
            },
            PathError::NotAFile { path } => {
                let mut text = path.clone();
                text.append(" is not a file");
                text
            },
            PathError::Unlisted { reason } => reason.clone(),
        }
    }
}

/// The text of a byte string, where it is valid UTF-8.
///
/// Not proved: rests on `core::str::from_utf8`, which accepts exactly the
/// well-formed UTF-8 byte strings and returns the string slice over the same
/// bytes.
#[verifier::external_body]
fn utf8_text(raw: &[u8]) -> (text: Option<&str>)
    ensures
        text is Some <==> valid_utf8(raw@),
        text matches Some(t) ==> t.spec_bytes() == raw@,
{
    core::str::from_utf8(raw).ok()
}

/// The path that `Path::with_extension` gives for the empty extension: the
/// path without the extension of its last component.
pub uninterp spec fn spec_without_extension(path: Seq<char>) -> Seq<char>;

/// The path without the extension of its last component.
///
/// Not proved: the result is that of `std::path::Path::with_extension` for
/// the empty extension, turned back into text; nothing more is claimed of it
/// than that it depends on the path alone.
#[verifier::external_body]
pub(crate) fn without_extension(path: &str) -> (stripped: String)
    ensures
        stripped@ == spec_without_extension(path@),
{
    std::path::Path::new(path).with_extension("").to_string_lossy().into_owned()
}

/// The text of a resolved path.
pub open spec fn spec_path_text(raw: Seq<u8>) -> Option<Seq<char>> {
    if valid_utf8(raw) {
        Some(decode_utf8(raw))
    } else {
        None
    }
}

/// The text of a resolved path; [`PathError::NotText`] where its bytes are
/// not valid UTF-8.
pub fn get_path_str(raw: &Vec<u8>) -> (text: Result<&str, PathError>)
    ensures
        text is Ok <==> spec_path_text(raw@) is Some,
        text matches Ok(t) ==> spec_path_text(raw@) == Some(t@),
        text matches Err(e) ==> e is NotText,
{
    match utf8_text(raw.as_slice()) {
        Some(t) => {
            proof {
                encode_utf8_decode_utf8(t@);
            }
            Ok(t)
        },
        None => Err(PathError::NotText),
    }
}

/// Whether a lookup shows a path of the wanted kind: the text of the
/// resolved path if so.
pub open spec fn spec_accepted(lookup: PathLookup, wanted: EntryKind) -> Option<Seq<char>> {
    match lookup {
        PathLookup::Unresolved { .. } => None,
        PathLookup::Resolved { raw, kind } => if kind == wanted {
            spec_path_text(raw@)
        } else {
            None
        },
    }
}

fn check_entry(lookup: &PathLookup, wanted: EntryKind) -> (checked: Result<String, PathError>)
    requires
        wanted != EntryKind::Other,
    ensures
        checked is Ok <==> spec_accepted(*lookup, wanted) is Some,
        checked matches Ok(path) ==> spec_accepted(*lookup, wanted) == Some(path@),
        checked matches Err(PathError::Unresolved { reason }) ==> lookup matches PathLookup::Unresolved {
            reason: given,
        } && reason@ == given@,
        checked matches Err(PathError::NotText) ==> lookup matches PathLookup::Resolved { raw, .. }
            && spec_path_text(raw@) is None,
        checked matches Err(PathError::NotADirectory { path }) ==> lookup matches PathLookup::Resolved {
            raw,
            kind,
        } && kind != wanted && spec_path_text(raw@) == Some(path@) && wanted
            == EntryKind::Directory,
        checked matches Err(PathError::NotAFile { path }) ==> lookup matches PathLookup::Resolved {
            raw,
            kind,
        } && kind != wanted && spec_path_text(raw@) == Some(path@) && wanted == EntryKind::File,
        !(checked matches Err(PathError::Unlisted { .. })),
{
    match lookup {
        PathLookup::Unresolved { reason } => Err(PathError::Unresolved { reason: reason.clone() }),
        PathLookup::Resolved { raw, kind } => {
            let text = match get_path_str(raw) {
                Ok(t) => t,
                Err(e) => {
                    return Err(e);
                },
            };
            let path = text.to_owned();
            let found = *kind;
            if found == wanted {
                Ok(path)
            } else if wanted == EntryKind::Directory {
                Err(PathError::NotADirectory { path })
            } else {
                Err(PathError::NotAFile { path })
            }
        },
    }
}

/// Accepts a path that resolves to a directory, and gives its absolute
/// form. The error says which of the three conditions failed: the path was
/// not resolved, its absolute form is not text, or it names no directory.
pub fn is_valid_directory(lookup: &PathLookup) -> (checked: Result<String, PathError>)
    ensures
        checked is Ok <==> spec_accepted(*lookup, EntryKind::Directory) is Some,
        checked matches Ok(path) ==> spec_accepted(*lookup, EntryKind::Directory) == Some(path@),
        checked matches Err(PathError::Unresolved { reason }) ==> lookup matches PathLookup::Unresolved {
            reason: given,
        } && reason@ == given@,
        checked matches Err(PathError::NotText) ==> lookup matches PathLookup::Resolved { raw, .. }
            && spec_path_text(raw@) is None,
        checked matches Err(PathError::NotADirectory { path }) ==> lookup matches PathLookup::Resolved {
            raw,
            kind,
        } && kind != EntryKind::Directory && spec_path_text(raw@) == Some(path@),
        !(checked matches Err(PathError::NotAFile { .. })),
        !(checked matches Err(PathError::Unlisted { .. })),
{
    check_entry(lookup, EntryKind::Directory)
}

/// Accepts a path that resolves to a regular file, and gives its absolute
/// form. The error says which of the three conditions failed: the path was
/// not resolved, its absolute form is not text, or it names no regular file.
pub fn is_valid_file(lookup: &PathLookup) -> (checked: Result<String, PathError>)
    ensures
        checked is Ok <==> spec_accepted(*lookup, EntryKind::File) is Some,
        checked matches Ok(path) ==> spec_accepted(*lookup, EntryKind::File) == Some(path@),
        checked matches Err(PathError::Unresolved { reason }) ==> lookup matches PathLookup::Unresolved {
            reason: given,
        } && reason@ == given@,
        checked matches Err(PathError::NotText) ==> lookup matches PathLookup::Resolved { raw, .. }
            && spec_path_text(raw@) is None,
        checked matches Err(PathError::NotAFile { path }) ==> lookup matches PathLookup::Resolved {
            raw,
            kind,
        } && kind != EntryKind::File && spec_path_text(raw@) == Some(path@),
        !(checked matches Err(PathError::NotADirectory { .. })),
        !(checked matches Err(PathError::Unlisted { .. })),
{
    check_entry(lookup, EntryKind::File)
}

} // verus!

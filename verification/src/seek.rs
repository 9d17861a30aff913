//! The documents of a source directory: those of its entries that are
//! regular files with the extension `pdf`.

use crate::paths::is_valid_directory;
use crate::paths::spec_accepted;
use crate::paths::EntryKind;
use crate::paths::PathError;
use crate::paths::PathLookup;
use vstd::prelude::*;
use vstd::string::*;

verus! {

/// One entry of a directory: its path, and whether it is a regular file.
#[derive(Debug)]
pub struct DirectoryEntry {
    pub path: String,
    pub is_file: bool,
}

/// What came of listing a directory.
#[derive(Debug)]
pub enum DirectoryListing {
    /// The directory, or one of its entries, could not be read; `reason` is
    /// the system's message.
    Unreadable { reason: String },
    /// The entries of the directory, in the order in which they were read.
    Entries { entries: Vec<DirectoryEntry> },
}

/// The extension that `Path::extension` finds in a path, if it finds one.
pub uninterp spec fn spec_path_extension(path: Seq<char>) -> Option<Seq<char>>;

/// The extension of the last component of a path, if it has one.
///
/// Not proved: the result is that of `std::path::Path::extension`, turned
/// into text; nothing more is claimed of it than that it depends on the path
/// alone.
#[verifier::external_body]
fn path_extension(path: &str) -> (extension: Option<String>)
    ensures
        extension is Some <==> spec_path_extension(path@) is Some,
        extension matches Some(text) ==> spec_path_extension(path@) == Some(text@),
{
    match std::path::Path::new(path).extension() {
        Some(extension) => Some(extension.to_string_lossy().into_owned()),
        None => None,
    }
}

/// The extension of documents.
pub open spec fn spec_document_extension() -> Seq<char> {
    seq!['p', 'd', 'f']
}

/// Whether an entry is a document: a regular file whose extension is `pdf`,
/// in lower case.
pub open spec fn spec_is_document(entry: DirectoryEntry) -> bool {
    entry.is_file && spec_path_extension(entry.path@) == Some(spec_document_extension())
}

/// The paths of the documents among the entries, in the entries' order.
pub open spec fn spec_documents(entries: Seq<DirectoryEntry>) -> Seq<Seq<char>>
    decreases entries.len(),
{
    if entries.len() == 0 {
        Seq::empty()
    } else if spec_is_document(entries.last()) {
        spec_documents(entries.drop_last()).push(entries.last().path@)
    } else {
        spec_documents(entries.drop_last())
    }
}

/// The views of a list of paths.
pub open spec fn spec_path_views(paths: Seq<String>) -> Seq<Seq<char>> {
    Seq::new(paths.len(), |k: int| paths[k]@)
}

/// Whether an entry is a document.
pub fn is_document(entry: &DirectoryEntry) -> (document: bool)
    ensures
        document == spec_is_document(*entry),
{
    if !entry.is_file {
        return false;
    }
    match path_extension(entry.path.as_str()) {
        Some(extension) => {
            let wanted = "pdf".to_owned();
            proof {
                reveal_strlit("pdf");
                assert(wanted@ =~= spec_document_extension());
            }
            extension == wanted
        },
        None => false,
    }
}

/// The paths of the documents among the entries, in the entries' order.
pub fn documents_among(entries: &Vec<DirectoryEntry>) -> (found: Vec<String>)
    ensures
        spec_path_views(found@) == spec_documents(entries@),
{
    let mut found: Vec<String> = Vec::new();
    let mut at: usize = 0;
    while at < entries.len()
        invariant
            at <= entries.len(),
            spec_path_views(found@) == spec_documents(entries@.take(at as int)),
        decreases entries.len() - at,
    {
        let entry = &entries[at];
        proof {
            let grown = entries@.take(at + 1);
            assert(grown.drop_last() =~= entries@.take(at as int));
        }
        if is_document(entry) {
            found.push(entry.path.clone());
        }
        at = at + 1;
    }
    assert(entries@.take(at as int) =~= entries@);
    found
}

/// The documents of a source directory. The directory's lookup is checked
/// first, as by [`is_valid_directory`]; then the listing has to have been
/// read; the documents are those of its entries that are regular files with
/// the extension `pdf`, in the entries' order.
pub fn seek_pdf_file(directory: &PathLookup, listing: &DirectoryListing) -> (found: Result<
    Vec<String>,
    PathError,
>)
    ensures
        found is Ok <==> spec_accepted(*directory, EntryKind::Directory) is Some
            && listing is Entries,
        found matches Ok(paths) ==> listing matches DirectoryListing::Entries { entries }
            && spec_path_views(paths@) == spec_documents(entries@),
        found matches Err(e) ==> (e is Unlisted <==> spec_accepted(
            *directory,
            EntryKind::Directory,
        ) is Some),
        found matches Err(PathError::Unlisted { reason }) ==> listing matches DirectoryListing::Unreadable {
            reason: given,
        } && reason@ == given@,
{
    match is_valid_directory(directory) {
        Err(e) => Err(e),
        Ok(_) => match listing {
            DirectoryListing::Unreadable { reason } => Err(
                PathError::Unlisted { reason: reason.clone() },
            ),
            DirectoryListing::Entries { entries } => Ok(documents_among(entries)),
        },
    }
}

} // verus!

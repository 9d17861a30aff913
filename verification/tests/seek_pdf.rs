use pdf_images::paths::EntryKind;
use pdf_images::paths::PathError;
use pdf_images::paths::PathLookup;
use pdf_images::seek::documents_among;
use pdf_images::seek::is_document;
use pdf_images::seek::seek_pdf_file;
use pdf_images::seek::DirectoryEntry;
use pdf_images::seek::DirectoryListing;

fn directory(path: &str) -> PathLookup {
    PathLookup::Resolved { raw: format!("/work/{}", path).into_bytes(), kind: EntryKind::Directory }
}

fn file(path: &str) -> DirectoryEntry {
    DirectoryEntry { path: path.to_string(), is_file: true }
}

fn listing(entries: Vec<DirectoryEntry>) -> DirectoryListing {
    DirectoryListing::Entries { entries }
}

#[test]
fn test_seek_pdf_file_empty_directory() {
    let pdf_files = seek_pdf_file(&directory("test_pdf/empty_dir"), &listing(Vec::new())).unwrap();
    assert_eq!(pdf_files.len(), 0);
}

#[test]
fn test_seek_pdf_file_with_pdf_files() {
    let full_path_pdf_file1 = "/work/test_pdf/dummy_pdf_files_dir/file1.pdf".to_string();
    let full_path_pdf_file2 = "/work/test_pdf/dummy_pdf_files_dir/file2.pdf".to_string();
    let full_path_pdf_file3 = "/work/test_pdf/dummy_pdf_files_dir/file3.pdf".to_string();
    let entries = vec![
        file("/work/test_pdf/dummy_pdf_files_dir/file2.pdf"),
        file("/work/test_pdf/dummy_pdf_files_dir/file1.pdf"),
        file("/work/test_pdf/dummy_pdf_files_dir/file3.pdf"),
    ];
    let pdf_files =
        seek_pdf_file(&directory("test_pdf/dummy_pdf_files_dir"), &listing(entries)).unwrap();
    assert_eq!(pdf_files.len(), 3);
    assert!(pdf_files.contains(&full_path_pdf_file1));
    assert!(pdf_files.contains(&full_path_pdf_file2));
    assert!(pdf_files.contains(&full_path_pdf_file3));
}

#[test]
fn test_seek_pdf_file_with_non_pdf_files() {
    let entries = vec![
        file("/work/test_pdf/dummy_notpdf_files_dir/file1.txt"),
        file("/work/test_pdf/dummy_notpdf_files_dir/file2.txt"),
        file("/work/test_pdf/dummy_notpdf_files_dir/file3.txt"),
    ];
    let pdf_files =
        seek_pdf_file(&directory("test_pdf/dummy_notpdf_files_dir"), &listing(entries)).unwrap();
    assert_eq!(pdf_files.len(), 0);
}

#[test]
fn documents_keep_the_order_of_the_entries() {
    let entries = vec![
        file("/d/b.pdf"),
        file("/d/notes.txt"),
        DirectoryEntry { path: "/d/folder.pdf".to_string(), is_file: false },
        file("/d/a.pdf"),
        file("/d/.pdf"),
        file("/d/c.PDF"),
        file("/d/archive.pdf.gz"),
        file("/d/pdf"),
        file("/d/two.dots..pdf"),
    ];
    let found = documents_among(&entries);
    assert_eq!(found, vec!["/d/b.pdf", "/d/a.pdf", "/d/two.dots..pdf"]);
}

#[test]
fn a_document_is_a_regular_file_with_the_extension() {
    assert!(is_document(&file("/d/a.pdf")));
    assert!(!is_document(&DirectoryEntry { path: "/d/a.pdf".to_string(), is_file: false }));
    assert!(is_document(&file("/d/a.pdf/")));
    assert!(!is_document(&file("/d/a.txt")));
    assert!(!is_document(&file("/d.pdf/a")));
    assert!(!is_document(&file("")));
}

#[test]
fn seeking_in_what_is_no_directory_fails() {
    let not_there = PathLookup::Unresolved { reason: "gone".to_string() };
    match seek_pdf_file(&not_there, &listing(vec![file("/d/a.pdf")])) {
        Err(PathError::Unresolved { reason }) => assert_eq!(reason, "gone"),
        other => panic!("unexpected: {:?}", other),
    }
    let a_file = PathLookup::Resolved { raw: b"/d/a.pdf".to_vec(), kind: EntryKind::File };
    assert!(matches!(
        seek_pdf_file(&a_file, &listing(Vec::new())),
        Err(PathError::NotADirectory { .. })
    ));
}

#[test]
fn seeking_in_a_directory_that_cannot_be_listed_fails() {
    let unread = DirectoryListing::Unreadable { reason: "Permission denied".to_string() };
    match seek_pdf_file(&directory("locked"), &unread) {
        Err(PathError::Unlisted { reason }) => assert_eq!(reason, "Permission denied"),
        other => panic!("unexpected: {:?}", other),
    }
}
